//! One subscriber's forwarding task: what it does with whatever its
//! subscription hands it.
//!
//! The task owns one connection and one subscription. It asks the subscription
//! for the next message, encodes it, writes the bytes in one operation, and
//! asks again. A subscription that fell behind says so instead of handing over
//! a message: the task then writes nothing and goes on, so a slow reader loses
//! history and neither stalls the publisher nor loses its connection. The task
//! ends when the channel is closed, a message cannot be encoded, or a write
//! fails. It shares nothing with the tasks of other subscribers.

use crate::codec::BroadcastMessage;
use crate::errors::BroadcastError;
use vstd::prelude::*;

verus! {

/// What a subscription hands over when asked for the next message.
#[derive(Debug)]
pub enum Delivery<T> {
    /// The next message in publishing order.
    Message(T),
    /// The subscriber fell behind by more than the channel holds: so many
    /// messages were discarded unseen, and the one coming next is the oldest
    /// still held.
    Lagged(u64),
    /// Every publisher handle is gone and nothing is left to read.
    Closed,
}

/// `tokio::sync::broadcast::error::RecvError`: why a subscription handed over
/// no message. Its two variants are read as they are declared.
#[verifier::external_type_specification]
pub struct ExRecvError(tokio::sync::broadcast::error::RecvError);

/// Why a subscription handed over no message.
pub type ReceiveError = tokio::sync::broadcast::error::RecvError;

/// What the forwarding task does about a delivery.
#[derive(Debug)]
pub enum Forward<T> {
    /// Encode this message, write it, then ask for the next.
    Send(T),
    /// Write nothing and ask for the next.
    Skip,
    /// Release the connection and the subscription.
    Stop,
}

/// The forwarding policy.
pub open spec fn policy<T>(delivery: Delivery<T>) -> Forward<T> {
    match delivery {
        Delivery::Message(message) => Forward::Send(message),
        Delivery::Lagged(_) => Forward::Skip,
        Delivery::Closed => Forward::Stop,
    }
}

/// Reads what a subscription's `recv` returned as a delivery.
pub fn delivery_of<T>(received: Result<T, ReceiveError>) -> (delivery: Delivery<T>)
    ensures
        delivery == match received {
            Ok(message) => Delivery::Message(message),
            Err(ReceiveError::Lagged(missed)) => Delivery::Lagged(missed),
            Err(ReceiveError::Closed) => Delivery::Closed,
        },
{
    match received {
        Ok(message) => Delivery::Message(message),
        Err(ReceiveError::Lagged(missed)) => Delivery::Lagged(missed),
        Err(ReceiveError::Closed) => Delivery::Closed,
    }
}

/// Decides what to do about a delivery.
pub fn decide<T>(delivery: Delivery<T>) -> (action: Forward<T>)
    ensures
        action == policy(delivery),
{
    match delivery {
        Delivery::Message(message) => Forward::Send(message),
        Delivery::Lagged(_) => Forward::Skip,
        Delivery::Closed => Forward::Stop,
    }
}

/// Turns what the codec returned into the bytes to write, or into the
/// failure that ends the task.
pub fn frame_from(encoded: Result<Vec<u8>, bincode::error::EncodeError>) -> (frame: Result<
    Vec<u8>,
    BroadcastError,
>)
    ensures
        frame == match encoded {
            Ok(bytes) => Ok::<Vec<u8>, BroadcastError>(bytes),
            Err(cause) => Err(BroadcastError::Bincode(cause)),
        },
{
    match encoded {
        Ok(bytes) => Ok(bytes),
        Err(cause) => Err(BroadcastError::Bincode(cause)),
    }
}

/// Encodes one message for one write. Whatever the message type's `encode`
/// does, the only failure is an encode error; and where the type says what
/// its bytes are, the frame holds exactly those, or the task ends where the
/// message has none.
pub fn frame<T: BroadcastMessage>(message: &T) -> (frame: Result<Vec<u8>, BroadcastError>)
    ensures
        frame matches Err(e) ==> e is Bincode,
        T::obeys_wire_spec() ==> match message.wire() {
            Some(bytes) => frame matches Ok(written) && written@ == bytes,
            None => frame is Err,
        },
{
    frame_from(message.encode())
}

/// Judges a write: the task goes on after a write that succeeded, and ends
/// with a transport error after one that failed.
pub fn after_write(written: Result<(), std::io::Error>) -> (verdict: Result<(), BroadcastError>)
    ensures
        verdict == match written {
            Ok(_) => Ok::<(), BroadcastError>(()),
            Err(cause) => Err(BroadcastError::Io(cause)),
        },
{
    match written {
        Ok(_) => Ok(()),
        Err(cause) => Err(BroadcastError::Io(cause)),
    }
}

/// The messages that a task passes on, in order, when its subscription hands
/// it `deliveries` one after the other and no encoding or write fails.
pub open spec fn forwarded<T>(deliveries: Seq<Delivery<T>>) -> Seq<T>
    decreases deliveries.len(),
{
    if deliveries.len() == 0 {
        Seq::empty()
    } else {
        let rest = deliveries.subrange(1, deliveries.len() as int);
        match policy(deliveries[0]) {
            Forward::Send(message) => seq![message] + forwarded(rest),
            Forward::Skip => forwarded(rest),
            Forward::Stop => Seq::empty(),
        }
    }
}

/// The frames that a task writes, in order, for the messages it passes on:
/// the bytes of each, up to the first that cannot be encoded.
pub open spec fn written<T: BroadcastMessage>(messages: Seq<T>) -> Seq<Seq<u8>>
    decreases messages.len(),
{
    if messages.len() == 0 {
        Seq::empty()
    } else {
        match messages[0].wire() {
            Some(bytes) => seq![bytes] + written(messages.subrange(1, messages.len() as int)),
            None => Seq::empty(),
        }
    }
}

/// Whether every message of `messages` can be encoded.
pub open spec fn all_encodable<T: BroadcastMessage>(messages: Seq<T>) -> bool {
    forall|i: int| 0 <= i < messages.len() ==> (#[trigger] messages[i]).wire() is Some
}

/// How a forwarding task ends.
pub enum TaskEnding {
    /// The channel is closed and holds nothing more.
    ChannelClosed,
    /// A message could not be encoded.
    Unencodable,
    /// A write failed, with this cause.
    WriteFailed(std::io::Error),
}

/// `n` writes that all succeed.
pub open spec fn all_succeed(n: nat) -> Seq<Result<(), std::io::Error>> {
    Seq::new(n, |i: int| Ok(()))
}

/// A forwarding task from its first delivery on, for a message type that
/// says what its bytes are: the frames that it wrote, in order, and how it
/// ended, when its subscription hands it `deliveries` one after the other
/// and its writes go as `writes` say. Each step is the one that `decide`,
/// `frame` and `after_write` take. It has not ended, `None`, where the
/// deliveries or the writes run out first: it then waits for the next.
pub open spec fn task_of<T: BroadcastMessage>(
    deliveries: Seq<Delivery<T>>,
    writes: Seq<Result<(), std::io::Error>>,
) -> (Seq<Seq<u8>>, Option<TaskEnding>)
    decreases deliveries.len(),
{
    if deliveries.len() == 0 {
        (Seq::empty(), None)
    } else {
        let later = deliveries.subrange(1, deliveries.len() as int);
        match policy(deliveries[0]) {
            Forward::Stop => (Seq::empty(), Some(TaskEnding::ChannelClosed)),
            Forward::Skip => task_of(later, writes),
            Forward::Send(message) => match message.wire() {
                None => (Seq::empty(), Some(TaskEnding::Unencodable)),
                Some(bytes) => if writes.len() == 0 {
                    (Seq::empty(), None)
                } else {
                    match writes[0] {
                        Err(cause) => (Seq::empty(), Some(TaskEnding::WriteFailed(cause))),
                        Ok(_) => {
                            let rest = task_of(later, writes.subrange(1, writes.len() as int));
                            (seq![bytes] + rest.0, rest.1)
                        },
                    }
                },
            },
        }
    }
}

/// The deliveries that are messages, one after the other.
pub open spec fn all_messages<T>(messages: Seq<T>) -> Seq<Delivery<T>> {
    Seq::new(messages.len(), |i: int| Delivery::Message(messages[i]))
}

/// Whether no delivery of `deliveries` is the end of the channel.
pub open spec fn none_closed<T>(deliveries: Seq<Delivery<T>>) -> bool {
    forall|i: int| 0 <= i < deliveries.len() ==> !(#[trigger] deliveries[i] is Closed)
}

/// Forwarding a run of deliveries that does not hold the end of the channel,
/// and then a second run, is forwarding the first and then the second.
pub proof fn lemma_forwarded_concat<T>(first: Seq<Delivery<T>>, second: Seq<Delivery<T>>)
    requires
        none_closed(first),
    ensures
        forwarded(first + second) == forwarded(first) + forwarded(second),
    decreases first.len(),
{
    let all = first + second;
    if first.len() == 0 {
        assert(all =~= second);
        assert(forwarded(first) + forwarded(second) =~= forwarded(second));
    } else {
        let first_rest = first.subrange(1, first.len() as int);
        assert(all.subrange(1, all.len() as int) =~= first_rest + second);
        assert(all[0] == first[0]);
        assert forall|i: int| 0 <= i < first_rest.len() implies !(#[trigger] first_rest[i]
            is Closed) by {
            assert(first_rest[i] == first[i + 1]);
        }
        lemma_forwarded_concat(first_rest, second);
        match policy(first[0]) {
            Forward::Send(message) => {
                assert(seq![message] + (forwarded(first_rest) + forwarded(second)) =~= (seq![
                    message,
                ] + forwarded(first_rest)) + forwarded(second));
            },
            Forward::Skip => {},
            Forward::Stop => {},
        }
    }
}

/// Order is kept: while the subscription never falls behind, what is passed
/// on is exactly what was delivered, each message once, in the order of
/// delivery.
pub proof fn law_forwards_in_order<T>(messages: Seq<T>)
    ensures
        forwarded(all_messages(messages)) == messages,
    decreases messages.len(),
{
    let deliveries = all_messages(messages);
    if messages.len() > 0 {
        let rest = messages.subrange(1, messages.len() as int);
        assert(deliveries.subrange(1, deliveries.len() as int) =~= all_messages(rest));
        law_forwards_in_order(rest);
        assert(seq![messages[0]] + rest =~= messages);
    } else {
        assert(forwarded(deliveries) =~= messages);
    }
}

/// Falling behind costs history and nothing else: a lag signal between two
/// runs of deliveries passes nothing on, ends nothing, and leaves what is
/// passed on before and after it as it was, in the same order.
pub proof fn law_lag_is_skipped<T>(
    before: Seq<Delivery<T>>,
    missed: u64,
    after: Seq<Delivery<T>>,
)
    requires
        none_closed(before),
    ensures
        forwarded(before + seq![Delivery::Lagged(missed)] + after) == forwarded(before)
            + forwarded(after),
{
    let lag = seq![Delivery::<T>::Lagged(missed)];
    assert(before + lag + after =~= before + (lag + after));
    lemma_forwarded_concat(before, lag + after);
    assert((lag + after).subrange(1, (lag + after).len() as int) =~= after);
}

/// Nothing is replayed or made up: every message passed on was handed over
/// by the task's own subscription, and two messages passed on were handed
/// over in that order.
pub proof fn law_forwards_only_deliveries<T>(deliveries: Seq<Delivery<T>>, i: int, j: int)
    requires
        0 <= i <= j < forwarded(deliveries).len(),
    ensures
        exists|a: int, b: int|
            0 <= a <= b < deliveries.len() && (i < j ==> a < b) && #[trigger] deliveries[a]
                == Delivery::Message(forwarded(deliveries)[i]) && #[trigger] deliveries[b]
                == Delivery::Message(forwarded(deliveries)[j]),
    decreases deliveries.len(),
{
    let rest = deliveries.subrange(1, deliveries.len() as int);
    match policy(deliveries[0]) {
        Forward::Send(message) => {
            if i == 0 && j == 0 {
                assert(deliveries[0] == Delivery::Message(forwarded(deliveries)[0]));
            } else if i == 0 {
                law_forwards_only_deliveries(rest, j - 1, j - 1);
                let (a, b) = choose|a: int, b: int|
                    0 <= a <= b < rest.len() && #[trigger] rest[a] == Delivery::Message(
                        forwarded(rest)[j - 1],
                    ) && #[trigger] rest[b] == Delivery::Message(forwarded(rest)[j - 1]);
                assert(deliveries[b + 1] == rest[b]);
                assert(deliveries[0] == Delivery::Message(forwarded(deliveries)[i]));
                assert(deliveries[b + 1] == Delivery::Message(forwarded(deliveries)[j]));
            } else {
                law_forwards_only_deliveries(rest, i - 1, j - 1);
                let (a, b) = choose|a: int, b: int|
                    0 <= a <= b < rest.len() && (i - 1 < j - 1 ==> a < b) && #[trigger] rest[a]
                        == Delivery::Message(forwarded(rest)[i - 1]) && #[trigger] rest[b]
                        == Delivery::Message(forwarded(rest)[j - 1]);
                assert(deliveries[a + 1] == rest[a]);
                assert(deliveries[b + 1] == rest[b]);
                assert(deliveries[a + 1] == Delivery::Message(forwarded(deliveries)[i]));
                assert(deliveries[b + 1] == Delivery::Message(forwarded(deliveries)[j]));
            }
        },
        Forward::Skip => {
            law_forwards_only_deliveries(rest, i, j);
            let (a, b) = choose|a: int, b: int|
                0 <= a <= b < rest.len() && (i < j ==> a < b) && #[trigger] rest[a]
                    == Delivery::Message(forwarded(rest)[i]) && #[trigger] rest[b]
                    == Delivery::Message(forwarded(rest)[j]);
            assert(deliveries[a + 1] == rest[a]);
            assert(deliveries[b + 1] == rest[b]);
            assert(deliveries[a + 1] == Delivery::Message(forwarded(deliveries)[i]));
            assert(deliveries[b + 1] == Delivery::Message(forwarded(deliveries)[j]));
        },
        Forward::Stop => {},
    }
}

/// One write for each message, in publishing order: a task whose
/// subscription never falls behind and whose writes all succeed writes the
/// bytes of each message delivered, each once, in the order of delivery, and
/// goes on waiting for the next.
pub proof fn law_task_writes_each_message_in_order<T: BroadcastMessage>(messages: Seq<T>)
    requires
        all_encodable(messages),
    ensures
        task_of(all_messages(messages), all_succeed(messages.len())) == (written(messages), None::<TaskEnding>),
        written(messages).len() == messages.len(),
        forall|i: int|
            0 <= i < messages.len() ==> messages[i].wire() == Some(#[trigger] written(messages)[i]),
    decreases messages.len(),
{
    let deliveries = all_messages(messages);
    let writes = all_succeed(messages.len());
    if messages.len() == 0 {
        assert(task_of(deliveries, writes).0 =~= written(messages));
    } else {
        let rest = messages.subrange(1, messages.len() as int);
        assert(messages[0].wire() is Some);
        assert forall|i: int| 0 <= i < rest.len() implies (#[trigger] rest[i]).wire() is Some by {
            assert(rest[i] == messages[i + 1]);
        }
        law_task_writes_each_message_in_order(rest);
        assert(deliveries.subrange(1, deliveries.len() as int) =~= all_messages(rest));
        assert(writes.subrange(1, writes.len() as int) =~= all_succeed(rest.len()));
        assert forall|i: int| 0 <= i < messages.len() implies messages[i].wire() == Some(
            #[trigger] written(messages)[i],
        ) by {
            if i > 0 {
                assert(written(messages)[i] == written(rest)[i - 1]);
                assert(messages[i] == rest[i - 1]);
            }
        }
    }
}

/// Falling behind neither ends a task nor changes what it writes of the
/// rest: a lag signal anywhere among the deliveries leaves the frames
/// written, and the way the task ends, as they are without it.
pub proof fn law_task_survives_lag<T: BroadcastMessage>(
    before: Seq<Delivery<T>>,
    missed: u64,
    after: Seq<Delivery<T>>,
    writes: Seq<Result<(), std::io::Error>>,
)
    ensures
        task_of(before + seq![Delivery::Lagged(missed)] + after, writes) == task_of(
            before + after,
            writes,
        ),
    decreases before.len(),
{
    let lag = seq![Delivery::<T>::Lagged(missed)];
    let with_lag = before + lag + after;
    let without = before + after;
    if before.len() == 0 {
        assert(with_lag.subrange(1, with_lag.len() as int) =~= after);
        assert(without =~= after);
        assert(with_lag[0] == Delivery::<T>::Lagged(missed));
    } else {
        let earlier = before.subrange(1, before.len() as int);
        assert(with_lag.subrange(1, with_lag.len() as int) =~= earlier + lag + after);
        assert(without.subrange(1, without.len() as int) =~= earlier + after);
        assert(with_lag[0] == before[0]);
        assert(without[0] == before[0]);
        law_task_survives_lag(earlier, missed, after, writes);
        if writes.len() > 0 {
            law_task_survives_lag(earlier, missed, after, writes.subrange(1, writes.len() as int));
        }
    }
}

/// A task writes nothing but what it passes on: the frames written are the
/// first of the frames of the messages that its own subscription delivered,
/// in that order. Nothing from before the subscription, and nothing of
/// another subscriber's, is ever written.
pub proof fn law_task_writes_only_what_it_passes_on<T: BroadcastMessage>(
    deliveries: Seq<Delivery<T>>,
    writes: Seq<Result<(), std::io::Error>>,
)
    ensures
        task_of(deliveries, writes).0.is_prefix_of(written(forwarded(deliveries))),
    decreases deliveries.len(),
{
    if deliveries.len() > 0 {
        let later = deliveries.subrange(1, deliveries.len() as int);
        match policy(deliveries[0]) {
            Forward::Stop => {},
            Forward::Skip => {
                law_task_writes_only_what_it_passes_on(later, writes);
            },
            Forward::Send(message) => {
                if message.wire() is Some && writes.len() > 0 && writes[0] is Ok {
                    let fewer = writes.subrange(1, writes.len() as int);
                    law_task_writes_only_what_it_passes_on(later, fewer);
                    let passed = forwarded(deliveries);
                    assert(passed.subrange(1, passed.len() as int) =~= forwarded(later));
                    let bytes = message.wire().unwrap();
                    let mine = task_of(deliveries, writes).0;
                    let all = written(passed);
                    assert(all =~= seq![bytes] + written(forwarded(later)));
                    assert(mine =~= seq![bytes] + task_of(later, fewer).0);
                    assert forall|i: int| 0 <= i < mine.len() implies mine[i] == all[i] by {
                        if i > 0 {
                            assert(mine[i] == task_of(later, fewer).0[i - 1]);
                            assert(all[i] == written(forwarded(later))[i - 1]);
                        }
                    }
                }
            },
        }
    }
}

/// A connection that breaks ends its own task and no other: a task whose
/// first write fails ends there with the cause, having written nothing; a
/// task with the same deliveries whose writes succeed writes them all.
pub proof fn law_failed_write_ends_one_task<T: BroadcastMessage>(
    messages: Seq<T>,
    cause: std::io::Error,
)
    requires
        messages.len() > 0,
        all_encodable(messages),
    ensures
        task_of(all_messages(messages), seq![Err::<(), std::io::Error>(cause)]) == (
            Seq::<Seq<u8>>::empty(),
            Some(TaskEnding::WriteFailed(cause)),
        ),
        task_of(all_messages(messages), all_succeed(messages.len())) == (written(messages), None::<TaskEnding>),
{
    law_task_writes_each_message_in_order(messages);
    assert(messages[0].wire() is Some);
}

} // verus!
