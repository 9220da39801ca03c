//! The subscribing side: what a client does with whatever a read returns.
//!
//! A client owns one connection. It reads into a buffer of fixed size, takes
//! the bytes of one read for one message, hands the message to the caller's
//! handler, and reads again only once the handler is done: one message is
//! with the application at a time, and a slow handler slows this client and
//! no other. The loop ends in one of three ways: the peer closed the
//! connection, which is no failure; a read, a decoding or the handler failed,
//! which is returned; and it never connects again by itself.

use crate::codec::law_u64_messages_round_trip;
use crate::codec::lemma_le_bytes_len;
use crate::codec::wire_u64;
use crate::codec::never_empty;
use crate::codec::round_trips;
use crate::codec::BroadcastMessage;
use crate::errors::BroadcastError;
use crate::forward::all_encodable;
use crate::forward::forwarded;
use crate::forward::written;
use crate::forward::Delivery;
use vstd::prelude::*;

verus! {

/// The size of the buffer that a client reads into. A message whose bytes do
/// not fit in it cannot arrive whole.
pub const READ_BUFFER_SIZE: usize = 10240;

/// A client that has not connected yet: the endpoint path, and the message
/// type that both ends agreed on.
pub struct BroadcastClient<T: BroadcastMessage> {
    socket_path: String,
    _phantom: std::marker::PhantomData<T>,
}

/// What the loop does after a read.
#[derive(Debug)]
pub enum Received<T> {
    /// Hand this message to the handler and wait for it.
    Dispatch(T),
    /// Leave the loop: `run` returns this.
    Finish(Result<(), BroadcastError>),
}

/// What the loop does after connecting, and after the handler.
#[derive(Debug)]
pub enum Next {
    /// Read from the connection.
    Read,
    /// Leave the loop: `run` returns this.
    Finish(Result<(), BroadcastError>),
}

/// What a decoding means for the loop: a message goes to the handler, a
/// failure ends the loop. Nothing is skipped and nothing is tried again.
pub open spec fn decode_policy<T>(decoded: Result<T, bincode::error::DecodeError>) -> Received<T> {
    match decoded {
        Ok(message) => Received::Dispatch(message),
        Err(cause) => Received::Finish(Err(BroadcastError::Decode(cause))),
    }
}

/// What a read means for the loop, where decoding the bytes read gives
/// `decoded`: a failed read ends the loop with its cause, a read of no bytes
/// ends it without failure, and any other read is decoded.
pub open spec fn read_policy<T>(
    read: Result<&[u8], std::io::Error>,
    decoded: Result<T, bincode::error::DecodeError>,
) -> Received<T> {
    match read {
        Err(cause) => Received::Finish(Err(BroadcastError::Io(cause))),
        Ok(chunk) => if chunk@.len() == 0 {
            Received::Finish(Ok(()))
        } else {
            decode_policy(decoded)
        },
    }
}

/// How a run of the loop ends.
pub enum Ending {
    /// The peer closed the connection: `run` returns `Ok`.
    PeerClosed,
    /// The connection could not be made, or a read failed: `run` returns
    /// the transport error with this cause.
    Transport(std::io::Error),
    /// The bytes of a read were no message: `run` returns a decode error.
    Undecodable,
    /// The handler failed: `run` returns the handler's own failure.
    Handler(BroadcastError),
}

/// Whether `outcome` is what `run` returns where the loop ends with `ending`.
pub open spec fn ends_with(ending: Ending, outcome: Result<(), BroadcastError>) -> bool {
    match ending {
        Ending::PeerClosed => outcome == Ok::<(), BroadcastError>(()),
        Ending::Transport(cause) => outcome == Err::<(), BroadcastError>(BroadcastError::Io(cause)),
        Ending::Undecodable => outcome matches Err(e) && e is Decode,
        Ending::Handler(failure) => outcome == Err::<(), BroadcastError>(failure),
    }
}

/// What a read means for a message type that says what its bytes are.
pub enum Meaning<T> {
    /// This message goes to the handler.
    Message(T),
    /// The loop ends.
    End(Ending),
}

/// What a read means: the end after a failed read, after a read of no bytes
/// and after bytes that are no message; else the message that the bytes
/// begin with.
pub open spec fn meaning<T: BroadcastMessage>(read: Result<Seq<u8>, std::io::Error>) -> Meaning<T> {
    match read {
        Err(cause) => Meaning::End(Ending::Transport(cause)),
        Ok(chunk) => if chunk.len() == 0 {
            Meaning::End(Ending::PeerClosed)
        } else {
            match T::parse(chunk) {
                Some(message) => Meaning::Message(message),
                None => Meaning::End(Ending::Undecodable),
            }
        },
    }
}

/// A read as the bytes it brought.
pub open spec fn seen(read: Result<&[u8], std::io::Error>) -> Result<Seq<u8>, std::io::Error> {
    match read {
        Ok(chunk) => Ok(chunk@),
        Err(cause) => Err(cause),
    }
}

/// Whether the step taken after a read is the one that the read means.
pub open spec fn agrees<T>(step: Received<T>, meant: Meaning<T>) -> bool {
    match meant {
        Meaning::Message(message) => step == Received::Dispatch(message),
        Meaning::End(ending) => step matches Received::Finish(outcome) && ends_with(
            ending,
            outcome,
        ),
    }
}

impl<T: BroadcastMessage> BroadcastClient<T> {
    /// The endpoint path, as characters.
    pub closed spec fn address(&self) -> Seq<char> {
        self.socket_path@
    }

    /// A client for the endpoint at `socket_path`. Connects to nothing yet.
    pub fn new(socket_path: &str) -> (client: Self)
        ensures
            client.address() == socket_path@,
    {
        BroadcastClient { socket_path: socket_path.to_owned(), _phantom: std::marker::PhantomData }
    }

    /// The endpoint path.
    pub fn socket_path(&self) -> (path: &str)
        ensures
            path@ == self.address(),
    {
        self.socket_path.as_str()
    }

    /// Judges the one attempt to connect: the loop starts where it
    /// succeeded, and `run` fails at once with a transport error where it did
    /// not.
    pub fn after_connect(&self, attempt: Result<(), std::io::Error>) -> (next: Next)
        ensures
            next == match attempt {
                Ok(_) => Next::Read,
                Err(cause) => Next::Finish(Err(BroadcastError::Io(cause))),
            },
    {
        match attempt {
            Ok(_) => Next::Read,
            Err(cause) => Next::Finish(Err(BroadcastError::Io(cause))),
        }
    }

    /// Judges what the codec made of the bytes of one read.
    pub fn after_decode(&self, decoded: Result<T, bincode::error::DecodeError>) -> (step: Received<
        T,
    >)
        ensures
            step == decode_policy(decoded),
    {
        match decoded {
            Ok(message) => Received::Dispatch(message),
            Err(cause) => Received::Finish(Err(BroadcastError::Decode(cause))),
        }
    }

    /// Judges one read: `Ok` with the bytes that were read, or the failure.
    /// The bytes of a read that brought any are decoded as one message.
    /// Whatever the message type's `decode` makes of them, the step is the one
    /// that `read_policy` gives for it; and where the type says what its bytes
    /// are, the step is the one that the read means: the message is the one
    /// that `parse` finds, and the loop ends with a decode error where it
    /// finds none. The loop ends without failure on a read of no bytes and
    /// on nothing else.
    pub fn after_read(&self, read: Result<&[u8], std::io::Error>) -> (step: Received<T>)
        ensures
            exists|decoded: Result<T, bincode::error::DecodeError>| step == read_policy(read, decoded),
            T::obeys_wire_spec() ==> agrees(step, meaning::<T>(seen(read))),
            read matches Err(cause) ==> step == Received::<T>::Finish(
                Err(BroadcastError::Io(cause)),
            ),
            read matches Ok(chunk) ==> chunk@.len() == 0 ==> step == Received::<T>::Finish(Ok(())),
            read matches Ok(chunk) ==> chunk@.len() > 0 ==> step is Dispatch || (step matches Received::Finish(
                Err(e),
            ) && e is Decode),
            step == Received::<T>::Finish(Ok(())) <==> (read matches Ok(chunk) && chunk@.len() == 0),
    {
        match read {
            Err(cause) => {
                let step = Received::Finish(Err(BroadcastError::Io(cause)));
                assert(step == read_policy::<T>(read, arbitrary()));
                step
            },
            Ok(chunk) => {
                if chunk.len() == 0 {
                    let step = Received::Finish(Ok(()));
                    assert(step == read_policy::<T>(read, arbitrary()));
                    step
                } else {
                    let decoded = T::decode(chunk);
                    let step = self.after_decode(decoded);
                    assert(step == read_policy(read, decoded));
                    step
                }
            },
        }
    }

    /// Judges what the handler returned: the loop reads on after a handler
    /// that succeeded, and ends with the handler's own failure otherwise.
    pub fn after_handler(&self, handled: Result<(), BroadcastError>) -> (next: Next)
        ensures
            next == match handled {
                Ok(_) => Next::Read,
                Err(failure) => Next::Finish(Err(failure)),
            },
    {
        match handled {
            Ok(_) => Next::Read,
            Err(failure) => Next::Finish(Err(failure)),
        }
    }
}

/// What the reads return for `frame` where the transport hands over each
/// write as one unit: a frame that fits the read buffer arrives whole, and a
/// longer one arrives cut into pieces of the buffer's size.
pub open spec fn pieces(frame: Seq<u8>) -> Seq<Seq<u8>>
    decreases frame.len(),
{
    if frame.len() <= READ_BUFFER_SIZE {
        seq![frame]
    } else {
        seq![frame.take(READ_BUFFER_SIZE as int)] + pieces(frame.skip(READ_BUFFER_SIZE as int))
    }
}

/// What the reads return, in order, for the frames written.
pub open spec fn arrivals(frames: Seq<Seq<u8>>) -> Seq<Seq<u8>>
    decreases frames.len(),
{
    if frames.len() == 0 {
        Seq::empty()
    } else {
        pieces(frames[0]) + arrivals(frames.subrange(1, frames.len() as int))
    }
}

/// Whether every frame fits the read buffer.
pub open spec fn all_fit(frames: Seq<Seq<u8>>) -> bool {
    forall|i: int| 0 <= i < frames.len() ==> (#[trigger] frames[i]).len() <= READ_BUFFER_SIZE
}

/// Frames that fit the read buffer arrive as they were written.
pub proof fn lemma_fitting_frames_arrive_whole(frames: Seq<Seq<u8>>)
    requires
        all_fit(frames),
    ensures
        arrivals(frames) == frames,
    decreases frames.len(),
{
    if frames.len() == 0 {
        assert(arrivals(frames) =~= frames);
    } else {
        let rest = frames.subrange(1, frames.len() as int);
        assert(frames[0].len() <= READ_BUFFER_SIZE);
        assert forall|i: int| 0 <= i < rest.len() implies (#[trigger] rest[i]).len()
            <= READ_BUFFER_SIZE by {
            assert(rest[i] == frames[i + 1]);
        }
        lemma_fitting_frames_arrive_whole(rest);
        assert(seq![frames[0]] + rest =~= frames);
    }
}

/// The messages that reach the handler, in order, when the reads return
/// `chunks` one after the other, none fails, and the handler never fails:
/// one message for each read, up to the first read of no bytes or of bytes
/// that are no message.
pub open spec fn dispatched<T: BroadcastMessage>(chunks: Seq<Seq<u8>>) -> Seq<T>
    decreases chunks.len(),
{
    if chunks.len() == 0 {
        Seq::empty()
    } else {
        match meaning::<T>(Ok(chunks[0])) {
            Meaning::Message(message) => seq![message] + dispatched(
                chunks.subrange(1, chunks.len() as int),
            ),
            Meaning::End(_) => Seq::empty(),
        }
    }
}

/// Where the message type round-trips and every frame fits the read buffer,
/// so that each write arrives as one read, the handler gets the messages that
/// were written, each once, in the order they were written.
pub proof fn law_reads_keep_order<T: BroadcastMessage>(messages: Seq<T>)
    requires
        round_trips::<T>(),
        never_empty::<T>(),
        all_encodable(messages),
        all_fit(written(messages)),
    ensures
        dispatched::<T>(arrivals(written(messages))) == messages,
{
    lemma_fitting_frames_arrive_whole(written(messages));
    lemma_written_frames_are_read_back(messages);
}

/// Reading the frames of `messages` as they were written gives `messages`.
pub proof fn lemma_written_frames_are_read_back<T: BroadcastMessage>(messages: Seq<T>)
    requires
        round_trips::<T>(),
        never_empty::<T>(),
        all_encodable(messages),
    ensures
        dispatched::<T>(written(messages)) == messages,
        written(messages).len() == messages.len(),
    decreases messages.len(),
{
    let chunks = written(messages);
    if messages.len() == 0 {
        assert(dispatched::<T>(chunks) =~= messages);
    } else {
        let rest = messages.subrange(1, messages.len() as int);
        let first = messages[0];
        assert(first.wire() is Some);
        assert forall|i: int| 0 <= i < rest.len() implies (#[trigger] rest[i]).wire() is Some by {
            assert(rest[i] == messages[i + 1]);
        }
        assert(chunks.subrange(1, chunks.len() as int) =~= written(rest));
        lemma_written_frames_are_read_back(rest);
        assert(seq![first] + rest =~= messages);
    }
}

/// From subscription to handler: where the message type round-trips and
/// every frame fits the read buffer, a subscriber's handler gets exactly the
/// messages that its subscription delivered up to the channel's end, in the
/// order of delivery. Where the subscription fell behind, the messages
/// discarded then are missing and nothing else is.
pub proof fn law_subscriber_sees_deliveries_in_order<T: BroadcastMessage>(
    deliveries: Seq<Delivery<T>>,
)
    requires
        round_trips::<T>(),
        never_empty::<T>(),
        all_encodable(forwarded(deliveries)),
        all_fit(written(forwarded(deliveries))),
    ensures
        dispatched::<T>(arrivals(written(forwarded(deliveries)))) == forwarded(deliveries),
{
    law_reads_keep_order(forwarded(deliveries));
}

/// The frame of an integer is at most nine bytes, so every frame of integers
/// fits the read buffer.
pub proof fn lemma_u64_frames_fit(messages: Seq<u64>)
    ensures
        all_encodable(messages),
        all_fit(written(messages)),
    decreases messages.len(),
{
    if messages.len() > 0 {
        let rest = messages.subrange(1, messages.len() as int);
        lemma_u64_frames_fit(rest);
        lemma_le_bytes_len(messages[0] as nat, 2);
        lemma_le_bytes_len(messages[0] as nat, 4);
        lemma_le_bytes_len(messages[0] as nat, 8);
        let frames = written(messages);
        assert(frames =~= seq![wire_u64(messages[0])] + written(rest));
        assert forall|i: int| 0 <= i < frames.len() implies (#[trigger] frames[i]).len()
            <= READ_BUFFER_SIZE by {
            if i > 0 {
                assert(frames[i] == written(rest)[i - 1]);
            }
        }
    }
}

/// With integer messages, a subscriber's handler gets exactly what its
/// subscription delivered, in order, whatever the integers are.
pub proof fn law_u64_subscriber_sees_deliveries_in_order(deliveries: Seq<Delivery<u64>>)
    ensures
        dispatched::<u64>(arrivals(written(forwarded(deliveries)))) == forwarded(deliveries),
{
    law_u64_messages_round_trip();
    lemma_u64_frames_fit(forwarded(deliveries));
    law_subscriber_sees_deliveries_in_order(deliveries);
}

/// The loop of a client from its first read on, for a message type that
/// says what its bytes are: the messages handed to the handler, in order, and
/// how the loop ended, when the reads go as `reads` say and the handler
/// returns `verdicts` one after the other. Each step is the one that
/// `after_read` and `after_handler` take: a message is read only once the
/// handler is done with the one before. The loop has not ended, `None`, where
/// the reads or the verdicts run out first.
pub open spec fn loop_of<T: BroadcastMessage>(
    reads: Seq<Result<Seq<u8>, std::io::Error>>,
    verdicts: Seq<Result<(), BroadcastError>>,
) -> (Seq<T>, Option<Ending>)
    decreases reads.len(),
{
    if reads.len() == 0 {
        (Seq::empty(), None)
    } else {
        match meaning::<T>(reads[0]) {
            Meaning::End(ending) => (Seq::empty(), Some(ending)),
            Meaning::Message(message) => if verdicts.len() == 0 {
                (seq![message], None)
            } else {
                match verdicts[0] {
                    Err(failure) => (seq![message], Some(Ending::Handler(failure))),
                    Ok(_) => {
                        let rest = loop_of::<T>(
                            reads.subrange(1, reads.len() as int),
                            verdicts.subrange(1, verdicts.len() as int),
                        );
                        (seq![message] + rest.0, rest.1)
                    },
                }
            },
        }
    }
}

/// A run of a client: where the one attempt to connect fails, the run ends
/// at once with its cause, before any read and any call of the handler;
/// else it is the loop.
pub open spec fn run_of<T: BroadcastMessage>(
    attempt: Result<(), std::io::Error>,
    reads: Seq<Result<Seq<u8>, std::io::Error>>,
    verdicts: Seq<Result<(), BroadcastError>>,
) -> (Seq<T>, Option<Ending>) {
    match attempt {
        Err(cause) => (Seq::empty(), Some(Ending::Transport(cause))),
        Ok(_) => loop_of(reads, verdicts),
    }
}

/// Reads that bring `chunks` one after the other, and then a read of no
/// bytes: the peer closed the connection.
pub open spec fn reads_until_closed(chunks: Seq<Seq<u8>>) -> Seq<Result<Seq<u8>, std::io::Error>> {
    Seq::new(
        chunks.len() + 1,
        |i: int|
            if i < chunks.len() {
                Ok(chunks[i])
            } else {
                Ok(Seq::empty())
            },
    )
}

/// `n` calls of the handler that all succeed.
pub open spec fn all_handled(n: nat) -> Seq<Result<(), BroadcastError>> {
    Seq::new(n, |i: int| Ok(()))
}

/// Nothing listening is no reason to wait: a run whose attempt to connect
/// fails ends with the transport error of that cause, whatever reads and
/// verdicts might have followed; the handler is never called.
pub proof fn law_refused_connection_ends_the_run<T: BroadcastMessage>(
    cause: std::io::Error,
    reads: Seq<Result<Seq<u8>, std::io::Error>>,
    verdicts: Seq<Result<(), BroadcastError>>,
)
    ensures
        run_of::<T>(Err(cause), reads, verdicts) == (
            Seq::<T>::empty(),
            Some(Ending::Transport(cause)),
        ),
        ends_with(Ending::Transport(cause), Err(BroadcastError::Io(cause))),
{
}

/// A whole run: where the message type round-trips, every frame fits the
/// read buffer, the frames of `messages` arrive one for each read, the peer
/// then closes, and the handler succeeds each time, the handler is called
/// once for each message, with the messages that were encoded, in their
/// order, and the run ends without failure.
pub proof fn law_run_hands_over_what_was_written<T: BroadcastMessage>(messages: Seq<T>)
    requires
        round_trips::<T>(),
        never_empty::<T>(),
        all_encodable(messages),
        all_fit(written(messages)),
    ensures
        run_of::<T>(
            Ok(()),
            reads_until_closed(arrivals(written(messages))),
            all_handled(messages.len()),
        ) == (messages, Some(Ending::PeerClosed)),
        ends_with(Ending::PeerClosed, Ok(())),
{
    lemma_fitting_frames_arrive_whole(written(messages));
    lemma_loop_hands_over_what_was_written(messages);
}

/// The loop over the frames of `messages` as they were written.
pub proof fn lemma_loop_hands_over_what_was_written<T: BroadcastMessage>(messages: Seq<T>)
    requires
        round_trips::<T>(),
        never_empty::<T>(),
        all_encodable(messages),
    ensures
        loop_of::<T>(reads_until_closed(written(messages)), all_handled(messages.len())) == (
            messages,
            Some(Ending::PeerClosed),
        ),
    decreases messages.len(),
{
    lemma_written_frames_are_read_back(messages);
    let reads = reads_until_closed(written(messages));
    let verdicts = all_handled(messages.len());
    if messages.len() == 0 {
        assert(reads[0] == Ok::<Seq<u8>, std::io::Error>(Seq::empty()));
        assert(loop_of::<T>(reads, verdicts).0 =~= messages);
    } else {
        let rest = messages.subrange(1, messages.len() as int);
        let first = messages[0];
        assert(first.wire() is Some);
        assert forall|i: int| 0 <= i < rest.len() implies (#[trigger] rest[i]).wire() is Some by {
            assert(rest[i] == messages[i + 1]);
        }
        lemma_written_frames_are_read_back(rest);
        lemma_loop_hands_over_what_was_written(rest);
        assert(written(messages) =~= seq![first.wire().unwrap()] + written(rest));
        assert(reads[0] == Ok::<Seq<u8>, std::io::Error>(first.wire().unwrap()));
        assert(reads.subrange(1, reads.len() as int) =~= reads_until_closed(written(rest)));
        assert(verdicts.subrange(1, verdicts.len() as int) =~= all_handled(rest.len()));
        assert(seq![first] + rest =~= messages);
    }
}

/// One message, one call: where the message type round-trips and the frame
/// of `message` fits the read buffer, a run that reads that frame and then
/// finds the peer gone calls the handler exactly once, with `message`, and
/// ends without failure.
pub proof fn law_run_hands_over_one_message<T: BroadcastMessage>(message: T)
    requires
        round_trips::<T>(),
        never_empty::<T>(),
        message.wire() matches Some(bytes) && bytes.len() <= READ_BUFFER_SIZE,
    ensures
        run_of::<T>(
            Ok(()),
            seq![Ok(message.wire().unwrap()), Ok(Seq::empty())],
            seq![Ok(())],
        ) == (seq![message], Some(Ending::PeerClosed)),
{
    let messages = seq![message];
    let bytes = message.wire().unwrap();
    assert(messages[0] == message);
    assert(messages.subrange(1, 1) =~= Seq::<T>::empty());
    assert(written(messages.subrange(1, 1)) =~= Seq::<Seq<u8>>::empty());
    assert(written(messages) =~= seq![bytes]);
    assert(written(messages)[0] == bytes);
    lemma_fitting_frames_arrive_whole(written(messages));
    law_run_hands_over_what_was_written(messages);
    assert(reads_until_closed(seq![bytes]) =~= seq![
        Ok::<Seq<u8>, std::io::Error>(bytes),
        Ok::<Seq<u8>, std::io::Error>(Seq::empty()),
    ]);
    assert(all_handled(1) =~= seq![Ok::<(), BroadcastError>(())]);
}

/// With integer messages, a whole run hands over what was written, whatever
/// the integers are.
pub proof fn law_u64_run_hands_over_what_was_written(messages: Seq<u64>)
    ensures
        run_of::<u64>(
            Ok(()),
            reads_until_closed(arrivals(written(messages))),
            all_handled(messages.len()),
        ) == (messages, Some(Ending::PeerClosed)),
{
    law_u64_messages_round_trip();
    lemma_u64_frames_fit(messages);
    law_run_hands_over_what_was_written(messages);
}

} // verus!
