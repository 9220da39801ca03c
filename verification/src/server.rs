//! The publishing side: the channel that messages enter, and the steps that
//! bring a listening endpoint up.
//!
//! A server owns one channel and one endpoint path. Where a live listener
//! holds the path, the server gives up and leaves it alone. Otherwise
//! bringing it up takes four steps in a fixed order: remove what is left at
//! the path, bind, widen the endpoint's access mode, accept. Each accepted connection gets a
//! subscription of its own, made at that moment, and a forwarding task of its
//! own. The caller performs the steps, since they touch the file system and
//! the socket; what follows each step's outcome is decided here.

use crate::codec::BroadcastMessage;
use crate::errors::BroadcastError;
use vstd::prelude::*;

verus! {

/// `tokio::sync::broadcast::Sender`: the handle through which messages enter
/// a channel. Carried through without being looked into.
#[verifier::external_type_specification]
#[verifier::external_body]
#[verifier::reject_recursive_types(T)]
pub struct ExSender<T>(tokio::sync::broadcast::Sender<T>);

/// `tokio::sync::broadcast::Receiver`: one subscriber's place in a channel.
/// Carried through without being looked into.
#[verifier::external_type_specification]
#[verifier::external_body]
#[verifier::reject_recursive_types(T)]
pub struct ExReceiver<T>(tokio::sync::broadcast::Receiver<T>);

/// The handle through which messages enter a server's channel.
pub type PublisherHandle<T> = tokio::sync::broadcast::Sender<T>;

/// One subscriber's place in a server's channel.
pub type Subscription<T> = tokio::sync::broadcast::Receiver<T>;

/// The access mode of a bound endpoint: any local user may read and write.
pub const SOCKET_MODE: u32 = 0o666;

/// The largest capacity that a channel can be made with.
pub open spec fn max_capacity() -> nat {
    (usize::MAX / 2) as nat
}

/// Calls `tokio::sync::broadcast::channel` and keeps the sending half; the
/// receiving half it comes with is dropped, so the channel starts without a
/// subscriber. The call panics on a capacity of zero or above half of
/// `usize::MAX`, which `requires` leaves out; it allocates room for the
/// capacity at once, and ends the process where the machine has none.
/// Nothing is claimed of the result: what a channel holds is shared with
/// other tasks.
#[verifier::external_body]
fn open_channel<T: Clone>(capacity: usize) -> (publisher: tokio::sync::broadcast::Sender<T>)
    requires
        0 < capacity <= max_capacity(),
{
    let (publisher, _) = tokio::sync::broadcast::channel(capacity);
    publisher
}

/// Calls `clone` on a `tokio::sync::broadcast::Sender`. A sender holds
/// nothing but a shared pointer to its channel, and its clone holds a pointer
/// to the same channel and nothing else. Claims that the two are the same
/// handle: nothing tells one from the other but the channel's count of them.
#[verifier::external_body]
fn another_handle<T>(publisher: &tokio::sync::broadcast::Sender<T>) -> (handle:
    tokio::sync::broadcast::Sender<T>)
    ensures
        handle == *publisher,
{
    publisher.clone()
}

/// Calls `tokio::sync::broadcast::Sender::subscribe`: a receiver that starts
/// at the channel's tail, so that it sees what is sent from now on. Nothing is
/// claimed of the result. The call panics once a channel has a quarter of
/// `usize::MAX` receivers, more than memory can hold.
#[verifier::external_body]
fn new_subscription<T>(publisher: &tokio::sync::broadcast::Sender<T>) -> (subscription:
    tokio::sync::broadcast::Receiver<T>) {
    publisher.subscribe()
}

/// A server that has not been bound yet: an endpoint path and a fresh channel.
#[verifier::reject_recursive_types(T)]
pub struct BroadcastServer<T: BroadcastMessage> {
    socket_path: String,
    capacity: usize,
    tx: tokio::sync::broadcast::Sender<T>,
}

impl<T: BroadcastMessage> BroadcastServer<T> {
    /// The endpoint path, as characters.
    pub closed spec fn address(&self) -> Seq<char> {
        self.socket_path@
    }

    /// The capacity that the channel was asked for.
    pub closed spec fn channel_size(&self) -> usize {
        self.capacity
    }

    /// The server's own handle onto its channel, through which every message
    /// enters it.
    pub closed spec fn publisher(&self) -> PublisherHandle<T> {
        self.tx
    }

    /// Whether the server's channel is one that was made when a channel of
    /// capacity `n` was asked for.
    pub closed spec fn made_for(&self, n: usize) -> bool {
        call_ensures(open_channel::<T>, (n,), self.tx)
    }

    /// A server for the endpoint at `socket_path`, with a fresh channel made
    /// for capacity `channel_size`. Touches neither the file system nor a
    /// socket.
    /// The channel holds as many messages as the next power of two at or
    /// above `channel_size`: a subscriber lags once it is further behind.
    pub fn new(socket_path: &str, channel_size: usize) -> (server: Self)
        requires
            0 < channel_size <= max_capacity(),
        ensures
            server.address() == socket_path@,
            server.channel_size() == channel_size,
            server.made_for(channel_size),
    {
        BroadcastServer {
            socket_path: socket_path.to_owned(),
            capacity: channel_size,
            tx: open_channel(channel_size),
        }
    }

    /// A server as `new` makes it, or `None` for a capacity that no channel
    /// can have: zero, or more than half of `usize::MAX`.
    pub fn with_capacity(socket_path: &str, channel_size: usize) -> (server: Option<Self>)
        ensures
            server is Some <==> 0 < channel_size <= max_capacity(),
            server matches Some(s) ==> s.address() == socket_path@ && s.channel_size()
                == channel_size && s.made_for(channel_size),
    {
        if 0 < channel_size && channel_size <= usize::MAX / 2 {
            Some(Self::new(socket_path, channel_size))
        } else {
            None
        }
    }

    /// The endpoint path.
    pub fn socket_path(&self) -> (path: &str)
        ensures
            path@ == self.address(),
    {
        self.socket_path.as_str()
    }

    /// The capacity that the channel was asked for.
    pub fn capacity(&self) -> (capacity: usize)
        ensures
            capacity == self.channel_size(),
            0 < capacity <= max_capacity(),
            self.made_for(capacity),
    {
        proof {
            use_type_invariant(self);
        }
        self.capacity
    }

    #[verifier::type_invariant]
    spec fn well_formed(&self) -> bool {
        &&& 0 < self.capacity <= max_capacity()
        &&& call_ensures(open_channel::<T>, (self.capacity,), self.tx)
    }

    /// One more handle for publishing into this server's channel: the
    /// server's own handle, as often as it is asked for. May be asked for any
    /// number of times, before the server runs or while it does.
    pub fn sender(&self) -> (handle: PublisherHandle<T>)
        ensures
            handle == self.publisher(),
    {
        another_handle(&self.tx)
    }

    /// Whether `subscription` is a receiver that the channel made when it
    /// was asked, through the server's own handle, for a new subscriber.
    pub closed spec fn is_subscription(&self, subscription: Subscription<T>) -> bool {
        call_ensures(new_subscription::<T>, (&self.tx,), subscription)
    }

    /// A subscription for a connection that was just accepted: a new
    /// subscriber of this server's channel and of no other. It sees what is
    /// published from now on, and nothing from before; where in the channel
    /// that is depends on what other tasks have published by now.
    pub fn subscribe(&self) -> (subscription: Subscription<T>)
        ensures
            self.is_subscription(subscription),
    {
        new_subscription(&self.tx)
    }
}

/// A step of bringing a server up.
#[derive(Debug, Clone, Copy, PartialEq, Eq, Structural)]
pub enum Step {
    /// Remove the entry that was left at the endpoint path.
    Remove,
    /// Bind a listening endpoint at the path.
    Bind,
    /// Set the endpoint's access mode to `SOCKET_MODE`.
    Widen,
    /// Wait for a connection; give it a subscription and a forwarding task.
    Accept,
}

/// What to do once a step is over.
#[derive(Debug)]
pub enum Next {
    /// Take this step.
    Run(Step),
    /// Give up: `run` returns this failure.
    Fail(BroadcastError),
}

/// The step that follows `step` where it succeeded. Accepting never ends of
/// itself: after a connection, the next is waited for.
pub open spec fn successor(step: Step) -> Step {
    match step {
        Step::Remove => Step::Bind,
        Step::Bind => Step::Widen,
        Step::Widen => Step::Accept,
        Step::Accept => Step::Accept,
    }
}

/// The failure that `run` returns where `step` failed with `cause`: a
/// leftover that cannot be removed is reported as such, anything else as the
/// transport error it is. Either way the failure holds the cause.
pub open spec fn failure(step: Step, cause: std::io::Error) -> BroadcastError {
    match step {
        Step::Remove => BroadcastError::StaleEntry(cause),
        _ => BroadcastError::Io(cause),
    }
}

/// What stands at the endpoint path before a server starts.
#[derive(Debug, Clone, Copy, PartialEq, Eq, Structural)]
pub enum Entry {
    /// Nothing.
    Absent,
    /// An entry that nothing listens at: a leftover.
    Stale,
    /// An entry that a live listener holds.
    Held,
}

/// What was found at the path: nothing where no entry exists; where one
/// exists, a held endpoint if something answered an attempt to connect to
/// it, and a leftover if nothing did.
pub open spec fn found(exists: bool, answer: Result<(), std::io::Error>) -> Entry {
    if !exists {
        Entry::Absent
    } else if answer is Ok {
        Entry::Held
    } else {
        Entry::Stale
    }
}

/// Reads what was found at the endpoint path: whether an entry exists, and
/// how an attempt to connect to it went. Where no entry exists, no attempt
/// need be made, and `answer` plays no part.
pub fn entry_of(exists: bool, answer: Result<(), std::io::Error>) -> (entry: Entry)
    ensures
        entry == found(exists, answer),
{
    if !exists {
        Entry::Absent
    } else {
        match answer {
            Ok(_) => Entry::Held,
            Err(_) => Entry::Stale,
        }
    }
}

/// How a server starts, given what stands at its endpoint path: it binds at
/// once where nothing stands, removes a leftover first, and gives up where a
/// live listener holds the path. A held endpoint is never removed nor bound
/// over: the listener that holds it goes on undisturbed.
pub open spec fn opening(entry: Entry) -> Next {
    match entry {
        Entry::Absent => Next::Run(Step::Bind),
        Entry::Stale => Next::Run(Step::Remove),
        Entry::Held => Next::Fail(BroadcastError::SocketExists),
    }
}

/// The first decision of a server's start-up.
pub fn first_step(entry: Entry) -> (next: Next)
    ensures
        next == opening(entry),
{
    match entry {
        Entry::Absent => Next::Run(Step::Bind),
        Entry::Stale => Next::Run(Step::Remove),
        Entry::Held => Next::Fail(BroadcastError::SocketExists),
    }
}

/// What follows a step, given how it went.
pub fn advance(step: Step, outcome: Result<(), std::io::Error>) -> (next: Next)
    ensures
        next == match outcome {
            Ok(_) => Next::Run(successor(step)),
            Err(cause) => Next::Fail(failure(step, cause)),
        },
{
    match outcome {
        Ok(_) => match step {
            Step::Remove => Next::Run(Step::Bind),
            Step::Bind => Next::Run(Step::Widen),
            Step::Widen => Next::Run(Step::Accept),
            Step::Accept => Next::Run(Step::Accept),
        },
        Err(cause) => match step {
            Step::Remove => Next::Fail(BroadcastError::StaleEntry(cause)),
            _ => Next::Fail(BroadcastError::Io(cause)),
        },
    }
}

/// The step taken after `n` steps that all succeeded, starting from `first`.
pub open spec fn step_after(first: Step, n: nat) -> Step
    decreases n,
{
    if n == 0 {
        first
    } else {
        successor(step_after(first, (n - 1) as nat))
    }
}

/// No connection is accepted at an endpoint that was not bound and widened:
/// where a server starts at all, the steps before the first accept end with
/// a bind and then a widening of the access mode, and once accepting, a
/// server keeps accepting.
pub proof fn law_accept_follows_bind_and_widen(entry: Entry, n: nat)
    requires
        entry != Entry::Held,
    ensures
        opening(entry) is Run,
        ({
            let first = opening(entry)->Run_0;
            let binds_at: nat = if entry == Entry::Stale {
                1
            } else {
                0
            };
            &&& step_after(first, binds_at) == Step::Bind
            &&& step_after(first, binds_at + 1) == Step::Widen
            &&& n < binds_at + 2 ==> step_after(first, n) != Step::Accept
            &&& n >= binds_at + 2 ==> step_after(first, n) == Step::Accept
        }),
    decreases n,
{
    reveal_with_fuel(step_after, 4);
    if n > 3 {
        law_accept_follows_bind_and_widen(entry, (n - 1) as nat);
    }
}

/// Only a leftover is ever removed: a server that starts where a live
/// listener holds the path takes no step at all and fails with
/// `SocketExists`; one that starts where nothing stands never removes
/// anything; and one that starts at a leftover removes it first and never
/// again.
pub proof fn law_only_a_leftover_is_removed(entry: Entry, n: nat)
    ensures
        entry == Entry::Held ==> opening(entry) == Next::Fail(BroadcastError::SocketExists),
        opening(entry) matches Next::Run(first) ==> (step_after(first, n) == Step::Remove <==> entry
            == Entry::Stale && n == 0),
    decreases n,
{
    reveal_with_fuel(step_after, 3);
    if n > 1 {
        law_only_a_leftover_is_removed(entry, (n - 1) as nat);
    }
}

} // verus!
