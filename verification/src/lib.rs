//! A local message bus: one publisher fans typed messages out to any number of
//! subscribers, each connected over its own byte stream.
//!
//! The crate holds the decisions of the bus, each with a proved contract: the
//! wire codec, the steps of a server's start-up, what a forwarding task does
//! with whatever its subscription hands it, and what a client does with
//! whatever a read returns. Sockets, tasks and timers are the caller's.

pub mod broadcast;
pub mod client;
pub mod codec;
pub mod errors;
pub mod forward;
pub mod server;

pub use client::BroadcastClient;
pub use codec::BroadcastMessage;
pub use errors::BroadcastError;
pub use server::BroadcastServer;
