//! The broadcast engine under one name: codec, server, client and their
//! errors.

pub use crate::client;
pub use crate::codec;
pub use crate::errors;
pub use crate::forward;
pub use crate::server;

pub use crate::client::BroadcastClient;
pub use crate::codec::BroadcastMessage;
pub use crate::errors::BroadcastError;
pub use crate::server::BroadcastServer;
