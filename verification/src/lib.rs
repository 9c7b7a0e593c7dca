//! Transport and framing for an IRC client: one connection, shared by many
//! senders, and the exact line that each outbound message becomes on the wire.

pub mod conn;
pub mod error;
pub mod grammar;
pub mod message;
pub mod shared;
pub mod transport;
