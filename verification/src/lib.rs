//! Per-connection logic of a transparent TCP relay that screens clients by
//! the first bytes of their handshake.
//!
//! The crate holds no sockets. It decides: given what a read or a write
//! returned, it says what to do next. A driver owns the two streams, performs
//! each action and reports the result back as an event.

pub mod forwarder;
pub mod handler;
pub mod sniffer;
pub mod text;
