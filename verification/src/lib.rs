//! Core of a single-room chat relay: the wire envelope with its codec,
//! the connection registry, and the broadcast engine that turns inbound
//! events into outbound frames.

pub mod codec;
pub mod display;
pub mod room;
pub mod protocol;
pub mod text;
pub mod wire;
