//! Verified core of a KCP tunnel: the ciphers, packet formats, queues and
//! state machines that a tunnel client and server are built from.

pub mod calendar;
pub mod client;
pub mod common;
pub mod crypto;
pub mod kcp;
pub mod kio;
pub mod laws;
pub mod qpp;
pub mod smux;
pub mod text;
pub mod wire;
