//! The KCP layer: its settings, its queues, its connections and its listener.

pub mod buffers;
pub mod builder;
pub mod config;
pub mod conn;
pub mod flush;
pub mod handle_laws;
pub mod inbound;
pub mod laws;
pub mod listener;
pub mod listener_laws;
pub mod transport;
