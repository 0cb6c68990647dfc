//! What lies under the tunnel: raw TCP segments, copying between streams and
//! signals.

pub mod copy;
pub mod copy_laws;
pub mod laws;
pub mod net;
pub mod signal;
pub mod tcpraw;
