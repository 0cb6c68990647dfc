//! Many streams over one connection: what drives the connection, and what holds
//! its writers back.

pub mod conn;
pub mod io;
pub mod laws;
