//! The client: its options, its pool of connections and their upkeep.

pub mod cli;
pub mod conn;
pub mod laws;
pub mod options;
pub mod pool;
