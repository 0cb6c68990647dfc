//! What client and server share: key derivation, mode profiles, addresses,
//! compression, sessions and the statistics log.

pub mod ip_literal;
pub mod key;
pub mod kcptun_session;
pub mod laws;
pub mod mode;
pub mod multiport;
pub mod qpp_validate;
pub mod ratelimit;
pub mod session;
pub mod session_laws;
pub mod snappy_frame;
pub mod snmp_log;
pub mod text_laws;
