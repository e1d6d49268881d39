//! Real-time collaboration core: the registry that groups live connections by
//! project and fans out edit events, the per-connection session protocol, and
//! the admission check in front of it.

pub mod codec;
pub mod config;
pub mod envelope;
pub mod handshake;
pub mod hub;
pub mod middleware;
pub mod response;
pub mod session;
