//! Tunnel engine: the connect handshake, a byte-stream view over a
//! message transport, and the decisions of one relay session.

pub mod handshake;
pub mod token;
pub mod stream;
pub mod session;
pub mod routing;
pub mod dns;
pub mod config;
