//! Multiplexed tunnelling over a single reliable byte-stream carrier.
//!
//! `frame` and `codec` define the wire format and cut frames out of a
//! receive buffer; `handshake` builds and checks the authenticated
//! `Hello` exchange; `session` holds the multiplexer's state and decides
//! what every received frame and every local operation leads to. `socks5`,
//! `http`, `addr` and `net` hold the decisions of the programs around the
//! session: the upstream handshake, the forward proxy's request handling,
//! Bluetooth address parsing and reconnect backoff.
pub mod addr;
pub mod codec;
pub mod config;
pub mod error;
pub mod frame;
pub mod handshake;
pub mod http;
mod idset;
pub mod net;
pub mod session;
pub mod socks5;
pub mod text;
pub mod wire;
