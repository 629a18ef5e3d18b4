//! `LazyCat` `RemoteSocks`: SOCKS5 address codec, handshake messages, UDP
//! framing and proxy-endpoint selection.

pub mod address;
pub mod client;
pub mod udp;

pub use address::{SocksAddress, SocksAddressView};
