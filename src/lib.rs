//! A SOCKS5 protocol engine: message views, the handshake state machine,
//! request classification and reply building.
pub mod buffer;
pub mod messages;
pub mod reply;
pub mod server;
