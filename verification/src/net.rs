//! Networking logic that runs beside the TCP/IP stack: address text, the
//! server-socket table and the TCP sequence/acknowledgement patching that the
//! packet path applies to every frame.
pub mod patching;
pub mod device;
pub mod utils;
pub mod server;
pub mod config;
pub mod state;
pub mod d1_state;
