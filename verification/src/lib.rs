//! Stream Deck Studio TCP protocol library (raw panel packets and Cora protocol).
//!
//! The `protocol` module holds the wire formats: 1024-byte raw panel packets,
//! command encoding, event decoding and Cora framing. `connection`,
//! `cora_connection` and `device` hold the client side, `emulator` the logic of
//! emulated devices, `client` the client console, and `properties` what relates
//! the two sides.

pub mod client;
pub mod connection;
pub mod cora_connection;
pub mod device;
pub mod error;
pub mod image;
pub mod protocol;
pub mod text;
pub mod emulator;
pub mod properties;
