//! Wire formats of the Stream Deck Studio TCP protocol.

pub mod error;
pub mod packet;
pub mod command;
pub mod event;
pub mod cora;
pub mod layout;
