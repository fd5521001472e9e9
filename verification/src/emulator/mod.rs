//! Logic shared by the device emulators (Stream Deck Studio, NetworkDock, and
//! the multi-device manager): event payloads, GET_REPORT handling, framing of
//! received messages, logging decisions and command-line parsing.

pub mod payload;
pub mod report;
pub mod framing;
pub mod logging;
pub mod studio;
pub mod networkdock;
pub mod command;
pub mod manager;
pub mod clients;
pub mod answers;
