//! This module defines and handles the Minecraft protocol and communication.
//!
//! This is necessary to exchange data with the target servers that should be probed. We only care about the packets
//! related to the Server List Ping and therefore only implement that part of the Minecraft protocol. The modules go
//! from the encoding of the single fields over the packets to the exchanges that are made of them.

pub mod error;
pub mod varint;
pub mod fixed;
pub mod reader;
pub mod state;
pub mod packet;
pub mod incremental;
pub mod round_trip;
pub mod reading;
pub mod exchange;

pub use error::{Error, Field, IoError};
pub use exchange::{
    execute_ping, retrieve_status, HandshakeInfo, PingProgress, Response, StatusProgress, Step,
};
