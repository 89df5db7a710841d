//! Decoder for NetFlow version 5 export packets.

pub mod reader;
pub mod time;
pub mod v5;
