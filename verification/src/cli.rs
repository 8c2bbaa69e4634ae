//! The logic of the command line client.

pub mod args;
pub mod handshake;
pub mod render;
