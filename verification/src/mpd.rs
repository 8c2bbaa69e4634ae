//! The server side of the protocol: commands, responses and connections.

pub mod args;
pub mod command;
pub mod dsl;
pub mod filter;
pub mod response;
pub mod session;
pub mod tokens;
