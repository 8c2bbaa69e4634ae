//! The logic that every client shares.

pub mod config;
pub mod grounding;
pub mod model;
pub mod mpd;
pub mod nl;
pub mod route;
pub mod viz;
