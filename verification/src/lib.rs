//! Verified logic of a music daemon and its clients.

pub mod build_info;
pub mod cache;
pub mod civil;
pub mod cli;
pub mod client;
pub mod config;
pub mod director;
pub mod echo;
pub mod event;
pub mod executor;
pub mod fade;
pub mod intelligence;
pub mod model;
pub mod mpd;
pub mod mpris;
pub mod nl;
pub mod number;
pub mod plan;
pub mod player;
pub mod recognize;
pub mod requests;
pub mod resume;
pub mod round_trip;
pub mod scrobble;
pub mod softvol;
pub mod text;
pub mod wire;
