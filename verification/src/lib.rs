//! Shared clipboard between a Linux guest VM and its macOS host: the verified
//! core of the wire protocol, the pairing and echo-suppression rules, and the
//! text that the daemon shows.

pub mod clip;
pub mod config;
pub mod text;
pub mod protocol;
pub mod mirror;
pub mod guest;
pub mod host;
pub mod pairing;
pub mod util;
pub mod clipboard;
pub mod net;
pub mod discovery;
pub mod service;
