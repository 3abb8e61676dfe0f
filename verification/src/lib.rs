//! A server-side implementation of a remote file browsing protocol: binary
//! request frames come in over a byte channel, are decoded, answered from
//! facts about the local file system, and go out as fixed-size response frames.

pub mod command;
pub mod cursor;
pub mod endian;
pub mod error;
pub mod filesystem;
pub mod frames;
pub mod handlers;
pub mod server;
pub mod text;
pub mod transport;
pub mod traits;
