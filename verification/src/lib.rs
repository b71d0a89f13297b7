//! Core logic of the Aperio desktop application: configuration merging,
//! the `uv` command lines used to provision the embedded Python runtime,
//! the framing of encoded video samples sent to WebSocket clients, and the
//! decisions taken by the streaming and start-up loops.

pub mod commands;
pub mod config;
pub mod json;
pub mod python;
pub mod stream;
pub mod text;
pub mod ws;
