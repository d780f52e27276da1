//! The CLI client: its config, its transport, its sync flows. Files, sockets
//! and the terminal are the driver's.

pub mod args;
pub mod config;
pub mod output;
pub mod pages;
pub mod socket_laws;
pub mod stream_laws;
pub mod sync_cmd;
pub mod sync_ws;
pub mod transport;
