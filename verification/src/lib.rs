//! Control-plane library for a CLI that drives a browser-automation daemon.
//!
//! The library covers the command model, the newline-delimited JSON wire
//! codec, the framing rules, the pure decision logic of the IPC client and
//! the daemon supervisor, and the input validation and output formatting
//! used around them.  All I/O (sockets, process spawning, clocks read at
//! the edge, environment variables) is performed by the binary that embeds
//! this library; the library states and proves what is decided about the
//! data that flows through.

pub mod cli;
pub mod codec;
pub mod commands;
pub mod config;
pub mod daemon;
pub mod error;
pub mod ipc;
pub mod json;
pub mod output;
pub mod plugins;
pub mod session;
pub mod types;
