//! A serial-line terminal library: hex codec, port directory, connection
//! management, command dispatch, and the key mapping for a raw terminal
//! bridge.

pub mod cli;
pub mod command;
pub mod config;
pub mod device;
pub mod hex;
pub mod keymap;
pub mod ports;
pub mod serial;
pub mod session;
pub mod text;
