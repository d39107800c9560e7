//! Host facts (processor, memory, operating system, caller, network address,
//! motherboard, host name) read from the loosely structured texts and values
//! that the operating system exposes, each into one typed snapshot or one
//! typed error.  The reading of files and the system calls stay with the
//! caller; this crate decides what their results mean.

pub mod board;
pub mod caller;
pub mod config;
pub mod cpu;
pub mod error;
pub mod gate;
pub mod ipv4;
pub mod layout;
pub mod macos;
pub mod memory;
pub mod model;
pub mod number;
pub mod os;
pub mod seconds;
pub mod text;
pub mod win;
