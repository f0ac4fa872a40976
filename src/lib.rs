//! Open-port listing and process termination for a desktop toolbox.
//!
//! Each platform's socket listing (the kernel's tables and `ss` on Linux, `lsof` on macOS,
//! `netstat` on Windows) is parsed into `PortInfo` records, which are then normalized: owner
//! fields that could not be resolved become `"unknown"`, and one record is kept per
//! `(port, protocol, pid)`. A process can then be stopped by the port it owns.

pub mod text;
pub mod types;
pub mod linux;
pub mod windows;
pub mod macos;
pub mod scan;
pub mod image;
pub mod color;
