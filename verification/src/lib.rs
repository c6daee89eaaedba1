//! A tmux session selector and terminal: the verified core.
//!
//! The byte-level and decision logic of the app lives here; the UI, the SSH
//! transport and file I/O sit around it.

pub mod acs;
pub mod input;
pub mod colors;
pub mod render;
pub mod text;
pub mod config;
pub mod session;
pub mod protocol;
pub mod model;
