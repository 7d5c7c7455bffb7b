//! Terminals that clients create, reach over WebSockets and terminate.
pub mod buffer;
pub mod command;
pub mod execute;
pub mod handlers;
pub mod pty_fallback;
pub mod scrollback;
pub mod sessions;
pub mod socket;
pub mod types;
