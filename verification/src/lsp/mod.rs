//! A bridge between WebSocket clients and a language server that speaks over its standard streams.
pub mod bridge;
pub mod buffer;
pub mod codec;
pub mod grammar;
pub mod laws;
pub mod port_file;
pub mod registry;
