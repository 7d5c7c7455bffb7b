//! What the operations of the library are for, stated of their calls.
pub mod bridge;
pub mod commands;
pub mod frames;
pub mod settings;
pub mod streams;
pub mod terminals;
pub mod text;
pub mod updates;
