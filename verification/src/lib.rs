//! A server that gives clients terminals over WebSockets and bridges language servers to them.
use vstd::prelude::*;

pub mod laws;
pub mod lsp;
pub mod paths;
pub mod rectangle;
pub mod startup;
pub mod term_server;
pub mod terminal;
pub mod text;
pub mod updates;
pub mod utils;
pub mod ws;

verus! {

} // verus!
