//! WebSocket messages.
use vstd::prelude::*;

verus! {

/// A message as it comes from a WebSocket.
pub enum WsMessage {
    Text(String),
    Binary(Vec<u8>),
    Ping(Vec<u8>),
    Pong(Vec<u8>),
    Close,
}

} // verus!
