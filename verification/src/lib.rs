//! Core logic of a small remote-desktop application: the wire framing of its
//! messages, the host and client session state machines, the decisions taken
//! on remote input events, the tunnel output scanner and the text helpers
//! these need. Everything that touches sockets, the screen, the OS input
//! queue or the file system lives outside this crate.

pub mod audio;
pub mod capture;
pub mod connection;
pub mod input;
pub mod network;
pub mod session;
pub mod text;
pub mod tunnel;

use vstd::prelude::*;

verus! {

/// A remote input event as the viewer sends it: its type (`mouse_move`,
/// `mouse_down`, `mouse_up`, `key_down`, `key_up`, ...) and a JSON payload.
#[derive(Debug, Clone)]
pub struct InputEvent {
    pub event_type: String,
    pub payload: String,
}

} // verus!
