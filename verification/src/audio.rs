//! Audio capture and playback. Neither is carried out yet: both are
//! accepted and do nothing.

use vstd::prelude::*;

verus! {

/// The audio side of a session.
pub struct AudioHandler {}

impl AudioHandler {
    pub fn new() -> (h: Self)
        ensures
            h == (AudioHandler {}),
    {
        AudioHandler {}
    }

    /// Starts capturing audio, handing each captured block to `on_audio`;
    /// succeeds, and captures nothing for now.
    pub fn start_capture<F>(&mut self, on_audio: F) -> (r: Result<(), String>) where
        F: FnMut(&[u8]) + Send + 'static,

        ensures
            r is Ok,
            *final(self) == *old(self),
    {
        Ok(())
    }

    /// Starts playing received audio; succeeds, and plays nothing for now.
    pub fn start_playback(&mut self) -> (r: Result<(), String>)
        ensures
            r is Ok,
            *final(self) == *old(self),
    {
        Ok(())
    }
}

} // verus!
