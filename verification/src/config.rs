//! Settings of the player.

use vstd::prelude::*;

verus! {

/// When the stage is letterboxed.
#[derive(Clone, Copy, Debug, PartialEq, Eq, Structural)]
pub enum Letterbox {
    /// Never.
    Off,
    /// Only in fullscreen.
    Fullscreen,
    /// Always.
    On,
}

/// Which network the movie may reach.
#[derive(Clone, Copy, Debug, PartialEq, Eq, Structural)]
pub enum NetworkingAccessMode {
    /// Every networking API may be used.
    All,
    /// The movie may load data, but may not navigate or talk to the page.
    Internal,
    /// No networking API may be used.
    NoNetwork,
}

impl Letterbox {
    /// Whether the stage is letterboxed in the given display mode.
    pub fn applies(&self, is_fullscreen: bool) -> (r: bool)
        ensures
            r == (match *self {
                Letterbox::Off => false,
                Letterbox::Fullscreen => is_fullscreen,
                Letterbox::On => true,
            }),
    {
        match *self {
            Letterbox::Off => false,
            Letterbox::Fullscreen => is_fullscreen,
            Letterbox::On => true,
        }
    }
}

} // verus!
