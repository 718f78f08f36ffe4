//! What the embedding program knows about the live game window before a
//! session starts: its rectangle, the UI flavor, and the platform.

use vstd::prelude::*;

use crate::geometry::Rect;

verus! {

/// Which user interface the game renders.
#[derive(Clone, Copy, PartialEq, Eq, Structural, Debug)]
pub enum UI {
    Desktop,
    Mobile,
}

/// The platform the game runs on.
#[derive(Clone, Copy, PartialEq, Eq, Structural, Debug)]
pub enum Platform {
    Windows,
    MacOs,
    Linux,
}

/// The live window, in milli-pixels, with its UI flavor and platform.
#[derive(Clone, Copy, PartialEq, Eq, Structural, Debug)]
pub struct GameInfo {
    /// Window rectangle on the screen, in milli-pixels.
    pub window: Rect,
    /// UI flavor in use.
    pub ui: UI,
    /// Platform in use.
    pub platform: Platform,
}

} // verus!
