//! The palette modes the editor can cycle through. The actual colors are
//! owned by the rendering layer; the core only tracks which mode is active
//! and how the modes rotate.

use vstd::prelude::*;

verus! {

#[derive(Clone, Copy, PartialEq, Eq, Structural, Debug)]
pub enum ThemeMode {
    Dark,
    Midnight,
    Sepia,
    Ocean,
    Forest,
    Light,
}

/// The rotation order of the palette modes.
pub open spec fn spec_next_mode(m: ThemeMode) -> ThemeMode {
    match m {
        ThemeMode::Dark => ThemeMode::Light,
        ThemeMode::Light => ThemeMode::Sepia,
        ThemeMode::Sepia => ThemeMode::Ocean,
        ThemeMode::Ocean => ThemeMode::Forest,
        ThemeMode::Forest => ThemeMode::Midnight,
        ThemeMode::Midnight => ThemeMode::Dark,
    }
}

impl ThemeMode {
    /// The mode that follows this one when the user cycles themes.
    pub fn next(&self) -> (r: ThemeMode)
        ensures
            r == spec_next_mode(*self),
    {
        match self {
            ThemeMode::Dark => ThemeMode::Light,
            ThemeMode::Light => ThemeMode::Sepia,
            ThemeMode::Sepia => ThemeMode::Ocean,
            ThemeMode::Ocean => ThemeMode::Forest,
            ThemeMode::Forest => ThemeMode::Midnight,
            ThemeMode::Midnight => ThemeMode::Dark,
        }
    }
}

} // verus!
