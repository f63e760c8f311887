//! Core of a minimal plain-text editor: a text buffer with selection,
//! grapheme-aware cursor movement, greedy word-wrap layout, hit testing,
//! and viewport scrolling, together with the small document/theme state
//! that the surrounding application drives.

pub mod boundary;
pub mod document;
pub mod editor;
pub mod measure;
pub mod text;
pub mod theme;
pub mod wrap;
