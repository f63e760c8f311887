//! Grapheme-aware boundary navigation. A caret moves one grapheme cluster
//! at a time, except that a line feed is always its own step: it is never
//! merged with a neighboring cluster.

use vstd::prelude::*;
use unicode_segmentation::UnicodeSegmentation;

verus! {

/// The start, as a character index, of the last grapheme cluster among the
/// first `o` characters of `s`.
pub uninterp spec fn grapheme_prev_of(s: Seq<char>, o: int) -> int;

/// The character index just past the grapheme cluster that begins at `o` in
/// `s`: the start of the following cluster, or the text's length when the
/// cluster at `o` is the last one.
pub uninterp spec fn grapheme_next_of(s: Seq<char>, o: int) -> int;

/// Relies on unicode_segmentation::UnicodeSegmentation::grapheme_indices:
/// it splits a string into consecutive nonempty grapheme clusters, so the
/// last cluster of a nonempty prefix starts before the prefix ends.
#[verifier::external_body]
fn grapheme_prev(content: &Vec<char>, off: usize) -> (r: usize)
    requires
        0 < off <= content@.len(),
    ensures
        r == grapheme_prev_of(content@, off as int),
        r < off,
{
    let s: String = content[..off].iter().collect();
    match s.grapheme_indices(true).last() {
        Some((i, _)) => s[..i].chars().count(),
        None => 0,
    }
}

/// Relies on unicode_segmentation::UnicodeSegmentation::grapheme_indices:
/// it splits a string into consecutive nonempty grapheme clusters, so the
/// second cluster of a nonempty suffix starts after its first character.
#[verifier::external_body]
fn grapheme_next(content: &Vec<char>, off: usize) -> (r: usize)
    requires
        off < content@.len(),
    ensures
        r == grapheme_next_of(content@, off as int),
        off < r <= content@.len(),
{
    let s: String = content[off..].iter().collect();
    match s.grapheme_indices(true).nth(1) {
        Some((i, _)) => off + s[..i].chars().count(),
        None => content.len(),
    }
}

/// The boundary one step to the left of `o` in `s`.
pub open spec fn prev_boundary_spec(s: Seq<char>, o: int) -> int {
    if o <= 0 {
        0
    } else if s[o - 1] == '\n' {
        o - 1
    } else {
        grapheme_prev_of(s, o)
    }
}

/// The boundary one step to the right of `o` in `s`.
pub open spec fn next_boundary_spec(s: Seq<char>, o: int) -> int {
    if o >= s.len() {
        s.len() as int
    } else if s[o] == '\n' {
        o + 1
    } else {
        grapheme_next_of(s, o)
    }
}

/// The nearest boundary strictly before `off`, or 0 at the start. The
/// result always lies in `[0, off]`, and strictly below `off` whenever
/// `off > 0`, so repeated application reaches 0.
pub fn prev_boundary(content: &Vec<char>, off: usize) -> (r: usize)
    requires
        off <= content@.len(),
    ensures
        r as int == prev_boundary_spec(content@, off as int),
        r <= off,
        off > 0 ==> r < off,
{
    if off == 0 {
        0
    } else if content[off - 1] == '\n' {
        off - 1
    } else {
        grapheme_prev(content, off)
    }
}

/// The nearest boundary strictly after `off`, or the length at the end. The
/// result always lies in `[off, len]`, and strictly above `off` whenever
/// `off < len`, so repeated application reaches the end.
pub fn next_boundary(content: &Vec<char>, off: usize) -> (r: usize)
    requires
        off <= content@.len(),
    ensures
        r as int == next_boundary_spec(content@, off as int),
        off <= r <= content@.len(),
        off < content@.len() ==> r > off,
{
    if off >= content.len() {
        content.len()
    } else if content[off] == '\n' {
        off + 1
    } else {
        grapheme_next(content, off)
    }
}

} // verus!
