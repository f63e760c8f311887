//! The measuring interface the layout consults. The rendering collaborator
//! owns glyph shaping; the core only needs two queries from it: the width
//! of a run of text, and the character index nearest to a horizontal
//! position. Widths are opaque non-negative units that fit in a `u64`.

use vstd::prelude::*;

verus! {

/// `v` capped at `u64::MAX`.
pub open spec fn sat64(v: int) -> int {
    if v > u64::MAX as int {
        u64::MAX as int
    } else {
        v
    }
}

/// `a * b` capped at `u64::MAX`.
pub fn mul_sat(a: u64, b: u64) -> (r: u64)
    ensures
        r as int == sat64(a as int * b as int),
{
    match a.checked_mul(b) {
        Some(v) => v,
        None => u64::MAX,
    }
}

/// A width-measuring and hit-testing oracle over runs of text.
///
/// `width_spec` must be a pure function of the characters: it is
/// non-negative, fits in a `u64`, and never shrinks when a run is extended
/// to the right. `closest_spec` must answer with an index into the run.
pub trait TextMeasure: Sized {
    /// The measured width of the run `s`.
    spec fn width_spec(&self, s: Seq<char>) -> int;

    /// The character index of the boundary in `s` nearest to `x`.
    spec fn closest_spec(&self, s: Seq<char>, x: int) -> int;

    /// Widths are `u64`-sized and monotone under extending the run.
    proof fn width_props(&self, s: Seq<char>, i: int)
        requires
            0 <= i <= s.len(),
        ensures
            0 <= self.width_spec(s) <= u64::MAX,
            self.width_spec(s.subrange(0, i)) <= self.width_spec(s),
    ;

    /// The nearest boundary is an index into the run.
    proof fn closest_props(&self, s: Seq<char>, x: int)
        ensures
            0 <= self.closest_spec(s, x) <= s.len(),
    ;

    /// The measured width of the characters `[start, end)` of `content`.
    fn measure(&self, content: &Vec<char>, start: usize, end: usize) -> (w: u64)
        requires
            start <= end <= content@.len(),
        ensures
            w as int == self.width_spec(content@.subrange(start as int, end as int)),
    ;

    /// The boundary within the characters `[start, end)` of `content`
    /// nearest to the horizontal position `x`.
    fn closest_index(&self, content: &Vec<char>, start: usize, end: usize, x: u64) -> (i: usize)
        requires
            start <= end <= content@.len(),
        ensures
            i as int == self.closest_spec(
                content@.subrange(start as int, end as int),
                x as int,
            ),
            i <= end - start,
    ;
}

/// A measurer that gives every character the same width: the monospace
/// special case of the rendering collaborator's shaping, and the oracle the
/// tests run against.
pub struct FixedWidthMeasure {
    pub char_width: u64,
}

impl TextMeasure for FixedWidthMeasure {
    open spec fn width_spec(&self, s: Seq<char>) -> int {
        sat64(s.len() as int * self.char_width as int)
    }

    open spec fn closest_spec(&self, s: Seq<char>, x: int) -> int {
        if self.char_width == 0 {
            s.len() as int
        } else if x < 0 {
            0
        } else {
            let q = (x + self.char_width as int / 2) / self.char_width as int;
            if q > s.len() as int {
                s.len() as int
            } else {
                q
            }
        }
    }

    proof fn width_props(&self, s: Seq<char>, i: int) {
        assert(s.subrange(0, i).len() * self.char_width as int <= s.len() as int
            * self.char_width as int) by (nonlinear_arith)
            requires
                0 <= i <= s.len(),
        ;
    }

    proof fn closest_props(&self, s: Seq<char>, x: int) {
        if self.char_width != 0 && x >= 0 {
            assert((x + self.char_width as int / 2) / self.char_width as int >= 0) by (
            nonlinear_arith)
                requires
                    x >= 0,
                    self.char_width > 0,
            ;
        }
    }

    fn measure(&self, content: &Vec<char>, start: usize, end: usize) -> (w: u64) {
        let n: u64 = (end - start) as u64;
        match n.checked_mul(self.char_width) {
            Some(v) => v,
            None => u64::MAX,
        }
    }

    fn closest_index(&self, content: &Vec<char>, start: usize, end: usize, x: u64) -> (i: usize) {
        let n: usize = end - start;
        if self.char_width == 0 {
            return n;
        }
        let q: u128 = (x as u128 + (self.char_width / 2) as u128) / self.char_width as u128;
        if q > n as u128 {
            n
        } else {
            q as usize
        }
    }
}

} // verus!
