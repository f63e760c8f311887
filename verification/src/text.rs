//! The buffer's text model: sequences of characters, range splicing, and the
//! small trusted bridge to the host string types and Unicode character
//! classes.

use vstd::prelude::*;

verus! {

/// The text that results from replacing the characters in `[a, b)` of `s`
/// with `t`.
pub open spec fn splice(s: Seq<char>, a: int, b: int, t: Seq<char>) -> Seq<char>
    recommends
        0 <= a <= b <= s.len(),
{
    s.subrange(0, a) + t + s.subrange(b, s.len() as int)
}

/// Whether `c` has the Unicode White_Space property.
pub uninterp spec fn is_unicode_ws(c: char) -> bool;

/// Relies on char::is_whitespace: the White_Space property of the character
/// alone. Space and line feed have the property; the hyphen does not.
#[verifier::external_body]
pub fn char_is_whitespace(c: char) -> (r: bool)
    ensures
        r == is_unicode_ws(c),
        c == ' ' ==> r,
        c == '\n' ==> r,
        c == '-' ==> !r,
{
    c.is_whitespace()
}

/// Relies on str::chars: the characters of the string, in order.
#[verifier::external_body]
pub fn str_to_chars(s: &str) -> (v: Vec<char>)
    ensures
        v@ == s@,
{
    s.chars().collect()
}

/// Relies on collecting a char iterator into String: the characters, in
/// order, become the string's contents.
#[verifier::external_body]
pub fn chars_to_string(v: &Vec<char>) -> (s: String)
    ensures
        s@ == v@,
{
    v.iter().collect()
}

/// A copy of the characters in `[a, b)` of `content`.
pub fn subrange_vec(content: &Vec<char>, a: usize, b: usize) -> (r: Vec<char>)
    requires
        a <= b <= content@.len(),
    ensures
        r@ == content@.subrange(a as int, b as int),
{
    let mut r: Vec<char> = Vec::new();
    let mut i: usize = a;
    while i < b
        invariant
            a <= i <= b <= content@.len(),
            r@ == content@.subrange(a as int, i as int),
        decreases b - i,
    {
        r.push(content[i]);
        proof {
            assert(r@ =~= content@.subrange(a as int, (i + 1) as int));
        }
        i = i + 1;
    }
    r
}

/// Whether the characters in `[a, b)` of `content` equal `t`.
pub fn subrange_eq(content: &Vec<char>, a: usize, b: usize, t: &Vec<char>) -> (r: bool)
    requires
        a <= b <= content@.len(),
    ensures
        r == (content@.subrange(a as int, b as int) == t@),
{
    if b - a != t.len() {
        proof {
            assert(content@.subrange(a as int, b as int).len() == b - a);
        }
        return false;
    }
    let mut i: usize = 0;
    while i < t.len()
        invariant
            b - a == t@.len(),
            a <= b <= content@.len(),
            i <= t@.len(),
            forall|k: int| 0 <= k < i ==> content@[a + k] == t@[k],
        decreases t@.len() - i,
    {
        if content[a + i] != t[i] {
            proof {
                assert(content@.subrange(a as int, b as int)[i as int] == content@[a + i]);
            }
            return false;
        }
        i = i + 1;
    }
    proof {
        assert(content@.subrange(a as int, b as int) =~= t@);
    }
    true
}

/// The characters of `content` with `[a, b)` replaced by `t`.
pub fn splice_vec(content: &Vec<char>, a: usize, b: usize, t: &Vec<char>) -> (r: Vec<char>)
    requires
        a <= b <= content@.len(),
    ensures
        r@ == splice(content@, a as int, b as int, t@),
{
    let mut r: Vec<char> = Vec::new();
    let mut i: usize = 0;
    while i < a
        invariant
            i <= a <= b <= content@.len(),
            r@ == content@.subrange(0, i as int),
        decreases a - i,
    {
        r.push(content[i]);
        proof {
            assert(r@ =~= content@.subrange(0, (i + 1) as int));
        }
        i = i + 1;
    }
    let mut j: usize = 0;
    while j < t.len()
        invariant
            a <= b <= content@.len(),
            j <= t@.len(),
            r@ == content@.subrange(0, a as int) + t@.subrange(0, j as int),
        decreases t@.len() - j,
    {
        r.push(t[j]);
        proof {
            assert(r@ =~= content@.subrange(0, a as int) + t@.subrange(0, (j + 1) as int));
        }
        j = j + 1;
    }
    let mut k: usize = b;
    while k < content.len()
        invariant
            a <= b <= k <= content@.len(),
            r@ == content@.subrange(0, a as int) + t@ + content@.subrange(b as int, k as int),
        decreases content@.len() - k,
    {
        r.push(content[k]);
        proof {
            assert(r@ =~= content@.subrange(0, a as int) + t@ + content@.subrange(
                b as int,
                (k + 1) as int,
            ));
        }
        k = k + 1;
    }
    proof {
        assert(t@.subrange(0, t@.len() as int) =~= t@);
        assert(r@ =~= splice(content@, a as int, b as int, t@));
    }
    r
}

} // verus!
