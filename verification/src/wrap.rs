//! Greedy word-wrap layout. The content splits on line feeds into logical
//! lines; each logical line is consumed left to right, extending a segment
//! one character at a time and remembering the most recent break-eligible
//! position (just after whitespace or a hyphen). When a segment's measured
//! width overflows the available width, it ends at that break position if
//! one exists, and otherwise just before the overflowing character. Plain
//! spaces directly after a soft break are skipped so they are not
//! re-rendered at the start of the next visual line.

use vstd::prelude::*;
use crate::measure::TextMeasure;
use crate::text::char_is_whitespace;
use crate::text::is_unicode_ws;

verus! {

/// Whether a soft break may be placed just after `c`.
pub open spec fn is_break_char(c: char) -> bool {
    is_unicode_ws(c) || c == '-'
}

/// Whether some range of `rs` covers the position `i`.
pub open spec fn covered(rs: Seq<(usize, usize)>, i: int) -> bool {
    exists|j: int| 0 <= j < rs.len() && (#[trigger] rs[j]).0 <= i < rs[j].1
}

/// The ranges are ordered, non-overlapping, and end by `len`.
pub open spec fn ranges_wf(rs: Seq<(usize, usize)>, len: int) -> bool {
    &&& forall|j: int| 0 <= j < rs.len() ==> (#[trigger] rs[j]).0 <= rs[j].1 <= len
    &&& forall|j: int| 0 <= j < rs.len() - 1 ==> (#[trigger] rs[j]).1 <= rs[j + 1].0
}

/// No line feed occurs at the positions `[a, b)` of `s`.
pub open spec fn range_in_line(s: Seq<char>, a: int, b: int) -> bool {
    forall|k: int| a <= k < b ==> s[k] != '\n'
}

/// Position `i` sits between line feeds (or the text's ends): the place of
/// an empty logical line.
pub open spec fn empty_line_at(s: Seq<char>, i: int) -> bool {
    &&& i == 0 || s[i - 1] == '\n'
    &&& i == s.len() || s[i] == '\n'
}

/// The index of the first line feed of `s` at or after `from`, or the
/// text's length when none follows.
pub open spec fn next_newline(s: Seq<char>, from: int) -> int
    recommends
        0 <= from <= s.len(),
    decreases s.len() - from,
{
    if from < 0 || from >= s.len() {
        s.len() as int
    } else if s[from] == '\n' {
        from
    } else {
        next_newline(s, from + 1)
    }
}

/// `next_newline` points at the first line feed at or after `from`.
pub proof fn lemma_next_newline(s: Seq<char>, from: int)
    requires
        0 <= from <= s.len(),
    ensures
        from <= next_newline(s, from) <= s.len(),
        next_newline(s, from) < s.len() ==> s[next_newline(s, from)] == '\n',
        forall|k: int| from <= k < next_newline(s, from) ==> s[k] != '\n',
    decreases s.len() - from,
{
    if from < s.len() && s[from] != '\n' {
        lemma_next_newline(s, from + 1);
    }
}

/// Within one logical line — no line feed before `le`, and a line feed or
/// the text's end at `le` — the next line feed from any position is the
/// line's end.
pub proof fn lemma_next_newline_in_line(s: Seq<char>, x: int, le: int)
    requires
        0 <= x <= le <= s.len(),
        range_in_line(s, x, le),
        le == s.len() || s[le] == '\n',
    ensures
        next_newline(s, x) == le,
{
    lemma_next_newline(s, x);
    let nn = next_newline(s, x);
    if nn < le {
        assert(s[nn] != '\n');
    }
    if le < nn {
        assert(s[le] != '\n');
    }
}

/// The logical lines of `s` from `from` on: the maximal ranges between
/// line feeds, in order. Even empty content has one (empty) logical line.
pub open spec fn logical_lines_from(s: Seq<char>, from: int) -> Seq<(usize, usize)>
    recommends
        0 <= from <= s.len(),
    decreases s.len() - from,
        when 0 <= from <= s.len()
        via logical_lines_from_dec
{
    let end = next_newline(s, from);
    if end >= s.len() {
        seq![(from as usize, s.len() as usize)]
    } else {
        seq![(from as usize, end as usize)] + logical_lines_from(s, end + 1)
    }
}

#[via_fn]
proof fn logical_lines_from_dec(s: Seq<char>, from: int) {
    lemma_next_newline(s, from);
}

/// The logical lines of `s`.
pub open spec fn logical_lines(s: Seq<char>) -> Seq<(usize, usize)> {
    logical_lines_from(s, 0)
}

/// Whether every logical line of `s`, measured whole, fits `avail`.
pub open spec fn lines_fit<M: TextMeasure>(m: M, s: Seq<char>, avail: int) -> bool {
    forall|j: int|
        0 <= j < logical_lines(s).len() ==> m.width_spec(
            s.subrange(
                (#[trigger] logical_lines(s)[j]).0 as int,
                logical_lines(s)[j].1 as int,
            ),
        ) <= avail
}

/// The texts of the ranges `rs` of `s`, concatenated with a line feed
/// between consecutive ranges.
pub open spec fn join_ranges(s: Seq<char>, rs: Seq<(usize, usize)>) -> Seq<char>
    decreases rs.len(),
{
    if rs.len() == 0 {
        Seq::empty()
    } else if rs.len() == 1 {
        s.subrange(rs[0].0 as int, rs[0].1 as int)
    } else {
        s.subrange(rs[0].0 as int, rs[0].1 as int) + seq!['\n'] + join_ranges(s, rs.skip(1))
    }
}

proof fn lemma_reconstruct_from(s: Seq<char>, from: int)
    requires
        0 <= from <= s.len(),
        s.len() <= usize::MAX,
    ensures
        join_ranges(s, logical_lines_from(s, from)) == s.subrange(from, s.len() as int),
    decreases s.len() - from,
{
    lemma_next_newline(s, from);
    let end = next_newline(s, from);
    if end >= s.len() {
        assert(join_ranges(s, logical_lines_from(s, from)) =~= s.subrange(from, s.len() as int));
    } else {
        lemma_reconstruct_from(s, end + 1);
        let rs = logical_lines_from(s, from);
        assert(rs.skip(1) =~= logical_lines_from(s, end + 1));
        assert(join_ranges(s, rs) =~= s.subrange(from, s.len() as int));
    }
}

/// Concatenating the logical lines' texts with the line feeds reinserted
/// rebuilds the content exactly. Together with the layout guarantee that
/// content which fits the available width wraps into exactly its logical
/// lines, this is the reconstruction property of an unwrapped layout.
pub proof fn lemma_logical_lines_reconstruct(s: Seq<char>)
    requires
        s.len() <= usize::MAX,
    ensures
        join_ranges(s, logical_lines(s)) == s,
{
    lemma_reconstruct_from(s, 0);
    assert(s.subrange(0, s.len() as int) =~= s);
}

/// The greedy rule's verdict on a soft-broken segment `[s, e)` of the
/// logical line ending at `le`: some prefix `[s, p)` is the first to
/// overflow the available width (a lone first character is never counted
/// as an overflow), and the segment ends at the last break-eligible
/// position at or before `p` — or just before the overflowing character
/// when the text scanned so far has no break-eligible position.
#[verifier::opaque]
pub open spec fn greedy_break_at<M: TextMeasure>(
    m: M,
    content: Seq<char>,
    s: int,
    e: int,
    le: int,
    avail: int,
) -> bool {
    exists|p: int|
        #![trigger m.width_spec(content.subrange(s, p))]
        {
            &&& s + 1 < p <= le
            &&& m.width_spec(content.subrange(s, p)) > avail
            &&& forall|q: int|
                s < q < p && q != s + 1 ==> (#[trigger] m.width_spec(
                    content.subrange(s, q),
                )) <= avail
            &&& {
                ||| (e == p - 1 && forall|k: int|
                    s <= k < p ==> !(#[trigger] is_break_char(content[k])))
                ||| (s < e <= p && is_break_char(content[e - 1]) && forall|k: int|
                    e <= k < p ==> !(#[trigger] is_break_char(content[k])))
            }
        }
}

/// The width guarantee of one emitted segment `[a, b)`: it fits the
/// available width, unless it is a single force-broken character, or it
/// ends right after a break-eligible character that itself overflowed.
pub open spec fn seg_width_ok<M: TextMeasure>(
    m: M,
    s: Seq<char>,
    a: int,
    b: int,
    avail: int,
) -> bool {
    ||| m.width_spec(s.subrange(a, b)) <= avail
    ||| b == a + 1
    ||| (b > a && is_break_char(s[b - 1]))
}

/// The index of the first range of `rs` that contains `o` inclusively, or
/// `rs.len()` when none does. The caret can rest at either edge of a
/// visual line, so containment includes both endpoints.
pub open spec fn line_of(rs: Seq<(usize, usize)>, o: int) -> int
    decreases rs.len(),
{
    if rs.len() == 0 {
        0
    } else if rs[0].0 <= o <= rs[0].1 {
        0
    } else {
        1 + line_of(rs.subrange(1, rs.len() as int), o)
    }
}

/// `line_of` is the first containing index: it is in bounds, it contains
/// `o` when it is a real index, and no earlier range contains `o`.
pub proof fn lemma_line_of(rs: Seq<(usize, usize)>, o: int)
    ensures
        0 <= line_of(rs, o) <= rs.len(),
        line_of(rs, o) < rs.len() ==> rs[line_of(rs, o)].0 <= o <= rs[line_of(rs, o)].1,
        forall|k: int| 0 <= k < line_of(rs, o) ==> !((#[trigger] rs[k]).0 <= o <= rs[k].1),
    decreases rs.len(),
{
    if rs.len() == 0 {
    } else if rs[0].0 <= o <= rs[0].1 {
    } else {
        let tail = rs.subrange(1, rs.len() as int);
        lemma_line_of(tail, o);
        assert forall|k: int| 0 <= k < line_of(rs, o) implies !((#[trigger] rs[k]).0 <= o
            <= rs[k].1) by {
            if k > 0 {
                assert(tail[k - 1] == rs[k]);
            }
        }
        if line_of(rs, o) < rs.len() {
            assert(tail[line_of(tail, o)] == rs[line_of(rs, o)]);
        }
    }
}

/// One pass of word-wrap layout: the visual lines, as source ranges into
/// the content, in source order.
pub struct Layout {
    pub ranges: Vec<(usize, usize)>,
}

impl Layout {
    /// The ranges are ordered and stay within a content of length `len`.
    pub open spec fn wf(&self, len: int) -> bool {
        ranges_wf(self.ranges@, len)
    }

    /// The first visual line whose range contains `off` inclusively, as the
    /// caret can rest at either edge of a visual line.
    pub fn line_for_offset(&self, off: usize) -> (r: Option<usize>)
        ensures
            r == (if line_of(self.ranges@, off as int) < self.ranges@.len() {
                Some(line_of(self.ranges@, off as int) as usize)
            } else {
                None::<usize>
            }),
            match r {
                Some(j) => {
                    &&& j < self.ranges@.len()
                    &&& self.ranges@[j as int].0 <= off <= self.ranges@[j as int].1
                    &&& forall|k: int|
                        0 <= k < j ==> !((#[trigger] self.ranges@[k]).0 <= off
                            <= self.ranges@[k].1)
                },
                None => forall|k: int|
                    0 <= k < self.ranges@.len() ==> !((#[trigger] self.ranges@[k]).0 <= off
                        <= self.ranges@[k].1),
            },
    {
        proof {
            lemma_line_of(self.ranges@, off as int);
        }
        let mut j: usize = 0;
        while j < self.ranges.len()
            invariant
                j <= self.ranges@.len(),
                forall|k: int|
                    0 <= k < j ==> !((#[trigger] self.ranges@[k]).0 <= off
                        <= self.ranges@[k].1),
            decreases self.ranges@.len() - j,
        {
            let (a, b) = self.ranges[j];
            if a <= off && off <= b {
                proof {
                    lemma_line_of(self.ranges@, off as int);
                    let lo = line_of(self.ranges@, off as int);
                    if lo < j {
                        assert(!(self.ranges@[lo].0 <= off <= self.ranges@[lo].1));
                    }
                }
                return Some(j);
            }
            j = j + 1;
        }
        None
    }
}

/// A covered position stays covered when the range list grows at the end.
proof fn lemma_covered_extend(rs1: Seq<(usize, usize)>, rs2: Seq<(usize, usize)>, i: int)
    requires
        rs1.len() <= rs2.len(),
        rs2.subrange(0, rs1.len() as int) == rs1,
        covered(rs1, i),
    ensures
        covered(rs2, i),
{
    let j = choose|j: int| 0 <= j < rs1.len() && (#[trigger] rs1[j]).0 <= i < rs1[j].1;
    assert(rs2.subrange(0, rs1.len() as int)[j] == rs2[j]);
}

/// The index of the first line feed at or after `from`, or the content's
/// length when none follows.
pub fn find_line_end(content: &Vec<char>, from: usize) -> (e: usize)
    requires
        from <= content@.len(),
    ensures
        from <= e <= content@.len(),
        range_in_line(content@, from as int, e as int),
        e < content@.len() ==> content@[e as int] == '\n',
{
    let mut i: usize = from;
    while i < content.len()
        invariant
            from <= i <= content@.len(),
            range_in_line(content@, from as int, i as int),
        decreases content@.len() - i,
    {
        if content[i] == '\n' {
            return i;
        }
        i = i + 1;
    }
    i
}

/// Scan one segment of the logical line `[s, lend)` starting at `s`: the
/// end of the next visual line, placed by the greedy rule.
fn scan_break<M: TextMeasure>(
    m: &M,
    content: &Vec<char>,
    s: usize,
    lend: usize,
    avail: u64,
) -> (e: usize)
    requires
        s < lend <= content@.len(),
    ensures
        s < e <= lend,
        seg_width_ok(*m, content@, s as int, e as int, avail as int),
        m.width_spec(content@.subrange(s as int, lend as int)) <= avail as int ==> e == lend,
        e < lend ==> greedy_break_at(*m, content@, s as int, e as int, lend as int, avail as int),
{
    let mut pos: usize = s;
    let mut last_break: usize = s;
    while pos < lend
        invariant
            s <= pos <= lend <= content@.len(),
            s < lend,
            s <= last_break,
            forall|q: int|
                s < q <= pos && q != s + 1 ==> (#[trigger] m.width_spec(
                    content@.subrange(s as int, q),
                )) <= avail as int,
            last_break == s ==> forall|k: int|
                s <= k < pos ==> !(#[trigger] is_break_char(content@[k])),
            last_break > s ==> s < last_break <= pos && is_break_char(
                content@[last_break - 1],
            ) && (forall|k: int|
                last_break <= k < pos ==> !(#[trigger] is_break_char(content@[k]))),
        decreases lend - pos,
    {
        let c = content[pos];
        let newpos = pos + 1;
        let is_brk = char_is_whitespace(c) || c == '-';
        if is_brk {
            last_break = newpos;
        }
        let w = m.measure(content, s, newpos);
        if w > avail && newpos > s + 1 {
            proof {
                let whole = content@.subrange(s as int, lend as int);
                if m.width_spec(whole) <= avail as int {
                    assert(content@.subrange(s as int, newpos as int) =~= whole.subrange(
                        0,
                        newpos - s,
                    ));
                    m.width_props(whole, newpos - s);
                }
                reveal(greedy_break_at);
                let p = newpos as int;
                let e = if last_break > s {
                    last_break as int
                } else {
                    p - 1
                };
                if last_break > s {
                    if is_brk {
                        assert(last_break == newpos);
                    }
                    assert(is_break_char(content@[e - 1]));
                    assert forall|k: int| e <= k < p implies !(#[trigger] is_break_char(
                        content@[k],
                    )) by {}
                } else {
                    assert(!is_brk);
                    assert(last_break == s);
                    assert forall|k: int| s <= k < p implies !(#[trigger] is_break_char(
                        content@[k],
                    )) by {
                        if k == pos as int {
                            assert(!is_break_char(content@[k]));
                        }
                    }
                }
                assert(greedy_break_at(
                    *m,
                    content@,
                    s as int,
                    e,
                    lend as int,
                    avail as int,
                ));
            }
            if last_break > s {
                return last_break;
            } else {
                return newpos - 1;
            }
        }
        pos = newpos;
    }
    lend
}

/// What one line's wrapping adds beyond the basic range facts: the first
/// appended range starts at the line's start; every appended range either
/// reaches the line's end or is a greedy soft break; consecutive appended
/// ranges are separated exactly by a skipped run of plain spaces; and only
/// plain spaces stand between the last appended range and the line's end.
#[verifier::opaque]
pub open spec fn wrap_line_post<M: TextMeasure>(
    m: M,
    content: Seq<char>,
    old_rs: Seq<(usize, usize)>,
    rs: Seq<(usize, usize)>,
    lstart: int,
    lend: int,
    avail: int,
) -> bool {
    &&& rs[old_rs.len() as int].0 as int == lstart
    &&& forall|j: int|
        #![trigger rs[j]]
        old_rs.len() <= j < rs.len() ==> rs[j].1 as int == lend || greedy_break_at(
            m,
            content,
            rs[j].0 as int,
            rs[j].1 as int,
            lend,
            avail,
        )
    &&& forall|j: int|
        #![trigger rs[j]]
        old_rs.len() <= j < rs.len() - 1 ==> ((forall|k: int|
            rs[j].1 <= k < rs[j + 1].0 ==> (#[trigger] content[k]) == ' ') && (rs[j
            + 1].0 as int) < lend && content[rs[j + 1].0 as int] != ' ')
    &&& forall|k: int|
        rs[rs.len() - 1].1 <= k < lend ==> (#[trigger] content[k]) == ' '
}

/// Emit the visual lines of the logical line `[lstart, lend)` onto
/// `ranges`: an empty logical line yields one empty range; otherwise
/// nonempty segments that cover every character of the line except plain
/// spaces skipped after a soft break.
#[verifier::rlimit(100)]
#[verifier::spinoff_prover]
fn wrap_line<M: TextMeasure>(
    m: &M,
    content: &Vec<char>,
    lstart: usize,
    lend: usize,
    avail: u64,
    ranges: &mut Vec<(usize, usize)>,
)
    requires
        lstart <= lend <= content@.len(),
        range_in_line(content@, lstart as int, lend as int),
        ranges_wf(old(ranges)@, lstart as int),
    ensures
        final(ranges)@.len() > old(ranges)@.len(),
        final(ranges)@.subrange(0, old(ranges)@.len() as int) == old(ranges)@,
        ranges_wf(final(ranges)@, lend as int),
        forall|j: int|
            old(ranges)@.len() <= j < final(ranges)@.len() ==> {
                &&& lstart <= (#[trigger] final(ranges)@[j]).0 <= final(ranges)@[j].1 <= lend
                &&& (lstart < lend ==> final(ranges)@[j].0 < final(ranges)@[j].1)
                &&& (lstart == lend ==> final(ranges)@[j].0 == lstart
                    && final(ranges)@[j].1 == lstart)
                &&& (final(ranges)@[j].0 < final(ranges)@[j].1 ==> seg_width_ok(
                    *m,
                    content@,
                    final(ranges)@[j].0 as int,
                    final(ranges)@[j].1 as int,
                    avail as int,
                ))
            },
        forall|i: int|
            lstart <= i < lend ==> covered(final(ranges)@, i) || content@[i] == ' ',
        lstart == lend ==> final(ranges)@.len() == old(ranges)@.len() + 1,
        (lstart < lend && m.width_spec(content@.subrange(lstart as int, lend as int))
            <= avail as int) ==> (final(ranges)@.len() == old(ranges)@.len() + 1
            && final(ranges)@[old(ranges)@.len() as int] == (lstart, lend)),
        wrap_line_post(
            *m,
            content@,
            old(ranges)@,
            final(ranges)@,
            lstart as int,
            lend as int,
            avail as int,
        ),
{
    if lstart == lend {
        let ghost old_rs = ranges@;
        ranges.push((lstart, lstart));
        proof {
            assert(ranges@.subrange(0, old_rs.len() as int) =~= old_rs);
            assert(wrap_line_post(
                *m,
                content@,
                old_rs,
                ranges@,
                lstart as int,
                lend as int,
                avail as int,
            )) by {
                reveal(wrap_line_post);
            }
        }
        return ;
    }
    let mut s: usize = lstart;
    while s < lend
        invariant
            lstart <= s <= lend <= content@.len(),
            lstart < lend,
            range_in_line(content@, lstart as int, lend as int),
            old(ranges)@.len() <= ranges@.len(),
            (ranges@.len() > old(ranges)@.len()) == (s > lstart),
            s > lstart ==> ranges@[old(ranges)@.len() as int].0 == lstart,
            s == lstart || s == lend || content@[s as int] != ' ',
            ranges@.len() > old(ranges)@.len() ==> forall|k: int|
                ranges@[ranges@.len() - 1].1 <= k < s ==> (#[trigger] content@[k]) == ' ',
            forall|j: int|
                #![trigger ranges@[j]]
                old(ranges)@.len() <= j < ranges@.len() ==> ranges@[j].1 == lend
                    || greedy_break_at(
                    *m,
                    content@,
                    ranges@[j].0 as int,
                    ranges@[j].1 as int,
                    lend as int,
                    avail as int,
                ),
            forall|j: int|
                #![trigger ranges@[j]]
                old(ranges)@.len() <= j < ranges@.len() - 1 ==> ((forall|k: int|
                    ranges@[j].1 <= k < ranges@[j + 1].0 ==> (#[trigger] content@[k]) == ' ')
                    && ranges@[j + 1].0 < lend && content@[ranges@[j + 1].0 as int] != ' '),
            ranges@.subrange(0, old(ranges)@.len() as int) == old(ranges)@,
            ranges_wf(ranges@, s as int),
            forall|j: int|
                old(ranges)@.len() <= j < ranges@.len() ==> {
                    &&& lstart <= (#[trigger] ranges@[j]).0 < ranges@[j].1 <= lend
                    &&& seg_width_ok(
                        *m,
                        content@,
                        ranges@[j].0 as int,
                        ranges@[j].1 as int,
                        avail as int,
                    )
                },
            forall|i: int| lstart <= i < s ==> covered(ranges@, i) || content@[i] == ' ',
            m.width_spec(content@.subrange(lstart as int, lend as int)) <= avail as int ==> ((s
                == lstart && ranges@ == old(ranges)@) || (s == lend && ranges@.len()
                == old(ranges)@.len() + 1 && ranges@[old(ranges)@.len() as int] == (
            lstart,
            lend,
            ))),
        decreases lend - s,
    {
        let e = scan_break(m, content, s, lend, avail);
        let ghost rs_before = ranges@;
        ranges.push((s, e));
        proof {
            assert(ranges@.subrange(0, old(ranges)@.len() as int) =~= rs_before.subrange(
                0,
                old(ranges)@.len() as int,
            ));
            assert(ranges@.subrange(0, rs_before.len() as int) =~= rs_before);
            assert forall|j: int| 0 <= j < rs_before.len() implies #[trigger] ranges@[j]
                == rs_before[j] by {
                assert(ranges@.subrange(0, rs_before.len() as int)[j] == ranges@[j]);
            }
            assert(ranges@[rs_before.len() as int] == (s, e));
            assert forall|i: int| lstart <= i < e implies covered(ranges@, i) || content@[i]
                == ' ' by {
                if i < s {
                    if covered(rs_before, i) {
                        lemma_covered_extend(rs_before, ranges@, i);
                    }
                } else {
                    assert((#[trigger] ranges@[rs_before.len() as int]).0 <= i
                        < ranges@[rs_before.len() as int].1);
                }
            }
            assert forall|j: int|
                #![trigger ranges@[j]]
                old(ranges)@.len() <= j < ranges@.len() implies ranges@[j].1 == lend
                    || greedy_break_at(
                *m,
                content@,
                ranges@[j].0 as int,
                ranges@[j].1 as int,
                lend as int,
                avail as int,
            ) by {
                if j < rs_before.len() {
                    assert(ranges@[j] == rs_before[j]);
                }
            }
            assert forall|j: int|
                #![trigger ranges@[j]]
                old(ranges)@.len() <= j < ranges@.len() - 1 implies ((forall|k: int|
                ranges@[j].1 <= k < ranges@[j + 1].0 ==> (#[trigger] content@[k]) == ' ')
                && ranges@[j + 1].0 < lend && content@[ranges@[j + 1].0 as int] != ' ') by {
                if j + 1 < rs_before.len() {
                    assert(ranges@[j] == rs_before[j]);
                    assert(ranges@[j + 1] == rs_before[j + 1]);
                } else {
                    assert(j == rs_before.len() - 1);
                    assert(ranges@[j] == rs_before[j]);
                    assert(ranges@[j + 1] == (s, e));
                    assert(s > lstart);
                    assert(content@[s as int] != ' ');
                }
            }
        }
        let mut t: usize = e;
        while t < lend && content[t] == ' '
            invariant
                e <= t <= lend <= content@.len(),
                forall|i: int| e <= i < t ==> content@[i] == ' ',
            decreases lend - t,
        {
            t = t + 1;
        }
        proof {
            assert forall|i: int| lstart <= i < t implies covered(ranges@, i) || content@[i]
                == ' ' by {}
        }
        s = t;
    }
    proof {
        assert(wrap_line_post(
            *m,
            content@,
            old(ranges)@,
            ranges@,
            lstart as int,
            lend as int,
            avail as int,
        )) by {
            reveal(wrap_line_post);
        }
    }
}

/// The whole-layout bookkeeping of the wrap loop, over the ranges emitted
/// for the content below `bound`: the first range starts at 0; every range
/// and its logical line end before `bound`; every non-line-final range is
/// a greedy soft break; a following range in the same logical line starts
/// at the first non-space after its predecessor; every logical line start
/// below `bound` begins some range; and no two empty ranges coincide.
#[verifier::opaque]
pub open spec fn layout_inv<M: TextMeasure>(
    m: M,
    content: Seq<char>,
    rs: Seq<(usize, usize)>,
    bound: int,
    avail: int,
) -> bool {
    &&& (rs.len() == 0) == (bound == 0)
    &&& rs.len() > 0 ==> rs[0].0 == 0
    &&& forall|j: int| 0 <= j < rs.len() ==> (#[trigger] rs[j]).1 < bound
    &&& forall|j: int|
        0 <= j < rs.len() ==> next_newline(content, (#[trigger] rs[j]).0 as int) < bound
    &&& forall|j: int|
        #![trigger rs[j]]
        0 <= j < rs.len() ==> rs[j].1 as int == next_newline(content, rs[j].0 as int)
            || greedy_break_at(
            m,
            content,
            rs[j].0 as int,
            rs[j].1 as int,
            next_newline(content, rs[j].0 as int),
            avail,
        )
    &&& forall|j: int|
        #![trigger rs[j]]
        0 <= j < rs.len() - 1 && rs[j + 1].0 as int <= next_newline(content, rs[j].0 as int)
            ==> ((forall|k: int|
            rs[j].1 <= k < rs[j + 1].0 ==> (#[trigger] content[k]) == ' ') && (rs[j
            + 1].0 as int) < next_newline(content, rs[j].0 as int) && content[rs[j
            + 1].0 as int] != ' ')
    &&& forall|i: int|
        #![trigger content[i - 1]]
        0 < i < bound && content[i - 1] == '\n' ==> exists|jj: int|
            0 <= jj < rs.len() && (#[trigger] rs[jj]).0 == i
    &&& forall|j: int, k: int|
        0 <= j < rs.len() && 0 <= k < rs.len() && (#[trigger] rs[j]).0 == rs[j].1 && (
        #[trigger] rs[k]).0 == rs[k].1 && rs[j].0 == rs[k].0 ==> j == k
}

/// One line of the layout loop, digested: from the invariants that held
/// before the line `[lstart, lend)` was wrapped and the facts `wrap_line`
/// guarantees about the appended ranges, the whole-layout invariants hold
/// again for the grown range list.
proof fn lemma_layout_step<M: TextMeasure>(
    m: M,
    content: Seq<char>,
    rs_before: Seq<(usize, usize)>,
    rs: Seq<(usize, usize)>,
    lstart: int,
    lend: int,
    avail: int,
)
    requires
        0 <= lstart <= lend <= content.len(),
        lstart == 0 || content[lstart - 1] == '\n',
        lend == content.len() || content[lend] == '\n',
        range_in_line(content, lstart, lend),
        layout_inv(m, content, rs_before, lstart, avail),
        rs.len() > rs_before.len(),
        rs.subrange(0, rs_before.len() as int) == rs_before,
        ranges_wf(rs, lend),
        forall|j: int|
            rs_before.len() <= j < rs.len() ==> {
                &&& lstart <= (#[trigger] rs[j]).0 <= rs[j].1 <= lend
                &&& (lstart < lend ==> rs[j].0 < rs[j].1)
                &&& (lstart == lend ==> rs[j].0 as int == lstart && rs[j].1 as int == lstart)
            },
        lstart == lend ==> rs.len() == rs_before.len() + 1,
        wrap_line_post(m, content, rs_before, rs, lstart, lend, avail),
    ensures
        layout_inv(m, content, rs, lend + 1, avail),
{
    reveal(layout_inv);
    reveal(wrap_line_post);
    assert forall|j: int| 0 <= j < rs_before.len() implies #[trigger] rs[j] == rs_before[j] by {
        assert(rs.subrange(0, rs_before.len() as int)[j] == rs[j]);
    }
    assert forall|j: int|
        rs_before.len() <= j < rs.len() implies next_newline(
        content,
        (#[trigger] rs[j]).0 as int,
    ) == lend by {
        lemma_next_newline_in_line(content, rs[j].0 as int, lend);
    }
    assert forall|j: int|
        #![trigger rs[j]]
        0 <= j < rs.len() - 1 && rs[j + 1].0 as int <= next_newline(content, rs[j].0 as int)
        implies ((forall|k: int|
        rs[j].1 <= k < rs[j + 1].0 ==> (#[trigger] content[k]) == ' ') && (rs[j + 1].0 as int)
        < next_newline(content, rs[j].0 as int) && content[rs[j + 1].0 as int] != ' ') by {
        if j + 1 == rs_before.len() {
            assert(next_newline(content, rs[j].0 as int) < lstart);
            assert(rs[j + 1].0 as int == lstart);
        }
    }
    assert forall|i: int|
        #![trigger content[i - 1]]
        0 < i < lend + 1 && content[i - 1] == '\n' implies exists|jj: int|
        0 <= jj < rs.len() && (#[trigger] rs[jj]).0 == i by {
        if i < lstart {
            let w = choose|w: int| 0 <= w < rs_before.len() && (#[trigger] rs_before[w]).0 == i;
            assert(rs[w].0 == i);
        } else if i == lstart {
            assert(rs[rs_before.len() as int].0 as int == lstart);
        } else {
            assert(content[i - 1] != '\n');
        }
    }
    assert forall|j: int, k: int|
        0 <= j < rs.len() && 0 <= k < rs.len() && (#[trigger] rs[j]).0 == rs[j].1 && (
    #[trigger] rs[k]).0 == rs[k].1 && rs[j].0 == rs[k].0 implies j == k by {
        if j < rs_before.len() && k >= rs_before.len() {
            assert(rs[j].1 < lstart);
            assert(lstart <= rs[k].0);
        }
        if k < rs_before.len() && j >= rs_before.len() {
            assert(rs[k].1 < lstart);
            assert(lstart <= rs[j].0);
        }
        if j >= rs_before.len() && k >= rs_before.len() && j != k {
            if lstart < lend {
                assert(rs[j].0 < rs[j].1);
            } else {
                assert(rs.len() == rs_before.len() + 1);
            }
        }
    }
    if rs_before.len() == 0 {
        assert(rs[0].0 as int == lstart);
    }
}

/// Compute the word-wrap layout of `content` against `avail`.
///
/// The ensured clauses pin the layout down: the ranges are ordered and in
/// bounds, and the first starts at 0; every character is covered by some
/// visual line except the line feeds that separate logical lines and the
/// plain spaces skipped after a soft break; no visual line crosses a line
/// feed; an empty visual line stands exactly at an empty logical line, and
/// no two coincide; every visual line either reaches its logical line's
/// end or ends at the greedy soft-break position — the last break-eligible
/// position at or before the first overflowing prefix, or just before the
/// overflowing character of an unbreakable run; a following visual line in
/// the same logical line starts at the first non-space after its
/// predecessor; every logical line start begins a visual line; every
/// nonempty visual line obeys the width rule; and content whose logical
/// lines all fit is laid out as exactly those logical lines.
#[verifier::rlimit(100)]
pub fn wrap_layout<M: TextMeasure>(m: &M, content: &Vec<char>, avail: u64) -> (l: Layout)
    ensures
        l.wf(content@.len() as int),
        l.ranges@.len() >= 1,
        l.ranges@[0].0 == 0,
        forall|i: int|
            0 <= i < content@.len() && !covered(l.ranges@, i) ==> content@[i] == '\n'
                || content@[i] == ' ',
        forall|j: int|
            0 <= j < l.ranges@.len() ==> range_in_line(
                content@,
                (#[trigger] l.ranges@[j]).0 as int,
                l.ranges@[j].1 as int,
            ),
        forall|j: int|
            0 <= j < l.ranges@.len() && (#[trigger] l.ranges@[j]).0 == l.ranges@[j].1
                ==> empty_line_at(content@, l.ranges@[j].0 as int),
        forall|j: int|
            0 <= j < l.ranges@.len() && (#[trigger] l.ranges@[j]).0 < l.ranges@[j].1
                ==> seg_width_ok(
                *m,
                content@,
                l.ranges@[j].0 as int,
                l.ranges@[j].1 as int,
                avail as int,
            ),
        forall|j: int|
            #![trigger l.ranges@[j]]
            0 <= j < l.ranges@.len() ==> l.ranges@[j].1 as int == next_newline(
                content@,
                l.ranges@[j].0 as int,
            ) || greedy_break_at(
                *m,
                content@,
                l.ranges@[j].0 as int,
                l.ranges@[j].1 as int,
                next_newline(content@, l.ranges@[j].0 as int),
                avail as int,
            ),
        forall|j: int|
            #![trigger l.ranges@[j]]
            0 <= j < l.ranges@.len() - 1 && l.ranges@[j + 1].0 as int <= next_newline(
                content@,
                l.ranges@[j].0 as int,
            ) ==> ((forall|k: int|
                l.ranges@[j].1 <= k < l.ranges@[j + 1].0 ==> (#[trigger] content@[k]) == ' ')
                && (l.ranges@[j + 1].0 as int) < next_newline(content@, l.ranges@[j].0 as int)
                && content@[l.ranges@[j + 1].0 as int] != ' '),
        forall|i: int|
            #![trigger content@[i - 1]]
            0 < i <= content@.len() && content@[i - 1] == '\n' ==> exists|jj: int|
                0 <= jj < l.ranges@.len() && (#[trigger] l.ranges@[jj]).0 == i,
        forall|j: int, k: int|
            0 <= j < l.ranges@.len() && 0 <= k < l.ranges@.len() && (#[trigger] l.ranges@[j]).0
                == l.ranges@[j].1 && (#[trigger] l.ranges@[k]).0 == l.ranges@[k].1
                && l.ranges@[j].0 == l.ranges@[k].0 ==> j == k,
        lines_fit(*m, content@, avail as int) ==> l.ranges@ == logical_lines(content@),
{
    let mut ranges: Vec<(usize, usize)> = Vec::new();
    let mut lstart: usize = 0;
    proof {
        assert(layout_inv(*m, content@, ranges@, 0, avail as int)) by {
            reveal(layout_inv);
        }
    }
    loop
        invariant_except_break
            lstart <= content@.len(),
            lstart == 0 || content@[lstart - 1] == '\n',
            layout_inv(*m, content@, ranges@, lstart as int, avail as int),
            ranges_wf(ranges@, lstart as int),
            forall|i: int|
                0 <= i < lstart && !covered(ranges@, i) ==> content@[i] == '\n' || content@[i]
                    == ' ',
            forall|j: int|
                0 <= j < ranges@.len() ==> range_in_line(
                    content@,
                    (#[trigger] ranges@[j]).0 as int,
                    ranges@[j].1 as int,
                ),
            forall|j: int|
                0 <= j < ranges@.len() && (#[trigger] ranges@[j]).0 == ranges@[j].1
                    ==> empty_line_at(content@, ranges@[j].0 as int),
            forall|j: int|
                0 <= j < ranges@.len() && (#[trigger] ranges@[j]).0 < ranges@[j].1
                    ==> seg_width_ok(
                    *m,
                    content@,
                    ranges@[j].0 as int,
                    ranges@[j].1 as int,
                    avail as int,
                ),
            lines_fit(*m, content@, avail as int) ==> logical_lines(content@) == ranges@
                + logical_lines_from(content@, lstart as int),
        ensures
            layout_inv(*m, content@, ranges@, content@.len() as int + 1, avail as int),
            ranges_wf(ranges@, content@.len() as int),
            ranges@.len() >= 1,
            forall|i: int|
                0 <= i < content@.len() && !covered(ranges@, i) ==> content@[i] == '\n'
                    || content@[i] == ' ',
            forall|j: int|
                0 <= j < ranges@.len() ==> range_in_line(
                    content@,
                    (#[trigger] ranges@[j]).0 as int,
                    ranges@[j].1 as int,
                ),
            forall|j: int|
                0 <= j < ranges@.len() && (#[trigger] ranges@[j]).0 == ranges@[j].1
                    ==> empty_line_at(content@, ranges@[j].0 as int),
            forall|j: int|
                0 <= j < ranges@.len() && (#[trigger] ranges@[j]).0 < ranges@[j].1
                    ==> seg_width_ok(
                    *m,
                    content@,
                    ranges@[j].0 as int,
                    ranges@[j].1 as int,
                    avail as int,
                ),
            lines_fit(*m, content@, avail as int) ==> ranges@ == logical_lines(content@),
        decreases content@.len() - lstart + 1,
    {
        let lend = find_line_end(content, lstart);
        let ghost rs_before = ranges@;
        wrap_line(m, content, lstart, lend, avail, &mut ranges);
        proof {
            lemma_next_newline_in_line(content@, lstart as int, lend as int);
            assert forall|j: int| 0 <= j < rs_before.len() implies #[trigger] ranges@[j]
                == rs_before[j] by {
                assert(ranges@.subrange(0, rs_before.len() as int)[j] == ranges@[j]);
            }
            assert forall|i: int|
                0 <= i < lend && !covered(ranges@, i) implies content@[i] == '\n' || content@[i]
                == ' ' by {
                if i < lstart {
                    if covered(rs_before, i) {
                        lemma_covered_extend(rs_before, ranges@, i);
                    }
                }
            }
            assert forall|j: int|
                0 <= j < ranges@.len() && (#[trigger] ranges@[j]).0 == ranges@[j].1
                    implies empty_line_at(content@, ranges@[j].0 as int) by {
                if j >= rs_before.len() {
                    assert(lstart <= ranges@[j].0 <= ranges@[j].1 <= lend);
                }
            }
            lemma_layout_step(
                *m,
                content@,
                rs_before,
                ranges@,
                lstart as int,
                lend as int,
                avail as int,
            );
            if lines_fit(*m, content@, avail as int) {
                let ll = logical_lines(content@);
                let rest = logical_lines_from(content@, lstart as int);
                assert(rest[0] == (lstart, lend));
                assert(ll[rs_before.len() as int] == rest[0]);
                assert(m.width_spec(content@.subrange(lstart as int, lend as int))
                    <= avail as int);
                assert(ranges@ =~= rs_before.push((lstart, lend)));
                if (lend as int) < content@.len() {
                    assert(rest =~= seq![(lstart, lend)] + logical_lines_from(
                        content@,
                        lend as int + 1,
                    ));
                    assert(ll =~= ranges@ + logical_lines_from(content@, lend as int + 1));
                } else {
                    assert(rest =~= seq![(lstart, lend)]);
                    assert(ll =~= ranges@);
                }
            }
        }
        if lend == content.len() {
            break ;
        }
        lstart = lend + 1;
    }
    proof {
        reveal(layout_inv);
    }
    Layout { ranges }
}

} // verus!
