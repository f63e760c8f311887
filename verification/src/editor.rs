//! The editing engine: one state machine owning the text buffer, the
//! selection — a fixed anchor and a moving active endpoint, read
//! normalized — the optional IME marked range, the last computed layout,
//! and the vertical scroll state. Every operation keeps both selection
//! endpoints inside the buffer, and every content mutation invalidates
//! the layout snapshot, so geometry queries never read ranges that
//! outlive the text they were computed from.

use vstd::prelude::*;
use crate::boundary::next_boundary;
use crate::boundary::next_boundary_spec;
use crate::boundary::prev_boundary;
use crate::boundary::prev_boundary_spec;
use crate::text::chars_to_string;
use crate::text::splice;
use crate::text::splice_vec;
use crate::text::str_to_chars;
use crate::text::subrange_eq;
use crate::text::subrange_vec;
use crate::measure::mul_sat;
use crate::measure::sat64;
use crate::measure::TextMeasure;
use crate::wrap::line_of;
use crate::wrap::Layout;

verus! {

pub struct Editor {
    /// The buffer's text.
    pub content: Vec<char>,
    /// The selection's fixed endpoint: where the selection began.
    pub anchor: usize,
    /// The selection's moving endpoint: the caret.
    pub active: usize,
    /// The range under IME composition, when one is active.
    pub marked: Option<(usize, usize)>,
    /// The last layout pass's visual lines, until an edit invalidates them.
    pub layout: Option<Layout>,
    /// The viewport height of the last layout pass.
    pub viewport_height: Option<u64>,
    /// The vertical scroll offset.
    pub scroll_y: u64,
    /// Whether the content differs from the last saved snapshot.
    pub modified: bool,
    /// Whether focus mode dims every visual line but the caret's.
    pub focus_mode: bool,
    /// One-shot request to scroll the caret into view on the next pass.
    pub pending_scroll: bool,
}

impl Editor {
    /// The state's invariant: both selection endpoints are in bounds, the
    /// marked range is a valid range, and the layout fits the content.
    pub open spec fn wf(&self) -> bool {
        &&& self.anchor <= self.content@.len()
        &&& self.active <= self.content@.len()
        &&& match self.marked {
            Some((a, b)) => a <= b <= self.content@.len(),
            None => true,
        }
        &&& match self.layout {
            Some(l) => l.wf(self.content@.len() as int),
            None => true,
        }
    }

    /// The normalized selection's start: the smaller endpoint.
    pub open spec fn sel_start(&self) -> int {
        if self.anchor <= self.active {
            self.anchor as int
        } else {
            self.active as int
        }
    }

    /// The normalized selection's end: the larger endpoint.
    pub open spec fn sel_end(&self) -> int {
        if self.anchor <= self.active {
            self.active as int
        } else {
            self.anchor as int
        }
    }
}

/// Everything but the selection and the pending-scroll flag is unchanged.
pub open spec fn same_but_selection(o: Editor, n: Editor) -> bool {
    &&& n.content == o.content
    &&& n.marked == o.marked
    &&& n.layout == o.layout
    &&& n.viewport_height == o.viewport_height
    &&& n.scroll_y == o.scroll_y
    &&& n.modified == o.modified
    &&& n.focus_mode == o.focus_mode
}

/// What a range replacement leaves behind: the spliced content, a caret
/// after the inserted text, no marked range, no stale layout, and the
/// modified flag raised exactly when the splice changed the text. When
/// `scroll_req` holds the operation also requests caret visibility;
/// otherwise it leaves the request as it was.
pub open spec fn replace_post(
    o: Editor,
    n: Editor,
    a: int,
    b: int,
    t: Seq<char>,
    scroll_req: bool,
) -> bool {
    &&& n.content@ == splice(o.content@, a, b, t)
    &&& n.anchor as int == a + t.len()
    &&& n.active == n.anchor
    &&& n.marked is None
    &&& n.layout is None
    &&& n.modified == (o.modified || o.content@.subrange(a, b) != t)
    &&& n.pending_scroll == (scroll_req || o.pending_scroll)
    &&& n.scroll_y == o.scroll_y
    &&& n.viewport_height == o.viewport_height
    &&& n.focus_mode == o.focus_mode
}

/// The range an IME replacement acts on: the caller's range if given, else
/// the active marked range, else the current selection.
pub open spec fn effective_range(e: Editor, range: Option<(usize, usize)>) -> (int, int) {
    match range {
        Some((a, b)) => (a as int, b as int),
        None => match e.marked {
            Some((a, b)) => (a as int, b as int),
            None => (e.sel_start(), e.sel_end()),
        },
    }
}

/// The range a backspace removes: the selection, or one boundary step back
/// from a caret.
pub open spec fn backspace_range(e: Editor) -> (int, int) {
    if e.anchor == e.active {
        (prev_boundary_spec(e.content@, e.active as int), e.active as int)
    } else {
        (e.sel_start(), e.sel_end())
    }
}

/// The range a forward delete removes: the selection, or one boundary step
/// forward from a caret.
pub open spec fn delete_range(e: Editor) -> (int, int) {
    if e.anchor == e.active {
        (e.active as int, next_boundary_spec(e.content@, e.active as int))
    } else {
        (e.sel_start(), e.sel_end())
    }
}

impl Editor {
    /// A fresh, empty, unmodified editor.
    pub fn new(focus_mode: bool) -> (e: Editor)
        ensures
            e.wf(),
            e.content@ == Seq::<char>::empty(),
            e.anchor == 0 && e.active == 0,
            e.marked is None,
            e.layout is None,
            e.viewport_height is None,
            e.scroll_y == 0,
            !e.modified,
            e.focus_mode == focus_mode,
            !e.pending_scroll,
    {
        Editor {
            content: Vec::new(),
            anchor: 0,
            active: 0,
            marked: None,
            layout: None,
            viewport_height: None,
            scroll_y: 0,
            modified: false,
            focus_mode,
            pending_scroll: false,
        }
    }

    /// The buffer's text.
    pub fn content(&self) -> (s: String)
        ensures
            s@ == self.content@,
    {
        chars_to_string(&self.content)
    }

    /// Whether the buffer differs from the last saved snapshot.
    pub fn is_modified(&self) -> (r: bool)
        ensures
            r == self.modified,
    {
        self.modified
    }

    /// Record that the persistence collaborator wrote the buffer out.
    pub fn mark_saved(&mut self)
        requires
            old(self).wf(),
        ensures
            final(self).wf(),
            !final(self).modified,
            same_but_selection(Editor { modified: false, ..*old(self) }, *final(self)),
            final(self).anchor == old(self).anchor,
            final(self).active == old(self).active,
            final(self).pending_scroll == old(self).pending_scroll,
    {
        self.modified = false;
    }

    /// Flip focus mode and report the new setting.
    pub fn toggle_focus_mode(&mut self) -> (r: bool)
        requires
            old(self).wf(),
        ensures
            final(self).wf(),
            final(self).focus_mode == !old(self).focus_mode,
            r == final(self).focus_mode,
            final(self).content == old(self).content,
            final(self).anchor == old(self).anchor,
            final(self).active == old(self).active,
            final(self).marked == old(self).marked,
            final(self).layout == old(self).layout,
            final(self).viewport_height == old(self).viewport_height,
            final(self).scroll_y == old(self).scroll_y,
            final(self).modified == old(self).modified,
            final(self).pending_scroll == old(self).pending_scroll,
    {
        self.focus_mode = !self.focus_mode;
        self.focus_mode
    }

    /// The normalized selection: the two endpoints, ordered.
    pub fn selected_text_range(&self) -> (r: (usize, usize))
        ensures
            r.0 as int == self.sel_start(),
            r.1 as int == self.sel_end(),
    {
        if self.anchor <= self.active {
            (self.anchor, self.active)
        } else {
            (self.active, self.anchor)
        }
    }

    /// The active IME marked range, if any.
    pub fn marked_text_range(&self) -> (r: Option<(usize, usize)>)
        ensures
            r == self.marked,
    {
        self.marked
    }

    /// End IME composition without touching content or selection.
    pub fn unmark_text(&mut self)
        requires
            old(self).wf(),
        ensures
            final(self).wf(),
            final(self).marked is None,
            same_but_selection(Editor { marked: None, ..*old(self) }, *final(self)),
            final(self).anchor == old(self).anchor,
            final(self).active == old(self).active,
            final(self).pending_scroll == old(self).pending_scroll,
    {
        self.marked = None;
    }

    /// The text the input method may query: the whole buffer.
    pub fn text_for_range(&self) -> (s: String)
        ensures
            s@ == self.content@,
    {
        chars_to_string(&self.content)
    }

    /// Collapse the selection to a caret at `off` and request visibility.
    pub fn move_to(&mut self, off: usize)
        requires
            old(self).wf(),
            off <= old(self).content@.len(),
        ensures
            final(self).wf(),
            same_but_selection(*old(self), *final(self)),
            final(self).anchor == off && final(self).active == off,
            final(self).pending_scroll,
    {
        self.anchor = off;
        self.active = off;
        self.pending_scroll = true;
    }

    /// Move the selection's active endpoint to `off`, leaving the anchor
    /// fixed; the selection always reads normalized.
    pub fn select_to(&mut self, off: usize)
        requires
            old(self).wf(),
            off <= old(self).content@.len(),
        ensures
            final(self).wf(),
            same_but_selection(*old(self), *final(self)),
            final(self).anchor == old(self).anchor,
            final(self).active == off,
            final(self).pending_scroll == old(self).pending_scroll,
    {
        self.active = off;
    }

    /// Select the whole buffer.
    pub fn select_all(&mut self)
        requires
            old(self).wf(),
        ensures
            final(self).wf(),
            same_but_selection(*old(self), *final(self)),
            final(self).anchor == 0,
            final(self).active == old(self).content@.len(),
            final(self).pending_scroll == old(self).pending_scroll,
    {
        self.anchor = 0;
        self.active = self.content.len();
    }

    /// Move the caret one step left, or collapse a selection to its start.
    pub fn left(&mut self)
        requires
            old(self).wf(),
        ensures
            final(self).wf(),
            same_but_selection(*old(self), *final(self)),
            final(self).pending_scroll,
            ({
                let tgt = if old(self).anchor == old(self).active {
                    prev_boundary_spec(old(self).content@, old(self).active as int)
                } else {
                    old(self).sel_start()
                };
                final(self).anchor as int == tgt && final(self).active as int == tgt
            }),
    {
        let (a, b) = self.selected_text_range();
        if a == b {
            let p = prev_boundary(&self.content, a);
            self.move_to(p);
        } else {
            self.move_to(a);
        }
    }

    /// Move the caret one step right, or collapse a selection to its end.
    pub fn right(&mut self)
        requires
            old(self).wf(),
        ensures
            final(self).wf(),
            same_but_selection(*old(self), *final(self)),
            final(self).pending_scroll,
            ({
                let tgt = if old(self).anchor == old(self).active {
                    next_boundary_spec(old(self).content@, old(self).active as int)
                } else {
                    old(self).sel_end()
                };
                final(self).anchor as int == tgt && final(self).active as int == tgt
            }),
    {
        let (a, b) = self.selected_text_range();
        if a == b {
            let p = next_boundary(&self.content, b);
            self.move_to(p);
        } else {
            self.move_to(b);
        }
    }

    /// Extend the selection one boundary step to the left: only the
    /// active endpoint moves, the anchor stays fixed.
    pub fn select_left(&mut self)
        requires
            old(self).wf(),
        ensures
            final(self).wf(),
            same_but_selection(*old(self), *final(self)),
            final(self).pending_scroll == old(self).pending_scroll,
            final(self).anchor == old(self).anchor,
            final(self).active as int == prev_boundary_spec(
                old(self).content@,
                old(self).active as int,
            ),
    {
        let p = prev_boundary(&self.content, self.active);
        self.select_to(p);
    }

    /// Extend the selection one boundary step to the right: only the
    /// active endpoint moves, the anchor stays fixed.
    pub fn select_right(&mut self)
        requires
            old(self).wf(),
        ensures
            final(self).wf(),
            same_but_selection(*old(self), *final(self)),
            final(self).pending_scroll == old(self).pending_scroll,
            final(self).anchor == old(self).anchor,
            final(self).active as int == next_boundary_spec(
                old(self).content@,
                old(self).active as int,
            ),
    {
        let p = next_boundary(&self.content, self.active);
        self.select_to(p);
    }

    /// Replace `[start, end)` of the content with `t`, leaving a caret
    /// after the inserted text. The shared core of every edit operation.
    fn splice_core(&mut self, start: usize, end: usize, t: &Vec<char>) -> (changed: bool)
        requires
            old(self).wf(),
            start <= end <= old(self).content@.len(),
        ensures
            final(self).wf(),
            changed == (old(self).content@.subrange(start as int, end as int) != t@),
            final(self).content@ == splice(old(self).content@, start as int, end as int, t@),
            final(self).anchor as int == start + t@.len(),
            final(self).active == final(self).anchor,
            final(self).marked is None,
            final(self).layout is None,
            final(self).modified == (old(self).modified || changed),
            final(self).pending_scroll == old(self).pending_scroll,
            final(self).scroll_y == old(self).scroll_y,
            final(self).viewport_height == old(self).viewport_height,
            final(self).focus_mode == old(self).focus_mode,
    {
        let changed = !subrange_eq(&self.content, start, end, t);
        let new_content = splice_vec(&self.content, start, end, t);
        self.content = new_content;
        let n = self.content.len();
        proof {
            assert(n == start + t@.len() + (old(self).content@.len() - end));
        }
        let caret = start + t.len();
        self.anchor = caret;
        self.active = caret;
        self.marked = None;
        self.layout = None;
        if changed {
            self.modified = true;
        }
        changed
    }

    /// Replace `[start, end)` with `new_text`: the core edit. The caret
    /// lands after the insertion, composition ends, the layout snapshot is
    /// invalidated, caret visibility is requested, and the buffer counts as
    /// modified exactly when the text actually changed.
    pub fn replace_text(&mut self, start: usize, end: usize, new_text: &str) -> (changed: bool)
        requires
            old(self).wf(),
            start <= end <= old(self).content@.len(),
        ensures
            final(self).wf(),
            replace_post(*old(self), *final(self), start as int, end as int, new_text@, true),
            changed == (old(self).content@.subrange(start as int, end as int) != new_text@),
    {
        let t = str_to_chars(new_text);
        let changed = self.splice_core(start, end, &t);
        self.pending_scroll = true;
        changed
    }

    /// Remove the selection, or one boundary step back from a caret.
    pub fn backspace(&mut self) -> (changed: bool)
        requires
            old(self).wf(),
        ensures
            final(self).wf(),
            replace_post(
                *old(self),
                *final(self),
                backspace_range(*old(self)).0,
                backspace_range(*old(self)).1,
                Seq::<char>::empty(),
                true,
            ),
            changed == (backspace_range(*old(self)).0 < backspace_range(*old(self)).1),
    {
        let (sa, sb) = self.selected_text_range();
        let (a, b) = if sa == sb {
            (prev_boundary(&self.content, sa), sa)
        } else {
            (sa, sb)
        };
        let t: Vec<char> = Vec::new();
        let changed = self.splice_core(a, b, &t);
        self.pending_scroll = true;
        proof {
            if a == b {
                assert(old(self).content@.subrange(a as int, b as int) =~= Seq::<char>::empty());
            }
        }
        changed
    }

    /// Remove the selection, or one boundary step forward from a caret.
    pub fn delete(&mut self) -> (changed: bool)
        requires
            old(self).wf(),
        ensures
            final(self).wf(),
            replace_post(
                *old(self),
                *final(self),
                delete_range(*old(self)).0,
                delete_range(*old(self)).1,
                Seq::<char>::empty(),
                true,
            ),
            changed == (delete_range(*old(self)).0 < delete_range(*old(self)).1),
    {
        let (sa, sb) = self.selected_text_range();
        let (a, b) = if sa == sb {
            (sb, next_boundary(&self.content, sb))
        } else {
            (sa, sb)
        };
        let t: Vec<char> = Vec::new();
        let changed = self.splice_core(a, b, &t);
        self.pending_scroll = true;
        proof {
            if a == b {
                assert(old(self).content@.subrange(a as int, b as int) =~= Seq::<char>::empty());
            }
        }
        changed
    }

    /// Replace the selection with a line feed.
    pub fn newline(&mut self)
        requires
            old(self).wf(),
        ensures
            final(self).wf(),
            replace_post(
                *old(self),
                *final(self),
                old(self).sel_start(),
                old(self).sel_end(),
                seq!['\n'],
                true,
            ),
    {
        let mut t: Vec<char> = Vec::new();
        t.push('\n');
        proof {
            assert(t@ =~= seq!['\n']);
        }
        let (a, b) = self.selected_text_range();
        self.splice_core(a, b, &t);
        self.pending_scroll = true;
    }

    /// The selected text, for the clipboard; `None` for a caret. Does not
    /// mutate.
    pub fn copy(&self) -> (r: Option<String>)
        requires
            self.wf(),
        ensures
            match r {
                Some(s) => self.sel_start() < self.sel_end() && s@ == self.content@.subrange(
                    self.sel_start(),
                    self.sel_end(),
                ),
                None => self.sel_start() == self.sel_end(),
            },
    {
        let (a, b) = self.selected_text_range();
        if a == b {
            None
        } else {
            let v = subrange_vec(&self.content, a, b);
            Some(chars_to_string(&v))
        }
    }

    /// Remove the selected text and hand it out for the clipboard; a caret
    /// leaves the state untouched.
    pub fn cut(&mut self) -> (r: Option<String>)
        requires
            old(self).wf(),
        ensures
            final(self).wf(),
            match r {
                Some(s) => {
                    &&& old(self).sel_start() < old(self).sel_end()
                    &&& s@ == old(self).content@.subrange(
                        old(self).sel_start(),
                        old(self).sel_end(),
                    )
                    &&& replace_post(
                        *old(self),
                        *final(self),
                        old(self).sel_start(),
                        old(self).sel_end(),
                        Seq::<char>::empty(),
                        true,
                    )
                },
                None => old(self).sel_start() == old(self).sel_end() && *final(self) == *old(
                    self,
                ),
            },
    {
        let (a, b) = self.selected_text_range();
        if a == b {
            return None;
        }
        let v = subrange_vec(&self.content, a, b);
        let s = chars_to_string(&v);
        let t: Vec<char> = Vec::new();
        self.splice_core(a, b, &t);
        self.pending_scroll = true;
        Some(s)
    }

    /// Insert clipboard text over the selection; an empty clipboard is a
    /// no-op, not a failure.
    pub fn paste(&mut self, text: Option<&str>) -> (changed: bool)
        requires
            old(self).wf(),
        ensures
            final(self).wf(),
            match text {
                Some(t) => replace_post(
                    *old(self),
                    *final(self),
                    old(self).sel_start(),
                    old(self).sel_end(),
                    t@,
                    true,
                ) && changed == (old(self).content@.subrange(
                    old(self).sel_start(),
                    old(self).sel_end(),
                ) != t@),
                None => *final(self) == *old(self) && !changed,
            },
    {
        match text {
            Some(t) => {
                let (a, b) = self.selected_text_range();
                self.replace_text(a, b, t)
            },
            None => false,
        }
    }

    /// The input method's range replacement: act on the caller's range, the
    /// marked range, or the selection, in that order of preference. Ends
    /// composition and, like every content mutation, requests caret
    /// visibility.
    pub fn replace_text_in_range(
        &mut self,
        range: Option<(usize, usize)>,
        new_text: &str,
    ) -> (changed: bool)
        requires
            old(self).wf(),
            match range {
                Some((a, b)) => a <= b <= old(self).content@.len(),
                None => true,
            },
        ensures
            final(self).wf(),
            replace_post(
                *old(self),
                *final(self),
                effective_range(*old(self), range).0,
                effective_range(*old(self), range).1,
                new_text@,
                true,
            ),
            changed == (old(self).content@.subrange(
                effective_range(*old(self), range).0,
                effective_range(*old(self), range).1,
            ) != new_text@),
    {
        let (a, b) = match range {
            Some(r) => r,
            None => match self.marked {
                Some(m) => m,
                None => self.selected_text_range(),
            },
        };
        let t = str_to_chars(new_text);
        let changed = self.splice_core(a, b, &t);
        self.pending_scroll = true;
        changed
    }

    /// The input method's compose-and-mark replacement: splice like
    /// `replace_text_in_range`, then mark the spliced extent as under
    /// composition when the new text is nonempty, and place the selection
    /// at the caller's position relative to the spliced text, or as a caret
    /// after it. A content mutation, so it requests caret visibility.
    pub fn replace_and_mark_text_in_range(
        &mut self,
        range: Option<(usize, usize)>,
        new_text: &str,
        new_selected_range: Option<(usize, usize)>,
    ) -> (changed: bool)
        requires
            old(self).wf(),
            match range {
                Some((a, b)) => a <= b <= old(self).content@.len(),
                None => true,
            },
            match new_selected_range {
                Some((rs, re)) => rs <= re <= new_text@.len(),
                None => true,
            },
        ensures
            final(self).wf(),
            ({
                let a = effective_range(*old(self), range).0;
                let b = effective_range(*old(self), range).1;
                let t = new_text@;
                &&& final(self).content@ == splice(old(self).content@, a, b, t)
                &&& changed == (old(self).content@.subrange(a, b) != t)
                &&& match final(self).marked {
                    Some((ma, mb)) => t.len() > 0 && ma as int == a && mb as int == a + t.len(),
                    None => t.len() == 0,
                }
                &&& match new_selected_range {
                    Some((rs, re)) => final(self).anchor as int == a + rs
                        && final(self).active as int == a + re,
                    None => final(self).anchor as int == a + t.len() && final(self).active
                        == final(self).anchor,
                }
                &&& final(self).layout is None
                &&& final(self).modified == (old(self).modified || changed)
                &&& final(self).pending_scroll
                &&& final(self).scroll_y == old(self).scroll_y
                &&& final(self).viewport_height == old(self).viewport_height
                &&& final(self).focus_mode == old(self).focus_mode
            }),
    {
        let (a, b) = match range {
            Some(r) => r,
            None => match self.marked {
                Some(m) => m,
                None => self.selected_text_range(),
            },
        };
        let t = str_to_chars(new_text);
        let changed = self.splice_core(a, b, &t);
        if t.len() > 0 {
            self.marked = Some((a, a + t.len()));
        }
        match new_selected_range {
            Some((rs, re)) => {
                self.anchor = a + rs;
                self.active = a + re;
            },
            None => {},
        }
        self.pending_scroll = true;
        changed
    }

    /// Adopt a fresh layout pass and the viewport height it was computed
    /// against.
    pub fn set_layout(&mut self, layout: Layout, viewport_height: u64)
        requires
            old(self).wf(),
            layout.wf(old(self).content@.len() as int),
        ensures
            final(self).wf(),
            final(self).layout == Some(layout),
            final(self).viewport_height == Some(viewport_height),
            final(self).content == old(self).content,
            final(self).anchor == old(self).anchor,
            final(self).active == old(self).active,
            final(self).marked == old(self).marked,
            final(self).scroll_y == old(self).scroll_y,
            final(self).modified == old(self).modified,
            final(self).focus_mode == old(self).focus_mode,
            final(self).pending_scroll == old(self).pending_scroll,
    {
        self.layout = Some(layout);
        self.viewport_height = Some(viewport_height);
    }

    /// Where a vertical caret move from `o` lands: the same column in the
    /// adjacent visual line, clamped to that line's length; the buffer's
    /// start or end when there is no line to move to.
    pub open spec fn vertical_target(rs: Seq<(usize, usize)>, o: int, up: bool, len: int) -> int {
        let j = line_of(rs, o);
        if j < rs.len() && (if up {
            j > 0
        } else {
            j + 1 < rs.len()
        }) {
            let tgt = if up {
                j - 1
            } else {
                j + 1
            };
            let col = o - rs[j].0;
            let ll = rs[tgt].1 - rs[tgt].0;
            rs[tgt].0 + (if col <= ll {
                col
            } else {
                ll
            })
        } else {
            if up {
                0
            } else {
                len
            }
        }
    }

    /// The caret target of a vertical move in the current state.
    #[verifier::rlimit(60)]
    fn vertical_move_target(&self, from: usize, up: bool) -> (t: usize)
        requires
            self.wf(),
            from <= self.content@.len(),
        ensures
            t <= self.content@.len(),
            t as int == match self.layout {
                Some(l) => Self::vertical_target(
                    l.ranges@,
                    from as int,
                    up,
                    self.content@.len() as int,
                ),
                None => if up {
                    0int
                } else {
                    self.content@.len() as int
                },
            },
    {
        if let Some(l) = &self.layout {
            if let Some(j) = l.line_for_offset(from) {
                proof {
                    crate::wrap::lemma_line_of(l.ranges@, from as int);
                    assert(j < l.ranges@.len());
                }
                if up && j > 0 {
                    let (a, _b) = l.ranges[j];
                    let col = from - a;
                    let (pa, pb) = l.ranges[j - 1];
                    let ll = pb - pa;
                    return pa + (if col <= ll {
                        col
                    } else {
                        ll
                    });
                }
                let n = l.ranges.len();
                if !up && j < n - 1 {
                    let (a, _b) = l.ranges[j];
                    let col = from - a;
                    let (na, nb) = l.ranges[j + 1];
                    let ll = nb - na;
                    return na + (if col <= ll {
                        col
                    } else {
                        ll
                    });
                }
            }
        }
        if up {
            0
        } else {
            self.content.len()
        }
    }

    /// Move the caret to the previous visual line, keeping its column.
    pub fn up(&mut self)
        requires
            old(self).wf(),
        ensures
            final(self).wf(),
            same_but_selection(*old(self), *final(self)),
            final(self).pending_scroll,
            ({
                let tgt = match old(self).layout {
                    Some(l) => Self::vertical_target(
                        l.ranges@,
                        old(self).sel_start(),
                        true,
                        old(self).content@.len() as int,
                    ),
                    None => 0int,
                };
                final(self).anchor as int == tgt && final(self).active as int == tgt
            }),
    {
        let (a, _b) = self.selected_text_range();
        let t = self.vertical_move_target(a, true);
        self.move_to(t);
    }

    /// Move the caret to the next visual line, keeping its column.
    pub fn down(&mut self)
        requires
            old(self).wf(),
        ensures
            final(self).wf(),
            same_but_selection(*old(self), *final(self)),
            final(self).pending_scroll,
            ({
                let tgt = match old(self).layout {
                    Some(l) => Self::vertical_target(
                        l.ranges@,
                        old(self).sel_start(),
                        false,
                        old(self).content@.len() as int,
                    ),
                    None => old(self).content@.len() as int,
                };
                final(self).anchor as int == tgt && final(self).active as int == tgt
            }),
    {
        let (a, _b) = self.selected_text_range();
        let t = self.vertical_move_target(a, false);
        self.move_to(t);
    }

    /// Extend the selection to the previous visual line: only the active
    /// endpoint moves, keeping its column, with the anchor fixed.
    pub fn select_up(&mut self)
        requires
            old(self).wf(),
        ensures
            final(self).wf(),
            same_but_selection(*old(self), *final(self)),
            final(self).pending_scroll == old(self).pending_scroll,
            final(self).anchor == old(self).anchor,
            final(self).active as int == match old(self).layout {
                Some(l) => Self::vertical_target(
                    l.ranges@,
                    old(self).active as int,
                    true,
                    old(self).content@.len() as int,
                ),
                None => 0int,
            },
    {
        let t = self.vertical_move_target(self.active, true);
        self.select_to(t);
    }

    /// Extend the selection to the next visual line: only the active
    /// endpoint moves, keeping its column, with the anchor fixed.
    pub fn select_down(&mut self)
        requires
            old(self).wf(),
        ensures
            final(self).wf(),
            same_but_selection(*old(self), *final(self)),
            final(self).pending_scroll == old(self).pending_scroll,
            final(self).anchor == old(self).anchor,
            final(self).active as int == match old(self).layout {
                Some(l) => Self::vertical_target(
                    l.ranges@,
                    old(self).active as int,
                    false,
                    old(self).content@.len() as int,
                ),
                None => old(self).content@.len() as int,
            },
    {
        let t = self.vertical_move_target(self.active, false);
        self.select_to(t);
    }

    /// Consume the one-shot caret-visibility request.
    pub fn take_pending_scroll(&mut self) -> (r: bool)
        requires
            old(self).wf(),
        ensures
            final(self).wf(),
            r == old(self).pending_scroll,
            !final(self).pending_scroll,
            same_but_selection(*old(self), *final(self)),
            final(self).anchor == old(self).anchor,
            final(self).active == old(self).active,
    {
        let r = self.pending_scroll;
        self.pending_scroll = false;
        r
    }

    /// Scroll by a wheel delta (a positive delta scrolls the content
    /// down), clamped to the scrollable extent when a layout and a
    /// viewport are known.
    pub fn scroll_by(&mut self, delta: i64, line_height: u64)
        requires
            old(self).wf(),
        ensures
            final(self).wf(),
            final(self).content == old(self).content,
            final(self).anchor == old(self).anchor,
            final(self).active == old(self).active,
            final(self).marked == old(self).marked,
            final(self).layout == old(self).layout,
            final(self).viewport_height == old(self).viewport_height,
            final(self).modified == old(self).modified,
            final(self).focus_mode == old(self).focus_mode,
            final(self).pending_scroll == old(self).pending_scroll,
            ({
                let s1 = old(self).scroll_y as int - delta as int;
                let s2 = if s1 < 0 {
                    0int
                } else if s1 > u64::MAX as int {
                    u64::MAX as int
                } else {
                    s1
                };
                final(self).scroll_y as int == match (old(self).layout, old(
                    self,
                ).viewport_height) {
                    (Some(l), Some(vp)) => {
                        let m = max_scroll_spec(
                            l.ranges@.len() as int,
                            line_height as int,
                            vp as int,
                        );
                        if s2 > m {
                            m
                        } else {
                            s2
                        }
                    },
                    _ => s2,
                }
            }),
    {
        let mut s: u64;
        if delta >= 0 {
            let d = delta as u64;
            s = if self.scroll_y >= d {
                self.scroll_y - d
            } else {
                0
            };
        } else {
            let mag: u64 = (-(delta as i128)) as u64;
            s = self.scroll_y.saturating_add(mag);
        }
        if let Some(l) = &self.layout {
            if let Some(vp) = self.viewport_height {
                let total = mul_sat(l.ranges.len() as u64, line_height);
                let maxs = if total >= vp {
                    total - vp
                } else {
                    0
                };
                if s > maxs {
                    s = maxs;
                }
            }
        }
        self.scroll_y = s;
    }

    /// One layout pass's caret-visibility adjustment: when the caret's
    /// visual line lies outside the scrolled viewport, pull the viewport
    /// the minimal distance that shows it, then clamp to the scrollable
    /// extent. Does nothing without content, a layout, and a viewport.
    pub fn scroll_to_cursor(&mut self, line_height: u64)
        requires
            old(self).wf(),
        ensures
            final(self).wf(),
            final(self).content == old(self).content,
            final(self).anchor == old(self).anchor,
            final(self).active == old(self).active,
            final(self).marked == old(self).marked,
            final(self).layout == old(self).layout,
            final(self).viewport_height == old(self).viewport_height,
            final(self).modified == old(self).modified,
            final(self).focus_mode == old(self).focus_mode,
            final(self).pending_scroll == old(self).pending_scroll,
            final(self).scroll_y as int == match (old(self).layout, old(self).viewport_height) {
                (Some(l), Some(vp)) => {
                    if old(self).content@.len() > 0 && line_of(
                        l.ranges@,
                        old(self).sel_start(),
                    ) < l.ranges@.len() {
                        scroll_target(
                            old(self).scroll_y as int,
                            line_of(l.ranges@, old(self).sel_start()),
                            line_height as int,
                            vp as int,
                            l.ranges@.len() as int,
                        )
                    } else {
                        old(self).scroll_y as int
                    }
                },
                _ => old(self).scroll_y as int,
            },
    {
        if self.content.len() == 0 {
            return ;
        }
        let (sel_a, _sel_b) = self.selected_text_range();
        let mut s: u64 = self.scroll_y;
        if let Some(l) = &self.layout {
            if let Some(vp) = self.viewport_height {
                if let Some(j) = l.line_for_offset(sel_a) {
                    proof {
                        crate::wrap::lemma_line_of(l.ranges@, self.sel_start());
                    }
                    let top = mul_sat(j as u64, line_height);
                    let bottom = top.saturating_add(line_height);
                    if top < s {
                        s = top;
                    } else {
                        let sv = s.saturating_add(vp);
                        if bottom > sv {
                            s = bottom - vp;
                        }
                    }
                    let total = mul_sat(l.ranges.len() as u64, line_height);
                    let maxs = if total >= vp {
                        total - vp
                    } else {
                        0
                    };
                    if s > maxs {
                        s = maxs;
                    }
                }
            }
        }
        self.scroll_y = s;
    }

    /// Hit test: the buffer offset nearest to the point `(x, y)` in
    /// content-local coordinates, before scrolling is applied. Degrades to
    /// offset 0 before the first layout pass.
    pub fn index_for_position<M: TextMeasure>(
        &self,
        m: &M,
        x: i64,
        y: i64,
        line_height: u64,
    ) -> (r: usize)
        requires
            self.wf(),
            line_height >= 1,
        ensures
            r <= self.content@.len(),
            r as int == match (self.layout, self.viewport_height) {
                (Some(l), Some(vp)) => if l.ranges@.len() == 0 {
                    0int
                } else {
                    let ys = y as int + self.scroll_y as int;
                    let q = if ys < 0 {
                        0int
                    } else {
                        ys / line_height as int
                    };
                    let j = if q > l.ranges@.len() - 1 {
                        l.ranges@.len() - 1
                    } else {
                        q
                    };
                    let a = l.ranges@[j].0 as int;
                    let b = l.ranges@[j].1 as int;
                    let xx = if x < 0 {
                        0int
                    } else {
                        x as int
                    };
                    let c = m.closest_spec(self.content@.subrange(a, b), xx);
                    a + (if c <= b - a {
                        c
                    } else {
                        b - a
                    })
                },
                _ => 0int,
            },
    {
        if self.viewport_height.is_none() {
            return 0;
        }
        match &self.layout {
            None => 0,
            Some(l) => {
                let n = l.ranges.len();
                if n == 0 {
                    return 0;
                }
                let ys: i128 = y as i128 + self.scroll_y as i128;
                let j: usize = if ys < 0 {
                    0
                } else {
                    let q: u128 = (ys as u128) / (line_height as u128);
                    if q > (n - 1) as u128 {
                        n - 1
                    } else {
                        q as usize
                    }
                };
                let (a, b) = l.ranges[j];
                let xx: u64 = if x < 0 {
                    0
                } else {
                    x as u64
                };
                let c = m.closest_index(&self.content, a, b, xx);
                let ll = b - a;
                a + (if c <= ll {
                    c
                } else {
                    ll
                })
            },
        }
    }

    /// The caret's position `(x, y)` for painting, when the selection is a
    /// caret and there is content and a layout. The horizontal position is
    /// the measured width of the caret's visual line up to the caret's
    /// column; the vertical position is the line's top minus the scroll.
    pub fn cursor_position<M: TextMeasure>(&self, m: &M, line_height: u64) -> (r: Option<
        (u64, i64),
    >)
        requires
            self.wf(),
        ensures
            r == match self.layout {
                Some(l) => if self.anchor == self.active && self.content@.len() > 0 {
                    let rs = l.ranges@;
                    let found = line_of(rs, self.active as int) < rs.len();
                    let j = if found {
                        line_of(rs, self.active as int)
                    } else {
                        0int
                    };
                    let col = if found {
                        self.active as int - rs[j].0
                    } else {
                        0int
                    };
                    let x = if j < rs.len() {
                        m.width_spec(
                            self.content@.subrange(rs[j].0 as int, rs[j].0 + col),
                        ) as u64
                    } else {
                        0u64
                    };
                    Some(
                        (
                            x,
                            clamp_i64(
                                sat64(j * line_height as int) - self.scroll_y as int,
                            ) as i64,
                        ),
                    )
                } else {
                    None::<(u64, i64)>
                },
                None => None::<(u64, i64)>,
            },
    {
        match &self.layout {
            None => None,
            Some(l) => {
                if self.anchor != self.active || self.content.len() == 0 {
                    return None;
                }
                proof {
                    crate::wrap::lemma_line_of(l.ranges@, self.active as int);
                }
                let (j, col) = match l.line_for_offset(self.active) {
                    Some(jj) => {
                        let (a, _b) = l.ranges[jj];
                        (jj, self.active - a)
                    },
                    None => (0usize, 0usize),
                };
                let x: u64 = if j < l.ranges.len() {
                    let (a, _b) = l.ranges[j];
                    m.measure(&self.content, a, a + col)
                } else {
                    0
                };
                let y_raw: i128 = mul_sat(j as u64, line_height) as i128 - self.scroll_y as i128;
                let y: i64 = if y_raw > i64::MAX as i128 {
                    i64::MAX
                } else if y_raw < i64::MIN as i128 {
                    i64::MIN
                } else {
                    y_raw as i64
                };
                Some((x, y))
            },
        }
    }

    /// The selection's highlight rectangles, one `(x, y, width)` per
    /// visual line the selection touches, in line order; the height of
    /// each is the line height.
    pub fn selection_rects<M: TextMeasure>(&self, m: &M, line_height: u64) -> (r: Vec<
        (u64, i64, u64),
    >)
        requires
            self.wf(),
        ensures
            r@ == match self.layout {
                Some(l) => if self.sel_start() < self.sel_end() {
                    sel_rects_upto(
                        *m,
                        self.content@,
                        l.ranges@,
                        self.sel_start(),
                        self.sel_end(),
                        line_height as int,
                        self.scroll_y as int,
                        l.ranges@.len() as int,
                    )
                } else {
                    Seq::<(u64, i64, u64)>::empty()
                },
                None => Seq::<(u64, i64, u64)>::empty(),
            },
    {
        let mut r: Vec<(u64, i64, u64)> = Vec::new();
        let (sa, sb) = self.selected_text_range();
        match &self.layout {
            None => r,
            Some(l) => {
                if sa == sb {
                    return r;
                }
                let mut j: usize = 0;
                while j < l.ranges.len()
                    invariant
                        self.wf(),
                        self.layout == Some(*l),
                        sa as int == self.sel_start(),
                        sb as int == self.sel_end(),
                        sa < sb <= self.content@.len(),
                        j <= l.ranges@.len(),
                        r@ == sel_rects_upto(
                            *m,
                            self.content@,
                            l.ranges@,
                            sa as int,
                            sb as int,
                            line_height as int,
                            self.scroll_y as int,
                            j as int,
                        ),
                    decreases l.ranges@.len() - j,
                {
                    let (a, b) = l.ranges[j];
                    if !(sb <= a || sa > b) {
                        let s_in = if sa <= a {
                            0
                        } else {
                            sa - a
                        };
                        let e_in = if sb > b {
                            b - a
                        } else {
                            sb - a
                        };
                        let x1 = m.measure(&self.content, a, a + s_in);
                        let x2 = m.measure(&self.content, a, a + e_in);
                        proof {
                            assert(self.content@.subrange(a as int, a + s_in as int)
                                =~= self.content@.subrange(a as int, a + e_in as int).subrange(
                                0,
                                s_in as int,
                            ));
                            m.width_props(
                                self.content@.subrange(a as int, a + e_in as int),
                                s_in as int,
                            );
                        }
                        let y_raw: i128 = mul_sat(j as u64, line_height) as i128
                            - self.scroll_y as i128;
                        let y: i64 = if y_raw > i64::MAX as i128 {
                            i64::MAX
                        } else if y_raw < i64::MIN as i128 {
                            i64::MIN
                        } else {
                            y_raw as i64
                        };
                        r.push((x1, y, x2 - x1));
                        proof {
                            assert(r@ =~= sel_rects_upto(
                                *m,
                                self.content@,
                                l.ranges@,
                                sa as int,
                                sb as int,
                                line_height as int,
                                self.scroll_y as int,
                                j + 1,
                            ));
                        }
                    } else {
                        proof {
                            assert(r@ =~= sel_rects_upto(
                                *m,
                                self.content@,
                                l.ranges@,
                                sa as int,
                                sb as int,
                                line_height as int,
                                self.scroll_y as int,
                                j + 1,
                            ));
                        }
                    }
                    j = j + 1;
                }
                r
            },
        }
    }
}

/// The largest scroll offset that still shows a full viewport of content.
pub open spec fn max_scroll_spec(nlines: int, h: int, vp: int) -> int {
    let total = sat64(nlines * h);
    if total - vp > 0 {
        total - vp
    } else {
        0
    }
}

/// `v` clamped to the `i64` range.
pub open spec fn clamp_i64(v: int) -> int {
    if v > i64::MAX as int {
        i64::MAX as int
    } else if v < i64::MIN as int {
        i64::MIN as int
    } else {
        v
    }
}

/// Where the scroll lands after keeping the caret's visual line `j`
/// visible: pulled up to the line's top, or down to its bottom minus the
/// viewport, then clamped to the scrollable extent.
pub open spec fn scroll_target(s: int, j: int, h: int, vp: int, nlines: int) -> int {
    let top = sat64(j * h);
    let bottom = sat64(top + h);
    let s1 = if top < s {
        top
    } else if bottom > s + vp {
        bottom - vp
    } else {
        s
    };
    let m = max_scroll_spec(nlines, h, vp);
    if s1 > m {
        m
    } else if s1 < 0 {
        0
    } else {
        s1
    }
}

/// Whether the selection `[sa, sb)` touches the visual line `j`.
pub open spec fn sel_touches_line(rs: Seq<(usize, usize)>, j: int, sa: int, sb: int) -> bool {
    !(sb <= rs[j].0 || sa > rs[j].1)
}

/// One selection highlight rectangle `(x, y, width)`: the span of the
/// visual line `j` that the selection `[sa, sb)` covers.
pub open spec fn sel_rect_for_line<M: TextMeasure>(
    m: M,
    content: Seq<char>,
    rs: Seq<(usize, usize)>,
    j: int,
    sa: int,
    sb: int,
    h: int,
    scroll: int,
) -> (u64, i64, u64) {
    let a = rs[j].0 as int;
    let b = rs[j].1 as int;
    let s_in = if sa <= a {
        0int
    } else {
        sa - a
    };
    let e_in = if sb > b {
        b - a
    } else {
        sb - a
    };
    let x1 = m.width_spec(content.subrange(a, a + s_in));
    let x2 = m.width_spec(content.subrange(a, a + e_in));
    (x1 as u64, clamp_i64(sat64(j * h) - scroll) as i64, (x2 - x1) as u64)
}

/// The selection rectangles of the first `j` visual lines, in order.
pub open spec fn sel_rects_upto<M: TextMeasure>(
    m: M,
    content: Seq<char>,
    rs: Seq<(usize, usize)>,
    sa: int,
    sb: int,
    h: int,
    scroll: int,
    j: int,
) -> Seq<(u64, i64, u64)>
    decreases j,
{
    if j <= 0 {
        Seq::empty()
    } else {
        sel_rects_upto(m, content, rs, sa, sb, h, scroll, j - 1) + (if sel_touches_line(
            rs,
            j - 1,
            sa,
            sb,
        ) {
            seq![sel_rect_for_line(m, content, rs, j - 1, sa, sb, h, scroll)]
        } else {
            Seq::empty()
        })
    }
}

/// A replacement that writes back the very text it removes leaves the
/// content and the modified flag unchanged; only the selection collapses
/// to the replaced range's end.
pub proof fn lemma_replace_noop(e0: Editor, e1: Editor, a: int, b: int)
    requires
        e0.wf(),
        0 <= a <= b <= e0.content@.len(),
        replace_post(e0, e1, a, b, e0.content@.subrange(a, b), true),
    ensures
        e1.content@ == e0.content@,
        e1.modified == e0.modified,
        e1.anchor as int == b,
        e1.active as int == b,
{
    assert(splice(e0.content@, a, b, e0.content@.subrange(a, b)) =~= e0.content@);
}

/// Inserting text at a caret and then deleting the inserted span restores
/// the original content and caret position.
pub proof fn lemma_insert_delete_round_trip(
    e0: Editor,
    e1: Editor,
    e2: Editor,
    c: int,
    t: Seq<char>,
)
    requires
        e0.wf(),
        0 <= c <= e0.content@.len(),
        replace_post(e0, e1, c, c, t, true),
        replace_post(e1, e2, c, c + t.len(), Seq::<char>::empty(), true),
    ensures
        e2.content@ == e0.content@,
        e2.anchor as int == c,
        e2.active as int == c,
{
    assert(e2.content@ =~= e0.content@);
}

} // verus!
