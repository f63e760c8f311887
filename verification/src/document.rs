//! The document's identity and save state: a file name derived from the
//! moment of creation, a dated folder name, and the modified flag that the
//! persistence collaborator clears after a successful write.

use vstd::prelude::*;
use chrono::Datelike;
use chrono::Timelike;
use crate::text::chars_to_string;

verus! {

/// The decimal digit character for `d`.
pub open spec fn digit_char(d: int) -> char {
    if d == 0 {
        '0'
    } else if d == 1 {
        '1'
    } else if d == 2 {
        '2'
    } else if d == 3 {
        '3'
    } else if d == 4 {
        '4'
    } else if d == 5 {
        '5'
    } else if d == 6 {
        '6'
    } else if d == 7 {
        '7'
    } else if d == 8 {
        '8'
    } else {
        '9'
    }
}

/// `n` rendered as exactly two decimal digits.
pub open spec fn two_digits(n: int) -> Seq<char> {
    seq![digit_char(n / 10), digit_char(n % 10)]
}

/// `n` rendered as exactly four decimal digits.
pub open spec fn four_digits(n: int) -> Seq<char> {
    two_digits(n / 100) + two_digits(n % 100)
}

/// The dated folder name, `YYYY-MM-DD`.
pub open spec fn date_folder_spec(y: int, mo: int, d: int) -> Seq<char> {
    four_digits(y) + seq!['-'] + two_digits(mo) + seq!['-'] + two_digits(d)
}

/// The document file name, `YYYY-MM-DD_HH-MM-SS.md`.
pub open spec fn filename_spec(y: int, mo: int, d: int, h: int, mi: int, s: int) -> Seq<char> {
    date_folder_spec(y, mo, d) + seq!['_'] + two_digits(h) + seq!['-'] + two_digits(mi)
        + seq!['-'] + two_digits(s) + seq!['.', 'm', 'd']
}

/// The decimal digit character for `d`.
fn digit(d: u32) -> (c: char)
    requires
        d < 10,
    ensures
        c == digit_char(d as int),
{
    match d {
        0 => '0',
        1 => '1',
        2 => '2',
        3 => '3',
        4 => '4',
        5 => '5',
        6 => '6',
        7 => '7',
        8 => '8',
        _ => '9',
    }
}

/// Append `n` as exactly two decimal digits.
fn push_two_digits(v: &mut Vec<char>, n: u32)
    requires
        n < 100,
    ensures
        final(v)@ == old(v)@ + two_digits(n as int),
{
    v.push(digit(n / 10));
    v.push(digit(n % 10));
    proof {
        assert(v@ =~= old(v)@ + two_digits(n as int));
    }
}

/// Relies on chrono::Local::now and the Datelike/Timelike accessors: the
/// local calendar date and clock time, with the ranges those accessors
/// document — month 1 to 12, day 1 to 31, hour 0 to 23, minute and second
/// 0 to 59. The clock moves between calls, so nothing relates two results.
/// chrono aborts the process when the system clock reads before the Unix
/// epoch or beyond its representable years; like allocation failure, that
/// environmental abort is outside any input this function takes.
#[verifier::external_body]
fn local_now_parts() -> (r: (i64, u32, u32, u32, u32, u32))
    ensures
        1 <= r.1 <= 12,
        1 <= r.2 <= 31,
        r.3 <= 23,
        r.4 <= 59,
        r.5 <= 59,
{
    let now = chrono::Local::now();
    (now.year() as i64, now.month(), now.day(), now.hour(), now.minute(), now.second())
}

/// A document: its dated folder, its file name, and whether its buffer
/// has unsaved changes.
pub struct Document {
    /// The folder named for the creation day, `YYYY-MM-DD`.
    pub folder: String,
    /// The file name, `YYYY-MM-DD_HH-MM-SS.md`.
    pub name: String,
    /// Whether the buffer differs from what was last written out.
    pub modified: bool,
}

impl Document {
    /// A fresh document named for the given local date and time.
    pub fn new(year: u32, month: u32, day: u32, hour: u32, minute: u32, second: u32) -> (doc:
        Document)
        requires
            year <= 9999,
            1 <= month <= 12,
            1 <= day <= 31,
            hour <= 23,
            minute <= 59,
            second <= 59,
        ensures
            doc.folder@ == date_folder_spec(year as int, month as int, day as int),
            doc.name@ == filename_spec(
                year as int,
                month as int,
                day as int,
                hour as int,
                minute as int,
                second as int,
            ),
            !doc.modified,
    {
        let mut f: Vec<char> = Vec::new();
        push_two_digits(&mut f, year / 100);
        push_two_digits(&mut f, year % 100);
        f.push('-');
        push_two_digits(&mut f, month);
        f.push('-');
        push_two_digits(&mut f, day);
        proof {
            assert(f@ =~= date_folder_spec(year as int, month as int, day as int));
        }
        let mut n: Vec<char> = Vec::new();
        let mut i: usize = 0;
        while i < f.len()
            invariant
                i <= f@.len(),
                n@ == f@.subrange(0, i as int),
            decreases f@.len() - i,
        {
            n.push(f[i]);
            proof {
                assert(n@ =~= f@.subrange(0, (i + 1) as int));
            }
            i = i + 1;
        }
        proof {
            assert(n@ =~= f@);
        }
        n.push('_');
        push_two_digits(&mut n, hour);
        n.push('-');
        push_two_digits(&mut n, minute);
        n.push('-');
        push_two_digits(&mut n, second);
        n.push('.');
        n.push('m');
        n.push('d');
        proof {
            assert(n@ =~= filename_spec(
                year as int,
                month as int,
                day as int,
                hour as int,
                minute as int,
                second as int,
            ));
        }
        Document { folder: chars_to_string(&f), name: chars_to_string(&n), modified: false }
    }

    /// A fresh document named for this moment's local date and time, with
    /// the year clamped to four digits.
    pub fn new_now() -> (doc: Document)
        ensures
            !doc.modified,
            exists|y: int, mo: int, d: int, h: int, mi: int, s: int|
                0 <= y <= 9999 && 1 <= mo <= 12 && 1 <= d <= 31 && 0 <= h <= 23 && 0 <= mi <= 59
                    && 0 <= s <= 59 && doc.folder@ == date_folder_spec(y, mo, d) && doc.name@
                    == filename_spec(y, mo, d, h, mi, s),
    {
        let (y, mo, d, h, mi, s) = local_now_parts();
        let yc: u32 = if y < 0 {
            0
        } else if y > 9999 {
            9999
        } else {
            y as u32
        };
        let doc = Document::new(yc, mo, d, h, mi, s);
        proof {
            assert(0 <= yc as int <= 9999 && 1 <= mo as int <= 12 && 1 <= d as int <= 31 && 0
                <= h as int <= 23 && 0 <= mi as int <= 59 && 0 <= s as int <= 59 && doc.folder@
                == date_folder_spec(yc as int, mo as int, d as int) && doc.name@
                == filename_spec(yc as int, mo as int, d as int, h as int, mi as int, s as int));
        }
        doc
    }

    /// The document's file name.
    pub fn filename(&self) -> (r: String)
        ensures
            r@ == self.name@,
    {
        self.name.clone()
    }

    /// The dated folder the document belongs in.
    pub fn date_folder(&self) -> (r: String)
        ensures
            r@ == self.folder@,
    {
        self.folder.clone()
    }

    /// Record that the buffer changed since the last write.
    pub fn mark_modified(&mut self)
        ensures
            final(self).modified,
            final(self).folder == old(self).folder,
            final(self).name == old(self).name,
    {
        self.modified = true;
    }

    /// Record a successful write of the buffer.
    pub fn mark_saved(&mut self)
        ensures
            !final(self).modified,
            final(self).folder == old(self).folder,
            final(self).name == old(self).name,
    {
        self.modified = false;
    }

    /// Whether the buffer has unsaved changes.
    pub fn is_modified(&self) -> (r: bool)
        ensures
            r == self.modified,
    {
        self.modified
    }

    /// The window title: the file name, with a bullet appended while
    /// `modified` holds.
    pub fn display_title(&self, modified: bool) -> (r: String)
        ensures
            r@ == if modified {
                self.name@ + seq![' ', '\u{2022}']
            } else {
                self.name@
            },
    {
        if modified {
            let mut t = self.name.clone();
            t.append(" \u{2022}");
            proof {
                reveal_strlit(" \u{2022}");
                assert(t@ =~= self.name@ + seq![' ', '\u{2022}']);
            }
            t
        } else {
            self.name.clone()
        }
    }
}

} // verus!
