//! What a view needs to know to draw a document: which columns of a line a
//! selection covers, which lines hold a cursor, how wide the line numbers
//! are, and which part of a highlighted token is visible text.

use vstd::prelude::*;
use crate::chars::to_chars;
use crate::cursor::Cursor;
use crate::editor::Editor;
use crate::position::Position;
use crate::text::line_text_of;

verus! {

/// The columns of line `line` that a selection from `start` to `end` covers,
/// as the column where the cover begins and the column where it ends: from
/// `start` on its own line and else from the start of the line, up to `end`
/// on its own line and else to the end of the line's visible text. A line
/// outside the selection has no cover, nor has the line of an empty selection.
pub open spec fn span_on_line(s: Seq<char>, line: usize, start: Position, end: Position) -> Option<
    (usize, usize),
> {
    if line < start.line || line > end.line {
        None
    } else {
        let from = if line == start.line {
            start.col
        } else {
            0
        };
        let to = if line == end.line {
            end.col
        } else {
            line_text_of(s, line as nat).len() as usize
        };
        if from >= to && line == start.line && line == end.line {
            None
        } else {
            Some((from, to))
        }
    }
}

/// Whether one of the first `n` cursors has its caret on line `line`.
pub open spec fn caret_on_line(cursors: Seq<Cursor>, n: int, line: usize) -> bool {
    exists|i: int| 0 <= i < n && (#[trigger] cursors[i]).pos.line == line
}

/// The number of decimal digits of `n`.
pub open spec fn decimal_digits(n: nat) -> nat
    decreases n,
{
    if n < 10 {
        1
    } else {
        1 + decimal_digits(n / 10)
    }
}

/// The number of digits that the line numbers of a document with
/// `line_count` lines are given: those of the largest number, and at least
/// three.
pub open spec fn gutter_width(line_count: usize) -> nat {
    if decimal_digits(line_count as nat) < 3 {
        3
    } else {
        decimal_digits(line_count as nat)
    }
}

/// The length of the first `n` characters of `t` without the characters `c`
/// at their end.
pub open spec fn without_trailing(t: Seq<char>, n: int, c: char) -> int
    decreases n,
{
    if 0 < n <= t.len() && t[n - 1] == c {
        without_trailing(t, n - 1, c)
    } else {
        n
    }
}

/// The visible text of a highlighted token: the token without the line
/// feeds at its end and then without the carriage returns at its end.
pub open spec fn visible_part(t: Seq<char>) -> Seq<char> {
    t.subrange(0, without_trailing(t, without_trailing(t, t.len() as int, '\n'), '\r'))
}

/// The number of digits for the line numbers of a document with
/// `line_count` lines.
pub fn gutter_digits(line_count: usize) -> (d: usize)
    ensures
        d == gutter_width(line_count),
{
    let mut n = line_count;
    let mut d: usize = 1;
    proof {
        lemma_digits_bound(line_count as nat);
    }
    while n >= 10
        invariant
            d >= 1,
            d + decimal_digits(n as nat) == 1 + decimal_digits(line_count as nat),
            line_count >= 1 ==> decimal_digits(line_count as nat) <= line_count,
            n <= line_count,
        decreases n,
    {
        assert(decimal_digits(n as nat) == 1 + decimal_digits((n / 10) as nat));
        assert(decimal_digits((n / 10) as nat) >= 1);
        n = n / 10;
        d = d + 1;
    }
    if d < 3 {
        3
    } else {
        d
    }
}

/// A number other than zero has no more digits than its value.
proof fn lemma_digits_bound(n: nat)
    ensures
        n >= 1 ==> decimal_digits(n) <= n,
    decreases n,
{
    if n >= 10 {
        lemma_digits_bound(n / 10);
    }
}

/// The visible text of a highlighted token, if it has any.
pub fn token_text(token: &str) -> (r: Option<String>)
    ensures
        match r {
            Some(t) => t@ == visible_part(token@) && t@.len() > 0,
            None => visible_part(token@).len() == 0,
        },
{
    let chars = to_chars(token);
    let mut n = chars.len();
    while n > 0 && chars[n - 1] == '\n'
        invariant
            n <= chars@.len(),
            without_trailing(chars@, n as int, '\n') == without_trailing(
                chars@,
                chars@.len() as int,
                '\n',
            ),
        decreases n,
    {
        n -= 1;
    }
    let ghost m = n;
    while n > 0 && chars[n - 1] == '\r'
        invariant
            n <= m <= chars@.len(),
            without_trailing(chars@, n as int, '\r') == without_trailing(chars@, m as int, '\r'),
        decreases n,
    {
        n -= 1;
    }
    if n == 0 {
        None
    } else {
        Some(token.substring_char(0, n).to_owned())
    }
}

impl Editor {
    /// The columns of line `line` that a selection from `start` to `end`
    /// covers.
    pub fn selection_span_on_line(&self, line: usize, start: &Position, end: &Position) -> (r:
        Option<(usize, usize)>)
        ensures
            r == span_on_line(self@.doc.text, line, *start, *end),
    {
        if line < start.line || line > end.line {
            return None;
        }
        let from = if line == start.line {
            start.col
        } else {
            0
        };
        let to = if line == end.line {
            end.col
        } else {
            self.line_text(line).as_str().unicode_len()
        };
        if from >= to && line == start.line && line == end.line {
            None
        } else {
            Some((from, to))
        }
    }

    /// Whether a cursor has its caret on line `line`.
    pub fn has_cursor_on_line(&self, line: usize) -> (b: bool)
        ensures
            b == caret_on_line(self@.doc.cursors, self@.doc.cursors.len() as int, line),
    {
        let cursors = self.cursors();
        let mut i: usize = 0;
        while i < cursors.len()
            invariant
                i <= cursors@.len(),
                cursors@ == self@.doc.cursors,
                !caret_on_line(cursors@, i as int, line),
            decreases cursors@.len() - i,
        {
            if cursors[i].pos.line == line {
                return true;
            }
            i += 1;
        }
        false
    }
}

} // verus!
