//! Search, replace and going to a line.

use vstd::prelude::*;
use crate::buffer::{rope_from_str, rope_len_chars, rope_len_lines};
use crate::chars::{
    find_from, first_match, indent_end, lemma_first_match, matches_here, replace_all_chars,
    replaced, to_chars, trimmed_len,
};
use crate::cursor::Cursor;
use crate::editor::{cursor_in_bounds, DocState, Editor, EditorState};
use crate::editor::edit::{Edit, EditOp, lemma_edited_at_in_bounds};
use crate::editor::motion::last_line;
use crate::editor::select::{clamp_position, clamped, selected_by, selecting_match};
use crate::lines::{char_idx_to_pos, pos_to_char_idx};
use crate::position::Position;
use crate::text::{in_bounds, lemma_address_in_bounds, lemma_line_start, line_of, offset_of};

verus! {

/// Where a search for `query` from offset `from` ends: at the first
/// occurrence at or behind `from`, or else, from the top once, at the first
/// occurrence that ends at or before `from`.
pub open spec fn found_from(s: Seq<char>, query: Seq<char>, from: int) -> Option<int> {
    match first_match(s, query, from, s.len() as int) {
        Some(m) => Some(m),
        None => first_match(s, query, 0, from),
    }
}

/// The cursor at the place nearest to the caret of `c`, with no selection.
pub open spec fn clamped_caret(s: Seq<char>, c: Cursor) -> Cursor {
    Cursor::caret(clamped(s, c.pos.line, c.pos.col))
}

/// The line that "go to line" with the one-based number `n` goes to.
pub open spec fn goto_target(s: Seq<char>, n: usize) -> usize {
    if n <= 1 {
        0
    } else if n - 1 <= last_line(s) {
        (n - 1) as usize
    } else {
        last_line(s)
    }
}

/// The value of a decimal digit.
pub open spec fn digit_value(c: char) -> Option<nat> {
    if '0' <= c && c <= '9' {
        Some((c as u32 - '0' as u32) as nat)
    } else {
        None
    }
}

/// The number that the first `n` characters of `d` spell in decimal digits,
/// if they are all digits.
pub open spec fn decimal_value(d: Seq<char>, n: int) -> Option<nat>
    decreases n,
{
    if n <= 0 {
        Some(0)
    } else {
        match (decimal_value(d, n - 1), digit_value(d[n - 1])) {
            (Some(v), Some(x)) => Some(v * 10 + x),
            _ => None,
        }
    }
}

/// The line number that a user typed: the input without the white space
/// around it has to be one or more decimal digits, with or without a plus
/// sign before them, that spell a number the machine can hold.
pub open spec fn line_number_of(input: Seq<char>) -> Option<usize> {
    let a = indent_end(input, 0);
    let b = trimmed_len(input, input.len() as int);
    if a >= b {
        None
    } else {
        let from = if input[a] == '+' {
            a + 1
        } else {
            a
        };
        let digits = input.subrange(from, b);
        if digits.len() == 0 {
            None
        } else {
            match decimal_value(digits, digits.len() as int) {
                Some(v) => if v <= usize::MAX {
                    Some(v as usize)
                } else {
                    None
                },
                None => None,
            }
        }
    }
}

/// What the first digits spell is no more than what all digits spell.
proof fn lemma_decimal_value_grows(d: Seq<char>, m: int, n: int)
    requires
        0 <= m <= n,
        decimal_value(d, n) is Some,
    ensures
        decimal_value(d, m) is Some,
        decimal_value(d, m)->0 <= decimal_value(d, n)->0,
    decreases n - m,
{
    if m < n {
        lemma_decimal_value_grows(d, m, n - 1);
    }
}

/// Reads a line number as a user types it into "go to line".
#[verifier::loop_isolation(false)]
pub fn parse_line_number(input: &str) -> (r: Option<usize>)
    ensures
        r == line_number_of(input@),
{
    let chars = to_chars(input);
    let mut a: usize = 0;
    while a < chars.len() && chars[a].is_whitespace()
        invariant
            a <= chars@.len(),
            indent_end(chars@, a as int) == indent_end(chars@, 0),
        decreases chars@.len() - a,
    {
        a += 1;
    }
    let mut b: usize = chars.len();
    while b > 0 && chars[b - 1].is_whitespace()
        invariant
            b <= chars@.len(),
            trimmed_len(chars@, b as int) == trimmed_len(chars@, chars@.len() as int),
        decreases b,
    {
        b -= 1;
    }
    if a >= b {
        return None;
    }
    let from = if chars[a] == '+' {
        a + 1
    } else {
        a
    };
    if from >= b {
        return None;
    }
    let ghost digits = chars@.subrange(from as int, b as int);
    let mut v: usize = 0;
    let mut k: usize = from;
    while k < b
        invariant
            from <= k <= b <= chars@.len(),
            digits == chars@.subrange(from as int, b as int),
            decimal_value(digits, k - from) == Some(v as nat),
        decreases b - k,
    {
        let c = chars[k];
        assert(digits[k - from] == c);
        if c < '0' || c > '9' {
            proof {
                if decimal_value(digits, digits.len() as int) is Some {
                    lemma_decimal_value_grows(digits, k - from + 1, digits.len() as int);
                }
            }
            return None;
        }
        let x = (c as u32 - '0' as u32) as usize;
        if v > (usize::MAX - x) / 10 {
            proof {
                if decimal_value(digits, digits.len() as int) is Some {
                    lemma_decimal_value_grows(digits, k - from + 1, digits.len() as int);
                }
            }
            return None;
        }
        v = v * 10 + x;
        k += 1;
    }
    Some(v)
}

impl DocState {
    /// The match that a search for `query` selects, if it finds one. The
    /// search sets out at the caret of the primary cursor, and an empty query
    /// finds nothing.
    pub open spec fn found(self, query: Seq<char>) -> Option<int> {
        if query.len() == 0 {
            None
        } else {
            found_from(self.text, query, offset_of(self.text, self.cursors[0].pos))
        }
    }

    /// After a search for `query`: one cursor that selects the match, its
    /// caret behind it; or the document as it is where nothing is found.
    pub open spec fn with_found(self, query: Seq<char>) -> DocState {
        match self.found(query) {
            Some(m) => DocState {
                cursors: seq![selecting_match(self.text, m, query.len() as int)],
                ..self
            },
            None => self,
        }
    }

    /// Whether "replace next" replaces: the query is not empty and is what
    /// the primary cursor selects.
    pub open spec fn selects(self, find: Seq<char>) -> bool {
        find.len() > 0 && selected_by(self.text, self.cursors[0]) == find
    }

    /// After every occurrence of `find` was replaced by `with`: every cursor
    /// is a caret at the place of the new text nearest to where it was.
    pub open spec fn with_all_replaced(self, find: Seq<char>, with: Seq<char>) -> DocState {
        let text = replaced(self.text, find, with);
        DocState { text, cursors: self.cursors.map_values(|c: Cursor| clamped_caret(text, c)) }
    }
}

impl EditorState {
    /// The first half of "replace next": where the primary cursor selects
    /// `find`, the selection is replaced by `with` as one edit of its own,
    /// with the caret behind the new text and the other cursors carried
    /// along.
    pub open spec fn with_selection_replaced(self, find: Seq<char>, with: Seq<char>) -> EditorState {
        if self.doc.selects(find) {
            EditorState {
                doc: self.doc.edited_at(0, Edit::Insert(with)),
                modified: true,
                ..self.snapshotted()
            }
        } else {
            self
        }
    }

    /// After "replace next": the selection is replaced where it is `find`;
    /// then, in any case, `find` is searched for.
    pub open spec fn with_next_replaced(self, find: Seq<char>, with: Seq<char>) -> EditorState {
        let st = self.with_selection_replaced(find, with);
        st.with_doc(st.doc.with_found(find))
    }

    /// After "replace all": nothing changes for an empty `find`; else a
    /// snapshot is taken, the text replaced, and the document counts as
    /// modified.
    pub open spec fn with_all_replaced(self, find: Seq<char>, with: Seq<char>) -> EditorState {
        if find.len() == 0 {
            self
        } else {
            EditorState {
                doc: self.doc.with_all_replaced(find, with),
                modified: true,
                ..self.snapshotted()
            }
        }
    }
}

impl Editor {
    /// Searches for `query` from the caret of the primary cursor to the end
    /// of the document and then, once, from the top. A match becomes the
    /// selection of the only cursor left, and the line on which it starts is
    /// handed back. An empty query, or one that occurs nowhere, changes
    /// nothing.
    pub fn find_and_select(&mut self, query: &str) -> (line: Option<usize>)
        requires
            old(self)@.wf(),
        ensures
            final(self)@ == old(self)@.with_doc(old(self)@.doc.with_found(query@)),
            line == match old(self)@.doc.found(query@) {
                Some(m) => Some(line_of(old(self)@.doc.text, m) as usize),
                None => None,
            },
            final(self)@.wf(),
            old(self)@.in_bounds() ==> final(self)@.in_bounds(),
    {
        let needle = to_chars(query);
        if needle.len() == 0 {
            return None;
        }
        let hay = to_chars(self.text().as_str());
        let from = pos_to_char_idx(&self.rope, &self.cursors[0].pos);
        proof {
            lemma_first_match(hay@, needle@, from as int, hay@.len() as int);
            lemma_first_match(hay@, needle@, 0, from as int);
        }
        let found = match find_from(&hay, &needle, from, hay.len()) {
            Some(m) => Some(m),
            None => find_from(&hay, &needle, 0, from),
        };
        match found {
            Some(m) => {
                let start = char_idx_to_pos(&self.rope, m);
                let end = char_idx_to_pos(&self.rope, m + needle.len());
                proof {
                    lemma_address_in_bounds(self@.doc.text, m as int);
                    lemma_address_in_bounds(self@.doc.text, m + needle@.len());
                }
                self.cursors.truncate(1);
                self.cursors.set(0, Cursor { pos: end, anchor: Some(start), desired_col: end.col });
                assert(self.cursors@ =~= seq![
                    selecting_match(old(self)@.doc.text, m as int, needle@.len() as int),
                ]);
                Some(start.line)
            },
            None => None,
        }
    }

    /// Replaces the selection of the primary cursor by `replace` where it is
    /// `find`, as one edit that can be undone, and then searches for `find`
    /// as `find_and_select` does, handing back the line on which the match
    /// starts. An empty `find` changes nothing.
    pub fn replace_next(&mut self, find: &str, replace: &str) -> (line: Option<usize>)
        requires
            old(self)@.wf(),
        ensures
            final(self)@ == old(self)@.with_next_replaced(find@, replace@),
            line == match old(self)@.with_selection_replaced(find@, replace@).doc.found(find@) {
                Some(m) => Some(
                    line_of(old(self)@.with_selection_replaced(find@, replace@).doc.text, m) as usize,
                ),
                None => None,
            },
            final(self)@.wf(),
            old(self)@.in_bounds() ==> final(self)@.in_bounds(),
    {
        let needle = to_chars(find);
        if needle.len() == 0 {
            return None;
        }
        let selected = to_chars(self.selected_text().as_str());
        assert(selected@.subrange(0, selected@.len() as int) == selected@);
        if selected.len() == needle.len() && matches_here(&selected, &needle, 0) {
            self.save_undo();
            let ghost before = self@.doc;
            let total = rope_len_chars(&self.rope);
            self.edit_at(0, &EditOp::Insert(replace));
            let total = rope_len_chars(&self.rope);
            self.modified = true;
            proof {
                if old(self)@.in_bounds() {
                    lemma_edited_at_in_bounds(before, 0, Edit::Insert(replace@));
                }
            }
        }
        self.find_and_select(find)
    }

    /// Replaces every occurrence of `find` by `replace`, the occurrences
    /// taken from left to right and none overlapping the one before, as one
    /// edit that can be undone. Every cursor becomes a caret at the place of
    /// the new text nearest to where it was. An empty `find` changes nothing.
    pub fn replace_all(&mut self, find: &str, replace: &str)
        requires
            old(self)@.wf(),
        ensures
            final(self)@ == old(self)@.with_all_replaced(find@, replace@),
            final(self)@.wf(),
            old(self)@.in_bounds() ==> final(self)@.in_bounds(),
    {
        let needle = to_chars(find);
        if needle.len() == 0 {
            return ;
        }
        self.save_undo();
        let hay = to_chars(self.text().as_str());
        let with = to_chars(replace);
        let content = replace_all_chars(&hay, &needle, &with);
        self.rope = rope_from_str(content.as_str());
        let ghost text = self@.doc.text;
        let ghost before = self@.doc.cursors;
        let n = self.cursors.len();
        let mut i: usize = 0;
        while i < n
            invariant
                i <= n,
                n == before.len(),
                self.cursors@.len() == n,
                text == replaced(old(self)@.doc.text, find@, replace@),
                before == old(self)@.doc.cursors,
                self@ == old(self)@.snapshotted().with_doc(
                    DocState { text, cursors: self.cursors@ },
                ),
                forall|j: int| 0 <= j < i ==> self.cursors@[j] == clamped_caret(text, before[j]),
                forall|j: int| i <= j < n ==> self.cursors@[j] == before[j],
                forall|j: int| 0 <= j < i ==> cursor_in_bounds(text, #[trigger] self.cursors@[j]),
            decreases n - i,
        {
            let c = self.cursors[i];
            let p = clamp_position(&self.rope, c.pos.line, c.pos.col);
            self.cursors.set(i, Cursor { pos: p, anchor: None, desired_col: p.col });
            i += 1;
        }
        self.modified = true;
        assert(self.cursors@ =~= before.map_values(|c: Cursor| clamped_caret(text, c)));
    }

    /// Leaves one caret, at the start of the line with the one-based number
    /// `line_number`, or of the first or last line where there is no such
    /// line. The zero-based index of the line is handed back.
    pub fn goto_line(&mut self, line_number: usize) -> (line: usize)
        requires
            old(self)@.wf(),
        ensures
            line == goto_target(old(self)@.doc.text, line_number),
            final(self)@ == old(self)@.with_cursors(
                seq![Cursor::caret(Position { line, col: 0 })],
            ),
            final(self)@.wf(),
            old(self)@.in_bounds() ==> final(self)@.in_bounds(),
    {
        let last = rope_len_lines(&self.rope) - 1;
        let line = if line_number <= 1 {
            0
        } else if line_number - 1 <= last {
            line_number - 1
        } else {
            last
        };
        proof {
            lemma_line_start(self@.doc.text, line as nat);
        }
        self.cursors.truncate(1);
        self.cursors.set(0, Cursor::new(line, 0));
        assert(self.cursors@ =~= seq![Cursor::caret(Position { line, col: 0 })]);
        line
    }
}

} // verus!
