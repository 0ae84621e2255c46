//! The cursor set: adding and dropping cursors, selecting, and taking the
//! selected text out.

use vstd::prelude::*;
use ropey::Rope;
use crate::buffer::{rope_len_chars, rope_len_lines, rope_line_to_char, rope_slice, rope_text};
use crate::chars::{
    find_from, first_match, is_word_char, lemma_first_match, scan_back, scan_forward, skip_back,
    skip_forward, to_chars, word_char,
};
use crate::cursor::Cursor;
use crate::editor::{DocState, Editor, EditorState};
use crate::editor::edit::{Edit, EditOp, without};
use crate::editor::motion::{column_on, last_line, lemma_column_on_in_bounds};
use crate::lines::{char_idx_to_pos, line_len_chars, pos_to_char_idx};
use crate::position::Position;
use crate::text::{
    address_of, in_bounds, lemma_address_in_bounds, lemma_address_of_offset, lemma_line_start,
    lemma_line_text_len, line_len, line_of, line_start, line_text_of, offset_of,
};

verus! {

/// The place nearest to (`line`, `col`): on the last line where `line` is
/// past it, and at the end of the line where `col` is.
pub open spec fn clamped(s: Seq<char>, line: usize, col: usize) -> Position {
    let l = if line <= last_line(s) {
        line
    } else {
        last_line(s)
    };
    Position { line: l, col: column_on(s, l as nat, col) }
}

/// Whether one of `cursors` is a caret at `p`.
pub open spec fn has_caret_at(cursors: Seq<Cursor>, p: Position) -> bool {
    exists|i: int| 0 <= i < cursors.len() && is_caret_at(#[trigger] cursors[i], p)
}

/// Whether `c` is a caret, with no selection, at `p`.
pub open spec fn is_caret_at(c: Cursor, p: Position) -> bool {
    c.anchor is None && c.pos == p
}

/// The characters of `s` from offset `a` up to `b`; none where `b` is not
/// behind `a`.
pub open spec fn span(s: Seq<char>, a: int, b: int) -> Seq<char> {
    if a < b {
        s.subrange(a, b)
    } else {
        Seq::empty()
    }
}

/// The text that `c` selects; none where it selects nothing.
pub open spec fn selected_by(s: Seq<char>, c: Cursor) -> Seq<char> {
    match c.selection() {
        Some((start, end)) => span(s, offset_of(s, start), offset_of(s, end)),
        None => Seq::empty(),
    }
}

/// What copying takes for `c`: the text that it selects, or without a
/// selection the visible text of its line and a line feed.
pub open spec fn copied_by(s: Seq<char>, c: Cursor) -> Seq<char> {
    if c.anchor is Some {
        selected_by(s, c)
    } else {
        line_text_of(s, c.pos.line as nat) + seq!['\n']
    }
}

/// What copying takes for the first `n` cursors, in the order of the set.
pub open spec fn copied(s: Seq<char>, cursors: Seq<Cursor>, n: nat) -> Seq<char>
    decreases n,
{
    if n == 0 {
        Seq::empty()
    } else {
        copied(s, cursors, (n - 1) as nat) + copied_by(s, cursors[n - 1])
    }
}

/// Whether one of the first `n` cursors has an anchor.
pub open spec fn any_anchor(cursors: Seq<Cursor>, n: int) -> bool {
    exists|i: int| 0 <= i < n && (#[trigger] cursors[i]).anchor is Some
}

/// The place furthest down the document that any of the first `n` cursors,
/// which are at least one, reaches with its caret or with its selection: the
/// latest of their upper ends.
pub open spec fn furthest(cursors: Seq<Cursor>, n: nat) -> Position
    decreases n,
{
    if n <= 1 {
        cursors[0].upper()
    } else {
        furthest(cursors, (n - 1) as nat).max_of(cursors[n - 1].upper())
    }
}

/// The ends of the word at `p`, on the visible text of its line: of the run
/// of word characters around `p`, or of the single character at `p` where
/// that is no word character. At or past the end of the line there is no
/// word, and both ends are `p`.
pub open spec fn word_bounds(s: Seq<char>, p: Position) -> (Position, Position) {
    let line = line_text_of(s, p.line as nat);
    if p.col >= line.len() {
        (p, p)
    } else if !is_word_char(line[p.col as int]) {
        (p, Position { line: p.line, col: (p.col + 1) as usize })
    } else {
        (
            Position { line: p.line, col: skip_back(line, p.col as int, true) as usize },
            Position { line: p.line, col: skip_forward(line, p.col as int, true) as usize },
        )
    }
}

/// The text that "select next occurrence" looks for: what the primary cursor
/// selects, or without a selection the word at its caret.
pub open spec fn occurrence_text(doc: DocState) -> Seq<char> {
    let c = doc.cursors[0];
    if c.anchor is Some {
        selected_by(doc.text, c)
    } else {
        let (a, b) = word_bounds(doc.text, c.pos);
        span(doc.text, offset_of(doc.text, a), offset_of(doc.text, b))
    }
}

/// The cursor that selects the `len` characters from offset `m` on, with its
/// caret behind them.
pub open spec fn selecting_match(s: Seq<char>, m: int, len: int) -> Cursor {
    Cursor::selecting(address_of(s, m), address_of(s, m + len))
}

impl EditorState {
    /// The state after a cut: a snapshot was taken, the selections or the
    /// line of the primary cursor are gone, and the document counts as
    /// modified.
    pub open spec fn after_cut(self) -> EditorState {
        EditorState { doc: self.doc.cut(), modified: true, ..self.snapshotted() }
    }
}

impl DocState {
    /// The one cursor that selects the whole text, its caret at the end.
    pub open spec fn all_selected(self) -> Seq<Cursor> {
        seq![
            Cursor::selecting(
                Position { line: 0, col: 0 },
                Position {
                    line: last_line(self.text),
                    col: line_len(self.text, last_line(self.text) as nat) as usize,
                },
            ),
        ]
    }

    /// The primary cursor alone, without its selection.
    pub open spec fn primary_caret(self) -> Seq<Cursor> {
        seq![Cursor { anchor: None, ..self.cursors[0] }]
    }

    /// After "add cursor": a caret at the place nearest to (`line`, `col`),
    /// unless there is one already.
    pub open spec fn with_cursor_added(self, line: usize, col: usize) -> DocState {
        let p = clamped(self.text, line, col);
        if has_caret_at(self.cursors, p) {
            self
        } else {
            DocState { cursors: self.cursors.push(Cursor::caret(p)), ..self }
        }
    }

    /// After "select next occurrence". Where there is nothing to look for,
    /// nothing changes. A primary cursor without a selection comes to select
    /// the word at its caret, and no cursor is added. Else the text that the
    /// primary cursor selects is looked for from the place on where the last
    /// cursor of the set ends, the later of its caret and its anchor, and a
    /// cursor that selects the first occurrence found is added to the set;
    /// the search does not start over at the top.
    pub open spec fn with_next_occurrence(self) -> DocState {
        let c = self.cursors[0];
        let what = occurrence_text(self);
        if what.len() == 0 {
            self
        } else if c.anchor is None {
            let (a, b) = word_bounds(self.text, c.pos);
            DocState { cursors: self.cursors.update(0, Cursor::selecting(a, b)), ..self }
        } else {
            let from = offset_of(self.text, furthest(self.cursors, self.cursors.len()));
            match first_match(self.text, what, from, self.text.len() as int) {
                Some(m) => DocState {
                    cursors: self.cursors.push(selecting_match(self.text, m, what.len() as int)),
                    ..self
                },
                None => self,
            }
        }
    }

    /// After the line of the primary cursor was cut out, line feed and all:
    /// one caret is left, at the start of the line that took its place, or of
    /// the last line.
    pub open spec fn with_line_cut(self) -> DocState {
        let line = line_of(self.text, offset_of(self.text, self.cursors[0].pos));
        let a = line_start(self.text, line);
        let b = line_start(self.text, line + 1);
        let text = if a < b {
            without(self.text, a, b)
        } else {
            self.text
        };
        let l = if line <= last_line(text) {
            line as usize
        } else {
            last_line(text)
        };
        DocState { text, cursors: seq![Cursor::caret(Position { line: l, col: 0 })] }
    }

    /// After a cut: where any cursor has an anchor, every selection is
    /// removed; else the line of the primary cursor is.
    pub open spec fn cut(self) -> DocState {
        if any_anchor(self.cursors, self.cursors.len() as int) {
            self.edited_all(Edit::DeleteSelection)
        } else {
            self.with_line_cut()
        }
    }
}

/// The place nearest to (`line`, `col`).
pub(crate) fn clamp_position(rope: &Rope, line: usize, col: usize) -> (p: Position)
    ensures
        p == clamped(rope_text(*rope), line, col),
        in_bounds(rope_text(*rope), p),
{
    let last = rope_len_lines(rope) - 1;
    let l = if line <= last {
        line
    } else {
        last
    };
    let len = line_len_chars(rope, l);
    proof {
        lemma_column_on_in_bounds(rope_text(*rope), l, col);
    }
    if col <= len {
        Position::new(l, col)
    } else {
        Position::new(l, len)
    }
}

/// The characters from offset `a` up to `b`, or none.
fn span_text(rope: &Rope, a: usize, b: usize) -> (s: String)
    requires
        b <= rope_text(*rope).len(),
    ensures
        s@ == span(rope_text(*rope), a as int, b as int),
{
    if a < b {
        rope_slice(rope, a, b)
    } else {
        String::new()
    }
}

impl Editor {
    /// Adds a caret at the place nearest to (`line`, `col`), unless a caret
    /// without a selection stands there already.
    pub fn add_cursor_at(&mut self, line: usize, col: usize)
        requires
            old(self)@.wf(),
        ensures
            final(self)@ == old(self)@.with_doc(old(self)@.doc.with_cursor_added(line, col)),
            final(self)@.wf(),
            old(self)@.in_bounds() ==> final(self)@.in_bounds(),
    {
        let p = clamp_position(&self.rope, line, col);
        let mut i: usize = 0;
        while i < self.cursors.len()
            invariant
                i <= self.cursors@.len(),
                self@ == old(self)@,
                old(self)@.wf(),
                p == clamped(old(self)@.doc.text, line, col),
                in_bounds(old(self)@.doc.text, p),
                forall|j: int| 0 <= j < i ==> !is_caret_at(#[trigger] self.cursors@[j], p),
            decreases self.cursors@.len() - i,
        {
            let c = &self.cursors[i];
            if c.anchor.is_none() && c.pos == p {
                return ;
            }
            i += 1;
        }
        self.cursors.push(Cursor::new(p.line, p.col));
    }

    /// Leaves one caret, at the place nearest to (`line`, `col`).
    pub fn place_cursor(&mut self, line: usize, col: usize)
        requires
            old(self)@.wf(),
        ensures
            final(self)@ == old(self)@.with_cursors(
                seq![Cursor::caret(clamped(old(self)@.doc.text, line, col))],
            ),
            final(self)@.wf(),
            old(self)@.in_bounds() ==> final(self)@.in_bounds(),
    {
        let p = clamp_position(&self.rope, line, col);
        self.cursors.truncate(1);
        self.cursors.set(0, Cursor::new(p.line, p.col));
        assert(self.cursors@ =~= seq![Cursor::caret(p)]);
    }

    /// Takes the caret of the primary cursor to the place nearest to
    /// (`line`, `col`) and selects from where the selection began, or from
    /// where the caret was.
    pub fn drag_to(&mut self, line: usize, col: usize)
        requires
            old(self)@.wf(),
        ensures
            final(self)@ == old(self)@.with_cursors(
                old(self)@.doc.cursors.update(
                    0,
                    Cursor::selecting(
                        match old(self)@.doc.cursors[0].anchor {
                            Some(a) => a,
                            None => old(self)@.doc.cursors[0].pos,
                        },
                        clamped(old(self)@.doc.text, line, col),
                    ),
                ),
            ),
            final(self)@.wf(),
            old(self)@.in_bounds() ==> final(self)@.in_bounds(),
    {
        let p = clamp_position(&self.rope, line, col);
        let c = self.cursors[0];
        let anchor = match c.anchor {
            Some(a) => a,
            None => c.pos,
        };
        self.cursors.set(0, Cursor { pos: p, anchor: Some(anchor), desired_col: p.col });
    }

    /// Drops every cursor but the primary one, and its selection.
    pub fn clear_extra_cursors(&mut self)
        requires
            old(self)@.wf(),
        ensures
            final(self)@ == old(self)@.with_cursors(old(self)@.doc.primary_caret()),
            final(self)@.wf(),
            old(self)@.in_bounds() ==> final(self)@.in_bounds(),
    {
        let c = self.cursors[0];
        self.cursors.truncate(1);
        self.cursors.set(0, Cursor { pos: c.pos, anchor: None, desired_col: c.desired_col });
        assert(self.cursors@ =~= seq![Cursor { anchor: None, ..old(self)@.doc.cursors[0] }]);
    }

    /// Selects the whole document with one cursor, its caret at the end.
    pub fn select_all(&mut self)
        requires
            old(self)@.wf(),
        ensures
            final(self)@ == old(self)@.with_cursors(old(self)@.doc.all_selected()),
            final(self)@.wf(),
            old(self)@.in_bounds() ==> final(self)@.in_bounds(),
    {
        let last = rope_len_lines(&self.rope) - 1;
        let col = line_len_chars(&self.rope, last);
        proof {
            lemma_line_start(self@.doc.text, 0);
            lemma_line_start(self@.doc.text, last as nat);
        }
        self.cursors.truncate(1);
        self.cursors.set(
            0,
            Cursor { pos: Position::new(last, col), anchor: Some(Position::new(0, 0)), desired_col: col },
        );
        assert(self.cursors@ =~= seq![
            Cursor::selecting(Position { line: 0, col: 0 }, Position { line: last, col }),
        ]);
    }

    /// The text that cursor `c` selects.
    fn selection_text(&self, c: &Cursor) -> (s: String)
        ensures
            s@ == selected_by(self@.doc.text, *c),
    {
        match c.selection_ordered() {
            Some((start, end)) => {
                let a = pos_to_char_idx(&self.rope, &start);
                let b = pos_to_char_idx(&self.rope, &end);
                span_text(&self.rope, a, b)
            },
            None => String::new(),
        }
    }

    /// The text that the primary cursor selects; empty where it selects
    /// nothing.
    pub fn selected_text(&self) -> (s: String)
        requires
            self@.wf(),
        ensures
            s@ == selected_by(self@.doc.text, self@.doc.cursors[0]),
    {
        self.selection_text(&self.cursors[0])
    }

    /// What a copy takes: for every cursor, in the order of the set, the text
    /// that it selects, or without a selection its line with a line feed.
    pub fn copy_text(&self) -> (s: String)
        ensures
            s@ == copied(self@.doc.text, self@.doc.cursors, self@.doc.cursors.len()),
    {
        let mut out = String::new();
        let mut i: usize = 0;
        while i < self.cursors.len()
            invariant
                i <= self.cursors@.len(),
                out@ == copied(self@.doc.text, self@.doc.cursors, i as nat),
            decreases self.cursors@.len() - i,
        {
            let c = &self.cursors[i];
            if c.anchor.is_some() {
                let piece = self.selection_text(c);
                out.append(piece.as_str());
            } else {
                let line = self.line_text(c.pos.line);
                out.append(line.as_str());
                out.push('\n');
                assert(out@ == copied(self@.doc.text, self@.doc.cursors, i as nat) + (line@
                    + seq!['\n']));
            }
            i += 1;
        }
        out
    }

    /// Whether any cursor has an anchor.
    fn has_selection(&self) -> (b: bool)
        ensures
            b == any_anchor(self@.doc.cursors, self@.doc.cursors.len() as int),
    {
        let mut i: usize = 0;
        while i < self.cursors.len()
            invariant
                i <= self.cursors@.len(),
                !any_anchor(self.cursors@, i as int),
            decreases self.cursors@.len() - i,
        {
            if self.cursors[i].anchor.is_some() {
                return true;
            }
            i += 1;
        }
        false
    }

    /// Cuts the line of the primary cursor out of the text.
    fn cut_line(&mut self)
        requires
            old(self)@.wf(),
        ensures
            final(self)@ == old(self)@.with_doc(old(self)@.doc.with_line_cut()),
            final(self)@.wf(),
            old(self)@.in_bounds() ==> final(self)@.in_bounds(),
    {
        let total = rope_len_chars(&self.rope);
        let lines = rope_len_lines(&self.rope);
        let i = pos_to_char_idx(&self.rope, &self.cursors[0].pos);
        let line = char_idx_to_pos(&self.rope, i).line;
        proof {
            lemma_address_of_offset(self@.doc.text, i as int);
            lemma_line_start(self@.doc.text, line as nat);
        }
        let a = rope_line_to_char(&self.rope, line);
        let b = rope_line_to_char(&self.rope, line + 1);
        if a < b {
            self.remove_range(a, b);
        }
        let last = rope_len_lines(&self.rope) - 1;
        let l = if line <= last {
            line
        } else {
            last
        };
        proof {
            lemma_line_start(self@.doc.text, l as nat);
        }
        self.cursors.truncate(1);
        self.cursors.set(0, Cursor::new(l, 0));
        assert(self.cursors@ =~= seq![Cursor::caret(Position { line: l, col: 0 })]);
    }

    /// Takes out what a copy takes and hands it back: every selection is
    /// removed where there is any, else the line of the primary cursor, which
    /// leaves one caret. One snapshot is taken for undo, and the document
    /// counts as modified.
    pub fn cut_text(&mut self) -> (s: String)
        requires
            old(self)@.wf(),
        ensures
            s@ == copied(old(self)@.doc.text, old(self)@.doc.cursors, old(self)@.doc.cursors.len()),
            final(self)@ == old(self)@.after_cut(),
            final(self)@.wf(),
            old(self)@.in_bounds() ==> final(self)@.in_bounds(),
    {
        self.save_undo();
        let text = self.copy_text();
        if self.has_selection() {
            self.edit_each(&EditOp::DeleteSelection);
        } else {
            self.cut_line();
        }
        self.modified = true;
        text
    }

    /// The ends of the word at the caret of `c`.
    pub(crate) fn word_bounds_at_cursor(&self, c: &Cursor) -> (r: (Position, Position))
        ensures
            r == word_bounds(self@.doc.text, c.pos),
            in_bounds(self@.doc.text, c.pos) ==> in_bounds(self@.doc.text, r.0) && in_bounds(
                self@.doc.text,
                r.1,
            ),
    {
        let p = c.pos;
        let line = to_chars(self.line_text(p.line).as_str());
        proof {
            lemma_line_text_len(self@.doc.text, p.line as nat);
            lemma_line_start(self@.doc.text, p.line as nat);
        }
        if p.col >= line.len() {
            (p, p)
        } else if !word_char(line[p.col]) {
            (p, Position::new(p.line, p.col + 1))
        } else {
            (
                Position::new(p.line, scan_back(&line, p.col, true)),
                Position::new(p.line, scan_forward(&line, p.col, true)),
            )
        }
    }

    /// The word at the caret of `c`; empty where there is none.
    pub(crate) fn word_at_cursor(&self, c: &Cursor) -> (s: String)
        ensures
            s@ == span(
                self@.doc.text,
                offset_of(self@.doc.text, word_bounds(self@.doc.text, c.pos).0),
                offset_of(self@.doc.text, word_bounds(self@.doc.text, c.pos).1),
            ),
    {
        let (start, end) = self.word_bounds_at_cursor(c);
        let a = pos_to_char_idx(&self.rope, &start);
        let b = pos_to_char_idx(&self.rope, &end);
        span_text(&self.rope, a, b)
    }

    /// The place furthest down the document that any cursor reaches.
    fn furthest_end(&self) -> (p: Position)
        requires
            self@.wf(),
        ensures
            p == furthest(self@.doc.cursors, self@.doc.cursors.len()),
    {
        let mut p = self.cursors[0].upper_end();
        let mut i: usize = 1;
        while i < self.cursors.len()
            invariant
                1 <= i <= self.cursors@.len(),
                p == furthest(self.cursors@, i as nat),
            decreases self.cursors@.len() - i,
        {
            let q = self.cursors[i].upper_end();
            if p.at_or_before(&q) {
                p = q;
            }
            i += 1;
        }
        p
    }

    /// Selects the word at the primary cursor, or, where that cursor has a
    /// selection already, adds a cursor that selects the next occurrence of
    /// the selected text behind every cursor of the set: the search sets out
    /// where the last cursor ends, whichever way its selection was drawn. The
    /// search does not start over at the top: where nothing more is found,
    /// nothing changes.
    pub fn select_next_occurrence(&mut self)
        requires
            old(self)@.wf(),
        ensures
            final(self)@ == old(self)@.with_doc(old(self)@.doc.with_next_occurrence()),
            final(self)@.wf(),
            old(self)@.in_bounds() ==> final(self)@.in_bounds(),
    {
        let primary = self.cursors[0];
        let what = if primary.anchor.is_some() {
            self.selection_text(&primary)
        } else {
            self.word_at_cursor(&primary)
        };
        let needle = to_chars(what.as_str());
        if needle.len() == 0 {
            return ;
        }
        if primary.anchor.is_none() {
            let (a, b) = self.word_bounds_at_cursor(&primary);
            self.cursors.set(0, Cursor { pos: b, anchor: Some(a), desired_col: b.col });
            return ;
        }
        let last = self.furthest_end();
        let from = pos_to_char_idx(&self.rope, &last);
        let hay = to_chars(self.text().as_str());
        proof {
            lemma_first_match(hay@, needle@, from as int, hay@.len() as int);
        }
        match find_from(&hay, &needle, from, hay.len()) {
            Some(m) => {
                let start = char_idx_to_pos(&self.rope, m);
                let end = char_idx_to_pos(&self.rope, m + needle.len());
                proof {
                    lemma_address_in_bounds(self@.doc.text, m as int);
                    lemma_address_in_bounds(self@.doc.text, m + needle@.len());
                }
                self.cursors.push(Cursor { pos: end, anchor: Some(start), desired_col: end.col });
            },
            None => {},
        }
    }
}

} // verus!
