//! Cursor movement. Every movement applies to every cursor of the set.

use vstd::prelude::*;
use ropey::Rope;
use crate::buffer::{rope_len_lines, rope_text};
use crate::chars::{
    lemma_skip_back, lemma_skip_forward, scan_back, scan_forward, word_end_after, word_start_before,
};
use crate::cursor::Cursor;
use crate::editor::{cursor_in_bounds, Editor, EditorState};
use crate::lines::{line_chars, line_len_chars};
use crate::position::Position;
use crate::text::{in_bounds, lemma_line_start, line_content, line_count, line_len};

verus! {

/// The kinds of movement.
#[derive(Clone, Copy, Debug)]
pub(crate) enum Motion {
    Left,
    Right,
    Up,
    Down,
    Home,
    End,
    PageUp(usize),
    PageDown(usize),
    ToStart,
    ToEnd,
    WordLeft,
    WordRight,
}

/// The anchor after a movement: a movement that selects keeps the anchor or
/// drops one where the caret is; any other movement ends the selection.
pub open spec fn anchor_after(c: Cursor, select: bool) -> Option<Position> {
    if select {
        match c.anchor {
            Some(a) => Some(a),
            None => Some(c.pos),
        }
    } else {
        None
    }
}

/// Whether a movement ends a selection: it does not select, and there is an
/// anchor.
pub open spec fn collapses(c: Cursor, select: bool) -> bool {
    !select && c.anchor is Some
}

/// Where a movement towards the start of the document sets out: at the lower
/// end of a selection that it ends, else at the caret.
pub open spec fn backward_origin(c: Cursor, select: bool) -> Position {
    match c.anchor {
        Some(a) => if select { c.pos } else { c.pos.min_of(a) },
        None => c.pos,
    }
}

/// Where a movement towards the end of the document sets out: at the upper
/// end of a selection that it ends, else at the caret.
pub open spec fn forward_origin(c: Cursor, select: bool) -> Position {
    match c.anchor {
        Some(a) => if select { c.pos } else { c.pos.max_of(a) },
        None => c.pos,
    }
}

/// The cursor with its caret at `p`, after a movement that sets the column
/// to aim for.
pub open spec fn placed(c: Cursor, select: bool, p: Position) -> Cursor {
    Cursor { pos: p, anchor: anchor_after(c, select), desired_col: p.col }
}

/// The cursor with its caret at `p`, after a vertical movement, which keeps
/// the column to aim for.
pub open spec fn placed_keeping_column(c: Cursor, select: bool, p: Position) -> Cursor {
    Cursor { pos: p, anchor: anchor_after(c, select), desired_col: c.desired_col }
}

/// The lesser of a column and a line's length.
pub open spec fn column_on(s: Seq<char>, line: nat, col: usize) -> usize {
    if col <= line_len(s, line) {
        col
    } else {
        line_len(s, line) as usize
    }
}

/// The index of the last line.
pub open spec fn last_line(s: Seq<char>) -> usize {
    (line_count(s) - 1) as usize
}

/// One place to the left: the column before, or from the start of a line the
/// end of the line above; the start of the document stays.
pub open spec fn left_of(s: Seq<char>, p: Position) -> Position {
    if p.col > 0 {
        Position { line: p.line, col: (p.col - 1) as usize }
    } else if p.line > 0 {
        Position { line: (p.line - 1) as usize, col: line_len(s, (p.line - 1) as nat) as usize }
    } else {
        p
    }
}

/// One place to the right: the column after, or from the end of a line the
/// start of the line below; the end of the document stays.
pub open spec fn right_of(s: Seq<char>, p: Position) -> Position {
    if p.col < line_len(s, p.line as nat) {
        Position { line: p.line, col: (p.col + 1) as usize }
    } else if p.line < last_line(s) {
        Position { line: (p.line + 1) as usize, col: 0 }
    } else {
        p
    }
}

/// One word to the left: from the start of a line to the end of the line
/// above, and no further; else over what is no word and then over the word.
pub open spec fn word_left_of(s: Seq<char>, p: Position) -> Position {
    if p.col == 0 {
        left_of(s, p)
    } else {
        Position {
            line: p.line,
            col: word_start_before(line_content(s, p.line as nat), p.col as int) as usize,
        }
    }
}

/// One word to the right: from the end of a line to the start of the line
/// below, and no further; else over the word and then over what is no word.
pub open spec fn word_right_of(s: Seq<char>, p: Position) -> Position {
    if p.col >= line_len(s, p.line as nat) {
        if p.line < last_line(s) {
            Position { line: (p.line + 1) as usize, col: 0 }
        } else {
            p
        }
    } else {
        Position {
            line: p.line,
            col: word_end_after(line_content(s, p.line as nat), p.col as int) as usize,
        }
    }
}

/// Left: a selection that the movement ends collapses to its lower end and
/// the caret goes no further; else the caret goes one place to the left.
pub open spec fn moved_left(s: Seq<char>, c: Cursor, select: bool) -> Cursor {
    if collapses(c, select) {
        Cursor::caret(backward_origin(c, select))
    } else {
        placed(c, select, left_of(s, c.pos))
    }
}

/// Right: a selection that the movement ends collapses to its upper end and
/// the caret goes no further; else the caret goes one place to the right.
pub open spec fn moved_right(s: Seq<char>, c: Cursor, select: bool) -> Cursor {
    if collapses(c, select) {
        Cursor::caret(forward_origin(c, select))
    } else {
        placed(c, select, right_of(s, c.pos))
    }
}

/// Up: to the line above, at the column aimed for or the line's end. The
/// first line stays.
pub open spec fn moved_up(s: Seq<char>, c: Cursor, select: bool) -> Cursor {
    if c.pos.line > 0 {
        let line = (c.pos.line - 1) as usize;
        placed_keeping_column(
            c,
            select,
            Position { line, col: column_on(s, line as nat, c.desired_col) },
        )
    } else {
        placed_keeping_column(c, select, c.pos)
    }
}

/// Down: to the line below, at the column aimed for or the line's end. The
/// last line stays.
pub open spec fn moved_down(s: Seq<char>, c: Cursor, select: bool) -> Cursor {
    if c.pos.line < last_line(s) {
        let line = (c.pos.line + 1) as usize;
        placed_keeping_column(
            c,
            select,
            Position { line, col: column_on(s, line as nat, c.desired_col) },
        )
    } else {
        placed_keeping_column(c, select, c.pos)
    }
}

/// Home: to the start of the line.
pub open spec fn moved_home(s: Seq<char>, c: Cursor, select: bool) -> Cursor {
    placed(c, select, Position { line: backward_origin(c, select).line, col: 0 })
}

/// End: to the end of the line.
pub open spec fn moved_end(s: Seq<char>, c: Cursor, select: bool) -> Cursor {
    let line = forward_origin(c, select).line;
    placed(c, select, Position { line, col: line_len(s, line as nat) as usize })
}

/// Page up: `lines` lines up or to the first line, at the column aimed for
/// or the line's end.
pub open spec fn moved_page_up(s: Seq<char>, c: Cursor, select: bool, lines: usize) -> Cursor {
    let line = if c.pos.line >= lines {
        (c.pos.line - lines) as usize
    } else {
        0
    };
    placed_keeping_column(c, select, Position { line, col: column_on(s, line as nat, c.desired_col) })
}

/// Page down: `lines` lines down or to the last line, at the column aimed
/// for or the line's end.
pub open spec fn moved_page_down(s: Seq<char>, c: Cursor, select: bool, lines: usize) -> Cursor {
    let line = if c.pos.line + lines <= last_line(s) {
        (c.pos.line + lines) as usize
    } else {
        last_line(s)
    };
    placed_keeping_column(c, select, Position { line, col: column_on(s, line as nat, c.desired_col) })
}

/// To the start of the document.
pub open spec fn moved_to_start(s: Seq<char>, c: Cursor, select: bool) -> Cursor {
    placed(c, select, Position { line: 0, col: 0 })
}

/// To the end of the document.
pub open spec fn moved_to_end(s: Seq<char>, c: Cursor, select: bool) -> Cursor {
    placed(
        c,
        select,
        Position { line: last_line(s), col: line_len(s, last_line(s) as nat) as usize },
    )
}

/// One word to the left.
pub open spec fn moved_word_left(s: Seq<char>, c: Cursor, select: bool) -> Cursor {
    placed(c, select, word_left_of(s, backward_origin(c, select)))
}

/// One word to the right.
pub open spec fn moved_word_right(s: Seq<char>, c: Cursor, select: bool) -> Cursor {
    placed(c, select, word_right_of(s, forward_origin(c, select)))
}

pub(crate) open spec fn moved(s: Seq<char>, c: Cursor, m: Motion, select: bool) -> Cursor {
    match m {
        Motion::Left => moved_left(s, c, select),
        Motion::Right => moved_right(s, c, select),
        Motion::Up => moved_up(s, c, select),
        Motion::Down => moved_down(s, c, select),
        Motion::Home => moved_home(s, c, select),
        Motion::End => moved_end(s, c, select),
        Motion::PageUp(n) => moved_page_up(s, c, select, n),
        Motion::PageDown(n) => moved_page_down(s, c, select, n),
        Motion::ToStart => moved_to_start(s, c, select),
        Motion::ToEnd => moved_to_end(s, c, select),
        Motion::WordLeft => moved_word_left(s, c, select),
        Motion::WordRight => moved_word_right(s, c, select),
    }
}

/// The places that the single steps lead to are places in the text.
pub(crate) proof fn lemma_steps_in_bounds(s: Seq<char>, p: Position)
    requires
        in_bounds(s, p),
    ensures
        in_bounds(s, left_of(s, p)),
        in_bounds(s, right_of(s, p)),
        in_bounds(s, word_left_of(s, p)),
        in_bounds(s, word_right_of(s, p)),
        in_bounds(s, Position { line: p.line, col: 0 }),
        in_bounds(s, Position { line: p.line, col: line_len(s, p.line as nat) as usize }),
{
    lemma_line_start(s, p.line as nat);
    if p.line > 0 {
        lemma_line_start(s, (p.line - 1) as nat);
    }
    lemma_line_start(s, (p.line + 1) as nat);
    let line = line_content(s, p.line as nat);
    lemma_skip_back(line, p.col as int, false);
    lemma_skip_back(line, crate::chars::skip_back(line, p.col as int, false), true);
    lemma_skip_forward(line, p.col as int, true);
    lemma_skip_forward(line, crate::chars::skip_forward(line, p.col as int, true), false);
}

/// A column held to the length of a line of the text is a place in the text.
pub(crate) proof fn lemma_column_on_in_bounds(s: Seq<char>, line: usize, col: usize)
    requires
        line < line_count(s),
    ensures
        in_bounds(s, Position { line, col: column_on(s, line as nat, col) }),
{
    lemma_line_start(s, line as nat);
}

/// No movement takes a cursor out of the text.
pub(crate) proof fn lemma_moved_in_bounds(s: Seq<char>, c: Cursor, m: Motion, select: bool)
    requires
        cursor_in_bounds(s, c),
    ensures
        cursor_in_bounds(s, moved(s, c, m, select)),
{
    let b = backward_origin(c, select);
    let f = forward_origin(c, select);
    assert(in_bounds(s, b) && in_bounds(s, f));
    assert(anchor_after(c, select) matches Some(a) ==> in_bounds(s, a));
    lemma_line_start(s, 0);
    lemma_line_start(s, last_line(s) as nat);
    match m {
        Motion::Left => {
            lemma_steps_in_bounds(s, c.pos);
        },
        Motion::Right => {
            lemma_steps_in_bounds(s, c.pos);
        },
        Motion::Up => {
            if c.pos.line > 0 {
                lemma_column_on_in_bounds(s, (c.pos.line - 1) as usize, c.desired_col);
            }
        },
        Motion::Down => {
            if c.pos.line < last_line(s) {
                lemma_column_on_in_bounds(s, (c.pos.line + 1) as usize, c.desired_col);
            }
        },
        Motion::Home => {
            lemma_steps_in_bounds(s, b);
        },
        Motion::End => {
            lemma_steps_in_bounds(s, f);
        },
        Motion::PageUp(n) => {
            let line = if c.pos.line >= n {
                (c.pos.line - n) as usize
            } else {
                0
            };
            lemma_column_on_in_bounds(s, line, c.desired_col);
        },
        Motion::PageDown(n) => {
            let line = if c.pos.line + n <= last_line(s) {
                (c.pos.line + n) as usize
            } else {
                last_line(s)
            };
            lemma_column_on_in_bounds(s, line, c.desired_col);
        },
        Motion::ToStart => {},
        Motion::ToEnd => {},
        Motion::WordLeft => {
            lemma_steps_in_bounds(s, b);
        },
        Motion::WordRight => {
            lemma_steps_in_bounds(s, f);
        },
    }
}

/// Where a movement towards the start of the document sets out.
fn origin_backward(c: &Cursor, select: bool) -> (p: Position)
    ensures
        p == backward_origin(*c, select),
{
    match c.anchor {
        Some(a) => if select || c.pos.at_or_before(&a) {
            c.pos
        } else {
            a
        },
        None => c.pos,
    }
}

/// Where a movement towards the end of the document sets out.
fn origin_forward(c: &Cursor, select: bool) -> (p: Position)
    ensures
        p == forward_origin(*c, select),
{
    match c.anchor {
        Some(a) => if select || !c.pos.at_or_before(&a) {
            c.pos
        } else {
            a
        },
        None => c.pos,
    }
}

/// The anchor after a movement.
fn next_anchor(c: &Cursor, select: bool) -> (a: Option<Position>)
    ensures
        a == anchor_after(*c, select),
{
    if select {
        match c.anchor {
            Some(a) => Some(a),
            None => Some(c.pos),
        }
    } else {
        None
    }
}

/// One place to the left of `p`.
fn step_left(rope: &Rope, p: Position) -> (r: Position)
    ensures
        r == left_of(rope_text(*rope), p),
{
    if p.col > 0 {
        Position::new(p.line, p.col - 1)
    } else if p.line > 0 {
        Position::new(p.line - 1, line_len_chars(rope, p.line - 1))
    } else {
        p
    }
}

/// One place to the right of `p`.
fn step_right(rope: &Rope, p: Position) -> (r: Position)
    ensures
        r == right_of(rope_text(*rope), p),
{
    let len = line_len_chars(rope, p.line);
    let lines = rope_len_lines(rope);
    if p.col < len {
        Position::new(p.line, p.col + 1)
    } else if p.line < lines - 1 {
        Position::new(p.line + 1, 0)
    } else {
        p
    }
}

/// One word to the left of `p`.
fn step_word_left(rope: &Rope, p: Position) -> (r: Position)
    ensures
        r == word_left_of(rope_text(*rope), p),
{
    if p.col == 0 {
        step_left(rope, p)
    } else {
        let line = line_chars(rope, p.line);
        let k = scan_back(&line, p.col, false);
        Position::new(p.line, scan_back(&line, k, true))
    }
}

/// One word to the right of `p`.
fn step_word_right(rope: &Rope, p: Position) -> (r: Position)
    ensures
        r == word_right_of(rope_text(*rope), p),
{
    let len = line_len_chars(rope, p.line);
    let lines = rope_len_lines(rope);
    if p.col >= len {
        if p.line < lines - 1 {
            Position::new(p.line + 1, 0)
        } else {
            p
        }
    } else {
        let line = line_chars(rope, p.line);
        let k = scan_forward(&line, p.col, true);
        Position::new(p.line, scan_forward(&line, k, false))
    }
}

/// The position on `line` at the column aimed for, or at the line's end.
fn on_line(rope: &Rope, line: usize, desired_col: usize) -> (p: Position)
    ensures
        p == (Position { line, col: column_on(rope_text(*rope), line as nat, desired_col) }),
{
    let len = line_len_chars(rope, line);
    if desired_col <= len {
        Position::new(line, desired_col)
    } else {
        Position::new(line, len)
    }
}

/// One cursor after one movement.
pub(crate) fn move_cursor(rope: &Rope, c: Cursor, m: Motion, select: bool) -> (r: Cursor)
    ensures
        r == moved(rope_text(*rope), c, m, select),
{
    let anchor = next_anchor(&c, select);
    let lines = rope_len_lines(rope);
    let last = lines - 1;
    let ends = !select && c.anchor.is_some();
    match m {
        Motion::Left => {
            if ends {
                let p = origin_backward(&c, select);
                Cursor { pos: p, anchor: None, desired_col: p.col }
            } else {
                let p = step_left(rope, c.pos);
                Cursor { pos: p, anchor, desired_col: p.col }
            }
        },
        Motion::Right => {
            if ends {
                let p = origin_forward(&c, select);
                Cursor { pos: p, anchor: None, desired_col: p.col }
            } else {
                let p = step_right(rope, c.pos);
                Cursor { pos: p, anchor, desired_col: p.col }
            }
        },
        Motion::Up => {
            if c.pos.line > 0 {
                let p = on_line(rope, c.pos.line - 1, c.desired_col);
                Cursor { pos: p, anchor, desired_col: c.desired_col }
            } else {
                Cursor { pos: c.pos, anchor, desired_col: c.desired_col }
            }
        },
        Motion::Down => {
            if c.pos.line < last {
                let p = on_line(rope, c.pos.line + 1, c.desired_col);
                Cursor { pos: p, anchor, desired_col: c.desired_col }
            } else {
                Cursor { pos: c.pos, anchor, desired_col: c.desired_col }
            }
        },
        Motion::Home => {
            let p = Position::new(origin_backward(&c, select).line, 0);
            Cursor { pos: p, anchor, desired_col: 0 }
        },
        Motion::End => {
            let line = origin_forward(&c, select).line;
            let p = Position::new(line, line_len_chars(rope, line));
            Cursor { pos: p, anchor, desired_col: p.col }
        },
        Motion::PageUp(n) => {
            let line = if c.pos.line >= n {
                c.pos.line - n
            } else {
                0
            };
            let p = on_line(rope, line, c.desired_col);
            Cursor { pos: p, anchor, desired_col: c.desired_col }
        },
        Motion::PageDown(n) => {
            let line = if c.pos.line <= last && n <= last - c.pos.line {
                c.pos.line + n
            } else {
                last
            };
            let p = on_line(rope, line, c.desired_col);
            Cursor { pos: p, anchor, desired_col: c.desired_col }
        },
        Motion::ToStart => Cursor { pos: Position::new(0, 0), anchor, desired_col: 0 },
        Motion::ToEnd => {
            let p = Position::new(last, line_len_chars(rope, last));
            Cursor { pos: p, anchor, desired_col: p.col }
        },
        Motion::WordLeft => {
            let p = step_word_left(rope, origin_backward(&c, select));
            Cursor { pos: p, anchor, desired_col: p.col }
        },
        Motion::WordRight => {
            let p = step_word_right(rope, origin_forward(&c, select));
            Cursor { pos: p, anchor, desired_col: p.col }
        },
    }
}

impl EditorState {
    /// The state in which every cursor `c` has become `f(c)`.
    pub open spec fn each_cursor(self, f: spec_fn(Cursor) -> Cursor) -> EditorState {
        self.with_cursors(self.doc.cursors.map_values(f))
    }
}

impl Editor {
    /// Applies one movement to every cursor.
    fn move_each(&mut self, m: Motion, select: bool)
        requires
            old(self)@.wf(),
        ensures
            final(self)@ == old(self)@.each_cursor(
                |c: Cursor| moved(old(self)@.doc.text, c, m, select),
            ),
            final(self)@.wf(),
            old(self)@.in_bounds() ==> final(self)@.in_bounds(),
    {
        let ghost text = self@.doc.text;
        let ghost before = self@.doc.cursors;
        let ghost f = |c: Cursor| moved(text, c, m, select);
        let n = self.cursors.len();
        let mut i: usize = 0;
        while i < n
            invariant
                i <= n,
                n == before.len(),
                self@ == old(self)@.with_cursors(self.cursors@),
                self.cursors@.len() == n,
                text == old(self)@.doc.text,
                before == old(self)@.doc.cursors,
                f == |c: Cursor| moved(text, c, m, select),
                forall|j: int| 0 <= j < i ==> self.cursors@[j] == f(before[j]),
                forall|j: int| i <= j < n ==> self.cursors@[j] == before[j],
                old(self)@.doc.in_bounds() ==> forall|j: int|
                    0 <= j < n ==> cursor_in_bounds(text, #[trigger] self.cursors@[j]),
            decreases n - i,
        {
            let c = self.cursors[i];
            let r = move_cursor(&self.rope, c, m, select);
            proof {
                if old(self)@.doc.in_bounds() {
                    lemma_moved_in_bounds(text, c, m, select);
                }
            }
            self.cursors.set(i, r);
            i += 1;
        }
        assert(self.cursors@ =~= before.map_values(f));
    }

    /// Moves every cursor one place to the left. A selection that the
    /// movement ends collapses to its lower end instead.
    pub fn move_left(&mut self, select: bool)
        requires
            old(self)@.wf(),
        ensures
            final(self)@ == old(self)@.each_cursor(
                |c: Cursor| moved_left(old(self)@.doc.text, c, select),
            ),
            final(self)@.wf(),
            old(self)@.in_bounds() ==> final(self)@.in_bounds(),
    {
        self.move_each(Motion::Left, select);
        assert(final(self)@.doc.cursors =~= old(self)@.doc.cursors.map_values(
            |c: Cursor| moved_left(old(self)@.doc.text, c, select),
        ));
    }

    /// Moves every cursor one place to the right. A selection that the
    /// movement ends collapses to its upper end instead.
    pub fn move_right(&mut self, select: bool)
        requires
            old(self)@.wf(),
        ensures
            final(self)@ == old(self)@.each_cursor(
                |c: Cursor| moved_right(old(self)@.doc.text, c, select),
            ),
            final(self)@.wf(),
            old(self)@.in_bounds() ==> final(self)@.in_bounds(),
    {
        self.move_each(Motion::Right, select);
        assert(final(self)@.doc.cursors =~= old(self)@.doc.cursors.map_values(
            |c: Cursor| moved_right(old(self)@.doc.text, c, select),
        ));
    }

    /// Moves every cursor one line up, to the column it aims for or to the
    /// end of a shorter line. The column aimed for stays as it is.
    pub fn move_up(&mut self, select: bool)
        requires
            old(self)@.wf(),
        ensures
            final(self)@ == old(self)@.each_cursor(
                |c: Cursor| moved_up(old(self)@.doc.text, c, select),
            ),
            final(self)@.wf(),
            old(self)@.in_bounds() ==> final(self)@.in_bounds(),
    {
        self.move_each(Motion::Up, select);
        assert(final(self)@.doc.cursors =~= old(self)@.doc.cursors.map_values(
            |c: Cursor| moved_up(old(self)@.doc.text, c, select),
        ));
    }

    /// Moves every cursor one line down, to the column it aims for or to
    /// the end of a shorter line. The column aimed for stays as it is.
    pub fn move_down(&mut self, select: bool)
        requires
            old(self)@.wf(),
        ensures
            final(self)@ == old(self)@.each_cursor(
                |c: Cursor| moved_down(old(self)@.doc.text, c, select),
            ),
            final(self)@.wf(),
            old(self)@.in_bounds() ==> final(self)@.in_bounds(),
    {
        self.move_each(Motion::Down, select);
        assert(final(self)@.doc.cursors =~= old(self)@.doc.cursors.map_values(
            |c: Cursor| moved_down(old(self)@.doc.text, c, select),
        ));
    }

    /// Moves every cursor to the start of its line: the line of the lower
    /// end of a selection that the movement ends, else that of the caret.
    pub fn move_home(&mut self, select: bool)
        requires
            old(self)@.wf(),
        ensures
            final(self)@ == old(self)@.each_cursor(
                |c: Cursor| moved_home(old(self)@.doc.text, c, select),
            ),
            final(self)@.wf(),
            old(self)@.in_bounds() ==> final(self)@.in_bounds(),
    {
        self.move_each(Motion::Home, select);
        assert(final(self)@.doc.cursors =~= old(self)@.doc.cursors.map_values(
            |c: Cursor| moved_home(old(self)@.doc.text, c, select),
        ));
    }

    /// Moves every cursor to the end of its line: the line of the upper end
    /// of a selection that the movement ends, else that of the caret.
    pub fn move_end(&mut self, select: bool)
        requires
            old(self)@.wf(),
        ensures
            final(self)@ == old(self)@.each_cursor(
                |c: Cursor| moved_end(old(self)@.doc.text, c, select),
            ),
            final(self)@.wf(),
            old(self)@.in_bounds() ==> final(self)@.in_bounds(),
    {
        self.move_each(Motion::End, select);
        assert(final(self)@.doc.cursors =~= old(self)@.doc.cursors.map_values(
            |c: Cursor| moved_end(old(self)@.doc.text, c, select),
        ));
    }

    /// Moves every cursor `visible_lines` lines up, or to the first line.
    pub fn move_page_up(&mut self, select: bool, visible_lines: usize)
        requires
            old(self)@.wf(),
        ensures
            final(self)@ == old(self)@.each_cursor(
                |c: Cursor| moved_page_up(old(self)@.doc.text, c, select, visible_lines),
            ),
            final(self)@.wf(),
            old(self)@.in_bounds() ==> final(self)@.in_bounds(),
    {
        self.move_each(Motion::PageUp(visible_lines), select);
        assert(final(self)@.doc.cursors =~= old(self)@.doc.cursors.map_values(
            |c: Cursor| moved_page_up(old(self)@.doc.text, c, select, visible_lines),
        ));
    }

    /// Moves every cursor `visible_lines` lines down, or to the last line.
    pub fn move_page_down(&mut self, select: bool, visible_lines: usize)
        requires
            old(self)@.wf(),
        ensures
            final(self)@ == old(self)@.each_cursor(
                |c: Cursor| moved_page_down(old(self)@.doc.text, c, select, visible_lines),
            ),
            final(self)@.wf(),
            old(self)@.in_bounds() ==> final(self)@.in_bounds(),
    {
        self.move_each(Motion::PageDown(visible_lines), select);
        assert(final(self)@.doc.cursors =~= old(self)@.doc.cursors.map_values(
            |c: Cursor| moved_page_down(old(self)@.doc.text, c, select, visible_lines),
        ));
    }

    /// Moves every cursor to the start of the document.
    pub fn move_to_start(&mut self, select: bool)
        requires
            old(self)@.wf(),
        ensures
            final(self)@ == old(self)@.each_cursor(
                |c: Cursor| moved_to_start(old(self)@.doc.text, c, select),
            ),
            final(self)@.wf(),
            old(self)@.in_bounds() ==> final(self)@.in_bounds(),
    {
        self.move_each(Motion::ToStart, select);
        assert(final(self)@.doc.cursors =~= old(self)@.doc.cursors.map_values(
            |c: Cursor| moved_to_start(old(self)@.doc.text, c, select),
        ));
    }

    /// Moves every cursor to the end of the document.
    pub fn move_to_end(&mut self, select: bool)
        requires
            old(self)@.wf(),
        ensures
            final(self)@ == old(self)@.each_cursor(
                |c: Cursor| moved_to_end(old(self)@.doc.text, c, select),
            ),
            final(self)@.wf(),
            old(self)@.in_bounds() ==> final(self)@.in_bounds(),
    {
        self.move_each(Motion::ToEnd, select);
        assert(final(self)@.doc.cursors =~= old(self)@.doc.cursors.map_values(
            |c: Cursor| moved_to_end(old(self)@.doc.text, c, select),
        ));
    }

    /// Moves every cursor one word to the left: over what is no word, then
    /// over the word; from the start of a line to the end of the line above.
    /// The movement sets out at the lower end of a selection that it ends.
    pub fn move_word_left(&mut self, select: bool)
        requires
            old(self)@.wf(),
        ensures
            final(self)@ == old(self)@.each_cursor(
                |c: Cursor| moved_word_left(old(self)@.doc.text, c, select),
            ),
            final(self)@.wf(),
            old(self)@.in_bounds() ==> final(self)@.in_bounds(),
    {
        self.move_each(Motion::WordLeft, select);
        assert(final(self)@.doc.cursors =~= old(self)@.doc.cursors.map_values(
            |c: Cursor| moved_word_left(old(self)@.doc.text, c, select),
        ));
    }

    /// Moves every cursor one word to the right: over the word, then over
    /// what is no word; from the end of a line to the start of the line below.
    /// The movement sets out at the upper end of a selection that it ends.
    pub fn move_word_right(&mut self, select: bool)
        requires
            old(self)@.wf(),
        ensures
            final(self)@ == old(self)@.each_cursor(
                |c: Cursor| moved_word_right(old(self)@.doc.text, c, select),
            ),
            final(self)@.wf(),
            old(self)@.in_bounds() ==> final(self)@.in_bounds(),
    {
        self.move_each(Motion::WordRight, select);
        assert(final(self)@.doc.cursors =~= old(self)@.doc.cursors.map_values(
            |c: Cursor| moved_word_right(old(self)@.doc.text, c, select),
        ));
    }
}

} // verus!
