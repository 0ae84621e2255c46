//! Editing: insertion and deletion at every cursor.
//!
//! An edit takes the cursors from the last in the document to the first, so
//! that what it does at one cursor leaves the text before that cursor, and
//! with it the cursors still to come, as they are. The cursors behind are
//! carried along with their text, so that no edit takes a cursor out of the
//! document.

use vstd::prelude::*;
use crate::buffer::{rope_insert, rope_len_chars, rope_remove};
use crate::chars::{
    lemma_skip_back, lemma_skip_forward, newline_after, newline_text, scan_back, scan_forward,
    skip_back, skip_forward, to_chars, word_end_after, word_start_before,
};
use crate::cursor::Cursor;
use crate::editor::{cursor_in_bounds, DocState, Editor, EditorState};
use crate::laws::{carets_aiming, lemma_insert_leaves_carets};
use crate::lines::{char_idx_to_pos, line_len_chars, pos_to_char_idx};
use crate::position::Position;
use crate::text::{
    address_of, in_bounds, lemma_address_in_bounds, lemma_address_of_offset, lemma_line_start,
    lemma_line_text_len, lemma_offset_in_range, lemma_offset_of_address, lemma_prefix_address,
    line_len, line_text_of, offset_of,
};

verus! {

/// `s` without the characters from offset `a` up to `b`.
pub open spec fn without(s: Seq<char>, a: int, b: int) -> Seq<char> {
    s.subrange(0, a) + s.subrange(b, s.len() as int)
}

/// `s` with `t` put in at offset `i`.
pub open spec fn with_inserted(s: Seq<char>, i: int, t: Seq<char>) -> Seq<char> {
    s.subrange(0, i) + t + s.subrange(i, s.len() as int)
}

/// The caret at offset `i` of `s`, with no selection.
pub open spec fn caret_at(s: Seq<char>, i: int) -> Cursor {
    Cursor::caret(address_of(s, i))
}

/// What an edit does at each cursor.
pub enum Edit {
    /// Puts text where the cursor is, in place of what it selects.
    Insert(Seq<char>),
    /// Removes the selection, or the character before the caret.
    Backspace,
    /// Removes the selection, or the character after the caret.
    DeleteForward,
    /// Removes the selection, or the word before the caret.
    DeleteWordBackward,
    /// Removes the selection, or the word after the caret.
    DeleteWordForward,
    /// Removes the selection, if there is one.
    DeleteSelection,
}

/// A cursor with a selection loses the selected text and becomes a caret
/// where the text was. A cursor without one is left alone, and so is the text.
pub open spec fn selection_removed(s: Seq<char>, c: Cursor) -> (Seq<char>, Cursor) {
    match c.selection() {
        Some((start, end)) => {
            let a = offset_of(s, start);
            let b = offset_of(s, end);
            let s2 = if a < b {
                without(s, a, b)
            } else {
                s
            };
            (s2, caret_at(s2, a))
        },
        None => (s, c),
    }
}

/// The text `t` replaces the selection, or goes in at the caret, and the
/// caret comes to stand behind it.
pub open spec fn inserted(s: Seq<char>, c: Cursor, t: Seq<char>) -> (Seq<char>, Cursor) {
    let (s1, c1) = selection_removed(s, c);
    let i = offset_of(s1, c1.pos);
    let s2 = with_inserted(s1, i, t);
    (s2, caret_at(s2, i + t.len()))
}

/// A selection is removed. Without one, the character before the caret is,
/// which joins two lines where the caret is at the start of one, and the
/// caret steps back. At the start of the document nothing changes.
pub open spec fn backspaced(s: Seq<char>, c: Cursor) -> (Seq<char>, Cursor) {
    if c.anchor is Some {
        selection_removed(s, c)
    } else {
        let i = offset_of(s, c.pos);
        if i == 0 {
            (s, c)
        } else {
            let s2 = without(s, i - 1, i);
            (s2, caret_at(s2, i - 1))
        }
    }
}

/// A selection is removed. Without one, the character after the caret is,
/// and the cursor stays as it is. At the end of the document nothing changes.
pub open spec fn deleted_forward(s: Seq<char>, c: Cursor) -> (Seq<char>, Cursor) {
    if c.anchor is Some {
        selection_removed(s, c)
    } else {
        let i = offset_of(s, c.pos);
        if i >= s.len() {
            (s, c)
        } else {
            (without(s, i, i + 1), c)
        }
    }
}

/// A selection is removed. Without one, at the start of a line the line
/// break before the caret is removed and nothing more; elsewhere what lies
/// between the start of the word before the caret and the caret. The caret
/// comes to stand where the removed text began. At the start of the document
/// nothing changes.
pub open spec fn deleted_word_backward(s: Seq<char>, c: Cursor) -> (Seq<char>, Cursor) {
    if c.anchor is Some {
        selection_removed(s, c)
    } else {
        let i = offset_of(s, c.pos);
        let p = address_of(s, i);
        if i == 0 {
            (s, c)
        } else if p.col == 0 {
            let s2 = without(s, i - 1, i);
            (s2, caret_at(s2, i - 1))
        } else {
            let k = word_start_before(line_text_of(s, p.line as nat), p.col as int);
            let a = i - (p.col - k);
            let s2 = without(s, a, i);
            (s2, caret_at(s2, a))
        }
    }
}

/// A selection is removed. Without one, at the end of a line the line break
/// after the caret is removed and nothing more; elsewhere what lies between
/// the caret and the start of the next word. The cursor stays as it is.
pub open spec fn deleted_word_forward(s: Seq<char>, c: Cursor) -> (Seq<char>, Cursor) {
    if c.anchor is Some {
        selection_removed(s, c)
    } else {
        let i = offset_of(s, c.pos);
        let p = address_of(s, i);
        if p.col >= line_len(s, p.line as nat) {
            if i < s.len() {
                (without(s, i, i + 1), c)
            } else {
                (s, c)
            }
        } else {
            let k = word_end_after(line_text_of(s, p.line as nat), p.col as int);
            (without(s, i, i + (k - p.col)), c)
        }
    }
}

/// The text and the cursor after an edit at that cursor.
pub open spec fn edited(s: Seq<char>, c: Cursor, e: Edit) -> (Seq<char>, Cursor) {
    match e {
        Edit::Insert(t) => inserted(s, c, t),
        Edit::Backspace => backspaced(s, c),
        Edit::DeleteForward => deleted_forward(s, c),
        Edit::DeleteWordBackward => deleted_word_backward(s, c),
        Edit::DeleteWordForward => deleted_word_forward(s, c),
        Edit::DeleteSelection => selection_removed(s, c),
    }
}

/// `order`, which lists cursors from the last in the document to the first,
/// with cursor `i` put in: behind every cursor whose caret is not before its
/// own.
pub open spec fn insert_by_position(cursors: Seq<Cursor>, order: Seq<usize>, i: usize) -> Seq<
    usize,
>
    decreases order.len(),
{
    if order.len() == 0 {
        seq![i]
    } else if cursors[order.last() as int].pos.before(cursors[i as int].pos) {
        insert_by_position(cursors, order.drop_last(), i).push(order.last())
    } else {
        order.push(i)
    }
}

/// The first `n` cursors in the order in which an edit takes them.
pub open spec fn edit_order_of_first(cursors: Seq<Cursor>, n: nat) -> Seq<usize>
    decreases n,
{
    if n == 0 {
        Seq::empty()
    } else {
        insert_by_position(cursors, edit_order_of_first(cursors, (n - 1) as nat), (n - 1) as usize)
    }
}

/// The order in which an edit takes the cursors: by caret from the last in
/// the document to the first, and cursors with the same caret in the order
/// of the set.
pub open spec fn edit_order(cursors: Seq<Cursor>) -> Seq<usize> {
    edit_order_of_first(cursors, cursors.len())
}

/// What an edit does to the text: the characters from offset `start` up to
/// `end` leave, and `inserted` characters come to stand at `start`.
pub struct Span {
    pub start: int,
    pub end: int,
    pub inserted: int,
}

/// What an edit at cursor `c` does to the text `s`. A selection leaves, and
/// an insertion puts its text where the selection began. Without a
/// selection, what leaves lies before or behind the caret, as the edit has
/// it, and an insertion puts its text at the caret.
pub open spec fn edit_span(s: Seq<char>, c: Cursor, e: Edit) -> Span {
    let inserted = match e {
        Edit::Insert(t) => t.len() as int,
        _ => 0,
    };
    if c.anchor is Some {
        let a = offset_of(s, c.lower());
        let b = offset_of(s, c.upper());
        Span { start: a, end: if a < b { b } else { a }, inserted }
    } else {
        let i = offset_of(s, c.pos);
        let p = address_of(s, i);
        match e {
            Edit::Backspace => Span { start: if i == 0 { 0 } else { i - 1 }, end: i, inserted },
            Edit::DeleteForward => Span { start: i, end: if i >= s.len() { i } else { i + 1 }, inserted },
            Edit::DeleteWordBackward => Span {
                start: if i == 0 {
                    0
                } else if p.col == 0 {
                    i - 1
                } else {
                    i - (p.col - word_start_before(line_text_of(s, p.line as nat), p.col as int))
                },
                end: i,
                inserted,
            },
            Edit::DeleteWordForward => Span {
                start: i,
                end: if p.col >= line_len(s, p.line as nat) {
                    if i < s.len() {
                        i + 1
                    } else {
                        i
                    }
                } else {
                    i + (word_end_after(line_text_of(s, p.line as nat), p.col as int) - p.col)
                },
                inserted,
            },
            _ => Span { start: i, end: i, inserted },
        }
    }
}

/// Where offset `j` of the text comes to lie after an edit, in a text of
/// `len` characters: an offset at or before the start of the edit stays; an
/// offset at or behind its end moves with the text behind the edit; an
/// offset inside what left falls to the start.
pub open spec fn carried_offset(sp: Span, j: int, len: int) -> int {
    let k = if j <= sp.start {
        j
    } else if j >= sp.end {
        j - (sp.end - sp.start) + sp.inserted
    } else {
        sp.start
    };
    if k < 0 {
        0
    } else if k > len {
        len
    } else {
        k
    }
}

/// The place in the new text `s2` of what was at `p` in the old text `s`.
pub open spec fn carried_place(s: Seq<char>, s2: Seq<char>, sp: Span, p: Position) -> Position {
    address_of(s2, carried_offset(sp, offset_of(s, p), s2.len() as int))
}

/// A cursor that an edit at another cursor carries along: its caret and its
/// anchor stay with the characters at which they stood. A caret that comes
/// to another place aims for its new column.
pub open spec fn carried(s: Seq<char>, s2: Seq<char>, sp: Span, q: Cursor) -> Cursor {
    let pos = carried_place(s, s2, sp, q.pos);
    Cursor {
        pos,
        anchor: match q.anchor {
            Some(a) => Some(carried_place(s, s2, sp, a)),
            None => None,
        },
        desired_col: if pos == q.pos {
            q.desired_col
        } else {
            pos.col
        },
    }
}

impl DocState {
    /// The text after an edit at cursor `idx` and that cursor after it, with
    /// the other cursors not yet carried along.
    pub(crate) open spec fn edited_alone(self, idx: int, e: Edit) -> DocState {
        let (text, c) = edited(self.text, self.cursors[idx], e);
        DocState { text, cursors: self.cursors.update(idx, c) }
    }

    /// The document after an edit at cursor `idx`. Every other cursor is
    /// carried along: it stays with the characters at which it stood, so
    /// that the edit takes no cursor out of the text.
    pub open spec fn edited_at(self, idx: int, e: Edit) -> DocState {
        let (text, c) = edited(self.text, self.cursors[idx], e);
        let sp = edit_span(self.text, self.cursors[idx], e);
        DocState {
            text,
            cursors: Seq::new(
                self.cursors.len(),
                |k: int|
                    if k == idx {
                        c
                    } else {
                        carried(self.text, text, sp, self.cursors[k])
                    },
            ),
        }
    }

    /// The document after an edit at the cursors that `order` lists, one
    /// after the other.
    pub open spec fn edited_in_order(self, order: Seq<usize>, e: Edit) -> DocState
        decreases order.len(),
    {
        if order.len() == 0 {
            self
        } else {
            self.edited_in_order(order.drop_last(), e).edited_at(order.last() as int, e)
        }
    }

    /// The document after an edit at every cursor.
    pub open spec fn edited_all(self, e: Edit) -> DocState {
        self.edited_in_order(edit_order(self.cursors), e)
    }
}

impl EditorState {
    /// The state after an undoable edit at every cursor: a snapshot was
    /// taken, the edit made, and the document counts as modified.
    pub open spec fn after_edit(self, e: Edit) -> EditorState {
        EditorState { doc: self.doc.edited_all(e), modified: true, ..self.snapshotted() }
    }

    /// The state after a line break at every cursor, indented like the line
    /// of the primary cursor.
    pub open spec fn after_newline(self) -> EditorState {
        self.after_edit(
            Edit::Insert(newline_after(line_text_of(self.doc.text, self.doc.cursors[0].pos.line as nat))),
        )
    }
}

/// Putting a cursor into the order at the place that a scan from the back
/// finds is `insert_by_position`.
proof fn lemma_insert_by_position(cursors: Seq<Cursor>, order: Seq<usize>, i: usize, k: int)
    requires
        0 <= k <= order.len(),
        forall|j: int|
            k <= j < order.len() ==> cursors[(#[trigger] order[j]) as int].pos.before(
                cursors[i as int].pos,
            ),
        k > 0 ==> !cursors[order[k - 1] as int].pos.before(cursors[i as int].pos),
    ensures
        insert_by_position(cursors, order, i) == order.insert(k, i),
    decreases order.len(),
{
    if order.len() == 0 {
        assert(seq![i] =~= order.insert(k, i));
    } else if k == order.len() {
        assert(order.push(i) =~= order.insert(k, i));
    } else {
        lemma_insert_by_position(cursors, order.drop_last(), i, k);
        assert(order.drop_last().insert(k, i).push(order.last()) =~= order.insert(k, i));
    }
}

/// The order of an edit lists cursors of the set.
pub proof fn lemma_edit_order_in_range(cursors: Seq<Cursor>, n: nat)
    requires
        n <= cursors.len(),
        n <= usize::MAX,
    ensures
        edit_order_of_first(cursors, n).len() == n,
        forall|j: int| 0 <= j < n ==> (#[trigger] edit_order_of_first(cursors, n)[j]) < n,
    decreases n,
{
    if n > 0 {
        lemma_edit_order_in_range(cursors, (n - 1) as nat);
        lemma_insert_in_range(cursors, edit_order_of_first(cursors, (n - 1) as nat), (n - 1) as usize);
    }
}

proof fn lemma_insert_in_range(cursors: Seq<Cursor>, order: Seq<usize>, i: usize)
    requires
        forall|j: int| 0 <= j < order.len() ==> (#[trigger] order[j]) < i,
    ensures
        insert_by_position(cursors, order, i).len() == order.len() + 1,
        forall|j: int|
            0 <= j <= order.len() ==> (#[trigger] insert_by_position(cursors, order, i)[j]) <= i,
    decreases order.len(),
{
    if order.len() > 0 && cursors[order.last() as int].pos.before(cursors[i as int].pos) {
        lemma_insert_in_range(cursors, order.drop_last(), i);
    }
}

/// Removing a selection leaves a caret inside the text.
proof fn lemma_selection_removed_in_bounds(s: Seq<char>, c: Cursor)
    requires
        cursor_in_bounds(s, c),
        s.len() <= usize::MAX,
    ensures
        cursor_in_bounds(selection_removed(s, c).0, selection_removed(s, c).1),
        selection_removed(s, c).0.len() <= s.len(),
        c.anchor is Some ==> selection_removed(s, c).1.anchor is None,
{
    match c.selection() {
        Some((start, end)) => {
            lemma_offset_in_range(s, start);
            lemma_offset_in_range(s, end);
            let a = offset_of(s, start);
            lemma_address_in_bounds(selection_removed(s, c).0, a);
        },
        None => {},
    }
}

/// An edit at a cursor that is inside the text leaves it inside the text.
pub proof fn lemma_edited_in_bounds(s: Seq<char>, c: Cursor, e: Edit)
    requires
        cursor_in_bounds(s, c),
        s.len() <= usize::MAX,
        edited(s, c, e).0.len() <= usize::MAX,
    ensures
        cursor_in_bounds(edited(s, c, e).0, edited(s, c, e).1),
{
    lemma_selection_removed_in_bounds(s, c);
    lemma_offset_in_range(s, c.pos);
    let i = offset_of(s, c.pos);
    let s2 = edited(s, c, e).0;
    if c.anchor is None {
        lemma_offset_of_address(s, c.pos);
        lemma_address_of_offset(s, i);
    }
    match e {
        Edit::Insert(t) => {
            let (s1, c1) = selection_removed(s, c);
            lemma_offset_in_range(s1, c1.pos);
            lemma_address_in_bounds(s2, offset_of(s1, c1.pos) + t.len());
        },
        Edit::Backspace => {
            if c.anchor is None && i > 0 {
                lemma_address_in_bounds(s2, i - 1);
            }
        },
        Edit::DeleteForward => {
            if c.anchor is None && i < s.len() {
                lemma_prefix_address(s, s2, i);
                lemma_address_in_bounds(s2, i);
            }
        },
        Edit::DeleteWordBackward => {
            if c.anchor is None && i > 0 {
                let line = line_text_of(s, c.pos.line as nat);
                lemma_skip_back(line, c.pos.col as int, false);
                lemma_skip_back(line, skip_back(line, c.pos.col as int, false), true);
                if c.pos.col == 0 {
                    lemma_address_in_bounds(s2, i - 1);
                } else {
                    let k = word_start_before(line, c.pos.col as int);
                    lemma_address_in_bounds(s2, i - (c.pos.col - k));
                }
            }
        },
        Edit::DeleteWordForward => {
            if c.anchor is None {
                let line = line_text_of(s, c.pos.line as nat);
                lemma_line_text_len(s, c.pos.line as nat);
                lemma_line_start(s, c.pos.line as nat);
                lemma_skip_forward(line, c.pos.col as int, true);
                lemma_skip_forward(line, skip_forward(line, c.pos.col as int, true), false);
                if s2 != s {
                    lemma_prefix_address(s, s2, i);
                    lemma_address_in_bounds(s2, i);
                }
            }
        },
        Edit::DeleteSelection => {},
    }
}

/// A backspace at carets that all stand at the start of the document changes
/// neither the text nor any cursor.
pub proof fn lemma_backspace_at_start(doc: DocState, order: Seq<usize>)
    requires
        forall|i: int|
            0 <= i < doc.cursors.len() ==> (#[trigger] doc.cursors[i]).anchor is None
                && doc.cursors[i].pos == (Position { line: 0, col: 0 }),
        forall|j: int| 0 <= j < order.len() ==> (#[trigger] order[j]) < doc.cursors.len(),
    ensures
        doc.edited_in_order(order, Edit::Backspace) == doc,
    decreases order.len(),
{
    if order.len() > 0 {
        lemma_backspace_at_start(doc, order.drop_last());
        let idx = order.last() as int;
        lemma_line_start(doc.text, 0);
        assert(doc.edited_at(idx, Edit::Backspace).cursors =~= doc.cursors);
    }
}

/// An edit at one cursor of a set that stands inside the text leaves the
/// whole set inside the text.
pub proof fn lemma_edited_at_in_bounds(doc: DocState, idx: int, e: Edit)
    requires
        doc.in_bounds(),
        0 <= idx < doc.cursors.len(),
        doc.text.len() <= usize::MAX,
        doc.edited_at(idx, e).text.len() <= usize::MAX,
    ensures
        doc.edited_at(idx, e).in_bounds(),
        doc.edited_at(idx, e).cursors.len() == doc.cursors.len(),
{
    let after = doc.edited_at(idx, e);
    let sp = edit_span(doc.text, doc.cursors[idx], e);
    lemma_edited_in_bounds(doc.text, doc.cursors[idx], e);
    assert forall|k: int| 0 <= k < after.cursors.len() implies cursor_in_bounds(
        after.text,
        #[trigger] after.cursors[k],
    ) by {
        if k != idx {
            let q = doc.cursors[k];
            lemma_address_in_bounds(
                after.text,
                carried_offset(sp, offset_of(doc.text, q.pos), after.text.len() as int),
            );
            if q.anchor is Some {
                lemma_address_in_bounds(
                    after.text,
                    carried_offset(sp, offset_of(doc.text, q.anchor->0), after.text.len() as int),
                );
            }
        }
    }
}

/// The span that three machine numbers stand for.
pub(crate) open spec fn span_of(sp: (usize, usize, usize)) -> Span {
    Span { start: sp.0 as int, end: sp.1 as int, inserted: sp.2 as int }
}

/// Whether three machine numbers stand for the span `span`.
pub(crate) open spec fn spans(sp: (usize, usize, usize), span: Span) -> bool {
    span_of(sp) == span
}

/// Whether `m` holds the offsets of the caret and the anchor of `c` in `s`.
pub(crate) open spec fn marks_cursor(m: (usize, Option<usize>), s: Seq<char>, c: Cursor) -> bool {
    &&& m.0 == offset_of(s, c.pos)
    &&& match c.anchor {
        Some(a) => m.1 is Some && m.1->0 == offset_of(s, a),
        None => m.1 is None,
    }
}

/// Whether `m` holds the offsets of all cursors of `doc`.
pub(crate) open spec fn marked(m: Seq<(usize, Option<usize>)>, doc: DocState) -> bool {
    &&& m.len() == doc.cursors.len()
    &&& forall|k: int| 0 <= k < m.len() ==> marks_cursor(#[trigger] m[k], doc.text, doc.cursors[k])
}

/// What leaves the text in an edit ends where it starts, or behind.
pub proof fn lemma_span_ordered(s: Seq<char>, c: Cursor, e: Edit)
    ensures
        edit_span(s, c, e).start <= edit_span(s, c, e).end,
        0 <= edit_span(s, c, e).inserted,
{
    let i = offset_of(s, c.pos);
    lemma_offset_in_range(s, c.pos);
    lemma_address_of_offset(s, i);
    let p = address_of(s, i);
    let line = line_text_of(s, p.line as nat);
    lemma_skip_back(line, p.col as int, false);
    lemma_skip_back(line, skip_back(line, p.col as int, false), true);
    lemma_skip_forward(line, p.col as int, true);
    lemma_skip_forward(line, skip_forward(line, p.col as int, true), false);
}

/// An edit as the editor is asked for it.
pub(crate) enum EditOp<'a> {
    Insert(&'a str),
    Backspace,
    DeleteForward,
    DeleteWordBackward,
    DeleteWordForward,
    DeleteSelection,
}

impl<'a> EditOp<'a> {
    pub(crate) open spec fn view(&self) -> Edit {
        match self {
            EditOp::Insert(t) => Edit::Insert(t@),
            EditOp::Backspace => Edit::Backspace,
            EditOp::DeleteForward => Edit::DeleteForward,
            EditOp::DeleteWordBackward => Edit::DeleteWordBackward,
            EditOp::DeleteWordForward => Edit::DeleteWordForward,
            EditOp::DeleteSelection => Edit::DeleteSelection,
        }
    }
}

impl Editor {
    /// The cursors' indices from the last cursor in the document to the
    /// first.
    pub(crate) fn sorted_cursor_indices_rev(&self) -> (order: Vec<usize>)
        ensures
            order@ == edit_order(self@.doc.cursors),
            order@.len() == self@.doc.cursors.len(),
            forall|j: int| 0 <= j < order@.len() ==> (#[trigger] order@[j]) < self@.doc.cursors.len(),
    {
        let n = self.cursors.len();
        let mut order: Vec<usize> = Vec::new();
        let mut i: usize = 0;
        while i < n
            invariant
                i <= n,
                n == self.cursors@.len(),
                order@ == edit_order_of_first(self.cursors@, i as nat),
                order@.len() == i,
                forall|j: int| 0 <= j < i ==> (#[trigger] order@[j]) < i,
            decreases n - i,
        {
            let p = self.cursors[i].pos;
            let mut k = order.len();
            while k > 0 && !p.at_or_before(&self.cursors[order[k - 1]].pos)
                invariant
                    k <= order@.len(),
                    order@.len() == i,
                    i < n,
                    n == self.cursors@.len(),
                    p == self.cursors@[i as int].pos,
                    forall|j: int| 0 <= j < i ==> (#[trigger] order@[j]) < i,
                    forall|j: int|
                        k <= j < order@.len() ==> self.cursors@[(#[trigger] order@[j]) as int].pos.before(
                            p,
                        ),
                decreases k,
            {
                k -= 1;
            }
            proof {
                lemma_insert_by_position(self.cursors@, order@, i, k as int);
                lemma_edit_order_in_range(self.cursors@, (i + 1) as nat);
            }
            order.insert(k, i);
            i += 1;
        }
        order
    }

    /// Removes the characters from offset `a` up to `b` and leaves the
    /// cursors as they are.
    pub(crate) fn remove_range(&mut self, a: usize, b: usize)
        requires
            a <= b <= old(self)@.doc.text.len(),
        ensures
            final(self)@ == old(self)@.with_doc(
                DocState { text: without(old(self)@.doc.text, a as int, b as int), ..old(self)@.doc },
            ),
    {
        rope_remove(&mut self.rope, a, b);
    }

    /// Makes cursor `idx` a caret at offset `i`.
    fn place_caret(&mut self, idx: usize, i: usize)
        requires
            idx < old(self)@.doc.cursors.len(),
            i <= old(self)@.doc.text.len(),
        ensures
            final(self)@ == old(self)@.with_cursors(
                old(self)@.doc.cursors.update(idx as int, caret_at(old(self)@.doc.text, i as int)),
            ),
    {
        let p = char_idx_to_pos(&self.rope, i);
        self.cursors.set(idx, Cursor { pos: p, anchor: None, desired_col: p.col });
    }

    /// Removes what cursor `idx` selects, if it selects anything, and says
    /// what left the text where the cursor had a selection.
    pub(crate) fn delete_selection_at(&mut self, idx: usize) -> (r: Option<(usize, usize, usize)>)
        requires
            idx < old(self)@.doc.cursors.len(),
        ensures
            final(self)@ == old(self)@.with_doc(
                old(self)@.doc.edited_alone(idx as int, Edit::DeleteSelection),
            ),
            r is Some == (old(self)@.doc.cursors[idx as int].anchor is Some),
            r is None ==> final(self)@ == old(self)@,
            r matches Some(sp) ==> spans(
                sp,
                edit_span(
                    old(self)@.doc.text,
                    old(self)@.doc.cursors[idx as int],
                    Edit::DeleteSelection,
                ),
            ),
    {
        let c = self.cursors[idx];
        match c.selection_ordered() {
            Some((start, end)) => {
                let a = pos_to_char_idx(&self.rope, &start);
                let b = pos_to_char_idx(&self.rope, &end);
                if a < b {
                    self.remove_range(a, b);
                }
                self.place_caret(idx, a);
                Some((a, if a < b { b } else { a }, 0))
            },
            None => {
                assert(self@.doc.cursors.update(idx as int, c) =~= self@.doc.cursors);
                None
            },
        }
    }

    /// Puts `text` where cursor `idx` is, in place of what it selects.
    fn insert_at(&mut self, idx: usize, text: &str) -> (sp: (usize, usize, usize))
        requires
            idx < old(self)@.doc.cursors.len(),
        ensures
            final(self)@ == old(self)@.with_doc(
                old(self)@.doc.edited_alone(idx as int, Edit::Insert(text@)),
            ),
            spans(
                sp,
                edit_span(old(self)@.doc.text, old(self)@.doc.cursors[idx as int], Edit::Insert(text@)),
            ),
    {
        let n = text.unicode_len();
        let removed = self.delete_selection_at(idx);
        let i = pos_to_char_idx(&self.rope, &self.cursors[idx].pos);
        rope_insert(&mut self.rope, i, text);
        let total = rope_len_chars(&self.rope);
        self.place_caret(idx, i + n);
        assert(final(self)@.doc.cursors =~= old(self)@.doc.edited_alone(
            idx as int,
            Edit::Insert(text@),
        ).cursors);
        match removed {
            Some(sp) => (sp.0, sp.1, n),
            None => (i, i, n),
        }
    }

    /// Removes the selection of cursor `idx`, or the character before its
    /// caret.
    fn backspace_at(&mut self, idx: usize) -> (sp: (usize, usize, usize))
        requires
            idx < old(self)@.doc.cursors.len(),
        ensures
            final(self)@ == old(self)@.with_doc(
                old(self)@.doc.edited_alone(idx as int, Edit::Backspace),
            ),
            spans(
                sp,
                edit_span(old(self)@.doc.text, old(self)@.doc.cursors[idx as int], Edit::Backspace),
            ),
    {
        if let Some(sp) = self.delete_selection_at(idx) {
            return sp;
        }
        let i = pos_to_char_idx(&self.rope, &self.cursors[idx].pos);
        if i == 0 {
            return (0, 0, 0);
        }
        self.remove_range(i - 1, i);
        self.place_caret(idx, i - 1);
        (i - 1, i, 0)
    }

    /// Removes the selection of cursor `idx`, or the character after its
    /// caret.
    fn delete_forward_at(&mut self, idx: usize) -> (sp: (usize, usize, usize))
        requires
            idx < old(self)@.doc.cursors.len(),
        ensures
            final(self)@ == old(self)@.with_doc(
                old(self)@.doc.edited_alone(idx as int, Edit::DeleteForward),
            ),
            spans(
                sp,
                edit_span(old(self)@.doc.text, old(self)@.doc.cursors[idx as int], Edit::DeleteForward),
            ),
    {
        if let Some(sp) = self.delete_selection_at(idx) {
            return sp;
        }
        let i = pos_to_char_idx(&self.rope, &self.cursors[idx].pos);
        if i >= rope_len_chars(&self.rope) {
            return (i, i, 0);
        }
        self.remove_range(i, i + 1);
        (i, i + 1, 0)
    }

    /// Removes the selection of cursor `idx`, or the word before its caret.
    fn delete_word_backward_at(&mut self, idx: usize) -> (sp: (usize, usize, usize))
        requires
            idx < old(self)@.doc.cursors.len(),
        ensures
            final(self)@ == old(self)@.with_doc(
                old(self)@.doc.edited_alone(idx as int, Edit::DeleteWordBackward),
            ),
            spans(
                sp,
                edit_span(
                    old(self)@.doc.text,
                    old(self)@.doc.cursors[idx as int],
                    Edit::DeleteWordBackward,
                ),
            ),
    {
        if let Some(sp) = self.delete_selection_at(idx) {
            return sp;
        }
        let i = pos_to_char_idx(&self.rope, &self.cursors[idx].pos);
        if i == 0 {
            return (0, 0, 0);
        }
        let p = char_idx_to_pos(&self.rope, i);
        proof {
            lemma_address_of_offset(self@.doc.text, i as int);
        }
        if p.col == 0 {
            self.remove_range(i - 1, i);
            self.place_caret(idx, i - 1);
            (i - 1, i, 0)
        } else {
            let line = to_chars(self.line_text(p.line).as_str());
            let k = scan_back(&line, scan_back(&line, p.col, false), true);
            let a = i - (p.col - k);
            self.remove_range(a, i);
            self.place_caret(idx, a);
            (a, i, 0)
        }
    }

    /// Removes the selection of cursor `idx`, or the word after its caret.
    fn delete_word_forward_at(&mut self, idx: usize) -> (sp: (usize, usize, usize))
        requires
            idx < old(self)@.doc.cursors.len(),
        ensures
            final(self)@ == old(self)@.with_doc(
                old(self)@.doc.edited_alone(idx as int, Edit::DeleteWordForward),
            ),
            spans(
                sp,
                edit_span(
                    old(self)@.doc.text,
                    old(self)@.doc.cursors[idx as int],
                    Edit::DeleteWordForward,
                ),
            ),
    {
        if let Some(sp) = self.delete_selection_at(idx) {
            return sp;
        }
        let total = rope_len_chars(&self.rope);
        let i = pos_to_char_idx(&self.rope, &self.cursors[idx].pos);
        let p = char_idx_to_pos(&self.rope, i);
        let len = line_len_chars(&self.rope, p.line);
        proof {
            lemma_address_of_offset(self@.doc.text, i as int);
            lemma_line_start(self@.doc.text, p.line as nat);
            lemma_line_text_len(self@.doc.text, p.line as nat);
        }
        if p.col >= len {
            if i < total {
                self.remove_range(i, i + 1);
                (i, i + 1, 0)
            } else {
                (i, i, 0)
            }
        } else {
            let line = to_chars(self.line_text(p.line).as_str());
            let k = scan_forward(&line, scan_forward(&line, p.col, true), false);
            self.remove_range(i, i + (k - p.col));
            (i, i + (k - p.col), 0)
        }
    }

    /// The offsets that the carets and the anchors of the cursors stand for.
    fn marks(&self) -> (m: Vec<(usize, Option<usize>)>)
        ensures
            marked(m@, self@.doc),
    {
        let mut m: Vec<(usize, Option<usize>)> = Vec::new();
        let mut k: usize = 0;
        while k < self.cursors.len()
            invariant
                k <= self.cursors@.len(),
                m@.len() == k,
                forall|j: int| 0 <= j < k ==> marks_cursor(#[trigger] m@[j], self@.doc.text, self.cursors@[j]),
            decreases self.cursors@.len() - k,
        {
            let c = &self.cursors[k];
            let at = pos_to_char_idx(&self.rope, &c.pos);
            let anchor = match c.anchor {
                Some(a) => Some(pos_to_char_idx(&self.rope, &a)),
                None => None,
            };
            m.push((at, anchor));
            k += 1;
        }
        m
    }

    /// The position in the text as it is now of what stood at offset `j`
    /// before an edit.
    fn carry_place(&self, sp: (usize, usize, usize), j: usize) -> (p: Position)
        requires
            sp.0 <= sp.1,
        ensures
            p == address_of(
                self@.doc.text,
                carried_offset(span_of(sp), j as int, self@.doc.text.len() as int),
            ),
    {
        let len = rope_len_chars(&self.rope);
        let k = if j <= sp.0 {
            j
        } else if j >= sp.1 {
            let base = j - (sp.1 - sp.0);
            if sp.2 > len || base > len - sp.2 {
                len
            } else {
                base + sp.2
            }
        } else {
            sp.0
        };
        char_idx_to_pos(&self.rope, if k > len { len } else { k })
    }

    /// Carries every cursor but cursor `idx` along with an edit that was
    /// made at that cursor: `m` holds the offsets at which the cursors stood
    /// before the edit, in the text `before`.
    fn carry(
        &mut self,
        idx: usize,
        m: &Vec<(usize, Option<usize>)>,
        sp: (usize, usize, usize),
        Ghost(before): Ghost<DocState>,
    )
        requires
            sp.0 <= sp.1,
            marked(m@, before),
            old(self)@.doc.cursors.len() == before.cursors.len(),
            forall|k: int|
                0 <= k < before.cursors.len() && k != idx ==> old(self)@.doc.cursors[k]
                    == before.cursors[k],
        ensures
            final(self)@ == old(self)@.with_cursors(
                Seq::new(
                    before.cursors.len(),
                    |k: int|
                        if k == idx {
                            old(self)@.doc.cursors[k]
                        } else {
                            carried(before.text, old(self)@.doc.text, span_of(sp), before.cursors[k])
                        },
                ),
            ),
    {
        let n = self.cursors.len();
        let ghost text = self@.doc.text;
        let mut k: usize = 0;
        while k < n
            invariant
                k <= n,
                n == before.cursors.len(),
                sp.0 <= sp.1,
                marked(m@, before),
                self.cursors@.len() == n,
                old(self)@.doc.cursors.len() == n,
                self@ == old(self)@.with_cursors(self.cursors@),
                text == old(self)@.doc.text,
                forall|j: int|
                    0 <= j < k ==> self.cursors@[j] == if j == idx {
                        old(self)@.doc.cursors[j]
                    } else {
                        carried(before.text, text, span_of(sp), before.cursors[j])
                    },
                forall|j: int| k <= j < n ==> self.cursors@[j] == old(self)@.doc.cursors[j],
                forall|j: int| 0 <= j < n && j != idx ==> old(self)@.doc.cursors[j] == before.cursors[j],
            decreases n - k,
        {
            if k != idx {
                let c = self.cursors[k];
                let mark = m[k];
                assert(marks_cursor(mark, before.text, before.cursors[k as int]));
                assert(c == before.cursors[k as int]);
                let pos = self.carry_place(sp, mark.0);
                let anchor = match mark.1 {
                    Some(a) => Some(self.carry_place(sp, a)),
                    None => None,
                };
                let desired_col = if pos == c.pos {
                    c.desired_col
                } else {
                    pos.col
                };
                self.cursors.set(k, Cursor { pos, anchor, desired_col });
            }
            k += 1;
        }
        assert(self.cursors@ =~= Seq::new(
            before.cursors.len(),
            |k: int|
                if k == idx {
                    old(self)@.doc.cursors[k]
                } else {
                    carried(before.text, old(self)@.doc.text, span_of(sp), before.cursors[k])
                },
        ));
    }

    /// Makes one edit at cursor `idx` and carries the other cursors along.
    pub(crate) fn edit_at(&mut self, idx: usize, op: &EditOp)
        requires
            idx < old(self)@.doc.cursors.len(),
        ensures
            final(self)@ == old(self)@.with_doc(old(self)@.doc.edited_at(idx as int, op@)),
    {
        let ghost before = self@.doc;
        let m = self.marks();
        let sp = match op {
            EditOp::Insert(t) => self.insert_at(idx, t),
            EditOp::Backspace => self.backspace_at(idx),
            EditOp::DeleteForward => self.delete_forward_at(idx),
            EditOp::DeleteWordBackward => self.delete_word_backward_at(idx),
            EditOp::DeleteWordForward => self.delete_word_forward_at(idx),
            EditOp::DeleteSelection => {
                let i = pos_to_char_idx(&self.rope, &self.cursors[idx].pos);
                match self.delete_selection_at(idx) {
                    Some(sp) => sp,
                    None => (i, i, 0),
                }
            },
        };
        proof {
            lemma_span_ordered(before.text, before.cursors[idx as int], op@);
        }
        self.carry(idx, &m, sp, Ghost(before));
        assert(final(self)@.doc.cursors =~= before.edited_at(idx as int, op@).cursors);
    }

    /// Makes one edit at every cursor, from the last in the document to the
    /// first.
    pub(crate) fn edit_each(&mut self, op: &EditOp)
        requires
            old(self)@.wf(),
        ensures
            final(self)@ == old(self)@.with_doc(old(self)@.doc.edited_all(op@)),
            final(self)@.wf(),
            final(self)@.doc.cursors.len() == old(self)@.doc.cursors.len(),
            old(self)@.in_bounds() ==> final(self)@.in_bounds(),
    {
        let order = self.sorted_cursor_indices_rev();
        let ghost doc0 = self@.doc;
        let mut k: usize = 0;
        let total = rope_len_chars(&self.rope);
        while k < order.len()
            invariant
                k <= order@.len(),
                order@ == edit_order(doc0.cursors),
                doc0 == old(self)@.doc,
                forall|j: int| 0 <= j < order@.len() ==> (#[trigger] order@[j]) < doc0.cursors.len(),
                self@ == old(self)@.with_doc(doc0.edited_in_order(order@.take(k as int), op@)),
                self@.doc.cursors.len() == doc0.cursors.len(),
                self@.doc.text.len() <= usize::MAX,
                old(self)@.in_bounds() ==> self@.doc.in_bounds(),
            decreases order@.len() - k,
        {
            let ghost before = self@.doc;
            self.edit_at(order[k], op);
            let total = rope_len_chars(&self.rope);
            proof {
                assert(order@.take(k + 1).drop_last() == order@.take(k as int));
                if old(self)@.in_bounds() {
                    lemma_edited_at_in_bounds(before, order@[k as int] as int, op@);
                }
            }
            k += 1;
        }
        assert(order@.take(order@.len() as int) == order@);
    }

    /// Inserts `text` at every cursor, in place of what the cursor selects.
    /// Each caret comes to stand behind the text that it got, and stays
    /// there while the cursors above it get theirs; afterwards every cursor
    /// is a caret that aims for its own column. One snapshot is taken for
    /// undo, and the document counts as modified.
    pub fn insert_text(&mut self, text: &str)
        requires
            old(self)@.wf(),
        ensures
            final(self)@ == old(self)@.after_edit(Edit::Insert(text@)),
            final(self)@.wf(),
            final(self)@.doc.cursors.len() == old(self)@.doc.cursors.len(),
            old(self)@.in_bounds() ==> final(self)@.in_bounds(),
            carets_aiming(final(self)@.doc.cursors),
    {
        let count = self.cursors.len();
        proof {
            lemma_insert_leaves_carets(self@.doc, text@);
        }
        self.save_undo();
        self.edit_each(&EditOp::Insert(text));
        self.modified = true;
    }

    /// Removes, at every cursor, the selection or else the character before
    /// the caret. One snapshot is taken for undo even where nothing is
    /// removed, and the document counts as modified. Carets that all stand at
    /// the start of the document leave text and cursors as they are.
    pub fn backspace(&mut self)
        requires
            old(self)@.wf(),
        ensures
            final(self)@ == old(self)@.after_edit(Edit::Backspace),
            final(self)@.wf(),
            final(self)@.doc.cursors.len() == old(self)@.doc.cursors.len(),
            old(self)@.in_bounds() ==> final(self)@.in_bounds(),
            (forall|i: int|
                0 <= i < old(self)@.doc.cursors.len() ==> (#[trigger] old(
                    self,
                )@.doc.cursors[i]).anchor is None && old(self)@.doc.cursors[i].pos == (Position {
                    line: 0,
                    col: 0,
                })) ==> final(self)@.doc == old(self)@.doc,
    {
        let n = self.cursors.len();
        proof {
            let doc = self@.doc;
            lemma_edit_order_in_range(doc.cursors, n as nat);
            if forall|i: int|
                0 <= i < doc.cursors.len() ==> (#[trigger] doc.cursors[i]).anchor is None
                    && doc.cursors[i].pos == (Position { line: 0, col: 0 }) {
                lemma_backspace_at_start(doc, edit_order(doc.cursors));
            }
        }
        self.save_undo();
        self.edit_each(&EditOp::Backspace);
        self.modified = true;
    }

    /// Removes, at every cursor, the selection or else the character after
    /// the caret. One snapshot is taken for undo, and the document counts as
    /// modified.
    pub fn delete_forward(&mut self)
        requires
            old(self)@.wf(),
        ensures
            final(self)@ == old(self)@.after_edit(Edit::DeleteForward),
            final(self)@.wf(),
            final(self)@.doc.cursors.len() == old(self)@.doc.cursors.len(),
            old(self)@.in_bounds() ==> final(self)@.in_bounds(),
    {
        self.save_undo();
        self.edit_each(&EditOp::DeleteForward);
        self.modified = true;
    }

    /// Removes, at every cursor, the selection or else the word before the
    /// caret; at the start of a line, the line break before the caret and
    /// nothing more. One snapshot is taken for undo, and the document counts
    /// as modified.
    pub fn delete_word_backward(&mut self)
        requires
            old(self)@.wf(),
        ensures
            final(self)@ == old(self)@.after_edit(Edit::DeleteWordBackward),
            final(self)@.wf(),
            final(self)@.doc.cursors.len() == old(self)@.doc.cursors.len(),
            old(self)@.in_bounds() ==> final(self)@.in_bounds(),
    {
        self.save_undo();
        self.edit_each(&EditOp::DeleteWordBackward);
        self.modified = true;
    }

    /// Removes, at every cursor, the selection or else the word after the
    /// caret; at the end of a line, the line break after the caret and
    /// nothing more. One snapshot is taken for undo, and the document counts
    /// as modified.
    pub fn delete_word_forward(&mut self)
        requires
            old(self)@.wf(),
        ensures
            final(self)@ == old(self)@.after_edit(Edit::DeleteWordForward),
            final(self)@.wf(),
            final(self)@.doc.cursors.len() == old(self)@.doc.cursors.len(),
            old(self)@.in_bounds() ==> final(self)@.in_bounds(),
    {
        self.save_undo();
        self.edit_each(&EditOp::DeleteWordForward);
        self.modified = true;
    }

    /// Breaks the line at every cursor and indents the new line like the line
    /// of the primary cursor, one unit deeper where that line opens a block.
    pub fn insert_newline(&mut self)
        requires
            old(self)@.wf(),
        ensures
            final(self)@ == old(self)@.after_newline(),
            final(self)@.wf(),
            final(self)@.doc.cursors.len() == old(self)@.doc.cursors.len(),
            old(self)@.in_bounds() ==> final(self)@.in_bounds(),
            carets_aiming(final(self)@.doc.cursors),
    {
        let line = to_chars(self.line_text(self.cursors[0].pos.line).as_str());
        let text = newline_text(&line);
        self.insert_text(text.as_str());
    }

    /// Inserts one unit of indentation, four spaces, at every cursor.
    pub fn insert_tab(&mut self)
        requires
            old(self)@.wf(),
        ensures
            final(self)@ == old(self)@.after_edit(Edit::Insert("    "@)),
            final(self)@.wf(),
            final(self)@.doc.cursors.len() == old(self)@.doc.cursors.len(),
            old(self)@.in_bounds() ==> final(self)@.in_bounds(),
            carets_aiming(final(self)@.doc.cursors),
    {
        self.insert_text("    ");
    }
}

} // verus!
