//! Laws that relate several operations, proved over the states that the
//! operations' contracts speak of.

use vstd::prelude::*;
use std::path::PathBuf;
use crate::chars::{lemma_skip_back, lemma_skip_forward, skip_back, skip_forward, word_start_before};
use crate::cursor::Cursor;
use crate::editor::{cursor_in_bounds, DocState, EditorState, MAX_UNDO};
use crate::editor::edit::{
    backspaced, carried, carried_offset, carried_place, deleted_word_backward, Edit, edit_order,
    edit_order_of_first, edit_span, edited, insert_by_position, inserted, lemma_span_ordered,
    selection_removed, Span, with_inserted, without,
};
use crate::editor::select::selected_by;
use crate::position::Position;
use crate::text::{
    address_of, in_bounds, lemma_address_in_bounds, lemma_address_of_offset, lemma_line_start,
    lemma_line_text_len, lemma_offset_in_range, lemma_offset_of_address, lemma_prefix_address,
    line_begin, line_len, line_start, line_text_of, newline_count, newlines_before, offset_of,
};

verus! {

impl EditorState {
    /// The state after `k` undos in a row.
    pub open spec fn undone_times(self, k: nat) -> EditorState
        decreases k,
    {
        if k == 0 {
            self
        } else {
            self.undone_times((k - 1) as nat).undone()
        }
    }

    /// The state after `k` redos in a row.
    pub open spec fn redone_times(self, k: nat) -> EditorState
        decreases k,
    {
        if k == 0 {
            self
        } else {
            self.redone().redone_times((k - 1) as nat)
        }
    }

    /// Whether two states hold the same document and the same histories.
    pub open spec fn same_content(self, other: EditorState) -> bool {
        &&& self.doc == other.doc
        &&& self.undo == other.undo
        &&& self.redo == other.redo
    }
}

/// Redo after undo restores the document and both histories.
pub proof fn lemma_redo_undoes_undo(st: EditorState)
    requires
        st.undo.len() > 0,
    ensures
        st.undone().redone().same_content(st),
{
    let u = st.undone();
    assert(u.redo.drop_last() =~= st.redo);
    assert(u.undo.push(u.doc) =~= st.undo);
}

/// Undo after redo restores the document and both histories.
pub proof fn lemma_undo_undoes_redo(st: EditorState)
    requires
        st.redo.len() > 0,
    ensures
        st.redone().undone().same_content(st),
{
    let r = st.redone();
    assert(r.undo.drop_last() =~= st.undo);
    assert(r.redo.push(r.doc) =~= st.redo);
}

/// States with the same content have the same content after `k` redos.
proof fn lemma_redone_times_content(a: EditorState, b: EditorState, k: nat)
    requires
        a.same_content(b),
    ensures
        a.redone_times(k).same_content(b.redone_times(k)),
    decreases k,
{
    if k > 0 {
        lemma_redone_times_content(a.redone(), b.redone(), (k - 1) as nat);
    }
}

/// `k` undos take `k` snapshots off the undo history.
proof fn lemma_undone_times_len(st: EditorState, k: nat)
    requires
        k <= st.undo.len(),
    ensures
        st.undone_times(k).undo.len() == st.undo.len() - k,
    decreases k,
{
    if k > 0 {
        lemma_undone_times_len(st, (k - 1) as nat);
    }
}

/// The inverse law of undo and redo: `k` undos followed by `k` redos restore
/// the text, the cursors and both histories, for every `k` up to the number
/// of snapshots that can be undone.
pub proof fn lemma_undo_redo_inverse(st: EditorState, k: nat)
    requires
        k <= st.undo.len(),
    ensures
        st.undone_times(k).redone_times(k).same_content(st),
    decreases k,
{
    if k > 0 {
        let y = st.undone_times((k - 1) as nat);
        lemma_undone_times_len(st, (k - 1) as nat);
        lemma_redo_undoes_undo(y);
        lemma_redone_times_content(y.undone().redone(), y, (k - 1) as nat);
        lemma_undo_redo_inverse(st, (k - 1) as nat);
    }
}

/// Undo and redo keep a well-formed state well-formed: in particular the
/// undo history never holds more than `MAX_UNDO` snapshots.
pub proof fn lemma_history_bounded(st: EditorState)
    requires
        st.wf(),
    ensures
        st.undo.len() <= MAX_UNDO,
        st.snapshotted().wf(),
        st.snapshotted().undo.len() <= MAX_UNDO,
        st.undone().wf(),
        st.redone().wf(),
{
}

/// Saving and loading again gives the same text, unmodified: a document
/// loaded from what `st` writes holds the text of `st`.
pub proof fn lemma_save_load_round_trip(
    st: EditorState,
    path: PathBuf,
    file_name: Option<Seq<char>>,
)
    ensures
        EditorState::loaded(path, file_name, st.doc.text).doc.text == st.doc.text,
        !EditorState::loaded(path, file_name, st.doc.text).modified,
        !st.saved_as(path, file_name).modified,
        st.saved_as(path, file_name).doc == st.doc,
{
}

/// The length of what follows the last line feed of `t`, or of all of `t`
/// where it has none.
pub open spec fn last_segment_len(t: Seq<char>) -> int {
    t.len() - line_begin(t, t.len() as int)
}

/// In a text with `t` put in at offset `i`, the offsets inside and right
/// behind `t` have the line feeds before `i` and those of `t` before them,
/// and begin their line where `t` last began one.
proof fn lemma_inserted_address(s: Seq<char>, i: int, t: Seq<char>, j: int)
    requires
        0 <= i <= s.len(),
        0 <= j <= t.len(),
    ensures
        newlines_before(with_inserted(s, i, t), i + j) == newlines_before(s, i) + newlines_before(
            t,
            j,
        ),
        line_begin(with_inserted(s, i, t), i + j) == if newlines_before(t, j) > 0 {
            i + line_begin(t, j)
        } else {
            line_begin(s, i)
        },
    decreases j,
{
    let s2 = with_inserted(s, i, t);
    if j == 0 {
        lemma_prefix_address(s, s2, i);
    } else {
        lemma_inserted_address(s, i, t, j - 1);
        assert(s2[i + j - 1] == t[j - 1]);
    }
}

/// Where an insertion leaves the caret: a caret inside the text at line `l`
/// and column `c` that gets a text with `n` line feeds stands afterwards on
/// line `l + n`, at the length of the last segment of the text where `n` is
/// not zero, and else at column `c` plus the length of the text.
pub proof fn lemma_insert_moves_caret(s: Seq<char>, c: Cursor, t: Seq<char>)
    requires
        c.anchor is None,
        in_bounds(s, c.pos),
        s.len() + t.len() <= usize::MAX,
    ensures
        inserted(s, c, t).0 == with_inserted(s, offset_of(s, c.pos), t),
        inserted(s, c, t).1 == Cursor::caret(
            Position {
                line: (c.pos.line + newline_count(t)) as usize,
                col: if newline_count(t) > 0 {
                    last_segment_len(t) as usize
                } else {
                    (c.pos.col + t.len()) as usize
                },
            },
        ),
{
    lemma_offset_of_address(s, c.pos);
    let i = offset_of(s, c.pos);
    lemma_inserted_address(s, i, t, t.len() as int);
}

/// Lines start in the order of their numbers, each behind the end of the one
/// before.
pub proof fn lemma_line_start_monotone(s: Seq<char>, a: nat, b: nat)
    requires
        a < b,
    ensures
        line_start(s, a) + line_len(s, a) <= line_start(s, b),
    decreases b - a,
{
    lemma_line_start(s, a);
    if a + 1 < b {
        lemma_line_start_monotone(s, a + 1, b);
        lemma_line_start(s, a + 1);
    }
}

/// Offsets follow the order of the addresses that stand for them.
pub proof fn lemma_offset_monotone(s: Seq<char>, p: Position, q: Position)
    requires
        p.before_eq(q),
    ensures
        offset_of(s, p) <= offset_of(s, q),
{
    lemma_offset_in_range(s, p);
    lemma_offset_in_range(s, q);
    lemma_line_start(s, p.line as nat);
    lemma_line_start(s, q.line as nat);
    if p.line < q.line {
        lemma_line_start_monotone(s, p.line as nat, q.line as nat);
    }
}

/// What a cursor selects is the text between the offsets of the two ends of
/// its selection, of which the first is never behind the second.
pub proof fn lemma_selected_text(s: Seq<char>, c: Cursor)
    requires
        c.selection() is Some,
    ensures
        0 <= offset_of(s, c.lower()) <= offset_of(s, c.upper()) <= s.len(),
        selected_by(s, c) == s.subrange(
            offset_of(s, c.lower()),
            offset_of(s, c.upper()),
        ),
{
    let start = c.lower();
    let end = c.upper();
    lemma_offset_monotone(s, start, end);
    lemma_offset_in_range(s, start);
    lemma_offset_in_range(s, end);
    let a = offset_of(s, start);
    if a == offset_of(s, end) {
        assert(s.subrange(a, a) =~= Seq::<char>::empty());
    }
}

/// Where removing a selection leaves the caret: a selection inside the text
/// loses exactly the selected characters, and the caret stands at its lower
/// end.
pub proof fn lemma_selection_removed(s: Seq<char>, c: Cursor)
    requires
        c.selection() is Some,
        cursor_in_bounds(s, c),
        s.len() <= usize::MAX,
    ensures
        selection_removed(s, c).0 == without(
            s,
            offset_of(s, c.lower()),
            offset_of(s, c.upper()),
        ),
        selection_removed(s, c).1 == Cursor::caret(c.lower()),
{
    let start = c.lower();
    let end = c.upper();
    lemma_offset_monotone(s, start, end);
    lemma_offset_in_range(s, end);
    lemma_offset_of_address(s, start);
    let a = offset_of(s, start);
    let b = offset_of(s, end);
    let s2 = selection_removed(s, c).0;
    if a < b {
        lemma_prefix_address(s, s2, a);
    } else {
        assert(without(s, a, b) =~= s);
    }
}

/// Where a backspace leaves the caret: a caret inside the text, not at the
/// start of the document, loses the character before it. From a column
/// other than zero it steps one column back; from the start of a line it
/// goes to the end of the line above, which the removal joins with its own.
pub proof fn lemma_backspace_moves_caret(s: Seq<char>, c: Cursor)
    requires
        c.anchor is None,
        in_bounds(s, c.pos),
        c.pos.line > 0 || c.pos.col > 0,
        s.len() <= usize::MAX,
    ensures
        offset_of(s, c.pos) > 0,
        backspaced(s, c).0 == without(s, offset_of(s, c.pos) - 1, offset_of(s, c.pos)),
        backspaced(s, c).1 == Cursor::caret(
            if c.pos.col > 0 {
                Position { line: c.pos.line, col: (c.pos.col - 1) as usize }
            } else {
                Position {
                    line: (c.pos.line - 1) as usize,
                    col: line_len(s, (c.pos.line - 1) as nat) as usize,
                }
            },
        ),
{
    let i = offset_of(s, c.pos);
    lemma_line_start(s, c.pos.line as nat);
    let q = if c.pos.col > 0 {
        Position { line: c.pos.line, col: (c.pos.col - 1) as usize }
    } else {
        Position {
            line: (c.pos.line - 1) as usize,
            col: line_len(s, (c.pos.line - 1) as nat) as usize,
        }
    };
    if c.pos.col == 0 {
        lemma_line_start(s, (c.pos.line - 1) as nat);
    }
    lemma_offset_of_address(s, q);
    assert(offset_of(s, q) == i - 1);
    lemma_prefix_address(s, backspaced(s, c).0, i - 1);
}

/// Where the removal of a word leaves the caret: a caret inside the text, at
/// a column other than zero, loses what lies between the start of the word
/// before it and itself, and stands afterwards on its line at the column
/// where that word started.
pub proof fn lemma_delete_word_backward_moves_caret(s: Seq<char>, c: Cursor)
    requires
        c.anchor is None,
        in_bounds(s, c.pos),
        c.pos.col > 0,
        s.len() <= usize::MAX,
    ensures
        0 <= word_start_before(line_text_of(s, c.pos.line as nat), c.pos.col as int) <= c.pos.col,
        deleted_word_backward(s, c).0 == without(
            s,
            offset_of(s, c.pos) - c.pos.col + word_start_before(
                line_text_of(s, c.pos.line as nat),
                c.pos.col as int,
            ),
            offset_of(s, c.pos),
        ),
        deleted_word_backward(s, c).1 == Cursor::caret(
            Position {
                line: c.pos.line,
                col: word_start_before(
                    line_text_of(s, c.pos.line as nat),
                    c.pos.col as int,
                ) as usize,
            },
        ),
{
    let i = offset_of(s, c.pos);
    let line = line_text_of(s, c.pos.line as nat);
    lemma_offset_of_address(s, c.pos);
    lemma_line_start(s, c.pos.line as nat);
    lemma_skip_back(line, c.pos.col as int, false);
    lemma_skip_back(line, skip_back(line, c.pos.col as int, false), true);
    let k = word_start_before(line, c.pos.col as int);
    let q = Position { line: c.pos.line, col: k as usize };
    lemma_offset_of_address(s, q);
    lemma_prefix_address(s, deleted_word_backward(s, c).0, i - (c.pos.col - k));
}

/// Whether every cursor is a caret, with no selection.
pub open spec fn all_carets(cursors: Seq<Cursor>) -> bool {
    forall|i: int| 0 <= i < cursors.len() ==> (#[trigger] cursors[i]).anchor is None
}

/// The offset before which an edit at cursor `c` leaves the text alone: the
/// lower end of a selection; else the caret, or for the edits that remove
/// what is before the caret the place where the removed text begins.
pub open spec fn edit_start(s: Seq<char>, c: Cursor, e: Edit) -> int {
    edit_span(s, c, e).start
}

/// An edit at a cursor changes no character before its start.
pub proof fn lemma_edit_keeps_text_before(s: Seq<char>, c: Cursor, e: Edit)
    requires
        s.len() <= usize::MAX,
    ensures
        0 <= edit_start(s, c, e) <= s.len(),
        edit_start(s, c, e) <= edited(s, c, e).0.len(),
        forall|k: int| 0 <= k < edit_start(s, c, e) ==> edited(s, c, e).0[k] == s[k],
{
    let i = offset_of(s, c.pos);
    lemma_offset_in_range(s, c.pos);
    lemma_offset_in_range(s, c.lower());
    lemma_offset_in_range(s, c.upper());
    lemma_offset_monotone(s, c.lower(), c.upper());
    lemma_address_of_offset(s, i);
    let p = address_of(s, i);
    let line = line_text_of(s, p.line as nat);
    lemma_skip_back(line, p.col as int, false);
    lemma_skip_back(line, skip_back(line, p.col as int, false), true);
    let (s1, c1) = selection_removed(s, c);
    if c.anchor is Some {
        lemma_address_in_bounds(s1, offset_of(s, c.lower()));
    }
}

/// The law behind the order of an edit: an edit at one cursor leaves every
/// place that lies at or before its start where it is. Such a place is still
/// a place of the text, and stands for the same offset as before.
pub proof fn lemma_edit_keeps_earlier_places(s: Seq<char>, c: Cursor, e: Edit, q: Position)
    requires
        in_bounds(s, q),
        offset_of(s, q) <= edit_start(s, c, e),
        s.len() <= usize::MAX,
    ensures
        in_bounds(edited(s, c, e).0, q),
        offset_of(edited(s, c, e).0, q) == offset_of(s, q),
{
    let s2 = edited(s, c, e).0;
    let j = offset_of(s, q);
    lemma_edit_keeps_text_before(s, c, e);
    lemma_offset_of_address(s, q);
    lemma_prefix_address(s, s2, j);
    lemma_address_of_offset(s2, j);
    lemma_address_of_offset(s, j);
    lemma_line_start(s2, q.line as nat);
}

/// Whether `s2` is `s` with the characters of `sp` taken out and as many
/// put in as `sp` says: what is before the start stays, what is from the end
/// on moves with the text behind, and the length changes accordingly.
pub open spec fn is_splice(s: Seq<char>, s2: Seq<char>, sp: Span) -> bool {
    &&& 0 <= sp.start <= sp.end <= s.len()
    &&& 0 <= sp.inserted
    &&& s2.len() == s.len() - (sp.end - sp.start) + sp.inserted
    &&& forall|k: int| 0 <= k < sp.start ==> s2[k] == s[k]
    &&& forall|k: int| sp.end <= k < s.len() ==> s2[k - (sp.end - sp.start) + sp.inserted] == s[k]
}

/// Taking out a stretch and putting text in where it began is a splice.
proof fn lemma_splice(s: Seq<char>, a: int, b: int, t: Seq<char>)
    requires
        0 <= a <= b <= s.len(),
    ensures
        is_splice(s, without(s, a, b), Span { start: a, end: b, inserted: 0 }),
        is_splice(
            s,
            with_inserted(without(s, a, b), a, t),
            Span { start: a, end: b, inserted: t.len() as int },
        ),
        without(s, a, a) == s,
{
    assert(without(s, a, a) =~= s);
}

/// What an edit does to the text is what its span says.
pub proof fn lemma_edit_is_splice(s: Seq<char>, c: Cursor, e: Edit)
    requires
        s.len() <= usize::MAX,
    ensures
        is_splice(s, edited(s, c, e).0, edit_span(s, c, e)),
{
    let i = offset_of(s, c.pos);
    lemma_offset_in_range(s, c.pos);
    lemma_span_ordered(s, c, e);
    if c.anchor is Some {
        let a = offset_of(s, c.lower());
        let b = offset_of(s, c.upper());
        lemma_offset_in_range(s, c.lower());
        lemma_offset_in_range(s, c.upper());
        lemma_offset_monotone(s, c.lower(), c.upper());
        let s1 = selection_removed(s, c).0;
        lemma_address_in_bounds(s1, a);
        match e {
            Edit::Insert(t) => {
                lemma_splice(s, a, b, t);
            },
            _ => {
                lemma_splice(s, a, b, Seq::empty());
            },
        }
    } else {
        lemma_address_of_offset(s, i);
        let p = address_of(s, i);
        let line = line_text_of(s, p.line as nat);
        match e {
            Edit::Insert(t) => {
                lemma_splice(s, i, i, t);
            },
            Edit::Backspace => {
                if i > 0 {
                    lemma_splice(s, i - 1, i, Seq::empty());
                } else {
                    lemma_splice(s, 0, 0, Seq::empty());
                }
            },
            Edit::DeleteForward => {
                if i < s.len() {
                    lemma_splice(s, i, i + 1, Seq::empty());
                } else {
                    lemma_splice(s, i, i, Seq::empty());
                }
            },
            Edit::DeleteWordBackward => {
                lemma_skip_back(line, p.col as int, false);
                lemma_skip_back(line, skip_back(line, p.col as int, false), true);
                lemma_splice(s, edit_span(s, c, e).start, i, Seq::empty());
            },
            Edit::DeleteWordForward => {
                lemma_line_start(s, p.line as nat);
                lemma_line_text_len(s, p.line as nat);
                lemma_skip_forward(line, p.col as int, true);
                lemma_skip_forward(line, skip_forward(line, p.col as int, true), false);
                lemma_splice(s, i, edit_span(s, c, e).end, Seq::empty());
            },
            Edit::DeleteSelection => {
                lemma_splice(s, i, i, Seq::empty());
            },
        }
    }
}

/// A cursor that an edit carries along stays with its characters: a
/// character behind the start of the edit that the edit did not take out
/// stands, for a caret that stood before it, before that caret afterwards.
pub proof fn lemma_carried_follows_text(s: Seq<char>, c: Cursor, e: Edit, p: Position)
    requires
        s.len() <= usize::MAX,
        edited(s, c, e).0.len() <= usize::MAX,
        edit_span(s, c, e).start < offset_of(s, p),
        edit_span(s, c, e).end <= offset_of(s, p) < s.len(),
    ensures
        offset_of(edited(s, c, e).0, carried_place(s, edited(s, c, e).0, edit_span(s, c, e), p))
            == offset_of(s, p) - (edit_span(s, c, e).end - edit_span(s, c, e).start) + edit_span(
            s,
            c,
            e,
        ).inserted,
        offset_of(edited(s, c, e).0, carried_place(s, edited(s, c, e).0, edit_span(s, c, e), p))
            < edited(s, c, e).0.len(),
        edited(s, c, e).0[offset_of(
            edited(s, c, e).0,
            carried_place(s, edited(s, c, e).0, edit_span(s, c, e), p),
        )] == s[offset_of(s, p)],
{
    lemma_edit_is_splice(s, c, e);
    let s2 = edited(s, c, e).0;
    let sp = edit_span(s, c, e);
    let j = offset_of(s, p);
    let j2 = j - (sp.end - sp.start) + sp.inserted;
    assert(carried_offset(sp, j, s2.len() as int) == j2);
    lemma_address_in_bounds(s2, j2);
    assert(s2[j2] == s[j]);
}

/// Whether every cursor is a caret that aims for its own column.
pub open spec fn carets_aiming(cursors: Seq<Cursor>) -> bool {
    forall|i: int|
        0 <= i < cursors.len() ==> (#[trigger] cursors[i]).anchor is None && cursors[i].desired_col
            == cursors[i].pos.col
}

/// An insertion at the cursors that `order` lists leaves each of them a
/// caret that aims for its own column, and keeps the number of cursors.
proof fn lemma_insert_leaves_carets_in_order(doc: DocState, order: Seq<usize>, t: Seq<char>)
    requires
        forall|j: int| 0 <= j < order.len() ==> (#[trigger] order[j]) < doc.cursors.len(),
    ensures
        doc.edited_in_order(order, Edit::Insert(t)).cursors.len() == doc.cursors.len(),
        forall|j: int|
            0 <= j < order.len() ==> {
                let c = doc.edited_in_order(order, Edit::Insert(t)).cursors[(#[trigger] order[j]) as int];
                c.anchor is None && c.desired_col == c.pos.col
            },
    decreases order.len(),
{
    if order.len() > 0 {
        let e = Edit::Insert(t);
        let rest = order.drop_last();
        lemma_insert_leaves_carets_in_order(doc, rest, t);
        let before = doc.edited_in_order(rest, e);
        let idx = order.last() as int;
        let after = before.edited_at(idx, e);
        assert forall|j: int| 0 <= j < order.len() implies {
            let c = after.cursors[(#[trigger] order[j]) as int];
            c.anchor is None && c.desired_col == c.pos.col
        } by {
            if j < rest.len() {
                assert(order[j] == rest[j]);
            }
        }
    }
}

/// After an insertion every cursor is a caret that aims for its own column.
pub proof fn lemma_insert_leaves_carets(doc: DocState, t: Seq<char>)
    requires
        doc.cursors.len() <= usize::MAX,
    ensures
        doc.edited_all(Edit::Insert(t)).cursors.len() == doc.cursors.len(),
        carets_aiming(doc.edited_all(Edit::Insert(t)).cursors),
{
    lemma_edit_order(doc.cursors);
    let order = edit_order(doc.cursors);
    assert forall|j: int| 0 <= j < order.len() implies (#[trigger] order[j]) < doc.cursors.len() by {
        assert(order.contains(order[j]));
    }
    lemma_insert_leaves_carets_in_order(doc, order, t);
    let after = doc.edited_all(Edit::Insert(t));
    assert forall|i: int| 0 <= i < after.cursors.len() implies (#[trigger] after.cursors[i]).anchor is None
        && after.cursors[i].desired_col == after.cursors[i].pos.col by {
        assert(order.contains(i as usize));
        let j = choose|j: int| 0 <= j < order.len() && order[j] == i as usize;
        assert(order[j] as int == i);
    }
}

/// An edit at one cursor leaves every cursor that lies at or before its
/// start as it is: caret, anchor and the column aimed for.
pub proof fn lemma_edit_keeps_earlier_cursors(s: Seq<char>, c: Cursor, e: Edit, q: Cursor)
    requires
        cursor_in_bounds(s, q),
        offset_of(s, q.upper()) <= edit_start(s, c, e),
        s.len() <= usize::MAX,
    ensures
        carried(s, edited(s, c, e).0, edit_span(s, c, e), q) == q,
{
    lemma_edit_keeps_text_before(s, c, e);
    lemma_offset_monotone(s, q.pos, q.upper());
    lemma_edit_keeps_earlier_places(s, c, e, q.pos);
    lemma_offset_of_address(s, q.pos);
    lemma_prefix_address(s, edited(s, c, e).0, offset_of(s, q.pos));
    if q.anchor is Some {
        let a = q.anchor->0;
        lemma_offset_monotone(s, a, q.upper());
        lemma_offset_of_address(s, a);
        lemma_prefix_address(s, edited(s, c, e).0, offset_of(s, a));
    }
}

/// Whether an edit changes nothing before the caret of a cursor without a
/// selection: insertion does not, nor do the edits that delete forward.
pub open spec fn edits_forward(e: Edit) -> bool {
    e is Insert || e is DeleteForward || e is DeleteWordForward
}

/// Why an edit takes the cursors from the last to the first: while it works
/// its way up through a set of carets, with an edit that changes nothing
/// before a caret, the cursors still to come are untouched, are still places
/// of the text, and stand for the offsets that they stood for at the start.
/// `k` is the number of cursors that the edit has taken so far.
pub proof fn lemma_pending_carets_keep_place(doc: DocState, e: Edit, k: nat)
    requires
        doc.in_bounds(),
        all_carets(doc.cursors),
        edits_forward(e),
        k <= doc.cursors.len() <= usize::MAX,
        forall|m: nat|
            m < k ==> (#[trigger] doc.edited_in_order(edit_order(doc.cursors).take(m as int), e)).text.len()
                <= usize::MAX,
    ensures
        doc.edited_in_order(edit_order(doc.cursors).take(k as int), e).cursors.len()
            == doc.cursors.len(),
        forall|j: int|
            k <= j < doc.cursors.len() ==> {
                let idx = (#[trigger] edit_order(doc.cursors)[j]) as int;
                let now = doc.edited_in_order(edit_order(doc.cursors).take(k as int), e);
                &&& now.cursors[idx] == doc.cursors[idx]
                &&& in_bounds(now.text, doc.cursors[idx].pos)
                &&& offset_of(now.text, doc.cursors[idx].pos) == offset_of(
                    doc.text,
                    doc.cursors[idx].pos,
                )
            },
    decreases k,
{
    let order = edit_order(doc.cursors);
    lemma_edit_order(doc.cursors);
    assert forall|j: int| 0 <= j < order.len() implies (#[trigger] order[j]) < doc.cursors.len() by {
        assert(order.contains(order[j]));
    }
    if k == 0 {
        assert(order.take(0) =~= Seq::<usize>::empty());
    } else {
        let m = (k - 1) as nat;
        assert forall|x: nat| x < m implies (#[trigger] doc.edited_in_order(
            order.take(x as int),
            e,
        )).text.len() <= usize::MAX by {}
        lemma_pending_carets_keep_place(doc, e, m);
        let before = doc.edited_in_order(order.take(m as int), e);
        assert(order.take(k as int).drop_last() =~= order.take(m as int));
        assert(order.take(k as int).last() == order[m as int]);
        let at = order[m as int] as int;
        let c = before.cursors[at];
        assert(c == doc.cursors[at]);
        let now = before.edited_at(at, e);
        assert(now == doc.edited_in_order(order.take(k as int), e));
        assert forall|j: int| k <= j < doc.cursors.len() implies {
            let idx = (#[trigger] order[j]) as int;
            &&& now.cursors[idx] == doc.cursors[idx]
            &&& in_bounds(now.text, doc.cursors[idx].pos)
            &&& offset_of(now.text, doc.cursors[idx].pos) == offset_of(doc.text, doc.cursors[idx].pos)
        } by {
            let idx = order[j] as int;
            let q = doc.cursors[idx].pos;
            assert(takes_before(doc.cursors, order[m as int], order[j]));
            assert(order[j] != order[m as int]);
            assert(q.before_eq(c.pos));
            lemma_offset_monotone(before.text, q, c.pos);
            lemma_edit_keeps_earlier_places(before.text, c, e, q);
            lemma_edit_keeps_earlier_cursors(before.text, c, e, before.cursors[idx]);
        }
    }
}

/// Whether `order` lists cursors so that an edit takes each before all that
/// follow it.
pub open spec fn ordered_from(cursors: Seq<Cursor>, order: Seq<usize>) -> bool {
    forall|a: int, b: int|
        0 <= a < b < order.len() ==> takes_before(
            cursors,
            #[trigger] order[a],
            #[trigger] order[b],
        )
}

/// Whether an edit takes cursor `i` before cursor `j`: the caret of `i` is
/// behind that of `j`, or the carets are the same and `i` comes first in the
/// set.
pub open spec fn takes_before(cursors: Seq<Cursor>, i: usize, j: usize) -> bool {
    cursors[j as int].pos.before(cursors[i as int].pos) || (cursors[j as int].pos
        == cursors[i as int].pos && i < j)
}

/// The place at which `insert_by_position` puts a cursor: behind every
/// cursor whose caret is not before its own, and before all others.
proof fn lemma_insert_place(cursors: Seq<Cursor>, order: Seq<usize>, i: usize) -> (k: int)
    ensures
        0 <= k <= order.len(),
        insert_by_position(cursors, order, i) == order.insert(k, i),
        forall|j: int|
            k <= j < order.len() ==> cursors[(#[trigger] order[j]) as int].pos.before(
                cursors[i as int].pos,
            ),
        k > 0 ==> !cursors[order[k - 1] as int].pos.before(cursors[i as int].pos),
    decreases order.len(),
{
    if order.len() == 0 {
        assert(seq![i] =~= order.insert(0, i));
        0
    } else if cursors[order.last() as int].pos.before(cursors[i as int].pos) {
        let rest = order.drop_last();
        let k = lemma_insert_place(cursors, rest, i);
        assert(rest.insert(k, i).push(order.last()) =~= order.insert(k, i));
        assert forall|j: int| k <= j < order.len() implies cursors[(#[trigger] order[j]) as int].pos.before(
            cursors[i as int].pos,
        ) by {
            if j < rest.len() {
                assert(order[j] == rest[j]);
            }
        }
        if k > 0 {
            assert(order[k - 1] == rest[k - 1]);
        }
        k
    } else {
        assert(order.push(i) =~= order.insert(order.len() as int, i));
        order.len() as int
    }
}

proof fn lemma_insert_keeps_order(cursors: Seq<Cursor>, order: Seq<usize>, i: usize)
    requires
        ordered_from(cursors, order),
        forall|j: int| 0 <= j < order.len() ==> (#[trigger] order[j]) < i,
    ensures
        ordered_from(cursors, insert_by_position(cursors, order, i)),
        insert_by_position(cursors, order, i).len() == order.len() + 1,
        forall|x: usize|
            insert_by_position(cursors, order, i).contains(x) <==> (order.contains(x) || x == i),
{
    let k = lemma_insert_place(cursors, order, i);
    let r = order.insert(k, i);
    assert(r.len() == order.len() + 1);
    assert(r[k] == i);
    assert forall|j: int| 0 <= j < k implies r[j] == order[j] by {}
    assert forall|j: int| k < j < r.len() implies r[j] == order[j - 1] by {}
    assert forall|a: int, b: int| 0 <= a < b < r.len() implies takes_before(
        cursors,
        #[trigger] r[a],
        #[trigger] r[b],
    ) by {
        if a == k {
            assert(r[b] == order[b - 1]);
        } else if b == k {
            assert(r[a] == order[a]);
            if a < k - 1 {
                assert(takes_before(cursors, order[a], order[k - 1]));
            }
        } else {
            let a2 = if a < k { a } else { a - 1 };
            let b2 = if b < k { b } else { b - 1 };
            assert(r[a] == order[a2] && r[b] == order[b2]);
            assert(takes_before(cursors, order[a2], order[b2]));
        }
    }
    assert forall|x: usize| r.contains(x) <==> (order.contains(x) || x == i) by {
        if r.contains(x) {
            let j = choose|j: int| 0 <= j < r.len() && r[j] == x;
            if j < k {
                assert(order[j] == x);
            } else if j > k {
                assert(order[j - 1] == x);
            }
        }
        if order.contains(x) {
            let m = choose|m: int| 0 <= m < order.len() && order[m] == x;
            if m < k {
                assert(r[m] == x);
            } else {
                assert(r[m + 1] == x);
            }
        }
        if x == i {
            assert(r[k] == x);
        }
    }
}

proof fn lemma_edit_order_of_first(cursors: Seq<Cursor>, n: nat)
    requires
        n <= cursors.len(),
        n <= usize::MAX,
    ensures
        edit_order_of_first(cursors, n).len() == n,
        ordered_from(cursors, edit_order_of_first(cursors, n)),
        forall|x: usize| edit_order_of_first(cursors, n).contains(x) <==> x < n,
    decreases n,
{
    if n > 0 {
        lemma_edit_order_of_first(cursors, (n - 1) as nat);
        let prev = edit_order_of_first(cursors, (n - 1) as nat);
        assert forall|j: int| 0 <= j < prev.len() implies (#[trigger] prev[j]) < (n - 1) as usize by {
            assert(prev.contains(prev[j]));
        }
        lemma_insert_keeps_order(cursors, prev, (n - 1) as usize);
        let now = insert_by_position(cursors, prev, (n - 1) as usize);
        assert(now == edit_order_of_first(cursors, n));
        assert forall|x: usize| now.contains(x) <==> x < n by {
            assert(insert_by_position(cursors, prev, (n - 1) as usize).contains(x) <==> (
            prev.contains(x) || x == (n - 1) as usize));
            assert(prev.contains(x) <==> x < n - 1);
        }
    } else {
        let now = edit_order_of_first(cursors, n);
        assert forall|x: usize| now.contains(x) <==> x < n by {
            if now.contains(x) {
                let k = choose|k: int| 0 <= k < now.len() && now[k] == x;
            }
        }
    }
}

/// The order of an edit: it lists every cursor of the set, each once, from
/// the last caret in the document to the first, and cursors with the same
/// caret in the order of the set.
pub proof fn lemma_edit_order(cursors: Seq<Cursor>)
    requires
        cursors.len() <= usize::MAX,
    ensures
        edit_order(cursors).len() == cursors.len(),
        forall|x: usize| edit_order(cursors).contains(x) <==> x < cursors.len(),
        ordered_from(cursors, edit_order(cursors)),
        edit_order(cursors).no_duplicates(),
{
    lemma_edit_order_of_first(cursors, cursors.len());
    let order = edit_order(cursors);
    assert forall|a: int, b: int| 0 <= a < order.len() && 0 <= b < order.len() && a != b implies order[a]
        != order[b] by {
        if a < b {
            assert(takes_before(cursors, order[a], order[b]));
        } else {
            assert(takes_before(cursors, order[b], order[a]));
        }
    }
}

} // verus!
