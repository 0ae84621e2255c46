//! Undo and redo: two bounded stacks of snapshots.

use vstd::prelude::*;
use crate::buffer::rope_clone;
use crate::editor::{copy_cursors, DocState, Editor, EditorState, MAX_UNDO, Snapshot};

verus! {

/// `stack` with `doc` on top, without its oldest entry if that makes more
/// than `MAX_UNDO`.
pub open spec fn push_capped(stack: Seq<DocState>, doc: DocState) -> Seq<DocState> {
    if stack.len() >= MAX_UNDO {
        stack.drop_first().push(doc)
    } else {
        stack.push(doc)
    }
}

impl EditorState {
    /// The state after a snapshot of the document was taken for undo: it is
    /// on top of the undo history, and the redo history is empty.
    pub open spec fn snapshotted(self) -> EditorState {
        EditorState { undo: push_capped(self.undo, self.doc), redo: Seq::empty(), ..self }
    }

    /// The state after one undo: nothing changes where there is nothing to
    /// undo; else the newest undo snapshot becomes the document, which itself
    /// goes on top of the redo history.
    pub open spec fn undone(self) -> EditorState {
        if self.undo.len() == 0 {
            self
        } else {
            EditorState {
                doc: self.undo.last(),
                undo: self.undo.drop_last(),
                redo: self.redo.push(self.doc),
                modified: true,
                ..self
            }
        }
    }

    /// The state after one redo, which mirrors undo.
    pub open spec fn redone(self) -> EditorState {
        if self.redo.len() == 0 {
            self
        } else {
            EditorState {
                doc: self.redo.last(),
                redo: self.redo.drop_last(),
                undo: self.undo.push(self.doc),
                modified: true,
                ..self
            }
        }
    }
}

impl Editor {
    /// A copy of the text and the cursors as they are now.
    pub(crate) fn snapshot(&self) -> (s: Snapshot)
        ensures
            s.doc() == self@.doc,
    {
        Snapshot { rope: rope_clone(&self.rope), cursors: copy_cursors(&self.cursors) }
    }

    /// Takes a snapshot for undo, which ends what could be redone.
    pub(crate) fn save_undo(&mut self)
        requires
            old(self)@.wf(),
        ensures
            final(self)@ == old(self)@.snapshotted(),
            final(self)@.wf(),
            old(self)@.in_bounds() ==> final(self)@.in_bounds(),
    {
        let snap = self.snapshot();
        self.undo_stack.push(snap);
        if self.undo_stack.len() > MAX_UNDO {
            self.undo_stack.remove(0);
        }
        self.redo_stack.clear();
        assert(final(self)@.undo =~= push_capped(old(self)@.undo, old(self)@.doc));
        assert(final(self)@.redo =~= Seq::<DocState>::empty());
    }

    /// Takes back the last edit, if there is one.
    pub fn undo(&mut self)
        requires
            old(self)@.wf(),
        ensures
            final(self)@ == old(self)@.undone(),
            final(self)@.wf(),
            old(self)@.in_bounds() ==> final(self)@.in_bounds(),
    {
        if self.undo_stack.len() > 0 {
            let now = self.snapshot();
            let snap = self.undo_stack.pop().unwrap();
            self.redo_stack.push(now);
            self.rope = snap.rope;
            self.cursors = snap.cursors;
            self.modified = true;
            assert(final(self)@.undo =~= old(self)@.undo.drop_last());
            assert(final(self)@.redo =~= old(self)@.redo.push(old(self)@.doc));
        }
    }

    /// Does again what the last undo took back, if anything.
    pub fn redo(&mut self)
        requires
            old(self)@.wf(),
        ensures
            final(self)@ == old(self)@.redone(),
            final(self)@.wf(),
            old(self)@.in_bounds() ==> final(self)@.in_bounds(),
    {
        if self.redo_stack.len() > 0 {
            let now = self.snapshot();
            let snap = self.redo_stack.pop().unwrap();
            self.undo_stack.push(now);
            self.rope = snap.rope;
            self.cursors = snap.cursors;
            self.modified = true;
            assert(final(self)@.redo =~= old(self)@.redo.drop_last());
            assert(final(self)@.undo =~= old(self)@.undo.push(old(self)@.doc));
        }
    }

    /// The number of edits that can be undone.
    pub fn undo_depth(&self) -> (n: usize)
        ensures
            n == self@.undo.len(),
    {
        self.undo_stack.len()
    }

    /// The number of undone edits that can be redone.
    pub fn redo_depth(&self) -> (n: usize)
        ensures
            n == self@.redo.len(),
    {
        self.redo_stack.len()
    }
}

} // verus!
