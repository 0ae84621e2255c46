//! Keys: which operation a key stands for.

use vstd::prelude::*;
use crate::cursor::Cursor;
use crate::editor::{Editor, EditorState};
use crate::editor::edit::Edit;
use crate::editor::motion::{
    moved_down, moved_end, moved_home, moved_left, moved_page_down, moved_page_up, moved_right,
    moved_to_end, moved_to_start, moved_up, moved_word_left, moved_word_right,
};
use crate::editor::select::copied;

verus! {

/// The keys that the editor reacts to.
#[derive(Clone, Copy, Debug, PartialEq, Eq, Structural)]
pub enum Key {
    Backspace,
    Delete,
    Enter,
    Tab,
    ArrowLeft,
    ArrowRight,
    ArrowUp,
    ArrowDown,
    Home,
    End,
    PageUp,
    PageDown,
    A,
    C,
    D,
    V,
    X,
    Y,
    Z,
    Escape,
}

/// What the host has to do after a key.
#[derive(Debug)]
pub enum KeyEffect {
    /// Nothing; the content of the document is as it was.
    Unchanged,
    /// Nothing; the key counts as an edit of the document.
    Changed,
    /// The text is to go to the clipboard.
    Copy(String),
    /// The text is to go to the clipboard, and the key counts as an edit.
    Cut(String),
    /// The text of the clipboard is to be inserted.
    Paste,
}

/// The number of lines that a page key moves by: what the view shows, and
/// at least one.
pub open spec fn page_lines(visible_lines: usize) -> usize {
    if visible_lines < 1 {
        1
    } else {
        visible_lines
    }
}

impl EditorState {
    /// The state after a key. `ctrl` and `shift` say which modifiers are
    /// held, `visible_lines` how many lines the view shows, and
    /// `has_clipboard` whether there is a clipboard to copy to. With `shift`
    /// a movement selects. A key that stands for nothing leaves the state as
    /// it is, and so do copy, cut and paste without a clipboard; paste
    /// leaves it so in any case, for the host inserts the text.
    pub open spec fn after_key(
        self,
        key: Key,
        ctrl: bool,
        shift: bool,
        visible_lines: usize,
        has_clipboard: bool,
    ) -> EditorState {
        let s = self.doc.text;
        let n = page_lines(visible_lines);
        match key {
            Key::Backspace => if ctrl {
                self.after_edit(Edit::DeleteWordBackward)
            } else {
                self.after_edit(Edit::Backspace)
            },
            Key::Delete => if ctrl {
                self.after_edit(Edit::DeleteWordForward)
            } else {
                self.after_edit(Edit::DeleteForward)
            },
            Key::Enter => self.after_newline(),
            Key::Tab => self.after_edit(Edit::Insert("    "@)),
            Key::ArrowLeft => if ctrl {
                self.each_cursor(|c: Cursor| moved_word_left(s, c, shift))
            } else {
                self.each_cursor(|c: Cursor| moved_left(s, c, shift))
            },
            Key::ArrowRight => if ctrl {
                self.each_cursor(|c: Cursor| moved_word_right(s, c, shift))
            } else {
                self.each_cursor(|c: Cursor| moved_right(s, c, shift))
            },
            Key::ArrowUp => self.each_cursor(|c: Cursor| moved_up(s, c, shift)),
            Key::ArrowDown => self.each_cursor(|c: Cursor| moved_down(s, c, shift)),
            Key::Home => if ctrl {
                self.each_cursor(|c: Cursor| moved_to_start(s, c, shift))
            } else {
                self.each_cursor(|c: Cursor| moved_home(s, c, shift))
            },
            Key::End => if ctrl {
                self.each_cursor(|c: Cursor| moved_to_end(s, c, shift))
            } else {
                self.each_cursor(|c: Cursor| moved_end(s, c, shift))
            },
            Key::PageUp => self.each_cursor(|c: Cursor| moved_page_up(s, c, shift, n)),
            Key::PageDown => self.each_cursor(|c: Cursor| moved_page_down(s, c, shift, n)),
            Key::A => if ctrl {
                self.with_cursors(self.doc.all_selected())
            } else {
                self
            },
            Key::D => if ctrl {
                self.with_doc(self.doc.with_next_occurrence())
            } else {
                self
            },
            Key::X => if ctrl && has_clipboard {
                self.after_cut()
            } else {
                self
            },
            Key::Z => if ctrl && shift {
                self.redone()
            } else if ctrl {
                self.undone()
            } else {
                self
            },
            Key::Y => if ctrl {
                self.redone()
            } else {
                self
            },
            Key::Escape => self.with_cursors(self.doc.primary_caret()),
            Key::C | Key::V => self,
        }
    }

    /// Whether a key counts as an edit of the document: the keys that
    /// delete, Enter and Tab, and with the control key a cut where there is a
    /// clipboard, undo and redo.
    pub open spec fn key_edits(key: Key, ctrl: bool, has_clipboard: bool) -> bool {
        match key {
            Key::Backspace | Key::Delete | Key::Enter | Key::Tab => true,
            Key::X => ctrl && has_clipboard,
            Key::Z | Key::Y => ctrl,
            _ => false,
        }
    }
}

impl Editor {
    /// Does what a key stands for, and says what is left for the host to do.
    /// Copy and cut hand out the text for the clipboard; paste asks the host
    /// to insert the text of the clipboard; every other key says whether it
    /// counts as an edit.
    pub fn handle_key(
        &mut self,
        key: Key,
        ctrl: bool,
        shift: bool,
        visible_lines: usize,
        has_clipboard: bool,
    ) -> (effect: KeyEffect)
        requires
            old(self)@.wf(),
        ensures
            final(self)@ == old(self)@.after_key(key, ctrl, shift, visible_lines, has_clipboard),
            final(self)@.wf(),
            old(self)@.in_bounds() ==> final(self)@.in_bounds(),
            match effect {
                KeyEffect::Copy(text) => key == Key::C && ctrl && has_clipboard && text@ == copied(
                    old(self)@.doc.text,
                    old(self)@.doc.cursors,
                    old(self)@.doc.cursors.len(),
                ),
                KeyEffect::Cut(text) => key == Key::X && ctrl && has_clipboard && text@ == copied(
                    old(self)@.doc.text,
                    old(self)@.doc.cursors,
                    old(self)@.doc.cursors.len(),
                ),
                KeyEffect::Paste => key == Key::V && ctrl && has_clipboard,
                KeyEffect::Changed => key != Key::X && EditorState::key_edits(
                    key,
                    ctrl,
                    has_clipboard,
                ),
                KeyEffect::Unchanged => !EditorState::key_edits(key, ctrl, has_clipboard) && !(ctrl
                    && has_clipboard && (key == Key::C || key == Key::V)),
            },
    {
        let n = if visible_lines < 1 {
            1
        } else {
            visible_lines
        };
        match key {
            Key::Backspace => {
                if ctrl {
                    self.delete_word_backward();
                } else {
                    self.backspace();
                }
                KeyEffect::Changed
            },
            Key::Delete => {
                if ctrl {
                    self.delete_word_forward();
                } else {
                    self.delete_forward();
                }
                KeyEffect::Changed
            },
            Key::Enter => {
                self.insert_newline();
                KeyEffect::Changed
            },
            Key::Tab => {
                self.insert_tab();
                KeyEffect::Changed
            },
            Key::ArrowLeft => {
                if ctrl {
                    self.move_word_left(shift);
                } else {
                    self.move_left(shift);
                }
                KeyEffect::Unchanged
            },
            Key::ArrowRight => {
                if ctrl {
                    self.move_word_right(shift);
                } else {
                    self.move_right(shift);
                }
                KeyEffect::Unchanged
            },
            Key::ArrowUp => {
                self.move_up(shift);
                KeyEffect::Unchanged
            },
            Key::ArrowDown => {
                self.move_down(shift);
                KeyEffect::Unchanged
            },
            Key::Home => {
                if ctrl {
                    self.move_to_start(shift);
                } else {
                    self.move_home(shift);
                }
                KeyEffect::Unchanged
            },
            Key::End => {
                if ctrl {
                    self.move_to_end(shift);
                } else {
                    self.move_end(shift);
                }
                KeyEffect::Unchanged
            },
            Key::PageUp => {
                self.move_page_up(shift, n);
                KeyEffect::Unchanged
            },
            Key::PageDown => {
                self.move_page_down(shift, n);
                KeyEffect::Unchanged
            },
            Key::A => {
                if ctrl {
                    self.select_all();
                }
                KeyEffect::Unchanged
            },
            Key::D => {
                if ctrl {
                    self.select_next_occurrence();
                }
                KeyEffect::Unchanged
            },
            Key::C => {
                if ctrl && has_clipboard {
                    KeyEffect::Copy(self.copy_text())
                } else {
                    KeyEffect::Unchanged
                }
            },
            Key::X => {
                if ctrl && has_clipboard {
                    KeyEffect::Cut(self.cut_text())
                } else {
                    KeyEffect::Unchanged
                }
            },
            Key::V => {
                if ctrl && has_clipboard {
                    KeyEffect::Paste
                } else {
                    KeyEffect::Unchanged
                }
            },
            Key::Z => {
                if ctrl && shift {
                    self.redo();
                    KeyEffect::Changed
                } else if ctrl {
                    self.undo();
                    KeyEffect::Changed
                } else {
                    KeyEffect::Unchanged
                }
            },
            Key::Y => {
                if ctrl {
                    self.redo();
                    KeyEffect::Changed
                } else {
                    KeyEffect::Unchanged
                }
            },
            Key::Escape => {
                self.clear_extra_cursors();
                KeyEffect::Unchanged
            },
        }
    }

    /// Inserts text that was typed, unless the control key is held, and says
    /// whether it did.
    pub fn handle_text(&mut self, text: &str, ctrl: bool) -> (changed: bool)
        requires
            old(self)@.wf(),
        ensures
            changed == !ctrl,
            final(self)@ == if ctrl {
                old(self)@
            } else {
                old(self)@.after_edit(Edit::Insert(text@))
            },
            final(self)@.wf(),
            old(self)@.in_bounds() ==> final(self)@.in_bounds(),
    {
        if !ctrl {
            self.insert_text(text);
        }
        !ctrl
    }
}

} // verus!
