//! The document: a rope, the cursors on it, and the history of both.

use vstd::prelude::*;
use std::path::PathBuf;
use ropey::Rope;
use crate::buffer::{
    rope_char, rope_from_str, rope_len_chars, rope_len_lines, rope_line_to_char, rope_new,
    rope_slice, rope_text, rope_to_string,
};
use crate::cursor::Cursor;
use crate::lines::{char_idx_to_pos, line_len_chars, pos_to_char_idx};
use crate::position::Position;
use crate::text::{
    address_of, in_bounds, lemma_address_in_bounds, lemma_line_start, line_count, line_len,
    line_text_of, offset_of,
};

pub mod edit;
pub mod history;
pub mod keys;
pub mod motion;
pub mod search;
pub mod select;

verus! {

/// The number of snapshots that the undo history keeps at most.
pub const MAX_UNDO: usize = 500;

/// `std::path::PathBuf`, which the editor carries along and never looks
/// into.
#[verifier::external_type_specification]
#[verifier::external_body]
pub struct ExPathBuf(PathBuf);

/// What undo and redo restore: the text and the cursors on it.
pub struct DocState {
    pub text: Seq<char>,
    pub cursors: Seq<Cursor>,
}

/// The state of an editor as its operations see it.
pub struct EditorState {
    pub doc: DocState,
    pub modified: bool,
    pub title: Seq<char>,
    pub path: Option<PathBuf>,
    pub undo: Seq<DocState>,
    pub redo: Seq<DocState>,
}

impl DocState {
    /// Every cursor addresses a place in the text, with its caret and with
    /// its anchor.
    pub open spec fn in_bounds(self) -> bool {
        forall|i: int|
            0 <= i < self.cursors.len() ==> cursor_in_bounds(self.text, #[trigger] self.cursors[i])
    }
}

/// The caret and the anchor of `c` address places in `s`.
pub open spec fn cursor_in_bounds(s: Seq<char>, c: Cursor) -> bool {
    &&& in_bounds(s, c.pos)
    &&& c.anchor matches Some(a) ==> in_bounds(s, a)
}

impl EditorState {
    /// There is a primary cursor, now and in every snapshot, and the two
    /// histories together hold no more than `MAX_UNDO` snapshots.
    pub open spec fn wf(self) -> bool {
        &&& self.doc.cursors.len() >= 1
        &&& self.undo.len() + self.redo.len() <= MAX_UNDO
        &&& forall|i: int| 0 <= i < self.undo.len() ==> (#[trigger] self.undo[i]).cursors.len() >= 1
        &&& forall|i: int| 0 <= i < self.redo.len() ==> (#[trigger] self.redo[i]).cursors.len() >= 1
    }

    /// Every cursor addresses a place in its text, now and in every snapshot.
    pub open spec fn in_bounds(self) -> bool {
        &&& self.doc.in_bounds()
        &&& forall|i: int| 0 <= i < self.undo.len() ==> (#[trigger] self.undo[i]).in_bounds()
        &&& forall|i: int| 0 <= i < self.redo.len() ==> (#[trigger] self.redo[i]).in_bounds()
    }

    /// The state of a document that was just read from the file at `path`:
    /// its text is `content`, nothing is modified, there is no history, and
    /// one caret stands at the start.
    pub open spec fn loaded(path: PathBuf, file_name: Option<Seq<char>>, content: Seq<char>) -> EditorState {
        EditorState {
            doc: DocState {
                text: content,
                cursors: seq![Cursor::caret(Position { line: 0, col: 0 })],
            },
            modified: false,
            title: title_of(file_name),
            path: Some(path),
            undo: Seq::empty(),
            redo: Seq::empty(),
        }
    }

    /// The state after the document was written to the file at `path`.
    pub open spec fn saved_as(self, path: PathBuf, file_name: Option<Seq<char>>) -> EditorState {
        EditorState { modified: false, title: title_of(file_name), path: Some(path), ..self }
    }

    /// The state with another document and everything else as it is.
    pub open spec fn with_doc(self, doc: DocState) -> EditorState {
        EditorState { doc, ..self }
    }

    /// The state with other cursors and everything else as it is.
    pub open spec fn with_cursors(self, cursors: Seq<Cursor>) -> EditorState {
        EditorState { doc: DocState { text: self.doc.text, cursors }, ..self }
    }
}

/// A copy of the text and the cursors, kept for undo and redo.
pub(crate) struct Snapshot {
    pub(crate) rope: Rope,
    pub(crate) cursors: Vec<Cursor>,
}

impl Snapshot {
    pub(crate) closed spec fn doc(&self) -> DocState {
        DocState { text: rope_text(self.rope), cursors: self.cursors@ }
    }
}

/// The states that a stack of snapshots holds, the oldest first.
pub(crate) closed spec fn docs(v: Seq<Snapshot>) -> Seq<DocState> {
    Seq::new(v.len(), |i: int| v[i].doc())
}

/// An open document.
pub struct Editor {
    rope: Rope,
    cursors: Vec<Cursor>,
    file_path: Option<PathBuf>,
    modified: bool,
    title: String,
    undo_stack: Vec<Snapshot>,
    redo_stack: Vec<Snapshot>,
}

/// The title of a document that has no file name.
pub open spec fn untitled() -> Seq<char> {
    "Untitled"@
}

/// The title of a document whose path ends in `file_name`, if it ends in one.
pub open spec fn title_of(file_name: Option<Seq<char>>) -> Seq<char> {
    match file_name {
        Some(name) => name,
        None => untitled(),
    }
}

/// A copy of a list of cursors.
pub(crate) fn copy_cursors(v: &Vec<Cursor>) -> (r: Vec<Cursor>)
    ensures
        r@ == v@,
{
    let mut r: Vec<Cursor> = Vec::new();
    let mut i: usize = 0;
    while i < v.len()
        invariant
            i <= v.len(),
            r@ == v@.take(i as int),
        decreases v.len() - i,
    {
        r.push(v[i]);
        assert(v@.take(i + 1) == v@.take(i as int).push(v@[i as int]));
        i += 1;
    }
    assert(v@.take(v@.len() as int) == v@);
    r
}

/// A file name as the contracts see it.
pub open spec fn name_view(file_name: Option<String>) -> Option<Seq<char>> {
    match file_name {
        Some(n) => Some(n@),
        None => None,
    }
}

/// Why a document cannot be saved.
#[derive(Clone, Copy, Debug, PartialEq, Eq, Structural)]
pub enum SaveError {
    /// The document has no file yet.
    NoPath,
}

impl SaveError {
    /// The error in words.
    pub fn message(&self) -> (s: String)
        ensures
            s@ == "No file path set"@,
    {
        "No file path set".to_owned()
    }
}

/// The title for a file name, or for the lack of one.
fn title_for(file_name: Option<String>) -> (t: String)
    ensures
        t@ == title_of(name_view(file_name)),
{
    match file_name {
        Some(name) => name,
        None => "Untitled".to_owned(),
    }
}

impl Editor {
    /// The state that the contracts speak of.
    pub closed spec fn view(&self) -> EditorState {
        EditorState {
            doc: DocState { text: rope_text(self.rope), cursors: self.cursors@ },
            modified: self.modified,
            title: self.title@,
            path: self.file_path,
            undo: docs(self.undo_stack@),
            redo: docs(self.redo_stack@),
        }
    }

    /// An empty, untitled document with one caret at its start.
    pub fn new() -> (e: Self)
        ensures
            e@.wf(),
            e@.in_bounds(),
            e@.doc.text == Seq::<char>::empty(),
            e@.doc.cursors == seq![Cursor::caret(Position { line: 0, col: 0 })],
            !e@.modified,
            e@.title == untitled(),
            e@.path is None,
            e@.undo.len() == 0,
            e@.redo.len() == 0,
    {
        let mut cursors: Vec<Cursor> = Vec::new();
        cursors.push(Cursor::new(0, 0));
        let e = Editor {
            rope: rope_new(),
            cursors,
            file_path: None,
            modified: false,
            title: "Untitled".to_owned(),
            undo_stack: Vec::new(),
            redo_stack: Vec::new(),
        };
        proof {
            lemma_line_start(e@.doc.text, 0);
            assert(e@.doc.cursors =~= seq![Cursor::caret(Position { line: 0, col: 0 })]);
        }
        e
    }

    /// The document for a file that was read: `content` is what the file
    /// holds, `file_name` the last component of `path` where it has one. The
    /// document is unmodified, has no history and one caret at its start.
    pub fn from_file(path: PathBuf, file_name: Option<String>, content: &str) -> (e: Self)
        ensures
            e@ == EditorState::loaded(path, name_view(file_name), content@),
            e@.wf(),
            e@.in_bounds(),
    {
        let mut cursors: Vec<Cursor> = Vec::new();
        cursors.push(Cursor::new(0, 0));
        let e = Editor {
            rope: rope_from_str(content),
            cursors,
            file_path: Some(path),
            modified: false,
            title: title_for(file_name),
            undo_stack: Vec::new(),
            redo_stack: Vec::new(),
        };
        proof {
            lemma_line_start(e@.doc.text, 0);
            assert(e@.doc.cursors =~= seq![Cursor::caret(Position { line: 0, col: 0 })]);
            assert(e@.undo =~= Seq::<DocState>::empty());
            assert(e@.redo =~= Seq::<DocState>::empty());
        }
        e
    }

    /// What is to be written to the document's file: the whole text, or the
    /// error that the document has no file yet. Nothing changes; the caller
    /// writes the text and reports success with `mark_saved`.
    pub fn save(&self) -> (r: Result<String, SaveError>)
        ensures
            match r {
                Ok(text) => self@.path is Some && text@ == self@.doc.text,
                Err(e) => self@.path is None && e == SaveError::NoPath,
            },
    {
        if self.file_path.is_some() {
            Ok(rope_to_string(&self.rope))
        } else {
            Err(SaveError::NoPath)
        }
    }

    /// Records that the text was written to the document's file: the
    /// document no longer counts as modified.
    pub fn mark_saved(&mut self)
        ensures
            final(self)@ == (EditorState { modified: false, ..old(self)@ }),
    {
        self.modified = false;
    }

    /// Records that the text was written to the file at `path`, whose last
    /// component is `file_name` where it has one: the document belongs to
    /// that file from now on, is titled after it and no longer counts as
    /// modified.
    pub fn save_as(&mut self, path: PathBuf, file_name: Option<String>)
        ensures
            final(self)@ == old(self)@.saved_as(path, name_view(file_name)),
    {
        self.title = title_for(file_name);
        self.file_path = Some(path);
        self.modified = false;
    }

    /// The number of lines, which is at least one.
    pub fn line_count(&self) -> (n: usize)
        ensures
            n == line_count(self@.doc.text),
            n >= 1,
    {
        rope_len_lines(&self.rope)
    }

    /// The visible text of a line, without its terminator; empty for a line
    /// that the document does not have.
    pub fn line_text(&self, line: usize) -> (s: String)
        ensures
            s@ == line_text_of(self@.doc.text, line as nat),
    {
        proof {
            lemma_line_start(rope_text(self.rope), line as nat);
        }
        if line >= rope_len_lines(&self.rope) {
            let s = String::new();
            assert(s@ =~= line_text_of(self@.doc.text, line as nat));
            return s;
        }
        let total = rope_len_chars(&self.rope);
        let start = rope_line_to_char(&self.rope, line);
        let len = line_len_chars(&self.rope, line);
        let mut end = start + len;
        if end > start && rope_char(&self.rope, end - 1) == '\r' {
            end = end - 1;
        }
        let s = rope_slice(&self.rope, start, end);
        assert(s@ =~= line_text_of(self@.doc.text, line as nat));
        s
    }

    /// The length of a line in characters, its line feed not counted; zero
    /// for a line that the document does not have.
    pub fn line_length_chars(&self, line: usize) -> (n: usize)
        ensures
            n == line_len(self@.doc.text, line as nat),
    {
        line_len_chars(&self.rope, line)
    }

    /// The character offset that a position stands for. A column past the
    /// end of its line stands for the end of that line, and a line past the
    /// last one for the end of the document.
    pub fn position_to_char_index(&self, pos: &Position) -> (i: usize)
        ensures
            i == offset_of(self@.doc.text, *pos),
            i <= self@.doc.text.len(),
    {
        pos_to_char_idx(&self.rope, pos)
    }

    /// The position of a character offset; that of the end of the document
    /// for an offset past it.
    pub fn char_index_to_position(&self, i: usize) -> (p: Position)
        ensures
            p == address_of(
                self@.doc.text,
                if i <= self@.doc.text.len() {
                    i as int
                } else {
                    self@.doc.text.len() as int
                },
            ),
            in_bounds(self@.doc.text, p),
    {
        let total = rope_len_chars(&self.rope);
        let j = if i <= total {
            i
        } else {
            total
        };
        proof {
            lemma_address_in_bounds(self@.doc.text, j as int);
        }
        char_idx_to_pos(&self.rope, j)
    }

    /// The whole text.
    pub fn text(&self) -> (s: String)
        ensures
            s@ == self@.doc.text,
    {
        rope_to_string(&self.rope)
    }

    /// The cursors, the primary one first.
    pub fn cursors(&self) -> (c: &Vec<Cursor>)
        ensures
            c@ == self@.doc.cursors,
    {
        &self.cursors
    }

    /// Whether the document was changed since it was created, loaded or saved.
    pub fn is_modified(&self) -> (b: bool)
        ensures
            b == self@.modified,
    {
        self.modified
    }

    /// The title under which the document is shown.
    pub fn title(&self) -> (t: &String)
        ensures
            t@ == self@.title,
    {
        &self.title
    }

    /// The path of the file that the document belongs to, if it has one.
    pub fn file_path(&self) -> (p: &Option<PathBuf>)
        ensures
            *p == self@.path,
    {
        &self.file_path
    }
}

} // verus!
