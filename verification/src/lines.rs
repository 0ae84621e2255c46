//! Line and offset arithmetic on a rope, proved against the text model.

use vstd::prelude::*;
use ropey::Rope;
use crate::buffer::{
    rope_char_to_line, rope_len_chars, rope_len_lines, rope_line_to_char, rope_slice, rope_text,
};
use crate::chars::to_chars;
use crate::position::Position;
use crate::text::{
    address_of, lemma_address_of_offset, lemma_line_start, line_content, line_len, offset_of,
};

verus! {

/// The length of a line in characters, its line feed not counted; zero for a
/// line that the rope does not have.
pub(crate) fn line_len_chars(rope: &Rope, line: usize) -> (n: usize)
    ensures
        n == line_len(rope_text(*rope), line as nat),
{
    let lines = rope_len_lines(rope);
    proof {
        lemma_line_start(rope_text(*rope), line as nat);
    }
    if line >= lines {
        return 0;
    }
    let start = rope_line_to_char(rope, line);
    let next = rope_line_to_char(rope, line + 1);
    if line + 1 < lines {
        next - start - 1
    } else {
        next - start
    }
}

/// The character offset that a position stands for: its column is held to
/// the length of its line, and a line past the last one gives the end of the
/// text.
pub(crate) fn pos_to_char_idx(rope: &Rope, pos: &Position) -> (i: usize)
    ensures
        i == offset_of(rope_text(*rope), *pos),
        i <= rope_text(*rope).len(),
{
    let lines = rope_len_lines(rope);
    proof {
        lemma_line_start(rope_text(*rope), pos.line as nat);
    }
    let total = rope_len_chars(rope);
    if pos.line >= lines {
        return total;
    }
    let start = rope_line_to_char(rope, pos.line);
    let len = line_len_chars(rope, pos.line);
    if pos.col <= len {
        start + pos.col
    } else {
        start + len
    }
}

/// The characters of a line without its line feed; none for a line that the
/// rope does not have.
pub(crate) fn line_chars(rope: &Rope, line: usize) -> (v: Vec<char>)
    ensures
        v@ == line_content(rope_text(*rope), line as nat),
{
    let lines = rope_len_lines(rope);
    let total = rope_len_chars(rope);
    proof {
        lemma_line_start(rope_text(*rope), line as nat);
    }
    if line >= lines {
        let v: Vec<char> = Vec::new();
        assert(v@ =~= line_content(rope_text(*rope), line as nat));
        return v;
    }
    let start = rope_line_to_char(rope, line);
    let len = line_len_chars(rope, line);
    let s = rope_slice(rope, start, start + len);
    to_chars(s.as_str())
}

/// The position of a character offset.
pub(crate) fn char_idx_to_pos(rope: &Rope, i: usize) -> (p: Position)
    requires
        i <= rope_text(*rope).len(),
    ensures
        p == address_of(rope_text(*rope), i as int),
{
    proof {
        lemma_address_of_offset(rope_text(*rope), i as int);
    }
    let line = rope_char_to_line(rope, i);
    let start = rope_line_to_char(rope, line);
    Position::new(line, i - start)
}

} // verus!
