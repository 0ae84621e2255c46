//! The rope that stores a document, and what is taken on trust about it.
//!
//! The rope comes from the `ropey` crate, built without its optional line
//! break features, so that a line feed is the only line break it recognises.
//! Nothing in this file is proved: each contract restates what `ropey`
//! documents for the method that the function calls.

use vstd::prelude::*;
use ropey::Rope;
use crate::text::{line_count, line_start, newlines_before};

verus! {

/// `ropey::Rope`, of which nothing is known but what the functions below
/// state.
#[verifier::external_type_specification]
#[verifier::external_body]
pub struct ExRope(Rope);

/// The characters that a rope holds, in order.
pub uninterp spec fn rope_text(r: Rope) -> Seq<char>;

/// `Rope::new`: a rope that holds no characters.
#[verifier::external_body]
pub(crate) fn rope_new() -> (r: Rope)
    ensures
        rope_text(r) == Seq::<char>::empty(),
{
    Rope::new()
}

/// `Rope::from_str`: a rope that holds the characters of `text`.
#[verifier::external_body]
pub(crate) fn rope_from_str(text: &str) -> (r: Rope)
    ensures
        rope_text(r) == text@,
{
    Rope::from_str(text)
}

/// `Rope::clone`: a rope with the same characters, independent of the first
/// in every later edit.
#[verifier::external_body]
pub(crate) fn rope_clone(r: &Rope) -> (c: Rope)
    ensures
        rope_text(c) == rope_text(*r),
{
    r.clone()
}

/// `Rope::len_chars`: the number of characters.
#[verifier::external_body]
pub(crate) fn rope_len_chars(r: &Rope) -> (n: usize)
    ensures
        n == rope_text(*r).len(),
{
    r.len_chars()
}

/// `Rope::len_lines`: the number of line breaks plus one.
#[verifier::external_body]
pub(crate) fn rope_len_lines(r: &Rope) -> (n: usize)
    ensures
        n == line_count(rope_text(*r)),
{
    r.len_lines()
}

/// `Rope::line_to_char`: the offset of the first character of a line, which
/// is the length of the text for the line one past the last. The method
/// panics for any line further out.
#[verifier::external_body]
pub(crate) fn rope_line_to_char(r: &Rope, line: usize) -> (i: usize)
    requires
        line <= line_count(rope_text(*r)),
    ensures
        i == line_start(rope_text(*r), line as nat),
{
    r.line_to_char(line)
}

/// `Rope::char_to_line`: the number of line breaks before an offset. The
/// method panics for an offset past the end of the text.
#[verifier::external_body]
pub(crate) fn rope_char_to_line(r: &Rope, i: usize) -> (line: usize)
    requires
        i <= rope_text(*r).len(),
    ensures
        line == newlines_before(rope_text(*r), i as int),
{
    r.char_to_line(i)
}

/// `Rope::char`: the character at an offset. The method panics for an offset
/// at or past the end of the text.
#[verifier::external_body]
pub(crate) fn rope_char(r: &Rope, i: usize) -> (c: char)
    requires
        i < rope_text(*r).len(),
    ensures
        c == rope_text(*r)[i as int],
{
    r.char(i)
}

/// `Rope::slice`, turned into a `String`: the characters from offset `start`
/// up to `end`. The method panics where `start > end` or `end` is past the
/// end of the text.
#[verifier::external_body]
pub(crate) fn rope_slice(r: &Rope, start: usize, end: usize) -> (s: String)
    requires
        start <= end <= rope_text(*r).len(),
    ensures
        s@ == rope_text(*r).subrange(start as int, end as int),
{
    String::from(r.slice(start..end))
}

/// The conversion of a `Rope` into a `String`: all its characters.
#[verifier::external_body]
pub(crate) fn rope_to_string(r: &Rope) -> (s: String)
    ensures
        s@ == rope_text(*r),
{
    String::from(r)
}

/// `Rope::insert`: the characters of `text` come to stand at offset `i`, and
/// nothing else changes. The method panics for an offset past the end.
#[verifier::external_body]
pub(crate) fn rope_insert(r: &mut Rope, i: usize, text: &str)
    requires
        i <= rope_text(*old(r)).len(),
    ensures
        rope_text(*final(r)) == rope_text(*old(r)).subrange(0, i as int) + text@ + rope_text(
            *old(r),
        ).subrange(i as int, rope_text(*old(r)).len() as int),
{
    r.insert(i, text)
}

/// `Rope::remove`: the characters from offset `start` up to `end` leave, and
/// nothing else changes. The method panics where `start > end` or `end` is
/// past the end of the text.
#[verifier::external_body]
pub(crate) fn rope_remove(r: &mut Rope, start: usize, end: usize)
    requires
        start <= end <= rope_text(*old(r)).len(),
    ensures
        rope_text(*final(r)) == rope_text(*old(r)).subrange(0, start as int) + rope_text(
            *old(r),
        ).subrange(end as int, rope_text(*old(r)).len() as int),
{
    r.remove(start..end)
}

} // verus!
