//! The mathematical model of a document: a sequence of characters whose lines
//! are delimited by `'\n'`, with the arithmetic that relates character
//! offsets to (line, column) addresses.

use vstd::prelude::*;
use crate::position::Position;

verus! {

/// The number of line feeds among the first `i` characters of `s`.
pub open spec fn newlines_before(s: Seq<char>, i: int) -> nat
    decreases i,
{
    if i <= 0 {
        0
    } else {
        newlines_before(s, i - 1) + if s[i - 1] == '\n' { 1nat } else { 0nat }
    }
}

/// The number of line feeds in `s`.
pub open spec fn newline_count(s: Seq<char>) -> nat {
    newlines_before(s, s.len() as int)
}

/// The number of lines of `s`: one more than its line feeds, so never zero.
pub open spec fn line_count(s: Seq<char>) -> nat {
    newline_count(s) + 1
}

/// The offset of the first line feed at or after `from`, or the length of `s`
/// if there is none.
pub open spec fn next_newline(s: Seq<char>, from: int) -> int
    decreases s.len() - from,
{
    if from >= s.len() {
        s.len() as int
    } else if s[from] == '\n' {
        from
    } else {
        next_newline(s, from + 1)
    }
}

/// The offset at which line `line` starts: zero for the first line, and one
/// past the line feed that ends the line before for every other. A line that
/// the document does not have starts at the end of the document.
pub open spec fn line_start(s: Seq<char>, line: nat) -> int
    decreases line,
{
    if line == 0 {
        0
    } else {
        let end = next_newline(s, line_start(s, (line - 1) as nat));
        if end < s.len() {
            end + 1
        } else {
            s.len() as int
        }
    }
}

/// The number of characters of line `line`, its terminating line feed not
/// counted. A line that the document does not have is empty.
pub open spec fn line_len(s: Seq<char>, line: nat) -> int {
    next_newline(s, line_start(s, line)) - line_start(s, line)
}

/// The offset at which the line holding offset `i` starts.
pub open spec fn line_begin(s: Seq<char>, i: int) -> int
    decreases i,
{
    if i <= 0 {
        0
    } else if s[i - 1] == '\n' {
        i
    } else {
        line_begin(s, i - 1)
    }
}

/// Whether `p` addresses a place in `s`: an existing line, and a column that
/// is at most that line's length.
pub open spec fn in_bounds(s: Seq<char>, p: Position) -> bool {
    &&& p.line < line_count(s)
    &&& p.col <= line_len(s, p.line as nat)
}

/// The character offset that `p` stands for in `s`. A column past the end of
/// its line stands for the end of that line, and a line past the last one for
/// the end of the document.
pub open spec fn offset_of(s: Seq<char>, p: Position) -> int {
    if p.line >= line_count(s) {
        s.len() as int
    } else if p.col <= line_len(s, p.line as nat) {
        line_start(s, p.line as nat) + p.col
    } else {
        line_start(s, p.line as nat) + line_len(s, p.line as nat)
    }
}

/// The line of the address of offset `i`.
pub open spec fn line_of(s: Seq<char>, i: int) -> nat {
    newlines_before(s, i)
}

/// The column of the address of offset `i`.
pub open spec fn col_of(s: Seq<char>, i: int) -> int {
    i - line_begin(s, i)
}

/// The address of offset `i`.
pub open spec fn address_of(s: Seq<char>, i: int) -> Position {
    Position { line: line_of(s, i) as usize, col: col_of(s, i) as usize }
}

/// The length of a line's visible text is at most the line's length.
pub proof fn lemma_line_text_len(s: Seq<char>, line: nat)
    ensures
        line_content(s, line).len() == line_len(s, line),
        line_len(s, line) - 1 <= line_text_of(s, line).len() <= line_len(s, line),
{
    lemma_line_start(s, line);
}

/// The characters of line `line` without its line feed.
pub open spec fn line_content(s: Seq<char>, line: nat) -> Seq<char> {
    s.subrange(line_start(s, line), line_start(s, line) + line_len(s, line))
}

/// `x` without a trailing carriage return.
pub open spec fn strip_cr(x: Seq<char>) -> Seq<char> {
    if x.len() > 0 && x.last() == '\r' {
        x.drop_last()
    } else {
        x
    }
}

/// The visible text of line `line`: its characters without the line
/// terminator, where a carriage return before the line feed counts as part of
/// the terminator.
pub open spec fn line_text_of(s: Seq<char>, line: nat) -> Seq<char> {
    strip_cr(line_content(s, line))
}

/// `next_newline` stays inside the document, skips no line feed and stops on
/// one unless it reaches the end.
pub proof fn lemma_next_newline(s: Seq<char>, from: int)
    requires
        0 <= from <= s.len(),
    ensures
        from <= next_newline(s, from) <= s.len(),
        next_newline(s, from) < s.len() ==> s[next_newline(s, from)] == '\n',
        forall|k: int| from <= k < next_newline(s, from) ==> s[k] != '\n',
    decreases s.len() - from,
{
    if from < s.len() && s[from] != '\n' {
        lemma_next_newline(s, from + 1);
    }
}

/// A line feed at offset `j` bounds `next_newline` from every offset before it.
pub proof fn lemma_next_newline_upper(s: Seq<char>, from: int, j: int)
    requires
        0 <= from <= j < s.len(),
        s[j] == '\n',
    ensures
        next_newline(s, from) <= j,
    decreases j - from,
{
    if s[from] != '\n' {
        lemma_next_newline_upper(s, from + 1, j);
    }
}

/// Counting line feeds is monotone, and constant over a stretch without any.
pub proof fn lemma_newlines_before_range(s: Seq<char>, i: int, j: int)
    requires
        0 <= i <= j <= s.len(),
    ensures
        newlines_before(s, i) <= newlines_before(s, j),
        (forall|k: int| i <= k < j ==> s[k] != '\n') ==> newlines_before(s, i) == newlines_before(
            s,
            j,
        ),
        (exists|k: int| i <= k < j && s[k] == '\n') ==> newlines_before(s, i) < newlines_before(
            s,
            j,
        ),
    decreases j - i,
{
    if i < j {
        lemma_newlines_before_range(s, i, j - 1);
    }
}

/// Within a stretch without line feeds the line's beginning does not move.
pub proof fn lemma_line_begin_range(s: Seq<char>, i: int, j: int)
    requires
        0 <= i <= j <= s.len(),
        forall|k: int| i <= k < j ==> s[k] != '\n',
    ensures
        line_begin(s, j) == line_begin(s, i),
    decreases j - i,
{
    if i < j {
        lemma_line_begin_range(s, i, j - 1);
    }
}

/// The beginning of the line of an offset lies at or before the offset, with
/// no line feed in between.
pub proof fn lemma_line_begin(s: Seq<char>, i: int)
    requires
        0 <= i <= s.len(),
    ensures
        0 <= line_begin(s, i) <= i,
        line_begin(s, i) == 0 || s[line_begin(s, i) - 1] == '\n',
        forall|k: int| line_begin(s, i) <= k < i ==> s[k] != '\n',
        newlines_before(s, line_begin(s, i)) == newlines_before(s, i),
        line_begin(s, line_begin(s, i)) == line_begin(s, i),
    decreases i,
{
    if i > 0 && s[i - 1] != '\n' {
        lemma_line_begin(s, i - 1);
    }
}

/// Where a line starts: for a line of the document, at an offset with exactly
/// `line` line feeds before it that begins its own line; for any other, at the
/// end. Every line but the last ends in a line feed.
pub proof fn lemma_line_start(s: Seq<char>, line: nat)
    ensures
        0 <= line_start(s, line) <= s.len(),
        0 <= line_len(s, line),
        line_start(s, line) + line_len(s, line) <= s.len(),
        line < line_count(s) ==> newlines_before(s, line_start(s, line)) == line,
        line < line_count(s) ==> line_begin(s, line_start(s, line)) == line_start(s, line),
        line + 1 < line_count(s) ==> next_newline(s, line_start(s, line)) < s.len(),
        line + 1 < line_count(s) ==> line_start(s, line + 1) == line_start(s, line) + line_len(
            s,
            line,
        ) + 1,
        line + 1 >= line_count(s) ==> next_newline(s, line_start(s, line)) == s.len(),
        line + 1 >= line_count(s) ==> line_start(s, line + 1) == s.len(),
        line >= line_count(s) ==> line_start(s, line) == s.len(),
    decreases line,
{
    if line > 0 {
        let prev = (line - 1) as nat;
        lemma_line_start(s, prev);
        let start0 = line_start(s, prev);
        lemma_next_newline(s, start0);
        let end0 = next_newline(s, start0);
        lemma_newlines_before_range(s, start0, end0);
        if end0 < s.len() {
            assert(newlines_before(s, end0 + 1) == newlines_before(s, end0) + 1);
            assert(line_begin(s, end0 + 1) == end0 + 1);
        }
    }
    let p = line_start(s, line);
    lemma_next_newline(s, p);
    let e = next_newline(s, p);
    lemma_newlines_before_range(s, p, e);
    lemma_newlines_before_range(s, e, s.len() as int);
    if e < s.len() {
        assert(newlines_before(s, e + 1) == newlines_before(s, e) + 1);
        lemma_newlines_before_range(s, e + 1, s.len() as int);
    }
}

/// Every offset of the document has an address inside it, and the address
/// leads back to the offset.
pub proof fn lemma_address_of_offset(s: Seq<char>, i: int)
    requires
        0 <= i <= s.len(),
    ensures
        line_of(s, i) < line_count(s),
        line_start(s, line_of(s, i)) == line_begin(s, i),
        0 <= col_of(s, i) <= line_len(s, line_of(s, i)),
        line_start(s, line_of(s, i)) + col_of(s, i) == i,
        line_of(s, i) <= i,
        col_of(s, i) <= i,
    decreases i,
{
    lemma_newlines_before_range(s, i, s.len() as int);
    if i > 0 {
        lemma_address_of_offset(s, i - 1);
        let line0 = line_of(s, i - 1);
        let begin0 = line_begin(s, i - 1);
        lemma_line_start(s, line0);
        lemma_next_newline(s, begin0);
        if s[i - 1] == '\n' {
            lemma_next_newline_upper(s, begin0, i - 1);
            lemma_line_start(s, line0 + 1);
            lemma_next_newline(s, i);
        }
    } else {
        lemma_next_newline(s, 0);
    }
}

/// The address of an offset is an address inside the document, and stands
/// for that offset.
pub proof fn lemma_address_in_bounds(s: Seq<char>, i: int)
    requires
        0 <= i <= s.len() <= usize::MAX,
    ensures
        in_bounds(s, address_of(s, i)),
        offset_of(s, address_of(s, i)) == i,
{
    lemma_address_of_offset(s, i);
}

/// Two texts that agree before an offset give that offset the same address.
pub proof fn lemma_prefix_address(s: Seq<char>, s2: Seq<char>, i: int)
    requires
        0 <= i <= s.len(),
        i <= s2.len(),
        forall|k: int| 0 <= k < i ==> s[k] == s2[k],
    ensures
        newlines_before(s2, i) == newlines_before(s, i),
        line_begin(s2, i) == line_begin(s, i),
        address_of(s2, i) == address_of(s, i),
    decreases i,
{
    if i > 0 {
        lemma_prefix_address(s, s2, i - 1);
    }
}

/// An address inside the document stands for an offset whose address it is.
pub proof fn lemma_offset_of_address(s: Seq<char>, p: Position)
    requires
        in_bounds(s, p),
    ensures
        0 <= offset_of(s, p) <= s.len(),
        line_of(s, offset_of(s, p)) == p.line,
        col_of(s, offset_of(s, p)) == p.col,
        address_of(s, offset_of(s, p)) == p,
{
    let l = p.line as nat;
    lemma_line_start(s, l);
    let b = line_start(s, l);
    lemma_next_newline(s, b);
    lemma_newlines_before_range(s, b, b + p.col);
    lemma_line_begin_range(s, b, b + p.col);
}

/// Whatever address is asked for, the offset it stands for is in the document.
pub proof fn lemma_offset_in_range(s: Seq<char>, p: Position)
    ensures
        0 <= offset_of(s, p) <= s.len(),
{
    lemma_line_start(s, p.line as nat);
}

} // verus!
