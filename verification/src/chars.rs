//! Characters and character sequences: classification, conversion between
//! strings and vectors of characters, literal search and replacement.
//!
//! Four functions of the standard library are taken on trust here, each
//! with a contract that restates its documentation: `str::to_lowercase`,
//! `char::is_alphanumeric`, `char::is_whitespace` and `String::push`.

use vstd::prelude::*;

verus! {

/// Whether `c` is alphanumeric in the sense of `char::is_alphanumeric`, which
/// goes by the Unicode character tables.
pub uninterp spec fn is_alphanumeric_char(c: char) -> bool;

/// Whether `c` is white space in the sense of `char::is_whitespace`, which
/// goes by the Unicode character tables.
pub uninterp spec fn is_whitespace_char(c: char) -> bool;

/// The lower-case form of `s` in the sense of `str::to_lowercase`, which goes
/// by the Unicode character tables and by no locale.
pub uninterp spec fn lowercase_of(s: Seq<char>) -> Seq<char>;

/// `str::to_lowercase`: the lower-case form of the string, which depends on
/// its characters alone.
pub assume_specification[ str::to_lowercase ](s: &str) -> (r: String)
    ensures
        r@ == lowercase_of(s@),
;

/// `char::is_alphanumeric`: whether the character is alphabetic or numeric,
/// which depends on the character alone.
pub assume_specification[ char::is_alphanumeric ](c: char) -> (b: bool)
    ensures
        b == is_alphanumeric_char(c),
;

/// `char::is_whitespace`: whether the character is white space, which
/// depends on the character alone.
pub assume_specification[ char::is_whitespace ](c: char) -> (b: bool)
    ensures
        b == is_whitespace_char(c),
;

/// `String::push`: the character is appended to the string.
pub assume_specification[ String::push ](s: &mut String, c: char)
    ensures
        final(s)@ == old(s)@.push(c),
;

/// A word character is alphanumeric or an underscore.
pub open spec fn is_word_char(c: char) -> bool {
    is_alphanumeric_char(c) || c == '_'
}

/// Whether `c` is a word character.
pub fn word_char(c: char) -> (b: bool)
    ensures
        b == is_word_char(c),
{
    c.is_alphanumeric() || c == '_'
}

/// Where a scan to the left from column `col` stops: it goes over the
/// characters before `col` as long as they are word characters (`word`) or
/// are not (`!word`). A column past the end of the line stays where it is.
pub open spec fn skip_back(line: Seq<char>, col: int, word: bool) -> int
    decreases col,
{
    if 0 < col <= line.len() && is_word_char(line[col - 1]) == word {
        skip_back(line, col - 1, word)
    } else {
        col
    }
}

/// Where a scan to the right from column `col` stops: it goes over the
/// characters from `col` on as long as they are word characters (`word`) or
/// are not (`!word`).
pub open spec fn skip_forward(line: Seq<char>, col: int, word: bool) -> int
    decreases line.len() - col,
{
    if 0 <= col < line.len() && is_word_char(line[col]) == word {
        skip_forward(line, col + 1, word)
    } else {
        col
    }
}

/// The column at which the word before column `col` starts: to the left of
/// `col` first over what is no word, then over the word.
pub open spec fn word_start_before(line: Seq<char>, col: int) -> int {
    skip_back(line, skip_back(line, col, false), true)
}

/// The column at which the next word after column `col` starts: to the right
/// of `col` first over the word, then over what is no word.
pub open spec fn word_end_after(line: Seq<char>, col: int) -> int {
    skip_forward(line, skip_forward(line, col, true), false)
}

/// A scan to the left never moves right and never leaves the line.
pub proof fn lemma_skip_back(line: Seq<char>, col: int, word: bool)
    requires
        0 <= col,
    ensures
        0 <= skip_back(line, col, word) <= col,
    decreases col,
{
    if 0 < col <= line.len() && is_word_char(line[col - 1]) == word {
        lemma_skip_back(line, col - 1, word);
    }
}

/// A scan to the right never moves left and stops at the end of the line.
pub proof fn lemma_skip_forward(line: Seq<char>, col: int, word: bool)
    requires
        0 <= col,
    ensures
        col <= skip_forward(line, col, word),
        col <= line.len() ==> skip_forward(line, col, word) <= line.len(),
    decreases line.len() - col,
{
    if 0 <= col < line.len() && is_word_char(line[col]) == word {
        lemma_skip_forward(line, col + 1, word);
    }
}

/// Scans to the left from `col` over word characters or over the others.
pub fn scan_back(line: &Vec<char>, col: usize, word: bool) -> (r: usize)
    ensures
        r == skip_back(line@, col as int, word),
        r <= col,
{
    let mut k = col;
    while k > 0 && k <= line.len() && word_char(line[k - 1]) == word
        invariant
            k <= col,
            skip_back(line@, k as int, word) == skip_back(line@, col as int, word),
        decreases k,
    {
        k -= 1;
    }
    k
}

/// Scans to the right from `col` over word characters or over the others.
pub fn scan_forward(line: &Vec<char>, col: usize, word: bool) -> (r: usize)
    ensures
        r == skip_forward(line@, col as int, word),
        col <= r,
        col <= line.len() ==> r <= line.len(),
{
    let mut k = col;
    while k < line.len() && word_char(line[k]) == word
        invariant
            col <= k,
            col <= line.len() ==> k <= line.len(),
            skip_forward(line@, k as int, word) == skip_forward(line@, col as int, word),
        decreases line.len() - k,
    {
        k += 1;
    }
    k
}

/// The number of white space characters that `line` starts with, counted
/// from column `k` on.
pub open spec fn indent_end(line: Seq<char>, k: int) -> int
    decreases line.len() - k,
{
    if 0 <= k < line.len() && is_whitespace_char(line[k]) {
        indent_end(line, k + 1)
    } else {
        k
    }
}

/// The length of the first `n` characters of `line` without the white space
/// at their end.
pub open spec fn trimmed_len(line: Seq<char>, n: int) -> int
    decreases n,
{
    if 0 < n <= line.len() && is_whitespace_char(line[n - 1]) {
        trimmed_len(line, n - 1)
    } else {
        n
    }
}

/// The white space that `line` starts with.
pub open spec fn leading_whitespace(line: Seq<char>) -> Seq<char> {
    line.subrange(0, indent_end(line, 0))
}

/// Whether the last character of `line` that is no white space opens a
/// block: a brace, a parenthesis, a bracket or a colon.
pub open spec fn opens_block(line: Seq<char>) -> bool {
    let n = trimmed_len(line, line.len() as int);
    n > 0 && (line[n - 1] == '{' || line[n - 1] == '(' || line[n - 1] == '[' || line[n - 1] == ':')
}

/// One unit of indentation: four spaces.
pub open spec fn indent_unit() -> Seq<char> {
    seq![' ', ' ', ' ', ' ']
}

/// What a line break inserts after a line that reads `line`: a line feed, the
/// white space that `line` starts with, and one more unit of indentation
/// where `line` opens a block.
pub open spec fn newline_after(line: Seq<char>) -> Seq<char> {
    seq!['\n'] + leading_whitespace(line) + if opens_block(line) {
        indent_unit()
    } else {
        Seq::empty()
    }
}

/// The text that a line break inserts after a line that reads `line`.
pub fn newline_text(line: &Vec<char>) -> (s: String)
    ensures
        s@ == newline_after(line@),
{
    let mut s = String::new();
    s.push('\n');
    let mut k: usize = 0;
    while k < line.len() && line[k].is_whitespace()
        invariant
            k <= line.len(),
            indent_end(line@, k as int) == indent_end(line@, 0),
            s@ == seq!['\n'] + line@.subrange(0, k as int),
        decreases line.len() - k,
    {
        s.push(line[k]);
        assert(line@.subrange(0, k + 1) == line@.subrange(0, k as int).push(line@[k as int]));
        assert(s@ == seq!['\n'] + line@.subrange(0, k + 1));
        k += 1;
    }
    let mut n: usize = line.len();
    while n > 0 && line[n - 1].is_whitespace()
        invariant
            n <= line.len(),
            trimmed_len(line@, n as int) == trimmed_len(line@, line@.len() as int),
        decreases n,
    {
        n -= 1;
    }
    let ghost before = s@;
    if n > 0 && (line[n - 1] == '{' || line[n - 1] == '(' || line[n - 1] == '[' || line[n - 1]
        == ':') {
        s.push(' ');
        s.push(' ');
        s.push(' ');
        s.push(' ');
        assert(s@ == before + indent_unit());
    } else {
        assert(s@ == before + Seq::<char>::empty());
    }
    s
}

/// Whether `needle` stands in `hay` at offset `i`.
pub open spec fn matches_at(hay: Seq<char>, needle: Seq<char>, i: int) -> bool {
    &&& 0 <= i
    &&& i + needle.len() <= hay.len()
    &&& hay.subrange(i, i + needle.len()) == needle
}

/// The first offset at or after `from` at which `needle` stands in the first
/// `end` characters of `hay`, if there is one.
pub open spec fn first_match(hay: Seq<char>, needle: Seq<char>, from: int, end: int) -> Option<int>
    decreases end - from + 1,
{
    if from + needle.len() > end {
        None
    } else if matches_at(hay, needle, from) {
        Some(from)
    } else {
        first_match(hay, needle, from + 1, end)
    }
}

/// What `first_match` finds is the least offset in its range at which the
/// needle stands, and it finds nothing only where there is no such offset.
pub proof fn lemma_first_match(hay: Seq<char>, needle: Seq<char>, from: int, end: int)
    requires
        0 <= from,
        end <= hay.len(),
    ensures
        first_match(hay, needle, from, end) matches Some(m) ==> from <= m && m + needle.len() <= end
            && matches_at(hay, needle, m) && forall|j: int|
            from <= j < m ==> !matches_at(hay, needle, j),
        first_match(hay, needle, from, end) is None ==> forall|j: int|
            from <= j && j + needle.len() <= end ==> !matches_at(hay, needle, j),
    decreases end - from + 1,
{
    if from + needle.len() <= end && !matches_at(hay, needle, from) {
        lemma_first_match(hay, needle, from + 1, end);
    }
}

/// Whether `needle` stands somewhere in `hay`.
pub open spec fn occurs_in(hay: Seq<char>, needle: Seq<char>) -> bool {
    first_match(hay, needle, 0, hay.len() as int) is Some
}

/// `s` from offset `i` on, with every occurrence of `find` replaced by
/// `with`: the occurrences are taken from left to right, and none overlaps
/// the one before.
pub open spec fn replaced_from(s: Seq<char>, find: Seq<char>, with: Seq<char>, i: int) -> Seq<char>
    decreases s.len() - i,
{
    if find.len() == 0 || i < 0 || i + find.len() > s.len() {
        s.subrange(i, s.len() as int)
    } else if matches_at(s, find, i) {
        with + replaced_from(s, find, with, i + find.len())
    } else {
        seq![s[i]] + replaced_from(s, find, with, i + 1)
    }
}

/// `s` with every occurrence of `find` replaced by `with`.
pub open spec fn replaced(s: Seq<char>, find: Seq<char>, with: Seq<char>) -> Seq<char> {
    replaced_from(s, find, with, 0)
}

/// Whether `needle` stands in `hay` at offset `i`.
pub fn matches_here(hay: &Vec<char>, needle: &Vec<char>, i: usize) -> (b: bool)
    ensures
        b == matches_at(hay@, needle@, i as int),
{
    if needle.len() > hay.len() || i > hay.len() - needle.len() {
        return false;
    }
    let mut k: usize = 0;
    while k < needle.len()
        invariant
            k <= needle.len(),
            i + needle.len() <= hay.len(),
            forall|j: int| 0 <= j < k ==> hay@[i + j] == needle@[j],
        decreases needle.len() - k,
    {
        if hay[i + k] != needle[k] {
            assert(hay@.subrange(i as int, i + needle@.len())[k as int] != needle@[k as int]);
            return false;
        }
        k += 1;
    }
    assert(hay@.subrange(i as int, i + needle@.len()) =~= needle@);
    true
}

/// Looks for `needle` in the first `end` characters of `hay`, from offset
/// `from` on.
pub fn find_from(hay: &Vec<char>, needle: &Vec<char>, from: usize, end: usize) -> (r: Option<usize>)
    requires
        end <= hay.len(),
    ensures
        match r {
            Some(m) => first_match(hay@, needle@, from as int, end as int) == Some(m as int),
            None => first_match(hay@, needle@, from as int, end as int) is None,
        },
{
    if needle.len() > end {
        return None;
    }
    let last = end - needle.len();
    let mut i = from;
    while i <= last
        invariant
            from <= i,
            last == end - needle.len(),
            end <= hay.len(),
            first_match(hay@, needle@, i as int, end as int) == first_match(
                hay@,
                needle@,
                from as int,
                end as int,
            ),
        decreases last + 1 - i,
    {
        if matches_here(hay, needle, i) {
            return Some(i);
        }
        if i == last {
            assert(first_match(hay@, needle@, i + 1, end as int) is None);
            return None;
        }
        i += 1;
    }
    None
}

/// `hay` with every occurrence of `find` replaced by `with`.
pub fn replace_all_chars(hay: &Vec<char>, find: &Vec<char>, with: &Vec<char>) -> (out: String)
    ensures
        out@ == replaced(hay@, find@, with@),
{
    let mut out = String::new();
    let mut i: usize = 0;
    while i < hay.len()
        invariant
            i <= hay.len(),
            out@ + replaced_from(hay@, find@, with@, i as int) == replaced(hay@, find@, with@),
        decreases hay.len() - i,
    {
        let ghost before = out@;
        if find.len() > 0 && matches_here(hay, find, i) {
            let mut k: usize = 0;
            while k < with.len()
                invariant
                    k <= with.len(),
                    out@ == before + with@.subrange(0, k as int),
                decreases with.len() - k,
            {
                out.push(with[k]);
                assert(with@.subrange(0, k + 1) == with@.subrange(0, k as int).push(with@[k as int]));
                k += 1;
            }
            assert(with@.subrange(0, with@.len() as int) == with@);
            assert(out@ + replaced_from(hay@, find@, with@, i + find@.len()) == before + (with@
                + replaced_from(hay@, find@, with@, i + find@.len())));
            i += find.len();
        } else {
            out.push(hay[i]);
            proof {
                if find@.len() == 0 || i + find@.len() > hay@.len() {
                    assert(hay@.subrange(i as int, hay@.len() as int) == seq![hay@[i as int]]
                        + hay@.subrange(i + 1, hay@.len() as int));
                }
            }
            assert(out@ + replaced_from(hay@, find@, with@, i + 1) == before + (seq![
                hay@[i as int],
            ] + replaced_from(hay@, find@, with@, i + 1)));
            i += 1;
        }
    }
    assert(replaced_from(hay@, find@, with@, i as int) == Seq::<char>::empty());
    assert(out@ + Seq::<char>::empty() == out@);
    out
}

/// The characters of `s` as a vector.
pub fn to_chars(s: &str) -> (v: Vec<char>)
    ensures
        v@ == s@,
{
    let mut v: Vec<char> = Vec::new();
    for c in it: s.chars()
        invariant
            it.seq() == s@,
            v@ == s@.take(it.index() as int),
    {
        v.push(c);
        assert(s@.take(it.index() + 1) == s@.take(it.index() as int).push(c));
    }
    assert(s@.take(s@.len() as int) == s@);
    v
}

} // verus!
