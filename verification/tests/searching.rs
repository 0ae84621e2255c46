use lux_editor::editor::search::parse_line_number;
use lux_editor::editor::Editor;
use lux_editor::position::Position;

fn doc(text: &str) -> Editor {
    let mut e = Editor::new();
    e.insert_text(text);
    e.place_cursor(0, 0);
    e
}

fn selection(e: &Editor) -> Option<((usize, usize), (usize, usize))> {
    e.cursors()[0].selection_ordered().map(|(a, b)| ((a.line, a.col), (b.line, b.col)))
}

#[test]
fn find_selects_the_next_match() {
    let mut e = doc("one two\nthree two");
    let line = e.find_and_select("two");
    assert_eq!(line, Some(0));
    assert_eq!(selection(&e), Some(((0, 4), (0, 7))));
    assert_eq!(e.cursors()[0].pos, Position::new(0, 7));
    assert_eq!(e.cursors()[0].desired_col, 7);
    let line = e.find_and_select("two");
    assert_eq!(line, Some(1));
    assert_eq!(selection(&e), Some(((1, 6), (1, 9))));
}

#[test]
fn find_wraps_once() {
    let mut e = doc("one two\nthree");
    e.place_cursor(1, 2);
    let line = e.find_and_select("one");
    assert_eq!(line, Some(0));
    assert_eq!(selection(&e), Some(((0, 0), (0, 3))));
}

#[test]
fn find_of_a_missing_or_empty_query_changes_nothing() {
    let mut e = doc("one two");
    e.place_cursor(0, 2);
    e.add_cursor_at(0, 5);
    assert_eq!(e.find_and_select("zzz"), None);
    assert_eq!(e.find_and_select(""), None);
    assert_eq!(e.cursors().len(), 2);
    assert_eq!(e.cursors()[0].pos, Position::new(0, 2));
}

#[test]
fn find_collapses_to_one_cursor() {
    let mut e = doc("ab\ncd\nef");
    e.add_cursor_at(1, 0);
    e.add_cursor_at(2, 0);
    e.find_and_select("d\ne");
    assert_eq!(e.cursors().len(), 1);
    assert_eq!(selection(&e), Some(((1, 1), (2, 1))));
}

#[test]
fn find_matches_across_the_caret_only_after_wrapping() {
    let mut e = doc("abcabc");
    e.place_cursor(0, 1);
    e.find_and_select("abc");
    assert_eq!(selection(&e), Some(((0, 3), (0, 6))));
    e.place_cursor(0, 4);
    e.find_and_select("abc");
    assert_eq!(selection(&e), Some(((0, 0), (0, 3))));
    e.place_cursor(0, 4);
    assert_eq!(e.find_and_select("bca"), Some(0));
    assert_eq!(selection(&e), Some(((0, 1), (0, 4))));
    e.place_cursor(0, 3);
    assert_eq!(e.find_and_select("bca"), None);
    assert_eq!(e.cursors()[0].pos, Position::new(0, 3));
}

#[test]
fn replace_next_replaces_a_matching_selection_and_moves_on() {
    let mut e = doc("cat cat cat");
    e.find_and_select("cat");
    let depth = e.undo_depth();
    let line = e.replace_next("cat", "horse");
    assert_eq!(line, Some(0));
    assert_eq!(e.text(), "horse cat cat");
    assert_eq!(selection(&e), Some(((0, 6), (0, 9))));
    assert_eq!(e.undo_depth(), depth + 1);
    e.replace_next("cat", "horse");
    e.replace_next("cat", "horse");
    assert_eq!(e.text(), "horse horse horse");
    assert!(e.cursors()[0].anchor.is_none());
    assert_eq!(e.cursors()[0].pos, Position::new(0, 17));
}

#[test]
fn replace_next_without_a_matching_selection_only_searches() {
    let mut e = doc("cat dog");
    let depth = e.undo_depth();
    e.replace_next("dog", "cow");
    assert_eq!(e.text(), "cat dog");
    assert_eq!(selection(&e), Some(((0, 4), (0, 7))));
    assert_eq!(e.undo_depth(), depth);
    e.replace_next("", "x");
    assert_eq!(e.text(), "cat dog");
}

#[test]
fn replace_next_puts_the_caret_behind_text_with_line_feeds() {
    let mut e = doc("a-b");
    e.find_and_select("-");
    e.replace_next("-", "1\n22");
    assert_eq!(e.text(), "a1\n22b");
    assert_eq!(e.cursors()[0].pos, Position::new(1, 2));
}

#[test]
fn replace_all_takes_matches_left_to_right_without_overlap() {
    let mut e = doc("aaaa aaa");
    e.replace_all("aa", "b");
    assert_eq!(e.text(), "bb ba");
    let mut f = doc("abab");
    f.replace_all("ab", "abab");
    assert_eq!(f.text(), "abababab");
    let mut g = doc("xyx");
    g.replace_all("y", "");
    assert_eq!(g.text(), "xx");
}

#[test]
fn replace_all_clamps_cursors_and_clears_selections() {
    let mut e = doc("long line here\nxx\nlast line");
    e.place_cursor(2, 9);
    e.drag_to(0, 12);
    e.add_cursor_at(1, 2);
    e.replace_all("line", "");
    assert_eq!(e.text(), "long  here\nxx\nlast ");
    let got: Vec<(usize, usize)> = e.cursors().iter().map(|c| (c.pos.line, c.pos.col)).collect();
    assert_eq!(got, vec![(0, 10), (1, 2)]);
    assert!(e.cursors().iter().all(|c| c.anchor.is_none()));
    assert_eq!(e.cursors()[0].desired_col, 10);
    assert!(e.is_modified());
}

#[test]
fn replace_all_that_removes_lines_clamps_the_line() {
    let mut e = doc("a\nb\nc");
    e.place_cursor(2, 1);
    e.replace_all("\n", "");
    assert_eq!(e.text(), "abc");
    assert_eq!(e.cursors()[0].pos, Position::new(0, 1));
}

#[test]
fn replace_all_with_an_empty_query_changes_nothing() {
    let mut e = doc("abc");
    let depth = e.undo_depth();
    e.replace_all("", "x");
    assert_eq!(e.text(), "abc");
    assert_eq!(e.undo_depth(), depth);
}

#[test]
fn replace_all_without_a_match_still_takes_a_snapshot() {
    let mut e = doc("abc");
    let depth = e.undo_depth();
    e.replace_all("zz", "x");
    assert_eq!(e.text(), "abc");
    assert_eq!(e.undo_depth(), depth + 1);
}

#[test]
fn goto_line_is_one_based_and_clamped() {
    let mut e = doc("a\nb\nc");
    e.add_cursor_at(1, 1);
    assert_eq!(e.goto_line(2), 1);
    assert_eq!(e.cursors().len(), 1);
    assert_eq!(e.cursors()[0].pos, Position::new(1, 0));
    assert_eq!(e.cursors()[0].desired_col, 0);
    assert_eq!(e.goto_line(0), 0);
    assert_eq!(e.goto_line(1), 0);
    assert_eq!(e.goto_line(3), 2);
    assert_eq!(e.goto_line(4), 2);
    assert_eq!(e.goto_line(usize::MAX), 2);
    assert_eq!(e.cursors()[0].pos, Position::new(2, 0));
}

#[test]
fn line_numbers_are_read_as_typed() {
    assert_eq!(parse_line_number("12"), Some(12));
    assert_eq!(parse_line_number("  12\t\n"), Some(12));
    assert_eq!(parse_line_number("+7"), Some(7));
    assert_eq!(parse_line_number("0"), Some(0));
    assert_eq!(parse_line_number("007"), Some(7));
    assert_eq!(parse_line_number(""), None);
    assert_eq!(parse_line_number("   "), None);
    assert_eq!(parse_line_number("+"), None);
    assert_eq!(parse_line_number("-1"), None);
    assert_eq!(parse_line_number("1 2"), None);
    assert_eq!(parse_line_number("12a"), None);
    assert_eq!(parse_line_number("++1"), None);
    assert_eq!(parse_line_number("1+"), None);
    assert_eq!(parse_line_number("٣"), None);
    assert_eq!(parse_line_number("\u{a0}5\u{2003}"), Some(5));
    let max = usize::MAX.to_string();
    assert_eq!(parse_line_number(&max), Some(usize::MAX));
    assert_eq!(parse_line_number(&format!("{}0", max)), None);
    assert_eq!(parse_line_number("18446744073709551616"), "18446744073709551616".parse::<usize>().ok());
    assert_eq!(parse_line_number("99999999999999999999999999x"), None);
    for s in ["1", " +42 ", "x", "4294967296", "00", "+0", " + 1", "1_000", "0x10", "１２"] {
        assert_eq!(parse_line_number(s), s.trim().parse::<usize>().ok());
    }
}
