use lux_editor::cursor::Cursor;
use lux_editor::editor::Editor;
use lux_editor::position::Position;

fn doc(text: &str) -> Editor {
    let mut e = Editor::new();
    e.insert_text(text);
    e.place_cursor(0, 0);
    e
}

fn carets(e: &Editor) -> Vec<(usize, usize)> {
    e.cursors().iter().map(|c| (c.pos.line, c.pos.col)).collect()
}

#[test]
fn cursor_new_is_a_caret() {
    let c = Cursor::new(3, 7);
    assert_eq!(c.pos, Position::new(3, 7));
    assert!(c.anchor.is_none());
    assert_eq!(c.desired_col, 7);
    assert!(c.selection_ordered().is_none());
}

#[test]
fn selection_ordered_sorts_the_two_ends() {
    let mut c = Cursor::new(1, 2);
    c.anchor = Some(Position::new(3, 0));
    assert_eq!(c.selection_ordered(), Some((Position::new(1, 2), Position::new(3, 0))));
    let mut d = Cursor::new(3, 0);
    d.anchor = Some(Position::new(1, 2));
    assert_eq!(d.selection_ordered(), Some((Position::new(1, 2), Position::new(3, 0))));
    let mut f = Cursor::new(1, 2);
    f.anchor = Some(Position::new(1, 2));
    assert_eq!(f.selection_ordered(), Some((Position::new(1, 2), Position::new(1, 2))));
}

#[test]
fn insert_without_newline_advances_the_column() {
    let mut e = doc("abc");
    e.place_cursor(0, 1);
    e.insert_text("XY");
    assert_eq!(e.text(), "aXYbc");
    assert_eq!(carets(&e), vec![(0, 3)]);
    assert_eq!(e.cursors()[0].desired_col, 3);
}

#[test]
fn insert_with_newlines_moves_to_the_last_segment() {
    let mut e = doc("abc");
    e.place_cursor(0, 1);
    e.insert_text("1\n22\n333");
    assert_eq!(e.text(), "a1\n22\n333bc");
    assert_eq!(carets(&e), vec![(2, 3)]);
    e.insert_text("\n");
    assert_eq!(carets(&e), vec![(3, 0)]);
    assert_eq!(e.line_count(), 4);
}

#[test]
fn insert_replaces_the_selection() {
    let mut e = doc("hello world");
    e.place_cursor(0, 6);
    e.drag_to(0, 11);
    e.insert_text("there");
    assert_eq!(e.text(), "hello there");
    assert_eq!(carets(&e), vec![(0, 11)]);
    assert!(e.cursors()[0].anchor.is_none());
}

#[test]
fn insert_replaces_a_backward_selection_over_lines() {
    let mut e = doc("one\ntwo\nthree");
    e.place_cursor(2, 2);
    e.drag_to(0, 1);
    e.insert_text("-");
    assert_eq!(e.text(), "o-ree");
    assert_eq!(carets(&e), vec![(0, 2)]);
}

#[test]
fn backspace_joins_lines_at_column_zero() {
    let mut e = doc("ab\ncd");
    e.place_cursor(1, 0);
    e.backspace();
    assert_eq!(e.text(), "abcd");
    assert_eq!(carets(&e), vec![(0, 2)]);
    assert_eq!(e.cursors()[0].desired_col, 2);
}

#[test]
fn backspace_over_a_selection_removes_only_the_selection() {
    let mut e = doc("abcdef");
    e.place_cursor(0, 2);
    e.drag_to(0, 4);
    e.backspace();
    assert_eq!(e.text(), "abef");
    assert_eq!(carets(&e), vec![(0, 2)]);
}

#[test]
fn backspace_at_document_start_changes_nothing_but_takes_a_snapshot() {
    let mut e = doc("abc");
    let depth = e.undo_depth();
    e.backspace();
    assert_eq!(e.text(), "abc");
    assert_eq!(carets(&e), vec![(0, 0)]);
    assert_eq!(e.undo_depth(), depth + 1);
    assert!(e.is_modified());
}

#[test]
fn delete_forward_removes_the_next_character_and_keeps_the_cursor() {
    let mut e = doc("ab\ncd");
    e.place_cursor(0, 1);
    e.delete_forward();
    assert_eq!(e.text(), "a\ncd");
    assert_eq!(carets(&e), vec![(0, 1)]);
    e.delete_forward();
    assert_eq!(e.text(), "acd");
    assert_eq!(carets(&e), vec![(0, 1)]);
}

#[test]
fn delete_forward_at_document_end_changes_nothing() {
    let mut e = doc("ab");
    e.place_cursor(0, 2);
    e.delete_forward();
    assert_eq!(e.text(), "ab");
    assert_eq!(carets(&e), vec![(0, 2)]);
}

#[test]
fn delete_forward_over_a_selection_removes_only_the_selection() {
    let mut e = doc("abcdef");
    e.place_cursor(0, 4);
    e.drag_to(0, 1);
    e.delete_forward();
    assert_eq!(e.text(), "aef");
    assert_eq!(carets(&e), vec![(0, 1)]);
}

#[test]
fn delete_word_backward_removes_the_word_before() {
    let mut e = doc("foo bar  baz");
    e.place_cursor(0, 9);
    e.delete_word_backward();
    assert_eq!(e.text(), "foo baz");
    assert_eq!(carets(&e), vec![(0, 4)]);
    e.delete_word_backward();
    assert_eq!(e.text(), "baz");
    assert_eq!(carets(&e), vec![(0, 0)]);
    e.delete_word_backward();
    assert_eq!(e.text(), "baz");
}

#[test]
fn delete_word_backward_at_line_start_removes_only_the_line_break() {
    let mut e = doc("foo bar\nbaz");
    e.place_cursor(1, 0);
    e.delete_word_backward();
    assert_eq!(e.text(), "foo barbaz");
    assert_eq!(carets(&e), vec![(0, 7)]);
}

#[test]
fn delete_word_forward_removes_the_word_after() {
    let mut e = doc("foo bar  baz");
    e.place_cursor(0, 4);
    e.delete_word_forward();
    assert_eq!(e.text(), "foo baz");
    assert_eq!(carets(&e), vec![(0, 4)]);
}

#[test]
fn delete_word_forward_at_line_end_removes_only_the_line_break() {
    let mut e = doc("foo\nbar baz");
    e.place_cursor(0, 3);
    e.delete_word_forward();
    assert_eq!(e.text(), "foobar baz");
    assert_eq!(carets(&e), vec![(0, 3)]);
    e.place_cursor(0, 10);
    e.delete_word_forward();
    assert_eq!(e.text(), "foobar baz");
}

#[test]
fn newline_copies_the_indentation() {
    let mut e = doc("    let x = 1;");
    e.place_cursor(0, 14);
    e.insert_newline();
    assert_eq!(e.text(), "    let x = 1;\n    ");
    assert_eq!(carets(&e), vec![(1, 4)]);
}

#[test]
fn newline_indents_deeper_after_an_opener() {
    for opener in ["{", "(", "[", ":"] {
        let mut e = doc(&format!("  if x {}  ", opener));
        e.move_end(false);
        e.insert_newline();
        assert_eq!(e.line_text(1), "      ");
        assert_eq!(carets(&e), vec![(1, 6)]);
    }
}

#[test]
fn newline_without_indentation() {
    let mut e = doc("abc");
    e.place_cursor(0, 1);
    e.insert_newline();
    assert_eq!(e.text(), "a\nbc");
    assert_eq!(carets(&e), vec![(1, 0)]);
}

#[test]
fn newline_uses_the_primary_cursors_line_for_every_cursor() {
    let mut e = doc("  a\nb");
    e.place_cursor(0, 3);
    e.add_cursor_at(1, 1);
    e.insert_newline();
    assert_eq!(e.text(), "  a\n  \nb\n  ");
}

#[test]
fn tab_inserts_four_spaces() {
    let mut e = doc("ab");
    e.place_cursor(0, 1);
    e.insert_tab();
    assert_eq!(e.text(), "a    b");
    assert_eq!(carets(&e), vec![(0, 5)]);
}

#[test]
fn line_text_strips_the_terminator() {
    let e = doc("ab\r\ncd\n\nef\r");
    assert_eq!(e.line_count(), 4);
    assert_eq!(e.line_text(0), "ab");
    assert_eq!(e.line_text(1), "cd");
    assert_eq!(e.line_text(2), "");
    assert_eq!(e.line_text(3), "ef");
    assert_eq!(e.line_text(4), "");
    assert_eq!(e.line_text(usize::MAX), "");
}

#[test]
fn only_line_feeds_break_lines() {
    let e = doc("a\u{2028}b\u{000B}c\rd");
    assert_eq!(e.line_count(), 1);
    assert_eq!(e.line_text(0), "a\u{2028}b\u{000B}c\rd");
}

#[test]
fn trailing_line_feed_makes_an_empty_last_line() {
    let mut e = doc("ab\n");
    assert_eq!(e.line_count(), 2);
    e.move_to_end(false);
    assert_eq!(carets(&e), vec![(1, 0)]);
    e.move_left(false);
    assert_eq!(carets(&e), vec![(0, 2)]);
}

#[test]
fn carriage_return_counts_as_a_character_of_the_line() {
    let mut e = doc("ab\r\ncd");
    e.place_cursor(0, 99);
    assert_eq!(carets(&e), vec![(0, 3)]);
    e.backspace();
    assert_eq!(e.text(), "ab\ncd");
}

#[test]
fn cursors_are_taken_from_the_last_to_the_first() {
    let mut e = doc("ab\ncd\nef");
    e.place_cursor(0, 1);
    e.add_cursor_at(2, 1);
    e.add_cursor_at(1, 1);
    e.backspace();
    assert_eq!(e.text(), "b\nd\nf");
    assert_eq!(carets(&e), vec![(0, 0), (2, 0), (1, 0)]);
}

#[test]
fn edits_mark_the_document_modified() {
    let mut e = Editor::from_file(std::path::PathBuf::from("x"), None, "abc");
    assert!(!e.is_modified());
    e.delete_forward();
    assert!(e.is_modified());
    assert_eq!(e.text(), "bc");
}

#[test]
fn cursors_behind_an_edit_are_carried_along() {
    let mut e = doc("ab");
    e.place_cursor(0, 1);
    e.add_cursor_at(0, 2);
    e.backspace();
    assert_eq!(e.text(), "");
    assert_eq!(carets(&e), vec![(0, 0), (0, 0)]);
    e.insert_text("xy");
    assert_eq!(e.text(), "xyxy");
    assert_eq!(carets(&e), vec![(0, 4), (0, 2)]);
}

#[test]
fn a_selection_behind_an_edit_keeps_its_text() {
    let mut e = doc("one two\nthree");
    e.place_cursor(1, 1);
    e.drag_to(1, 4);
    e.add_cursor_at(0, 3);
    assert_eq!(e.selected_text(), "hre");
    e.delete_word_backward();
    assert_eq!(e.text(), " two\nte");
    assert_eq!(carets(&e), vec![(1, 1), (0, 0)]);
}

#[test]
fn replacing_one_selection_carries_the_other_cursors() {
    let mut e = doc("ab ab ab");
    e.place_cursor(0, 0);
    e.drag_to(0, 2);
    e.add_cursor_at(0, 8);
    e.add_cursor_at(0, 1);
    e.replace_next("ab", "x\ny");
    assert_eq!(e.text(), "x\ny ab ab");
}

#[test]
fn a_cursor_inside_what_leaves_falls_to_the_start() {
    let mut e = doc("abcdef");
    e.place_cursor(0, 1);
    e.drag_to(0, 5);
    e.add_cursor_at(0, 3);
    e.add_cursor_at(0, 6);
    e.add_cursor_at(0, 0);
    e.cut_text();
    assert_eq!(e.text(), "af");
    assert_eq!(carets(&e), vec![(0, 1), (0, 1), (0, 2), (0, 0)]);
}
