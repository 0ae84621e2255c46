use lux_editor::editor::Editor;
use lux_editor::position::Position;

fn doc(text: &str) -> Editor {
    let mut e = Editor::new();
    e.insert_text(text);
    e.place_cursor(0, 0);
    e
}

fn caret(e: &Editor) -> (usize, usize) {
    let c = &e.cursors()[0];
    (c.pos.line, c.pos.col)
}

fn anchor(e: &Editor) -> Option<(usize, usize)> {
    e.cursors()[0].anchor.map(|a| (a.line, a.col))
}

#[test]
fn left_wraps_to_end_of_previous_line() {
    let mut e = doc("ab\ncd");
    e.place_cursor(1, 0);
    e.move_left(false);
    assert_eq!(caret(&e), (0, 2));
    assert_eq!(e.cursors()[0].desired_col, 2);
    e.move_left(false);
    assert_eq!(caret(&e), (0, 1));
}

#[test]
fn left_stays_at_document_start() {
    let mut e = doc("ab");
    e.move_left(false);
    assert_eq!(caret(&e), (0, 0));
}

#[test]
fn right_wraps_to_start_of_next_line() {
    let mut e = doc("ab\ncd");
    e.place_cursor(0, 2);
    e.move_right(false);
    assert_eq!(caret(&e), (1, 0));
    e.place_cursor(1, 2);
    e.move_right(false);
    assert_eq!(caret(&e), (1, 2));
}

#[test]
fn left_collapses_selection_to_lower_end() {
    let mut e = doc("hello world");
    e.place_cursor(0, 2);
    e.move_right(true);
    e.move_right(true);
    e.move_right(true);
    assert_eq!(anchor(&e), Some((0, 2)));
    assert_eq!(caret(&e), (0, 5));
    e.move_left(false);
    assert_eq!(caret(&e), (0, 2));
    assert_eq!(anchor(&e), None);
}

#[test]
fn right_collapses_selection_to_upper_end() {
    let mut e = doc("hello world");
    e.place_cursor(0, 5);
    e.move_left(true);
    e.move_left(true);
    assert_eq!(anchor(&e), Some((0, 5)));
    assert_eq!(caret(&e), (0, 3));
    e.move_right(false);
    assert_eq!(caret(&e), (0, 5));
    assert_eq!(anchor(&e), None);
}

#[test]
fn select_keeps_the_first_anchor() {
    let mut e = doc("hello");
    e.move_right(true);
    e.move_right(true);
    assert_eq!(anchor(&e), Some((0, 0)));
    assert_eq!(caret(&e), (0, 2));
    assert_eq!(e.selected_text(), "he");
}

#[test]
fn vertical_movement_keeps_the_desired_column() {
    let mut e = doc("a long line\nab\nanother long line");
    e.place_cursor(0, 8);
    e.move_down(false);
    assert_eq!(caret(&e), (1, 2));
    assert_eq!(e.cursors()[0].desired_col, 8);
    e.move_down(false);
    assert_eq!(caret(&e), (2, 8));
    e.move_down(false);
    assert_eq!(caret(&e), (2, 8));
    e.move_up(false);
    assert_eq!(caret(&e), (1, 2));
    e.move_up(false);
    assert_eq!(caret(&e), (0, 8));
    e.move_up(false);
    assert_eq!(caret(&e), (0, 8));
}

#[test]
fn vertical_movement_drops_the_anchor_and_moves_from_the_caret() {
    let mut e = doc("abcd\nefgh\nijkl");
    e.place_cursor(1, 1);
    e.move_right(true);
    e.move_right(true);
    assert_eq!(caret(&e), (1, 3));
    e.move_down(false);
    assert_eq!(anchor(&e), None);
    assert_eq!(caret(&e), (2, 3));
}

#[test]
fn horizontal_movement_sets_the_desired_column() {
    let mut e = doc("abcdef\nab\nabcdef");
    e.place_cursor(0, 5);
    e.move_down(false);
    e.move_left(false);
    assert_eq!(caret(&e), (1, 1));
    e.move_down(false);
    assert_eq!(caret(&e), (2, 1));
}

#[test]
fn home_and_end() {
    let mut e = doc("hello\nworld!");
    e.place_cursor(1, 3);
    e.move_home(false);
    assert_eq!(caret(&e), (1, 0));
    assert_eq!(e.cursors()[0].desired_col, 0);
    e.move_end(false);
    assert_eq!(caret(&e), (1, 6));
    assert_eq!(e.cursors()[0].desired_col, 6);
    e.place_cursor(0, 2);
    e.move_end(true);
    assert_eq!(anchor(&e), Some((0, 2)));
    assert_eq!(caret(&e), (0, 5));
}

#[test]
fn home_and_end_set_out_at_the_ends_of_a_selection() {
    let mut e = doc("abc\ndefgh\nij");
    e.place_cursor(0, 1);
    e.drag_to(1, 2);
    e.move_home(false);
    assert_eq!(anchor(&e), None);
    assert_eq!(caret(&e), (0, 0));
    e.place_cursor(1, 2);
    e.drag_to(0, 1);
    e.move_end(false);
    assert_eq!(anchor(&e), None);
    assert_eq!(caret(&e), (1, 5));
}

#[test]
fn page_movement_clamps_to_the_document() {
    let mut e = doc("0\n1\n2\n3\n4\n5\n6\n7\n8\n9");
    e.place_cursor(5, 1);
    e.move_page_up(false, 3);
    assert_eq!(caret(&e), (2, 1));
    e.move_page_up(false, 3);
    assert_eq!(caret(&e), (0, 1));
    e.move_page_down(false, 4);
    assert_eq!(caret(&e), (4, 1));
    e.move_page_down(false, 100);
    assert_eq!(caret(&e), (9, 1));
    e.move_page_down(true, usize::MAX);
    assert_eq!(caret(&e), (9, 1));
    assert_eq!(anchor(&e), Some((9, 1)));
}

#[test]
fn document_start_and_end() {
    let mut e = doc("ab\ncd\nefg");
    e.place_cursor(1, 1);
    e.move_to_end(false);
    assert_eq!(caret(&e), (2, 3));
    assert_eq!(e.cursors()[0].desired_col, 3);
    e.move_to_start(true);
    assert_eq!(caret(&e), (0, 0));
    assert_eq!(anchor(&e), Some((2, 3)));
    assert_eq!(e.selected_text(), "ab\ncd\nefg");
}

#[test]
fn word_left_skips_non_word_then_word() {
    let mut e = doc("foo_bar  baz");
    e.place_cursor(0, 12);
    e.move_word_left(false);
    assert_eq!(caret(&e), (0, 9));
    e.move_word_left(false);
    assert_eq!(caret(&e), (0, 0));
}

#[test]
fn word_right_skips_word_then_non_word() {
    let mut e = doc("foo_bar  baz");
    e.move_word_right(false);
    assert_eq!(caret(&e), (0, 9));
    e.move_word_right(false);
    assert_eq!(caret(&e), (0, 12));
}

#[test]
fn word_movement_crosses_one_line_boundary_and_stops() {
    let mut e = doc("foo bar\nbaz qux");
    e.place_cursor(1, 0);
    e.move_word_left(false);
    assert_eq!(caret(&e), (0, 7));
    e.move_word_right(false);
    assert_eq!(caret(&e), (1, 0));
    e.place_cursor(1, 7);
    e.move_word_right(false);
    assert_eq!(caret(&e), (1, 7));
    e.place_cursor(0, 0);
    e.move_word_left(false);
    assert_eq!(caret(&e), (0, 0));
}

#[test]
fn movement_applies_to_every_cursor() {
    let mut e = doc("abc\ndef\nghi");
    e.place_cursor(0, 1);
    e.add_cursor_at(1, 2);
    e.add_cursor_at(2, 0);
    e.move_right(false);
    let got: Vec<Position> = e.cursors().iter().map(|c| c.pos).collect();
    assert_eq!(got, vec![Position::new(0, 2), Position::new(1, 3), Position::new(2, 1)]);
    e.move_left(true);
    let anchors: Vec<Option<Position>> = e.cursors().iter().map(|c| c.anchor).collect();
    assert_eq!(
        anchors,
        vec![Some(Position::new(0, 2)), Some(Position::new(1, 3)), Some(Position::new(2, 1))]
    );
}

#[test]
fn movement_does_not_touch_text_history_or_modified_flag() {
    let mut e = Editor::from_file(std::path::PathBuf::from("a.txt"), Some("a.txt".to_string()), "ab\ncd");
    e.move_right(false);
    e.move_down(true);
    e.move_to_end(false);
    assert_eq!(e.text(), "ab\ncd");
    assert!(!e.is_modified());
    assert_eq!(e.undo_depth(), 0);
}

#[test]
fn columns_count_characters_not_bytes() {
    let mut e = doc("héllo wörld\nß");
    e.move_end(false);
    assert_eq!(caret(&e), (0, 11));
    e.move_word_left(false);
    assert_eq!(caret(&e), (0, 6));
    e.move_right(true);
    e.move_right(true);
    assert_eq!(e.selected_text(), "wö");
}

#[test]
fn positions_order_by_line_then_column() {
    assert!(Position::new(0, 9) < Position::new(1, 0));
    assert!(Position::new(1, 2) < Position::new(1, 3));
    assert!(Position::new(2, 0) > Position::new(1, 7));
    assert_eq!(Position::new(1, 1), Position::new(1, 1));
    assert!(Position::new(1, 1) <= Position::new(1, 1));
    assert_eq!(Position::new(3, 4).max(Position::new(3, 5)), Position::new(3, 5));
    assert!(Position::new(1, 2).at_or_before(&Position::new(1, 2)));
    assert!(!Position::new(1, 3).at_or_before(&Position::new(1, 2)));
}
