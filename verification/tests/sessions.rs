use lux_editor::cursor::Cursor;
use lux_editor::editor::Editor;
use lux_editor::position::Position;

fn doc(text: &str) -> Editor {
    let mut e = Editor::new();
    e.insert_text(text);
    e
}

fn carets(e: &Editor) -> Vec<(usize, usize)> {
    e.cursors().iter().map(|c| (c.pos.line, c.pos.col)).collect()
}

fn selections(e: &Editor) -> Vec<Option<((usize, usize), (usize, usize))>> {
    e.cursors()
        .iter()
        .map(|c: &Cursor| c.selection_ordered().map(|(a, b)| ((a.line, a.col), (b.line, b.col))))
        .collect()
}

#[test]
fn insert_two_lines_into_empty_document() {
    let mut e = Editor::new();
    e.insert_text("hello\nworld");
    assert_eq!(e.line_count(), 2);
    assert_eq!(e.line_text(0), "hello");
    assert_eq!(e.line_text(1), "world");
    assert_eq!(e.cursors()[0].pos, Position::new(1, 5));
    assert_eq!(e.cursors()[0].desired_col, 5);
    assert!(e.cursors()[0].anchor.is_none());
    assert!(e.is_modified());
}

#[test]
fn backspace_three_times_then_nothing_left() {
    let mut e = doc("abc");
    e.place_cursor(0, 3);
    e.backspace();
    assert_eq!(e.text(), "ab");
    e.backspace();
    e.backspace();
    assert_eq!(e.text(), "");
    assert_eq!(carets(&e), vec![(0, 0)]);
    e.backspace();
    assert_eq!(e.text(), "");
    assert_eq!(carets(&e), vec![(0, 0)]);
    assert_eq!(e.line_count(), 1);
}

#[test]
fn select_next_occurrence_adds_one_cursor_and_no_more() {
    let mut e = doc("foo bar foo");
    e.place_cursor(0, 0);
    e.drag_to(0, 3);
    assert_eq!(e.selected_text(), "foo");
    e.select_next_occurrence();
    assert_eq!(e.cursors().len(), 2);
    assert_eq!(selections(&e)[1], Some(((0, 8), (0, 11))));
    assert_eq!(e.cursors()[1].pos, Position::new(0, 11));
    e.select_next_occurrence();
    assert_eq!(e.cursors().len(), 2);
}

#[test]
fn select_next_occurrence_first_selects_the_word() {
    let mut e = doc("foo bar foo");
    e.place_cursor(0, 5);
    e.select_next_occurrence();
    assert_eq!(e.cursors().len(), 1);
    assert_eq!(selections(&e)[0], Some(((0, 4), (0, 7))));
    assert_eq!(e.selected_text(), "bar");
    e.place_cursor(0, 3);
    e.select_next_occurrence();
    assert_eq!(selections(&e)[0], Some(((0, 3), (0, 4))));
}

#[test]
fn replace_all_is_one_undo_step() {
    let mut e = doc("cat\ncat\ncat");
    let depth = e.undo_depth();
    e.replace_all("cat", "dog");
    assert_eq!(e.text(), "dog\ndog\ndog");
    assert_eq!(e.undo_depth(), depth + 1);
    e.undo();
    assert_eq!(e.text(), "cat\ncat\ncat");
}

#[test]
fn two_cursors_insert_independently() {
    let mut e = doc("hello\nworld");
    e.place_cursor(0, 5);
    e.add_cursor_at(1, 5);
    assert_eq!(carets(&e), vec![(0, 5), (1, 5)]);
    e.insert_text("X");
    assert_eq!(e.text(), "helloX\nworldX");
    assert_eq!(carets(&e), vec![(0, 6), (1, 6)]);
}

#[test]
fn two_cursors_on_one_line_insert_bottom_up() {
    let mut e = doc("abcdef");
    e.place_cursor(0, 2);
    e.add_cursor_at(0, 4);
    e.insert_text("X");
    assert_eq!(e.text(), "abXcdXef");
    assert_eq!(e.cursors()[0].pos, Position::new(0, 3));
    assert_eq!(e.cursors()[1].pos, Position::new(0, 6));
    assert_eq!(e.cursors()[1].desired_col, 6);
}

fn in_bounds(e: &Editor) -> bool {
    e.cursors().iter().all(|c| {
        let ok = |p: &Position| {
            p.line < e.line_count() && {
                let mut probe = Editor::new();
                probe.insert_text(&e.text());
                probe.place_cursor(p.line, usize::MAX);
                p.col <= probe.cursors()[0].pos.col
            }
        };
        ok(&c.pos) && c.anchor.as_ref().map_or(true, ok)
    })
}

#[test]
fn one_cursor_stays_inside_the_text_through_edits() {
    let mut e = doc("fn main() {\n    let x = 1;\n}\n");
    e.place_cursor(1, 7);
    let steps: Vec<fn(&mut Editor)> = vec![
        |e| e.insert_text("ab\ncd"),
        |e| e.backspace(),
        |e| e.move_up(true),
        |e| e.delete_forward(),
        |e| e.move_word_right(true),
        |e| e.delete_word_backward(),
        |e| e.insert_newline(),
        |e| e.move_to_start(true),
        |e| e.insert_tab(),
        |e| e.delete_word_forward(),
        |e| e.move_page_down(false, 2),
        |e| {
            e.cut_text();
        },
        |e| e.undo(),
        |e| e.undo(),
        |e| e.redo(),
        |e| e.replace_all("a", "\n\n"),
        |e| {
            e.find_and_select("let");
        },
        |e| {
            e.replace_next("let", "");
        },
        |e| e.select_all(),
        |e| e.backspace(),
        |e| e.backspace(),
    ];
    for step in steps {
        step(&mut e);
        assert!(in_bounds(&e));
        assert_eq!(e.cursors().len(), 1);
    }
    assert_eq!(e.text(), "");
}

#[test]
fn several_cursors_stay_inside_the_text_through_edits() {
    let mut e = doc("fn main() {\n    let x = 1;\n\n    let yy = 22;\n}\n");
    e.place_cursor(3, 8);
    e.add_cursor_at(0, 0);
    e.add_cursor_at(1, 4);
    e.add_cursor_at(5, 0);
    e.add_cursor_at(2, 0);
    e.add_cursor_at(1, 14);
    let steps: Vec<fn(&mut Editor)> = vec![
        |e| e.insert_text("ab\ncd"),
        |e| e.backspace(),
        |e| e.backspace(),
        |e| e.move_up(true),
        |e| e.delete_forward(),
        |e| e.insert_text("\nxyz"),
        |e| e.move_word_left(true),
        |e| e.insert_newline(),
        |e| e.delete_word_backward(),
        |e| e.move_left(true),
        |e| e.move_left(true),
        |e| e.delete_word_forward(),
        |e| e.insert_tab(),
        |e| e.move_page_up(true, 2),
        |e| {
            e.cut_text();
        },
        |e| e.delete_word_backward(),
        |e| e.move_to_end(true),
        |e| e.insert_text("z"),
        |e| e.undo(),
        |e| e.redo(),
        |e| e.move_home(true),
        |e| e.backspace(),
        |e| e.backspace(),
        |e| e.backspace(),
    ];
    for step in steps {
        step(&mut e);
        assert_eq!(e.cursors().len(), 6);
        assert!(in_bounds(&e));
    }
}

#[test]
fn every_cursor_is_a_caret_aiming_for_its_column_after_an_insertion() {
    let mut e = doc("ab\n\ncdef\ng");
    e.place_cursor(3, 1);
    e.drag_to(2, 2);
    e.add_cursor_at(0, 0);
    e.add_cursor_at(2, 4);
    e.add_cursor_at(0, 2);
    e.add_cursor_at(1, 0);
    for text in ["xyz", "\n", "p\nqq", ""] {
        e.insert_text(text);
        assert!(in_bounds(&e));
        for c in e.cursors() {
            assert!(c.anchor.is_none());
            assert_eq!(c.desired_col, c.pos.col);
        }
    }
}

#[test]
fn backspace_joins_lines_and_keeps_both_carets_in_the_text() {
    let mut e = doc("a\nb\nc");
    e.place_cursor(2, 0);
    e.add_cursor_at(1, 0);
    e.backspace();
    assert_eq!(e.text(), "abc");
    assert_eq!(carets(&e), vec![(0, 2), (0, 1)]);
    assert!(in_bounds(&e));
}

#[test]
fn insertion_of_lines_keeps_both_carets_behind_their_text() {
    let mut e = doc("\n");
    e.place_cursor(1, 0);
    e.add_cursor_at(0, 0);
    e.insert_text("\nxyz");
    assert_eq!(e.text(), "\nxyz\n\nxyz");
    assert_eq!(carets(&e), vec![(3, 3), (1, 3)]);
    assert!(in_bounds(&e));
}
