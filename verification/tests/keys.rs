use lux_editor::editor::keys::{Key, KeyEffect};
use lux_editor::editor::Editor;
use lux_editor::position::Position;

fn doc(text: &str) -> Editor {
    let mut e = Editor::new();
    e.insert_text(text);
    e.place_cursor(0, 0);
    e
}

fn press(e: &mut Editor, key: Key, ctrl: bool, shift: bool) -> KeyEffect {
    e.handle_key(key, ctrl, shift, 3, true)
}

fn caret(e: &Editor) -> (usize, usize) {
    (e.cursors()[0].pos.line, e.cursors()[0].pos.col)
}

#[test]
fn deleting_keys_count_as_edits() {
    let mut e = doc("foo bar baz");
    e.place_cursor(0, 7);
    assert!(matches!(press(&mut e, Key::Backspace, false, false), KeyEffect::Changed));
    assert_eq!(e.text(), "foo ba baz");
    assert!(matches!(press(&mut e, Key::Backspace, true, false), KeyEffect::Changed));
    assert_eq!(e.text(), "foo  baz");
    assert!(matches!(press(&mut e, Key::Delete, false, false), KeyEffect::Changed));
    assert_eq!(e.text(), "foo baz");
    assert!(matches!(press(&mut e, Key::Delete, true, false), KeyEffect::Changed));
    assert_eq!(e.text(), "foo ");
}

#[test]
fn enter_and_tab_insert() {
    let mut e = doc("  a");
    e.place_cursor(0, 3);
    assert!(matches!(press(&mut e, Key::Enter, false, false), KeyEffect::Changed));
    assert_eq!(e.text(), "  a\n  ");
    assert!(matches!(press(&mut e, Key::Tab, false, false), KeyEffect::Changed));
    assert_eq!(e.text(), "  a\n      ");
}

#[test]
fn arrows_move_and_shift_selects() {
    let mut e = doc("foo bar\nbaz");
    assert!(matches!(press(&mut e, Key::ArrowRight, false, false), KeyEffect::Unchanged));
    assert_eq!(caret(&e), (0, 1));
    press(&mut e, Key::ArrowRight, true, true);
    assert_eq!(caret(&e), (0, 4));
    assert_eq!(e.selected_text(), "oo ");
    press(&mut e, Key::ArrowLeft, false, false);
    assert_eq!(caret(&e), (0, 1));
    press(&mut e, Key::ArrowDown, false, false);
    assert_eq!(caret(&e), (1, 1));
    press(&mut e, Key::ArrowUp, false, false);
    assert_eq!(caret(&e), (0, 1));
    press(&mut e, Key::End, false, false);
    assert_eq!(caret(&e), (0, 7));
    press(&mut e, Key::ArrowLeft, true, false);
    assert_eq!(caret(&e), (0, 4));
    press(&mut e, Key::Home, false, false);
    assert_eq!(caret(&e), (0, 0));
    press(&mut e, Key::End, true, false);
    assert_eq!(caret(&e), (1, 3));
    press(&mut e, Key::Home, true, true);
    assert_eq!(caret(&e), (0, 0));
    assert_eq!(e.selected_text(), "foo bar\nbaz");
    assert_eq!(e.undo_depth(), 1);
}

#[test]
fn page_keys_move_at_least_one_line() {
    let mut e = doc("0\n1\n2\n3\n4\n5");
    e.handle_key(Key::PageDown, false, false, 0, true);
    assert_eq!(caret(&e), (1, 0));
    e.handle_key(Key::PageDown, false, false, 3, true);
    assert_eq!(caret(&e), (4, 0));
    e.handle_key(Key::PageUp, false, false, 2, false);
    assert_eq!(caret(&e), (2, 0));
    e.handle_key(Key::PageUp, false, false, 0, false);
    assert_eq!(caret(&e), (1, 0));
}

#[test]
fn letters_without_control_do_nothing() {
    let mut e = doc("abc abc");
    for key in [Key::A, Key::C, Key::D, Key::V, Key::X, Key::Y, Key::Z] {
        assert!(matches!(press(&mut e, key, false, false), KeyEffect::Unchanged));
        assert!(matches!(press(&mut e, key, false, true), KeyEffect::Unchanged));
    }
    assert_eq!(e.text(), "abc abc");
    assert_eq!(e.cursors().len(), 1);
    assert!(e.cursors()[0].anchor.is_none());
    assert_eq!(e.undo_depth(), 1);
}

#[test]
fn control_letters_select_copy_cut_and_paste() {
    let mut e = doc("abc abc");
    assert!(matches!(press(&mut e, Key::D, true, false), KeyEffect::Unchanged));
    assert_eq!(e.selected_text(), "abc");
    press(&mut e, Key::D, true, false);
    assert_eq!(e.cursors().len(), 2);
    match press(&mut e, Key::C, true, false) {
        KeyEffect::Copy(text) => assert_eq!(text, "abcabc"),
        other => panic!("{:?}", other),
    }
    assert!(matches!(press(&mut e, Key::V, true, false), KeyEffect::Paste));
    assert_eq!(e.text(), "abc abc");
    match press(&mut e, Key::X, true, false) {
        KeyEffect::Cut(text) => assert_eq!(text, "abcabc"),
        other => panic!("{:?}", other),
    }
    assert_eq!(e.text(), " ");
    assert!(matches!(press(&mut e, Key::Escape, false, false), KeyEffect::Unchanged));
    assert_eq!(e.cursors().len(), 1);
    assert!(matches!(press(&mut e, Key::A, true, false), KeyEffect::Unchanged));
    assert_eq!(e.cursors()[0].anchor, Some(Position::new(0, 0)));
    assert_eq!(e.cursors()[0].pos, Position::new(0, 1));
}

#[test]
fn without_a_clipboard_nothing_is_copied_cut_or_pasted() {
    let mut e = doc("abc");
    e.select_all();
    for key in [Key::C, Key::X, Key::V] {
        assert!(matches!(e.handle_key(key, true, false, 1, false), KeyEffect::Unchanged));
    }
    assert_eq!(e.text(), "abc");
    assert_eq!(e.undo_depth(), 1);
}

#[test]
fn undo_and_redo_keys() {
    let mut e = doc("abc");
    e.move_to_end(false);
    e.insert_text("d");
    assert!(matches!(press(&mut e, Key::Z, true, false), KeyEffect::Changed));
    assert_eq!(e.text(), "abc");
    assert!(matches!(press(&mut e, Key::Z, true, true), KeyEffect::Changed));
    assert_eq!(e.text(), "abcd");
    press(&mut e, Key::Z, true, false);
    assert!(matches!(press(&mut e, Key::Y, true, false), KeyEffect::Changed));
    assert_eq!(e.text(), "abcd");
}

#[test]
fn typed_text_is_inserted_unless_control_is_held() {
    let mut e = doc("ab");
    e.place_cursor(0, 1);
    assert!(e.handle_text("x", false));
    assert_eq!(e.text(), "axb");
    assert!(!e.handle_text("y", true));
    assert_eq!(e.text(), "axb");
}
