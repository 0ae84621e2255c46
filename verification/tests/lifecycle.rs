use lux_editor::editor::Editor;
use lux_editor::position::Position;

#[test]
fn new_document_is_empty_and_untitled() {
    let e = Editor::new();
    assert_eq!(e.line_count(), 1);
    assert_eq!(e.line_text(0), "");
    assert_eq!(e.text(), "");
    assert_eq!(e.title().as_str(), "Untitled");
    assert!(!e.is_modified());
    assert!(e.file_path().is_none());
    assert_eq!(e.cursors().len(), 1);
}

#[test]
fn line_lengths_do_not_count_the_line_feed() {
    let mut e = Editor::new();
    e.insert_text("abc\n\nhéllo\r\nxy");
    assert_eq!(e.line_count(), 4);
    assert_eq!(e.line_length_chars(0), 3);
    assert_eq!(e.line_length_chars(1), 0);
    assert_eq!(e.line_length_chars(2), 6);
    assert_eq!(e.line_length_chars(3), 2);
    assert_eq!(e.line_length_chars(4), 0);
    assert_eq!(e.line_length_chars(usize::MAX), 0);
}

#[test]
fn positions_and_offsets_correspond() {
    let mut e = Editor::new();
    e.insert_text("abc\n\nhéllo\nxy");
    assert_eq!(e.position_to_char_index(&Position::new(0, 0)), 0);
    assert_eq!(e.position_to_char_index(&Position::new(0, 3)), 3);
    assert_eq!(e.position_to_char_index(&Position::new(1, 0)), 4);
    assert_eq!(e.position_to_char_index(&Position::new(2, 2)), 7);
    assert_eq!(e.position_to_char_index(&Position::new(3, 2)), 13);
    for i in 0..=13 {
        let p = e.char_index_to_position(i);
        assert_eq!(e.position_to_char_index(&p), i);
    }
    assert_eq!(e.char_index_to_position(4), Position::new(1, 0));
    assert_eq!(e.char_index_to_position(10), Position::new(2, 5));
    assert_eq!(e.char_index_to_position(11), Position::new(3, 0));
    assert_eq!(e.char_index_to_position(99), Position::new(3, 2));
}

#[test]
fn columns_and_lines_out_of_range_are_clamped() {
    let mut e = Editor::new();
    e.insert_text("abc\nde");
    assert_eq!(e.position_to_char_index(&Position::new(0, 99)), 3);
    assert_eq!(e.position_to_char_index(&Position::new(1, 3)), 6);
    assert_eq!(e.position_to_char_index(&Position::new(2, 0)), 6);
    assert_eq!(e.position_to_char_index(&Position::new(usize::MAX, usize::MAX)), 6);
}

#[test]
fn loading_keeps_the_text_byte_for_byte() {
    let content = "a\r\nb\n\tc \u{2028}d\n";
    let e = Editor::from_file(std::path::PathBuf::from("dir/name.txt"), Some("name.txt".into()), content);
    assert_eq!(e.text(), content);
    assert_eq!(e.title().as_str(), "name.txt");
    assert_eq!(e.file_path(), &Some(std::path::PathBuf::from("dir/name.txt")));
    assert!(!e.is_modified());
    assert_eq!(e.undo_depth(), 0);
    assert_eq!(e.redo_depth(), 0);
    assert_eq!(e.cursors()[0].pos, Position::new(0, 0));
    let untitled = Editor::from_file(std::path::PathBuf::from(".."), None, "");
    assert_eq!(untitled.title().as_str(), "Untitled");
}
