use lux_editor::editor::{Editor, SaveError, MAX_UNDO};
use lux_editor::position::Position;
use std::path::PathBuf;

fn doc(text: &str) -> Editor {
    let mut e = Editor::new();
    e.insert_text(text);
    e
}

#[test]
fn undo_on_a_new_document_does_nothing() {
    let mut e = Editor::new();
    e.undo();
    e.redo();
    assert_eq!(e.text(), "");
    assert!(!e.is_modified());
    assert_eq!(e.undo_depth(), 0);
    assert_eq!(e.redo_depth(), 0);
}

#[test]
fn undo_restores_text_and_cursors() {
    let mut e = doc("abc");
    e.place_cursor(0, 1);
    e.add_cursor_at(0, 2);
    e.insert_text("X");
    assert_eq!(e.text(), "aXbXc");
    e.undo();
    assert_eq!(e.text(), "abc");
    let got: Vec<Position> = e.cursors().iter().map(|c| c.pos).collect();
    assert_eq!(got, vec![Position::new(0, 1), Position::new(0, 2)]);
    assert!(e.is_modified());
    assert_eq!(e.redo_depth(), 1);
}

#[test]
fn undo_then_redo_restores_the_state() {
    let mut e = Editor::new();
    for piece in ["a", "b\n", "c", "d"] {
        e.insert_text(piece);
    }
    let text = e.text();
    let pos = e.cursors()[0].pos;
    for k in 1..=4 {
        for _ in 0..k {
            e.undo();
        }
        for _ in 0..k {
            e.redo();
        }
        assert_eq!(e.text(), text);
        assert_eq!(e.cursors()[0].pos, pos);
        assert_eq!(e.undo_depth(), 4);
        assert_eq!(e.redo_depth(), 0);
    }
}

#[test]
fn undo_walks_back_one_edit_at_a_time() {
    let mut e = Editor::new();
    e.insert_text("a");
    e.insert_text("b");
    e.insert_text("c");
    e.undo();
    assert_eq!(e.text(), "ab");
    e.undo();
    assert_eq!(e.text(), "a");
    e.redo();
    assert_eq!(e.text(), "ab");
    e.undo();
    e.undo();
    assert_eq!(e.text(), "");
    e.undo();
    assert_eq!(e.text(), "");
}

#[test]
fn an_edit_clears_the_redo_history() {
    let mut e = Editor::new();
    e.insert_text("a");
    e.insert_text("b");
    e.undo();
    assert_eq!(e.redo_depth(), 1);
    e.insert_text("c");
    assert_eq!(e.redo_depth(), 0);
    e.redo();
    assert_eq!(e.text(), "ac");
}

#[test]
fn undo_history_is_capped() {
    let mut e = Editor::new();
    for _ in 0..(MAX_UNDO + 25) {
        e.insert_text("x");
        assert!(e.undo_depth() <= MAX_UNDO);
    }
    assert_eq!(MAX_UNDO, 500);
    assert_eq!(e.undo_depth(), 500);
    for _ in 0..600 {
        e.undo();
    }
    assert_eq!(e.undo_depth(), 0);
    assert_eq!(e.redo_depth(), 500);
    assert_eq!(e.text().len(), 25);
    for _ in 0..600 {
        e.redo();
    }
    assert_eq!(e.undo_depth(), 500);
    assert_eq!(e.text().len(), 525);
}

#[test]
fn snapshots_do_not_follow_later_edits() {
    let mut e = doc("abc");
    e.place_cursor(0, 3);
    e.insert_text("d");
    e.insert_text("e");
    e.undo();
    e.undo();
    assert_eq!(e.text(), "abc");
    e.redo();
    assert_eq!(e.text(), "abcd");
}

#[test]
fn save_without_a_path_is_an_error() {
    let e = doc("abc");
    assert_eq!(e.save(), Err(SaveError::NoPath));
    assert_eq!(SaveError::NoPath.message(), "No file path set");
    assert!(e.is_modified());
}

#[test]
fn save_hands_out_the_text_and_mark_saved_clears_the_flag() {
    let mut e = Editor::from_file(PathBuf::from("/tmp/a.txt"), Some("a.txt".to_string()), "abc\n");
    e.move_to_end(false);
    e.insert_text("def");
    assert!(e.is_modified());
    assert_eq!(e.save(), Ok("abc\ndef".to_string()));
    assert!(e.is_modified());
    e.mark_saved();
    assert!(!e.is_modified());
    assert_eq!(e.text(), "abc\ndef");
}

#[test]
fn save_as_sets_path_and_title() {
    let mut e = doc("abc");
    e.save_as(PathBuf::from("/tmp/dir/b.rs"), Some("b.rs".to_string()));
    assert!(!e.is_modified());
    assert_eq!(e.title().as_str(), "b.rs");
    assert_eq!(e.file_path(), &Some(PathBuf::from("/tmp/dir/b.rs")));
    e.save_as(PathBuf::from("/"), None);
    assert_eq!(e.title().as_str(), "Untitled");
    assert_eq!(e.save(), Ok("abc".to_string()));
}

#[test]
fn loading_what_was_saved_gives_the_same_text() {
    let mut e = doc("héllo\r\nwörld\n\tx\n");
    e.save_as(PathBuf::from("p.txt"), Some("p.txt".to_string()));
    let written = e.save().unwrap();
    let loaded = Editor::from_file(PathBuf::from("p.txt"), Some("p.txt".to_string()), &written);
    assert_eq!(loaded.text(), e.text());
    assert_eq!(loaded.text().as_bytes(), "héllo\r\nwörld\n\tx\n".as_bytes());
    assert!(!loaded.is_modified());
    assert_eq!(loaded.undo_depth(), 0);
    assert_eq!(loaded.cursors().len(), 1);
    assert_eq!(loaded.cursors()[0].pos, Position::new(0, 0));
    assert_eq!(loaded.title().as_str(), "p.txt");
}
