use lux_editor::palette::{CommandId, CommandPalette, PaletteKey};

fn names(p: &CommandPalette) -> Vec<String> {
    p.filtered().iter().map(|c| c.name.clone()).collect()
}

#[test]
fn new_palette_is_hidden_and_lists_eight_commands() {
    let p = CommandPalette::new();
    assert!(!p.visible);
    assert_eq!(p.input, "");
    assert_eq!(p.selected, 0);
    assert_eq!(
        names(&p),
        vec![
            "New Tab",
            "Open File",
            "Save File",
            "Save File As...",
            "Close Tab",
            "Find",
            "Go to Line",
            "Select All"
        ]
    );
    let list = p.filtered();
    assert_eq!(list[0].shortcut, "Ctrl+N");
    assert_eq!(list[3].shortcut, "Ctrl+Shift+S");
    assert_eq!(list[3].id, CommandId::SaveFileAs);
    assert_eq!(list[7].id, CommandId::SelectAll);
}

#[test]
fn toggle_shows_with_a_fresh_filter_and_hides_as_it_is() {
    let mut p = CommandPalette::new();
    p.input = "sav".to_string();
    p.selected = 1;
    p.toggle();
    assert!(p.visible);
    assert_eq!(p.input, "");
    assert_eq!(p.selected, 0);
    p.input = "fi".to_string();
    p.selected = 1;
    p.toggle();
    assert!(!p.visible);
    assert_eq!(p.input, "fi");
    assert_eq!(p.selected, 1);
}

#[test]
fn close_hides_and_empties_the_filter() {
    let mut p = CommandPalette::new();
    p.toggle();
    p.input = "x".to_string();
    p.selected = 2;
    p.close();
    assert!(!p.visible);
    assert_eq!(p.input, "");
    assert_eq!(p.selected, 2);
}

#[test]
fn filter_ignores_case() {
    let mut p = CommandPalette::new();
    p.input = "FILE".to_string();
    assert_eq!(names(&p), vec!["Open File", "Save File", "Save File As..."]);
    p.input = "zzz".to_string();
    assert!(names(&p).is_empty());
    p.input = "go to".to_string();
    assert_eq!(names(&p), vec!["Go to Line"]);
}

#[test]
fn arrows_move_round_the_shown_entries() {
    let mut p = CommandPalette::new();
    p.toggle();
    p.input = "file".to_string();
    assert_eq!(p.press(PaletteKey::ArrowDown), None);
    assert_eq!(p.selected, 1);
    p.press(PaletteKey::ArrowDown);
    assert_eq!(p.selected, 2);
    p.press(PaletteKey::ArrowDown);
    assert_eq!(p.selected, 0);
    p.press(PaletteKey::ArrowUp);
    assert_eq!(p.selected, 2);
    p.press(PaletteKey::ArrowUp);
    assert_eq!(p.selected, 1);
    assert!(p.visible);
}

#[test]
fn arrows_do_nothing_on_an_empty_list() {
    let mut p = CommandPalette::new();
    p.toggle();
    p.input = "zzz".to_string();
    p.selected = 3;
    p.press(PaletteKey::ArrowDown);
    assert_eq!(p.selected, 3);
    p.press(PaletteKey::ArrowUp);
    assert_eq!(p.selected, 3);
    assert_eq!(p.press(PaletteKey::Enter), None);
    assert!(p.visible);
}

#[test]
fn selection_is_held_to_the_shown_entries() {
    let mut p = CommandPalette::new();
    p.toggle();
    p.selected = 7;
    p.input = "file".to_string();
    assert_eq!(p.press(PaletteKey::Enter), None);
    assert_eq!(p.selected, 2);
    p.selected = 7;
    p.press(PaletteKey::ArrowUp);
    assert_eq!(p.selected, 2);
    p.selected = 7;
    p.press(PaletteKey::ArrowDown);
    assert_eq!(p.selected, 2);
    p.selected = usize::MAX;
    p.press(PaletteKey::ArrowDown);
    assert_eq!(p.selected, 1);
}

#[test]
fn enter_chooses_the_selected_entry_and_closes() {
    let mut p = CommandPalette::new();
    p.toggle();
    p.input = "file".to_string();
    p.press(PaletteKey::ArrowDown);
    assert_eq!(p.press(PaletteKey::Enter), Some(CommandId::SaveFile));
    assert!(!p.visible);
    assert_eq!(p.input, "");
}

#[test]
fn escape_closes_without_choosing() {
    let mut p = CommandPalette::new();
    p.toggle();
    p.input = "file".to_string();
    assert_eq!(p.press(PaletteKey::Escape), None);
    assert!(!p.visible);
    assert_eq!(p.input, "");
}

#[test]
fn click_chooses_a_shown_entry() {
    let mut p = CommandPalette::new();
    p.toggle();
    p.input = "tab".to_string();
    assert_eq!(p.click(5), None);
    assert!(p.visible);
    assert_eq!(p.click(1), Some(CommandId::CloseTab));
    assert!(!p.visible);
}
