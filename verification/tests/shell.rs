use lux_editor::shell::{shortcut, CloseOutcome, Panels, ShellAction, ShortcutKey, Tabs};

#[test]
fn tabs_start_with_one_active_tab() {
    let t = Tabs::new();
    assert_eq!((t.count, t.active, t.confirm_close), (1, 0, None));
}

#[test]
fn a_new_tab_becomes_active() {
    let mut t = Tabs::new();
    t.opened();
    t.opened();
    assert_eq!((t.count, t.active), (3, 2));
    t.activate(0);
    assert_eq!(t.active, 0);
    t.activate(3);
    assert_eq!(t.active, 0);
    t.opened();
    assert_eq!((t.count, t.active), (4, 3));
}

#[test]
fn the_last_tab_never_closes() {
    let mut t = Tabs::new();
    assert_eq!(t.close_requested(0, false), CloseOutcome::Keep);
    assert_eq!(t.close_requested(0, true), CloseOutcome::Keep);
    assert_eq!((t.count, t.active, t.confirm_close), (1, 0, None));
    t.confirm_close = Some(0);
    assert!(!t.force_close(0));
    assert_eq!((t.count, t.active, t.confirm_close), (1, 0, None));
}

#[test]
fn an_unmodified_tab_closes_at_once() {
    let mut t = Tabs::new();
    t.opened();
    t.opened();
    assert_eq!(t.close_requested(0, false), CloseOutcome::Remove);
    assert_eq!((t.count, t.active), (2, 1));
    assert_eq!(t.close_requested(1, false), CloseOutcome::Remove);
    assert_eq!((t.count, t.active), (1, 0));
}

#[test]
fn closing_keeps_the_active_index_where_it_can() {
    let mut t = Tabs::new();
    t.opened();
    t.opened();
    t.activate(0);
    assert_eq!(t.close_requested(2, false), CloseOutcome::Remove);
    assert_eq!((t.count, t.active), (2, 0));
    t.opened();
    t.activate(1);
    assert!(t.force_close(0));
    assert_eq!((t.count, t.active), (2, 1));
}

#[test]
fn a_modified_tab_waits_for_confirmation() {
    let mut t = Tabs::new();
    t.opened();
    assert_eq!(t.close_requested(1, true), CloseOutcome::Ask);
    assert_eq!((t.count, t.active, t.confirm_close), (2, 1, Some(1)));
    t.cancel_close();
    assert_eq!((t.count, t.confirm_close), (2, None));
    t.close_requested(0, true);
    assert!(t.force_close(0));
    assert_eq!((t.count, t.active, t.confirm_close), (1, 0, None));
}

#[test]
fn panels_follow_the_shortcuts() {
    let mut p = Panels::new();
    assert!(!p.any_shown());
    p.toggle_find();
    assert_eq!((p.show_search, p.show_replace, p.show_goto_line), (true, false, false));
    p.toggle_replace();
    assert_eq!((p.show_search, p.show_replace, p.show_goto_line), (true, true, false));
    p.toggle_find();
    assert_eq!((p.show_search, p.show_replace, p.show_goto_line), (false, false, false));
    p.toggle_replace();
    assert_eq!((p.show_search, p.show_replace, p.show_goto_line), (true, true, false));
    p.toggle_goto_line();
    assert_eq!((p.show_search, p.show_replace, p.show_goto_line), (false, true, true));
    assert!(p.any_shown());
    p.toggle_goto_line();
    assert_eq!((p.show_search, p.show_replace, p.show_goto_line), (false, true, false));
    assert!(!p.any_shown());
}

#[test]
fn panels_follow_the_commands() {
    let mut p = Panels::new();
    p.open_goto_line();
    assert_eq!((p.show_search, p.show_goto_line), (false, true));
    p.open_find();
    assert_eq!((p.show_search, p.show_goto_line), (true, false));
    p.toggle_replace();
    p.close_search();
    assert_eq!(p, Panels::new());
    p.open_goto_line();
    p.close_goto_line();
    assert_eq!(p, Panels::new());
}

#[test]
fn shortcuts_need_the_control_key() {
    for key in [
        ShortcutKey::F,
        ShortcutKey::G,
        ShortcutKey::H,
        ShortcutKey::N,
        ShortcutKey::O,
        ShortcutKey::P,
        ShortcutKey::S,
        ShortcutKey::W,
    ] {
        assert_eq!(shortcut(key, false, false), None);
        assert_eq!(shortcut(key, false, true), None);
    }
}

#[test]
fn shortcuts_with_the_control_key() {
    assert_eq!(shortcut(ShortcutKey::P, true, true), Some(ShellAction::TogglePalette));
    assert_eq!(shortcut(ShortcutKey::P, true, false), None);
    assert_eq!(shortcut(ShortcutKey::N, true, false), Some(ShellAction::NewTab));
    assert_eq!(shortcut(ShortcutKey::N, true, true), Some(ShellAction::NewTab));
    assert_eq!(shortcut(ShortcutKey::O, true, false), Some(ShellAction::OpenFile));
    assert_eq!(shortcut(ShortcutKey::S, true, false), Some(ShellAction::SaveFile));
    assert_eq!(shortcut(ShortcutKey::S, true, true), Some(ShellAction::SaveFileAs));
    assert_eq!(shortcut(ShortcutKey::W, true, false), Some(ShellAction::CloseTab));
    assert_eq!(shortcut(ShortcutKey::F, true, false), Some(ShellAction::ToggleFind));
    assert_eq!(shortcut(ShortcutKey::H, true, true), Some(ShellAction::ToggleReplace));
    assert_eq!(shortcut(ShortcutKey::G, true, false), Some(ShellAction::ToggleGotoLine));
}
