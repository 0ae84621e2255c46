//! The frame around the documents: which tab is active, which tab waits for
//! a confirmation before it closes, and which input bars are shown.

use vstd::prelude::*;

verus! {

/// The tabs of the editor: how many there are, which one is active, and
/// which one, if any, is to be closed once the user has confirmed it.
#[derive(Clone, Copy, Debug)]
pub struct Tabs {
    pub count: usize,
    pub active: usize,
    pub confirm_close: Option<usize>,
}

/// What is to be done with the documents after a tab was asked to close.
#[derive(Clone, Copy, Debug, PartialEq, Eq, Structural)]
pub enum CloseOutcome {
    /// The tabs stay as they are.
    Keep,
    /// The tab is closed at once: its document is to be dropped.
    Remove,
    /// The tab's document has unsaved changes: the user is to be asked.
    Ask,
}

impl Tabs {
    /// There is a tab, and the active tab is one of them.
    pub open spec fn wf(self) -> bool {
        self.count >= 1 && self.active < self.count
    }

    /// The tabs after a tab was closed for good: the last tab is never
    /// closed; the active tab stays the same index, or becomes the last tab
    /// where there is no such index any more. No tab waits for a
    /// confirmation.
    pub open spec fn closed(self, idx: usize) -> Tabs {
        if self.count > 1 {
            Tabs {
                count: (self.count - 1) as usize,
                active: if self.active >= self.count - 1 {
                    (self.count - 2) as usize
                } else {
                    self.active
                },
                confirm_close: None,
            }
        } else {
            Tabs { confirm_close: None, ..self }
        }
    }

    /// One tab, which is active.
    pub fn new() -> (t: Tabs)
        ensures
            t == (Tabs { count: 1, active: 0, confirm_close: None }),
            t.wf(),
    {
        Tabs { count: 1, active: 0, confirm_close: None }
    }

    /// A tab was added behind the others: it becomes the active one.
    pub fn opened(&mut self)
        requires
            old(self).wf(),
            old(self).count < usize::MAX,
        ensures
            *final(self) == (Tabs {
                count: (old(self).count + 1) as usize,
                active: old(self).count,
                ..*old(self)
            }),
            final(self).wf(),
    {
        self.count = self.count + 1;
        self.active = self.count - 1;
    }

    /// Makes tab `idx` the active one, if there is such a tab.
    pub fn activate(&mut self, idx: usize)
        requires
            old(self).wf(),
        ensures
            *final(self) == (Tabs {
                active: if idx < old(self).count {
                    idx
                } else {
                    old(self).active
                },
                ..*old(self)
            }),
            final(self).wf(),
    {
        if idx < self.count {
            self.active = idx;
        }
    }

    /// Tab `idx`, whose document is `modified` or not, is asked to close.
    /// The last tab stays. A tab with unsaved changes waits for the user's
    /// confirmation. Any other tab closes at once.
    pub fn close_requested(&mut self, idx: usize, modified: bool) -> (r: CloseOutcome)
        requires
            old(self).wf(),
            idx < old(self).count,
        ensures
            old(self).count <= 1 ==> r == CloseOutcome::Keep && *final(self) == *old(self),
            old(self).count > 1 && modified ==> r == CloseOutcome::Ask && *final(self) == (Tabs {
                confirm_close: Some(idx),
                ..*old(self)
            }),
            old(self).count > 1 && !modified ==> r == CloseOutcome::Remove && *final(self) == old(
                self,
            ).closed(idx),
            final(self).wf(),
    {
        if self.count <= 1 {
            CloseOutcome::Keep
        } else if modified {
            self.confirm_close = Some(idx);
            CloseOutcome::Ask
        } else {
            self.force_close(idx);
            CloseOutcome::Remove
        }
    }

    /// Tab `idx` closes for good, unless it is the last tab, and no tab
    /// waits for a confirmation any more. Says whether the tab's document is
    /// to be dropped.
    pub fn force_close(&mut self, idx: usize) -> (removed: bool)
        requires
            old(self).wf(),
            idx < old(self).count,
        ensures
            *final(self) == old(self).closed(idx),
            removed == (old(self).count > 1),
            final(self).wf(),
    {
        let removed = self.count > 1;
        if removed {
            self.count = self.count - 1;
            if self.active >= self.count {
                self.active = self.count - 1;
            }
        }
        self.confirm_close = None;
        removed
    }

    /// The user does not want the waiting tab closed after all.
    pub fn cancel_close(&mut self)
        ensures
            *final(self) == (Tabs { confirm_close: None, ..*old(self) }),
    {
        self.confirm_close = None;
    }
}

/// The keys of the shortcuts that work in the whole window.
#[derive(Clone, Copy, Debug, PartialEq, Eq, Structural)]
pub enum ShortcutKey {
    F,
    G,
    H,
    N,
    O,
    P,
    S,
    W,
}

/// What a shortcut asks for.
#[derive(Clone, Copy, Debug, PartialEq, Eq, Structural)]
pub enum ShellAction {
    TogglePalette,
    NewTab,
    OpenFile,
    SaveFile,
    SaveFileAs,
    CloseTab,
    ToggleFind,
    ToggleReplace,
    ToggleGotoLine,
}

/// What a key asks for with the modifiers that are held: every shortcut
/// takes the control key; the palette takes the shift key as well, and the
/// shift key turns "save" into "save as".
pub open spec fn shortcut_of(key: ShortcutKey, ctrl: bool, shift: bool) -> Option<ShellAction> {
    if !ctrl {
        None
    } else {
        match key {
            ShortcutKey::P => if shift {
                Some(ShellAction::TogglePalette)
            } else {
                None
            },
            ShortcutKey::N => Some(ShellAction::NewTab),
            ShortcutKey::O => Some(ShellAction::OpenFile),
            ShortcutKey::S => if shift {
                Some(ShellAction::SaveFileAs)
            } else {
                Some(ShellAction::SaveFile)
            },
            ShortcutKey::W => Some(ShellAction::CloseTab),
            ShortcutKey::F => Some(ShellAction::ToggleFind),
            ShortcutKey::H => Some(ShellAction::ToggleReplace),
            ShortcutKey::G => Some(ShellAction::ToggleGotoLine),
        }
    }
}

/// What a key asks for with the modifiers that are held.
pub fn shortcut(key: ShortcutKey, ctrl: bool, shift: bool) -> (action: Option<ShellAction>)
    ensures
        action == shortcut_of(key, ctrl, shift),
{
    if !ctrl {
        return None;
    }
    match key {
        ShortcutKey::P => if shift {
            Some(ShellAction::TogglePalette)
        } else {
            None
        },
        ShortcutKey::N => Some(ShellAction::NewTab),
        ShortcutKey::O => Some(ShellAction::OpenFile),
        ShortcutKey::S => if shift {
            Some(ShellAction::SaveFileAs)
        } else {
            Some(ShellAction::SaveFile)
        },
        ShortcutKey::W => Some(ShellAction::CloseTab),
        ShortcutKey::F => Some(ShellAction::ToggleFind),
        ShortcutKey::H => Some(ShellAction::ToggleReplace),
        ShortcutKey::G => Some(ShellAction::ToggleGotoLine),
    }
}

/// The input bars above the document: search, with or without its replace
/// row, and "go to line".
#[derive(Clone, Copy, Debug, PartialEq, Eq, Structural)]
pub struct Panels {
    pub show_search: bool,
    pub show_replace: bool,
    pub show_goto_line: bool,
}

impl Panels {
    /// No bar is shown.
    pub fn new() -> (p: Panels)
        ensures
            p == (Panels { show_search: false, show_replace: false, show_goto_line: false }),
    {
        Panels { show_search: false, show_replace: false, show_goto_line: false }
    }

    /// Whether any bar is shown.
    pub fn any_shown(&self) -> (b: bool)
        ensures
            b == (self.show_search || self.show_goto_line),
    {
        self.show_search || self.show_goto_line
    }

    /// The shortcut for "find": the search bar is shown or hidden, without
    /// its replace row, and "go to line" is hidden.
    pub fn toggle_find(&mut self)
        ensures
            *final(self) == (Panels {
                show_search: !old(self).show_search,
                show_replace: false,
                show_goto_line: false,
            }),
    {
        self.show_search = !self.show_search;
        self.show_replace = false;
        self.show_goto_line = false;
    }

    /// The shortcut for "replace": the search bar is shown, its replace row
    /// is shown or hidden, and "go to line" is hidden.
    pub fn toggle_replace(&mut self)
        ensures
            *final(self) == (Panels {
                show_search: true,
                show_replace: !old(self).show_replace,
                show_goto_line: false,
            }),
    {
        self.show_search = true;
        self.show_replace = !self.show_replace;
        self.show_goto_line = false;
    }

    /// The shortcut for "go to line": its bar is shown or hidden, and the
    /// search bar is hidden.
    pub fn toggle_goto_line(&mut self)
        ensures
            *final(self) == (Panels {
                show_search: false,
                show_goto_line: !old(self).show_goto_line,
                ..*old(self)
            }),
    {
        self.show_goto_line = !self.show_goto_line;
        self.show_search = false;
    }

    /// The command "find": the search bar is shown and "go to line" hidden.
    pub fn open_find(&mut self)
        ensures
            *final(self) == (Panels { show_search: true, show_goto_line: false, ..*old(self) }),
    {
        self.show_search = true;
        self.show_goto_line = false;
    }

    /// The command "go to line": its bar is shown and the search bar hidden.
    pub fn open_goto_line(&mut self)
        ensures
            *final(self) == (Panels { show_search: false, show_goto_line: true, ..*old(self) }),
    {
        self.show_goto_line = true;
        self.show_search = false;
    }

    /// The search bar is closed, with its replace row.
    pub fn close_search(&mut self)
        ensures
            *final(self) == (Panels { show_search: false, show_replace: false, ..*old(self) }),
    {
        self.show_search = false;
        self.show_replace = false;
    }

    /// The bar "go to line" is closed.
    pub fn close_goto_line(&mut self)
        ensures
            *final(self) == (Panels { show_goto_line: false, ..*old(self) }),
    {
        self.show_goto_line = false;
    }
}

} // verus!
