//! The command palette: a list of commands, a filter typed by the user and a
//! selected entry.

use vstd::arithmetic::div_mod::{lemma_add_mod_noop, lemma_small_mod};
use vstd::prelude::*;
use crate::chars::{find_from, lowercase_of, occurs_in, to_chars};

verus! {

/// What a command does when it is chosen.
#[derive(Clone, Copy, Debug, PartialEq, Eq, Structural)]
pub enum CommandId {
    NewTab,
    OpenFile,
    SaveFile,
    SaveFileAs,
    CloseTab,
    Find,
    GoToLine,
    SelectAll,
    Undo,
    Redo,
}

/// An entry of the palette.
#[derive(Clone, Debug)]
pub struct Command {
    pub name: String,
    pub shortcut: String,
    pub id: CommandId,
}

/// An entry of the palette as the contracts see it.
pub struct CommandEntry {
    pub name: Seq<char>,
    pub shortcut: Seq<char>,
    pub id: CommandId,
}

impl Command {
    pub open spec fn view(&self) -> CommandEntry {
        CommandEntry { name: self.name@, shortcut: self.shortcut@, id: self.id }
    }

    /// A copy of the entry.
    fn duplicate(&self) -> (c: Command)
        ensures
            c@ == self@,
    {
        Command { name: self.name.clone(), shortcut: self.shortcut.clone(), id: self.id }
    }

    fn make(name: &str, shortcut: &str, id: CommandId) -> (c: Command)
        ensures
            c@ == (CommandEntry { name: name@, shortcut: shortcut@, id }),
    {
        Command { name: name.to_owned(), shortcut: shortcut.to_owned(), id }
    }
}

/// The palette's state.
pub struct CommandPalette {
    pub visible: bool,
    pub input: String,
    pub selected: usize,
    commands: Vec<Command>,
}

/// The entries that a new palette offers, in their order.
pub open spec fn default_entries() -> Seq<CommandEntry> {
    seq![
        CommandEntry { name: "New Tab"@, shortcut: "Ctrl+N"@, id: CommandId::NewTab },
        CommandEntry { name: "Open File"@, shortcut: "Ctrl+O"@, id: CommandId::OpenFile },
        CommandEntry { name: "Save File"@, shortcut: "Ctrl+S"@, id: CommandId::SaveFile },
        CommandEntry { name: "Save File As..."@, shortcut: "Ctrl+Shift+S"@, id: CommandId::SaveFileAs },
        CommandEntry { name: "Close Tab"@, shortcut: "Ctrl+W"@, id: CommandId::CloseTab },
        CommandEntry { name: "Find"@, shortcut: "Ctrl+F"@, id: CommandId::Find },
        CommandEntry { name: "Go to Line"@, shortcut: "Ctrl+G"@, id: CommandId::GoToLine },
        CommandEntry { name: "Select All"@, shortcut: "Ctrl+A"@, id: CommandId::SelectAll },
    ]
}

/// A key that the palette reacts to.
#[derive(Clone, Copy, Debug, PartialEq, Eq, Structural)]
pub enum PaletteKey {
    Escape,
    ArrowDown,
    ArrowUp,
    Enter,
}

/// Whether an entry named `name` passes the filter `input`: the filter is
/// empty, or occurs in the name, both taken in lower case.
pub open spec fn passes(input: Seq<char>, name: Seq<char>) -> bool {
    lowercase_of(input).len() == 0 || occurs_in(lowercase_of(name), lowercase_of(input))
}

/// Those of the first `n` entries that pass the filter `input`, in their
/// order.
pub open spec fn listed(entries: Seq<CommandEntry>, input: Seq<char>, n: nat) -> Seq<CommandEntry>
    decreases n,
{
    if n == 0 {
        Seq::empty()
    } else if passes(input, entries[n - 1].name) {
        listed(entries, input, (n - 1) as nat).push(entries[n - 1])
    } else {
        listed(entries, input, (n - 1) as nat)
    }
}

/// The selected index held to a list of `count` entries: the last entry
/// where the index is past it, and the index as it is for an empty list.
pub open spec fn held(selected: usize, count: nat) -> usize {
    if selected >= count && count > 0 {
        (count - 1) as usize
    } else {
        selected
    }
}

/// The palette as the contracts see it.
pub struct PaletteState {
    pub visible: bool,
    pub input: Seq<char>,
    pub selected: usize,
    pub entries: Seq<CommandEntry>,
}

impl PaletteState {
    /// The entries that pass the filter, in their order.
    pub open spec fn shown(self) -> Seq<CommandEntry> {
        listed(self.entries, self.input, self.entries.len())
    }

    /// The state after the palette was closed.
    pub open spec fn closed(self) -> PaletteState {
        PaletteState { visible: false, input: Seq::empty(), ..self }
    }

    /// The state after a key was pressed. Escape closes the palette. The
    /// arrows move the selection through the shown entries, round the ends,
    /// and leave it alone where none is shown. Enter closes the palette
    /// where the selection is on a shown entry. Whenever the palette stays
    /// open, the selection is held to the shown entries.
    pub open spec fn pressed(self, key: PaletteKey) -> PaletteState {
        let count = self.shown().len();
        match key {
            PaletteKey::Escape => self.closed(),
            PaletteKey::ArrowDown => if count > 0 {
                PaletteState { selected: ((self.selected + 1) % (count as int)) as usize, ..self }
            } else {
                self
            },
            PaletteKey::ArrowUp => if count > 0 {
                PaletteState {
                    selected: held(
                        if self.selected > 0 {
                            (self.selected - 1) as usize
                        } else {
                            (count - 1) as usize
                        },
                        count,
                    ),
                    ..self
                }
            } else {
                self
            },
            PaletteKey::Enter => if self.selected < count {
                self.closed()
            } else {
                PaletteState { selected: held(self.selected, count), ..self }
            },
        }
    }

    /// The command that a key chooses: the selected one of the shown
    /// entries, on Enter.
    pub open spec fn chosen(self, key: PaletteKey) -> Option<CommandId> {
        if key == PaletteKey::Enter && self.selected < self.shown().len() {
            Some(self.shown()[self.selected as int].id)
        } else {
            None
        }
    }
}

impl CommandPalette {
    /// The state that the contracts speak of.
    pub closed spec fn view(&self) -> PaletteState {
        PaletteState {
            visible: self.visible,
            input: self.input@,
            selected: self.selected,
            entries: Seq::new(self.commands@.len(), |i: int| self.commands@[i]@),
        }
    }

    /// A hidden palette with an empty filter, the first entry selected and
    /// the default entries.
    pub fn new() -> (p: Self)
        ensures
            p@ == (PaletteState {
                visible: false,
                input: Seq::<char>::empty(),
                selected: 0,
                entries: default_entries(),
            }),
    {
        let mut commands: Vec<Command> = Vec::new();
        commands.push(Command::make("New Tab", "Ctrl+N", CommandId::NewTab));
        commands.push(Command::make("Open File", "Ctrl+O", CommandId::OpenFile));
        commands.push(Command::make("Save File", "Ctrl+S", CommandId::SaveFile));
        commands.push(Command::make("Save File As...", "Ctrl+Shift+S", CommandId::SaveFileAs));
        commands.push(Command::make("Close Tab", "Ctrl+W", CommandId::CloseTab));
        commands.push(Command::make("Find", "Ctrl+F", CommandId::Find));
        commands.push(Command::make("Go to Line", "Ctrl+G", CommandId::GoToLine));
        commands.push(Command::make("Select All", "Ctrl+A", CommandId::SelectAll));
        let p = CommandPalette { visible: false, input: String::new(), selected: 0, commands };
        assert(p@.entries =~= default_entries());
        p
    }

    /// Shows a hidden palette, with an empty filter and the first entry
    /// selected, and hides a visible one as it is.
    pub fn toggle(&mut self)
        ensures
            final(self)@ == if old(self)@.visible {
                PaletteState { visible: false, ..old(self)@ }
            } else {
                PaletteState {
                    visible: true,
                    input: Seq::<char>::empty(),
                    selected: 0,
                    entries: old(self)@.entries,
                }
            },
    {
        self.visible = !self.visible;
        if self.visible {
            self.input = String::new();
            self.selected = 0;
        }
    }

    /// Hides the palette and empties the filter.
    pub fn close(&mut self)
        ensures
            final(self)@ == (PaletteState {
                visible: false,
                input: Seq::<char>::empty(),
                ..old(self)@
            }),
    {
        self.visible = false;
        self.input = String::new();
    }

    /// The entries that pass the filter, in their order.
    pub fn filtered(&self) -> (list: Vec<Command>)
        ensures
            list@.len() == self@.shown().len(),
            forall|i: int| 0 <= i < list@.len() ==> (#[trigger] list@[i])@ == self@.shown()[i],
    {
        let query = to_chars(self.input.as_str().to_lowercase().as_str());
        let mut list: Vec<Command> = Vec::new();
        let mut i: usize = 0;
        while i < self.commands.len()
            invariant
                i <= self.commands@.len(),
                query@ == lowercase_of(self.input@),
                self@.entries.len() == self.commands@.len(),
                forall|j: int| 0 <= j < self.commands@.len() ==> self@.entries[j] == self.commands@[j]@,
                list@.len() == listed(self@.entries, self@.input, i as nat).len(),
                forall|j: int|
                    0 <= j < list@.len() ==> (#[trigger] list@[j])@ == listed(
                        self@.entries,
                        self@.input,
                        i as nat,
                    )[j],
            decreases self.commands@.len() - i,
        {
            let c = &self.commands[i];
            let name = to_chars(c.name.as_str().to_lowercase().as_str());
            let pass = query.len() == 0 || find_from(&name, &query, 0, name.len()).is_some();
            if pass {
                list.push(c.duplicate());
            }
            i += 1;
        }
        list
    }

    /// Reacts to a key, and hands back the command that the key chooses.
    pub fn press(&mut self, key: PaletteKey) -> (id: Option<CommandId>)
        ensures
            final(self)@ == old(self)@.pressed(key),
            id == old(self)@.chosen(key),
    {
        let list = self.filtered();
        let count = list.len();
        match key {
            PaletteKey::Escape => {
                self.close();
                None
            },
            PaletteKey::ArrowDown => {
                if count > 0 {
                    proof {
                        lemma_add_mod_noop(self.selected as int, 1, count as int);
                        if count > 1 {
                            lemma_small_mod(1, count as nat);
                        }
                    }
                    self.selected = (self.selected % count + 1) % count;
                }
                None
            },
            PaletteKey::ArrowUp => {
                if count > 0 {
                    let s = if self.selected > 0 {
                        self.selected - 1
                    } else {
                        count - 1
                    };
                    self.selected = if s >= count {
                        count - 1
                    } else {
                        s
                    };
                }
                None
            },
            PaletteKey::Enter => {
                if self.selected < count {
                    let id = list[self.selected].id;
                    self.close();
                    Some(id)
                } else {
                    if count > 0 {
                        self.selected = count - 1;
                    }
                    None
                }
            },
        }
    }

    /// Chooses the shown entry with the index `index`, as a click on it
    /// does: the palette closes and the entry's command is handed back.
    /// Nothing happens for an index that no shown entry has.
    pub fn click(&mut self, index: usize) -> (id: Option<CommandId>)
        ensures
            index < old(self)@.shown().len() ==> id == Some(
                old(self)@.shown()[index as int].id,
            ) && final(self)@ == old(self)@.closed(),
            index >= old(self)@.shown().len() ==> id is None && final(self)@ == old(self)@,
    {
        let list = self.filtered();
        if index < list.len() {
            let id = list[index].id;
            self.close();
            Some(id)
        } else {
            None
        }
    }
}

} // verus!
