//! The editing core of a text editor: a rope-backed document buffer, a set of
//! cursors with selections, and the operations that keep the two consistent
//! under insertion, deletion, navigation, search and replace, and undo/redo.

pub mod position;
pub mod text;
pub mod buffer;
pub mod chars;
pub mod cursor;
mod lines;
pub mod editor;
pub mod palette;
pub mod laws;
pub mod shell;
pub mod view;
