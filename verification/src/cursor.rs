//! A cursor: a caret with an optional selection.

use vstd::prelude::*;
use crate::position::Position;

verus! {

/// A caret at `pos`. With an anchor, the text between the anchor and the caret
/// is selected; the anchor is the end that stays where it is. `desired_col` is
/// the column that vertical movement tries to reach.
#[derive(Clone, Copy, Debug)]
pub struct Cursor {
    pub pos: Position,
    pub anchor: Option<Position>,
    pub desired_col: usize,
}

impl Cursor {
    /// A caret without a selection.
    pub fn new(line: usize, col: usize) -> (c: Self)
        ensures
            c == Cursor::caret(Position { line, col }),
    {
        Cursor { pos: Position::new(line, col), anchor: None, desired_col: col }
    }

    /// The caret at `p` that remembers its own column.
    pub open spec fn caret(p: Position) -> Cursor {
        Cursor { pos: p, anchor: None, desired_col: p.col }
    }

    /// The cursor that selects from `anchor` to the caret at `pos`.
    pub open spec fn selecting(anchor: Position, pos: Position) -> Cursor {
        Cursor { pos, anchor: Some(anchor), desired_col: pos.col }
    }

    /// The two ends of the selection in document order, if there is one.
    pub open spec fn selection(self) -> Option<(Position, Position)> {
        match self.anchor {
            Some(a) => Some((self.pos.min_of(a), self.pos.max_of(a))),
            None => None,
        }
    }

    /// The lower end of the selection, or the caret where there is none.
    pub open spec fn lower(self) -> Position {
        match self.anchor {
            Some(a) => self.pos.min_of(a),
            None => self.pos,
        }
    }

    /// The upper end of the selection, or the caret where there is none.
    pub open spec fn upper(self) -> Position {
        match self.anchor {
            Some(a) => self.pos.max_of(a),
            None => self.pos,
        }
    }

    /// The later of the caret and the anchor, or the caret where there is no
    /// anchor.
    pub fn upper_end(&self) -> (p: Position)
        ensures
            p == self.upper(),
    {
        match self.anchor {
            Some(a) => if self.pos.at_or_before(&a) {
                a
            } else {
                self.pos
            },
            None => self.pos,
        }
    }

    /// The two ends of the selection, the earlier one first.
    pub fn selection_ordered(&self) -> (r: Option<(Position, Position)>)
        ensures
            r == self.selection(),
            r matches Some(ends) ==> ends.0.before_eq(ends.1),
    {
        match self.anchor {
            Some(a) => {
                if self.pos.at_or_before(&a) {
                    Some((self.pos, a))
                } else {
                    Some((a, self.pos))
                }
            },
            None => None,
        }
    }
}

} // verus!
