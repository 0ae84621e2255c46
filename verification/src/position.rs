//! Addresses inside a document.

use vstd::prelude::*;
use vstd::std_specs::cmp::PartialOrdSpecImpl;
use core::cmp::Ordering;

verus! {

/// A zero-based (line, column) address. Columns count characters.
#[derive(Clone, Copy, Debug, PartialEq, Eq, Structural, Ord)]
pub struct Position {
    pub line: usize,
    pub col: usize,
}

impl Position {
    pub fn new(line: usize, col: usize) -> (p: Self)
        ensures
            p.line == line,
            p.col == col,
    {
        Position { line, col }
    }

    /// Document order: by line, then by column.
    pub open spec fn before_eq(self, other: Position) -> bool {
        self.line < other.line || (self.line == other.line && self.col <= other.col)
    }

    /// Strict document order.
    pub open spec fn before(self, other: Position) -> bool {
        self.line < other.line || (self.line == other.line && self.col < other.col)
    }

    /// The earlier of two positions.
    pub open spec fn min_of(self, other: Position) -> Position {
        if self.before_eq(other) { self } else { other }
    }

    /// The later of two positions.
    pub open spec fn max_of(self, other: Position) -> Position {
        if self.before_eq(other) { other } else { self }
    }

    /// Whether `self` comes before `other` or equals it.
    pub fn at_or_before(&self, other: &Position) -> (b: bool)
        ensures
            b == self.before_eq(*other),
    {
        self.line < other.line || (self.line == other.line && self.col <= other.col)
    }
}

impl PartialOrdSpecImpl for Position {
    open spec fn obeys_partial_cmp_spec() -> bool {
        true
    }

    open spec fn partial_cmp_spec(&self, other: &Position) -> Option<Ordering> {
        if self.line < other.line {
            Some(Ordering::Less)
        } else if self.line > other.line {
            Some(Ordering::Greater)
        } else if self.col < other.col {
            Some(Ordering::Less)
        } else if self.col > other.col {
            Some(Ordering::Greater)
        } else {
            Some(Ordering::Equal)
        }
    }
}

impl PartialOrd for Position {
    fn partial_cmp(&self, other: &Position) -> (r: Option<Ordering>) {
        if self.line < other.line {
            Some(Ordering::Less)
        } else if self.line > other.line {
            Some(Ordering::Greater)
        } else if self.col < other.col {
            Some(Ordering::Less)
        } else if self.col > other.col {
            Some(Ordering::Greater)
        } else {
            Some(Ordering::Equal)
        }
    }
}

} // verus!
