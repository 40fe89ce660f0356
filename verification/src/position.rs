use vstd::prelude::*;
use std::cmp::Ordering;

verus! {

/// A location in a buffer: a line index and a character column.
#[derive(Debug, Clone, Copy, PartialEq, Eq, Structural, Ord)]
pub struct Position {
    pub line: usize,
    pub col: usize,
}

/// `a` precedes `b` in reading order (line first, then column).
pub open spec fn pos_lt(a: Position, b: Position) -> bool {
    a.line < b.line || (a.line == b.line && a.col < b.col)
}

/// `a` precedes or equals `b` in reading order.
pub open spec fn pos_le(a: Position, b: Position) -> bool {
    pos_lt(a, b) || a == b
}

impl Position {
    pub fn new(line: usize, col: usize) -> (p: Self)
        ensures
            p.line == line,
            p.col == col,
    {
        Self { line, col }
    }
}

impl PartialOrd for Position {
    fn partial_cmp(&self, other: &Self) -> (r: Option<Ordering>) {
        if self.line < other.line {
            Some(Ordering::Less)
        } else if self.line > other.line {
            Some(Ordering::Greater)
        } else if self.col < other.col {
            Some(Ordering::Less)
        } else if self.col > other.col {
            Some(Ordering::Greater)
        } else {
            Some(Ordering::Equal)
        }
    }
}

impl vstd::std_specs::cmp::PartialOrdSpecImpl for Position {
    open spec fn obeys_partial_cmp_spec() -> bool {
        true
    }

    open spec fn partial_cmp_spec(&self, other: &Self) -> Option<Ordering> {
        if pos_lt(*self, *other) {
            Some(Ordering::Less)
        } else if pos_lt(*other, *self) {
            Some(Ordering::Greater)
        } else {
            Some(Ordering::Equal)
        }
    }
}

/// Reading order on positions is a total order: exactly one of `a < b`,
/// `a == b`, `b < a` holds, and it is transitive.
pub proof fn law_position_order_total(a: Position, b: Position, c: Position)
    ensures
        pos_lt(a, b) || a == b || pos_lt(b, a),
        !(pos_lt(a, b) && pos_lt(b, a)),
        !(pos_lt(a, b) && a == b),
        pos_lt(a, b) && pos_lt(b, c) ==> pos_lt(a, c),
{
}

} // verus!
