use vstd::prelude::*;
use crate::position::{Position, pos_le};

verus! {

/// A selection: the fixed `anchor` and the moving `head` (the cursor).
#[derive(Debug, Clone, Copy, PartialEq, Eq, Structural)]
pub struct Selection {
    pub anchor: Position,
    pub head: Position,
}

/// The selection's endpoints in reading order.
pub open spec fn sorted_spec(s: Selection) -> (Position, Position) {
    if pos_le(s.anchor, s.head) {
        (s.anchor, s.head)
    } else {
        (s.head, s.anchor)
    }
}

impl Selection {
    /// A collapsed selection at `pos`.
    pub open spec fn cursor_spec(pos: Position) -> Selection {
        Selection { anchor: pos, head: pos }
    }

    pub fn new(anchor: Position, head: Position) -> (s: Self)
        ensures
            s.anchor == anchor,
            s.head == head,
    {
        Self { anchor, head }
    }

    /// A collapsed selection sitting at `pos`.
    pub fn cursor(pos: Position) -> (s: Self)
        ensures
            s.anchor == pos,
            s.head == pos,
    {
        Self { anchor: pos, head: pos }
    }

    pub fn is_empty(&self) -> (b: bool)
        ensures
            b == (self.anchor == self.head),
    {
        self.anchor == self.head
    }

    /// Returns (start, end) where start <= end
    pub fn sorted(&self) -> (r: (Position, Position))
        ensures
            r == sorted_spec(*self),
    {
        if self.anchor <= self.head {
            (self.anchor, self.head)
        } else {
            (self.head, self.anchor)
        }
    }

    pub fn collapse(&self) -> (s: Self)
        ensures
            s.anchor == self.head,
            s.head == self.head,
    {
        Self::cursor(self.head)
    }
}

/// The endpoints returned by `sorted` are the anchor and head, in order.
pub proof fn law_sorted_endpoints(s: Selection)
    ensures
        pos_le(sorted_spec(s).0, sorted_spec(s).1),
        (sorted_spec(s).0 == s.anchor && sorted_spec(s).1 == s.head) || (sorted_spec(s).0 == s.head
            && sorted_spec(s).1 == s.anchor),
{
}

} // verus!
