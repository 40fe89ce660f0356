use vstd::prelude::*;
use crate::position::Position;

verus! {

/// One primitive edit: text inserted at, or deleted from, a position.
#[derive(Debug, Clone, PartialEq, Eq)]
pub enum EditOp {
    Insert { pos: Position, text: String },
    Delete { pos: Position, text: String },
}

impl EditOp {
    /// An equal copy of this operation.
    pub fn duplicate(&self) -> (r: Self)
        ensures
            r == *self,
    {
        match self {
            EditOp::Insert { pos, text } => EditOp::Insert { pos: *pos, text: text.clone() },
            EditOp::Delete { pos, text } => EditOp::Delete { pos: *pos, text: text.clone() },
        }
    }
}

/// A group of edits that is undone and redone as one step.
#[derive(Debug, Clone, PartialEq, Eq, Default)]
pub struct Transaction {
    pub ops: Vec<EditOp>,
}

impl View for Transaction {
    type V = Seq<EditOp>;

    open spec fn view(&self) -> Seq<EditOp> {
        self.ops@
    }
}

impl Transaction {
    pub fn new() -> (t: Self)
        ensures
            t@ == Seq::<EditOp>::empty(),
    {
        Transaction { ops: Vec::new() }
    }

    pub fn with_ops(ops: Vec<EditOp>) -> (t: Self)
        ensures
            t@ == ops@,
    {
        Self { ops }
    }

    pub fn push(&mut self, op: EditOp)
        ensures
            final(self)@ == old(self)@.push(op),
    {
        self.ops.push(op);
    }

    pub fn is_empty(&self) -> (b: bool)
        ensures
            b == (self@.len() == 0),
    {
        self.ops.len() == 0
    }

    /// A copy holding equal operations in the same order.
    pub fn duplicate(&self) -> (r: Self)
        ensures
            r@ == self@,
    {
        let mut ops: Vec<EditOp> = Vec::new();
        let n = self.ops.len();
        let mut i: usize = 0;
        while i < n
            invariant
                n == self.ops@.len(),
                i <= n,
                ops@ == self.ops@.take(i as int),
            decreases n - i,
        {
            ops.push(self.ops[i].duplicate());
            proof {
                assert(self.ops@.take(i + 1) =~= self.ops@.take(i as int).push(self.ops@[i as int]));
            }
            i = i + 1;
        }
        proof {
            assert(self.ops@.take(n as int) =~= self.ops@);
        }
        Transaction { ops }
    }
}

/// The undo and redo stacks of an editing session.
#[derive(Debug, Clone, PartialEq, Eq, Default)]
pub struct UndoManager {
    undo_stack: Vec<Transaction>,
    redo_stack: Vec<Transaction>,
}

/// The transactions of a stack, bottom first, as sequences of operations.
pub open spec fn stack_view(s: Seq<Transaction>) -> Seq<Seq<EditOp>> {
    s.map_values(|t: Transaction| t@)
}

impl UndoManager {
    /// The undo stack, bottom first; its last element is undone next.
    pub closed spec fn undo_seq(&self) -> Seq<Seq<EditOp>> {
        stack_view(self.undo_stack@)
    }

    /// The redo stack, bottom first; its last element is redone next.
    pub closed spec fn redo_seq(&self) -> Seq<Seq<EditOp>> {
        stack_view(self.redo_stack@)
    }

    pub fn new() -> (m: Self)
        ensures
            m.undo_seq() == Seq::<Seq<EditOp>>::empty(),
            m.redo_seq() == Seq::<Seq<EditOp>>::empty(),
    {
        let m = UndoManager { undo_stack: Vec::new(), redo_stack: Vec::new() };
        proof {
            assert(m.undo_seq() =~= Seq::<Seq<EditOp>>::empty());
            assert(m.redo_seq() =~= Seq::<Seq<EditOp>>::empty());
        }
        m
    }

    /// Records a new transaction; an empty one is ignored. Recording a
    /// transaction discards everything that could have been redone.
    pub fn push(&mut self, transaction: Transaction)
        ensures
            transaction@.len() == 0 ==> *final(self) == *old(self),
            transaction@.len() != 0 ==> final(self).undo_seq() == old(self).undo_seq().push(
                transaction@,
            ),
            transaction@.len() != 0 ==> final(self).redo_seq() == Seq::<Seq<EditOp>>::empty(),
    {
        if !transaction.is_empty() {
            let ghost t = transaction@;
            self.undo_stack.push(transaction);
            self.redo_stack.clear();
            proof {
                assert(self.undo_seq() =~= old(self).undo_seq().push(t));
                assert(self.redo_seq() =~= Seq::<Seq<EditOp>>::empty());
            }
        }
    }

    pub fn can_undo(&self) -> (b: bool)
        ensures
            b == (self.undo_seq().len() > 0),
    {
        self.undo_stack.len() > 0
    }

    pub fn can_redo(&self) -> (b: bool)
        ensures
            b == (self.redo_seq().len() > 0),
    {
        self.redo_stack.len() > 0
    }

    /// Takes the most recent transaction off the undo stack, moves a copy of
    /// it to the redo stack and returns it.
    pub fn undo(&mut self) -> (r: Option<Transaction>)
        ensures
            old(self).undo_seq().len() == 0 ==> r is None && *final(self) == *old(self),
            old(self).undo_seq().len() > 0 ==> {
                &&& r is Some
                &&& r->0@ == old(self).undo_seq().last()
                &&& final(self).undo_seq() == old(self).undo_seq().drop_last()
                &&& final(self).redo_seq() == old(self).redo_seq().push(r->0@)
            },
    {
        if self.undo_stack.len() > 0 {
            let txn = self.undo_stack.pop().unwrap();
            let copy = txn.duplicate();
            self.redo_stack.push(copy);
            proof {
                assert(self.undo_seq() =~= old(self).undo_seq().drop_last());
                assert(self.redo_seq() =~= old(self).redo_seq().push(txn@));
            }
            Some(txn)
        } else {
            None
        }
    }

    /// Takes the most recently undone transaction off the redo stack, moves a
    /// copy of it to the undo stack and returns it.
    pub fn redo(&mut self) -> (r: Option<Transaction>)
        ensures
            old(self).redo_seq().len() == 0 ==> r is None && *final(self) == *old(self),
            old(self).redo_seq().len() > 0 ==> {
                &&& r is Some
                &&& r->0@ == old(self).redo_seq().last()
                &&& final(self).redo_seq() == old(self).redo_seq().drop_last()
                &&& final(self).undo_seq() == old(self).undo_seq().push(r->0@)
            },
    {
        if self.redo_stack.len() > 0 {
            let txn = self.redo_stack.pop().unwrap();
            let copy = txn.duplicate();
            self.undo_stack.push(copy);
            proof {
                assert(self.redo_seq() =~= old(self).redo_seq().drop_last());
                assert(self.undo_seq() =~= old(self).undo_seq().push(txn@));
            }
            Some(txn)
        } else {
            None
        }
    }

    pub fn undo_len(&self) -> (n: usize)
        ensures
            n == self.undo_seq().len(),
    {
        self.undo_stack.len()
    }

    pub fn redo_len(&self) -> (n: usize)
        ensures
            n == self.redo_seq().len(),
    {
        self.redo_stack.len()
    }
}

} // verus!
