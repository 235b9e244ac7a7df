//! Undo/redo history: a bounded stack of undoable actions and a stack of
//! undone ones.

use vstd::prelude::*;
use std::collections::VecDeque;

verus! {

/// The undo stack after recording `a` with room for `cap` actions: the oldest
/// action is dropped when the stack is full.
pub open spec fn after_push<A>(undo: Seq<A>, cap: nat, a: A) -> Seq<A> {
    (if undo.len() >= cap {
        undo.drop_first()
    } else {
        undo
    }).push(a)
}

/// The (undo, redo) stacks after an undo: the newest undoable action moves to
/// the redo stack; with nothing to undo, nothing changes.
pub open spec fn undo_step<A>(undo: Seq<A>, redo: Seq<A>) -> (Seq<A>, Seq<A>) {
    if undo.len() == 0 {
        (undo, redo)
    } else {
        (undo.drop_last(), redo.push(undo.last()))
    }
}

/// The (undo, redo) stacks after a redo: the newest undone action moves back
/// to the undo stack; with nothing to redo, nothing changes.
pub open spec fn redo_step<A>(undo: Seq<A>, redo: Seq<A>) -> (Seq<A>, Seq<A>) {
    if redo.len() == 0 {
        (undo, redo)
    } else {
        (undo.push(redo.last()), redo.drop_last())
    }
}

/// Undo/redo history holding at most `max_size` undoable actions. Every
/// operation takes constant time: the oldest action leaves the front of a
/// double-ended queue.
pub struct HistoryStack<A> {
    undo_stack: VecDeque<A>,
    redo_stack: Vec<A>,
    max_size: usize,
}

impl<A> HistoryStack<A> {
    /// The undoable and the undone actions together never exceed the
    /// capacity.
    #[verifier::type_invariant]
    spec fn within_capacity(self) -> bool {
        self.undo_stack@.len() + self.redo_stack@.len() <= self.max_size
    }
}

impl<A: Clone> HistoryStack<A> {
    /// The undoable actions, oldest first.
    pub closed spec fn undo_items(&self) -> Seq<A> {
        self.undo_stack@
    }

    /// The undone actions, oldest first (the next to redo last).
    pub closed spec fn redo_items(&self) -> Seq<A> {
        self.redo_stack@
    }

    /// How many undoable actions are kept.
    pub closed spec fn capacity(&self) -> nat {
        self.max_size as nat
    }

    /// An empty history keeping at most `max_size` undoable actions.
    pub fn new(max_size: usize) -> (res: Self)
        ensures
            res.undo_items().len() == 0,
            res.redo_items().len() == 0,
            res.capacity() == max_size,
    {
        HistoryStack { undo_stack: VecDeque::new(), redo_stack: Vec::new(), max_size }
    }

    /// Record a new action; the oldest is dropped when the history is full,
    /// and everything undone is forgotten. (Recording into an empty history
    /// of capacity 0 is out of bounds.)
    pub fn push(&mut self, action: A)
        requires
            old(self).undo_items().len() > 0 || old(self).capacity() > 0,
        ensures
            final(self).undo_items() == after_push(
                old(self).undo_items(),
                old(self).capacity(),
                action,
            ),
            final(self).redo_items().len() == 0,
            final(self).capacity() == old(self).capacity(),
            final(self).undo_items().len() + final(self).redo_items().len() <= final(self).capacity(),
    {
        proof {
            use_type_invariant(&*self);
        }
        let mut undo: VecDeque<A> = VecDeque::new();
        std::mem::swap(&mut undo, &mut self.undo_stack);
        let mut redo: Vec<A> = Vec::new();
        std::mem::swap(&mut redo, &mut self.redo_stack);
        if undo.len() >= self.max_size {
            let _ = undo.pop_front();
        }
        undo.push_back(action);
        assert(undo@ =~= after_push(old(self).undo_stack@, old(self).capacity(), action));
        self.undo_stack = undo;
    }

    /// Undo the newest action: it moves to the redo stack and a copy of it is
    /// returned; `None` when there is nothing to undo.
    pub fn undo(&mut self) -> (res: Option<A>)
        ensures
            (final(self).undo_items(), final(self).redo_items()) == undo_step(
                old(self).undo_items(),
                old(self).redo_items(),
            ),
            final(self).capacity() == old(self).capacity(),
            match res {
                Some(a) => old(self).undo_items().len() > 0 && cloned(old(self).undo_items().last(), a),
                None => old(self).undo_items().len() == 0,
            },
            final(self).undo_items().len() + final(self).redo_items().len() <= final(self).capacity(),
    {
        proof {
            use_type_invariant(&*self);
        }
        let mut undo: VecDeque<A> = VecDeque::new();
        std::mem::swap(&mut undo, &mut self.undo_stack);
        let mut redo: Vec<A> = Vec::new();
        std::mem::swap(&mut redo, &mut self.redo_stack);
        match undo.pop_back() {
            Some(action) => {
                let copy = action.clone();
                redo.push(action);
                assert(undo@ =~= old(self).undo_stack@.drop_last());
                self.undo_stack = undo;
                self.redo_stack = redo;
                Some(copy)
            },
            None => {
                self.undo_stack = undo;
                self.redo_stack = redo;
                None
            },
        }
    }

    /// Redo the newest undone action: it moves back to the undo stack and a
    /// copy of it is returned; `None` when there is nothing to redo.
    pub fn redo(&mut self) -> (res: Option<A>)
        ensures
            (final(self).undo_items(), final(self).redo_items()) == redo_step(
                old(self).undo_items(),
                old(self).redo_items(),
            ),
            final(self).capacity() == old(self).capacity(),
            match res {
                Some(a) => old(self).redo_items().len() > 0 && cloned(old(self).redo_items().last(), a),
                None => old(self).redo_items().len() == 0,
            },
            final(self).undo_items().len() + final(self).redo_items().len() <= final(self).capacity(),
    {
        proof {
            use_type_invariant(&*self);
        }
        let mut undo: VecDeque<A> = VecDeque::new();
        std::mem::swap(&mut undo, &mut self.undo_stack);
        let mut redo: Vec<A> = Vec::new();
        std::mem::swap(&mut redo, &mut self.redo_stack);
        match redo.pop() {
            Some(action) => {
                let copy = action.clone();
                undo.push_back(action);
                assert(redo@ =~= old(self).redo_stack@.drop_last());
                self.redo_stack = redo;
                self.undo_stack = undo;
                Some(copy)
            },
            None => {
                self.redo_stack = redo;
                self.undo_stack = undo;
                None
            },
        }
    }

    /// Whether there is an action to undo.
    pub fn can_undo(&self) -> (res: bool)
        ensures
            res == (self.undo_items().len() > 0),
    {
        self.undo_stack.len() > 0
    }

    /// Whether there is an action to redo.
    pub fn can_redo(&self) -> (res: bool)
        ensures
            res == (self.redo_items().len() > 0),
    {
        !self.redo_stack.is_empty()
    }

    /// The number of undoable actions (together with the undone ones, never
    /// more than the capacity).
    pub fn undo_count(&self) -> (res: usize)
        ensures
            res == self.undo_items().len(),
            self.undo_items().len() + self.redo_items().len() <= self.capacity(),
    {
        proof {
            use_type_invariant(self);
        }
        self.undo_stack.len()
    }

    /// The number of undone actions.
    pub fn redo_count(&self) -> (res: usize)
        ensures
            res == self.redo_items().len(),
    {
        self.redo_stack.len()
    }

    /// Forget all history.
    pub fn clear(&mut self)
        ensures
            final(self).undo_items().len() == 0,
            final(self).redo_items().len() == 0,
            final(self).capacity() == old(self).capacity(),
    {
        proof {
            use_type_invariant(&*self);
        }
        self.undo_stack = VecDeque::new();
        self.redo_stack = Vec::new();
    }
}

/// Undoing and then redoing gives back both stacks as they were.
pub proof fn lemma_undo_then_redo<A>(undo: Seq<A>, redo: Seq<A>)
    requires
        undo.len() > 0,
    ensures
        ({
            let (u, r) = undo_step(undo, redo);
            redo_step(u, r)
        }) == (undo, redo),
{
    assert(undo.drop_last().push(undo.last()) =~= undo);
    assert(redo.push(undo.last()).drop_last() =~= redo);
}

/// Redoing and then undoing gives back both stacks as they were.
pub proof fn lemma_redo_then_undo<A>(undo: Seq<A>, redo: Seq<A>)
    requires
        redo.len() > 0,
    ensures
        ({
            let (u, r) = redo_step(undo, redo);
            undo_step(u, r)
        }) == (undo, redo),
{
    assert(redo.drop_last().push(redo.last()) =~= redo);
    assert(undo.push(redo.last()).drop_last() =~= undo);
}

/// Undo and redo move one action between the stacks: the total number of
/// actions held never changes.
pub proof fn lemma_steps_keep_total<A>(undo: Seq<A>, redo: Seq<A>)
    ensures
        ({
            let (u, r) = undo_step(undo, redo);
            u.len() + r.len()
        }) == undo.len() + redo.len(),
        ({
            let (u, r) = redo_step(undo, redo);
            u.len() + r.len()
        }) == undo.len() + redo.len(),
{
}

/// Recording never lets the undo stack grow past the capacity (when it was
/// within it), and it always keeps the new action as the newest.
pub proof fn lemma_push_bounded<A>(undo: Seq<A>, cap: nat, a: A)
    requires
        cap > 0,
        undo.len() <= cap,
    ensures
        after_push(undo, cap, a).len() <= cap,
        after_push(undo, cap, a).last() == a,
        after_push(undo, cap, a).len() == if undo.len() == cap {
            cap
        } else {
            undo.len() + 1
        },
{
}

/// With room for at least one action, the undo and redo stacks together never
/// hold more than the capacity: recording, undoing and redoing all keep the
/// total within it.
pub proof fn lemma_total_within_capacity<A>(undo: Seq<A>, redo: Seq<A>, cap: nat, a: A)
    requires
        cap > 0,
        undo.len() + redo.len() <= cap,
    ensures
        after_push(undo, cap, a).len() <= cap,
        ({
            let (u, r) = undo_step(undo, redo);
            u.len() + r.len() <= cap
        }),
        ({
            let (u, r) = redo_step(undo, redo);
            u.len() + r.len() <= cap
        }),
{
}

} // verus!
