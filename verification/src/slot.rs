//! The function slot: the holder of one function's current implementation.

use vstd::prelude::*;

verus! {

/// Holds the callable that calls of one hot-reloadable function go through.
/// A slot is shared behind a lock, and the lock is held for the whole of a
/// call through it.
pub struct FunctionSlot<F> {
    callable: F,
}

impl<F> FunctionSlot<F> {
    /// The callable that the slot holds.
    pub closed spec fn current(&self) -> F {
        self.callable
    }

    /// A slot that holds `callable`.
    pub fn new(callable: F) -> (slot: FunctionSlot<F>)
        ensures
            slot.current() == callable,
    {
        FunctionSlot { callable }
    }

    /// Puts `callable` in the place of the callable held so far.
    pub fn replace(&mut self, callable: F)
        ensures
            final(self).current() == callable,
    {
        self.callable = callable;
    }

    /// Runs `call` on the callable that the slot holds and returns what it
    /// returns. The slot is borrowed until `call` is over.
    pub fn with_current<R, G: FnOnce(&F) -> R>(&self, call: G) -> (result: R)
        requires
            call.requires((&self.current(),)),
        ensures
            call.ensures((&self.current(),), result),
    {
        call(&self.callable)
    }
}

impl<F: Copy> FunctionSlot<F> {
    /// A copy of the callable that the slot holds.
    pub fn get(&self) -> (callable: F)
        ensures
            callable == self.current(),
    {
        self.callable
    }
}

} // verus!
