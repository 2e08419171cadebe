//! The current-pool context of one thread: an optional handle consulted by
//! the free spawning functions.
//!
//! Each thread owns one slot (the glue keeps it in a thread-local). Workers
//! install their pool's handle on entry and clear it on exit; a foreign
//! thread may enter the context through a guard, which refuses to nest.

use vstd::prelude::*;

verus! {

/// The per-thread slot holding the current pool handle, if any.
pub struct ContextSlot<H> {
    /// The handle of the pool this thread currently belongs to.
    pub current: Option<H>,
}

impl<H> ContextSlot<H> {
    /// An empty slot: the thread is outside any pool context.
    pub fn new() -> (r: Self)
        ensures
            r.current is None,
    {
        ContextSlot { current: None }
    }

    /// Installs a handle, replacing whatever was set; the worker path,
    /// which owns its thread's slot outright.
    pub fn set(&mut self, handle: H)
        ensures
            final(self).current == Some(handle),
    {
        self.current = Some(handle);
    }

    /// Empties the slot.
    pub fn clear(&mut self)
        ensures
            final(self).current is None,
    {
        self.current = None;
    }

    /// Installs a handle on a foreign thread; the guard path, which must
    /// find the slot empty — entering a context twice is fatal, so callers
    /// check `is_set` first and panic when it is already set.
    pub fn enter(&mut self, handle: H)
        requires
            old(self).current is None,
        ensures
            final(self).current == Some(handle),
    {
        self.current = Some(handle);
    }

    /// True exactly when the thread is inside a pool context.
    pub fn is_set(&self) -> (r: bool)
        ensures
            r <==> self.current is Some,
    {
        match &self.current {
            Some(_) => true,
            None => false,
        }
    }

    /// The current handle; the free spawning functions go through this, and
    /// calling without a context is fatal, so callers check `is_set` first.
    pub fn get(&self) -> (r: &H)
        requires
            self.current is Some,
        ensures
            *r == self.current.unwrap(),
    {
        match &self.current {
            Some(h) => h,
            None => unreached(),
        }
    }

    /// The current handle if the slot is set.
    pub fn try_get(&self) -> (r: Option<&H>)
        ensures
            match r {
                Some(h) => self.current == Some(*h),
                None => self.current is None,
            },
    {
        match &self.current {
            Some(h) => Some(h),
            None => None,
        }
    }
}

} // verus!
