//! The structured-concurrency region: a scope lets tasks borrow from the
//! enclosing stack frame, and must not return before every scope-spawned
//! task has completed.
//!
//! The barrier is a counter of live sub-tasks: spawn increments it before
//! the task is handed to the queue, completion decrements it, and the
//! decrement that reaches zero unparks the scope's thread. The ghost counts
//! of spawned and completed tasks make the barrier provable: when the
//! counter is zero, every task spawned has completed.

use vstd::prelude::*;

verus! {

/// The shared state of one scope: the count of sub-tasks that are spawned
/// but not yet completed, with the ghost history it summarises.
pub struct ScopeInner {
    /// How many scope-spawned tasks have not completed yet.
    pub running_tasks: usize,
    /// How many tasks the scope has spawned.
    pub spawned: Ghost<nat>,
    /// How many scope-spawned tasks have completed.
    pub completed: Ghost<nat>,
}

impl ScopeInner {
    /// The counter equals spawned minus completed tasks.
    pub open spec fn wf(&self) -> bool {
        &&& self.completed@ <= self.spawned@
        &&& self.running_tasks == self.spawned@ - self.completed@
    }

    /// A fresh scope: nothing spawned yet.
    pub fn new() -> (r: Self)
        ensures
            r.running_tasks == 0,
            r.spawned@ == 0,
            r.completed@ == 0,
            r.wf(),
    {
        ScopeInner { running_tasks: 0, spawned: Ghost(0nat), completed: Ghost(0nat) }
    }

    /// Counts one more live sub-task; called before the task is handed to
    /// the queue. The bound keeps a runaway spawner from overflowing the
    /// counter; past it, spawning is fatal, so callers check it first.
    pub fn increment_task_number(&mut self)
        requires
            old(self).wf(),
            old(self).running_tasks <= usize::MAX / 2,
        ensures
            final(self).running_tasks == old(self).running_tasks + 1,
            final(self).spawned@ == old(self).spawned@ + 1,
            final(self).completed@ == old(self).completed@,
            final(self).wf(),
    {
        self.running_tasks = self.running_tasks + 1;
        proof {
            self.spawned@ = self.spawned@ + 1;
        }
    }

    /// Counts one sub-task as completed; runs after the user callable
    /// returned, even by panic. Returns true exactly when this was the last
    /// live sub-task: then the scope's parked thread must be unparked.
    pub fn decrement_task_number(&mut self) -> (unpark: bool)
        requires
            old(self).wf(),
            old(self).running_tasks >= 1,
        ensures
            final(self).running_tasks == old(self).running_tasks - 1,
            final(self).completed@ == old(self).completed@ + 1,
            final(self).spawned@ == old(self).spawned@,
            unpark <==> final(self).running_tasks == 0,
            final(self).wf(),
    {
        self.running_tasks = self.running_tasks - 1;
        proof {
            self.completed@ = self.completed@ + 1;
        }
        self.running_tasks == 0
    }

    /// The wait decision of `scoped`: the scope's thread parks again
    /// exactly while sub-tasks are still live.
    pub fn should_park(&self) -> (r: bool)
        ensures
            r <==> self.running_tasks != 0,
    {
        self.running_tasks != 0
    }
}

/// The scope barrier: when the counter has reached zero — the condition on
/// which `scoped` stops parking and returns — every task the scope spawned
/// has completed, so borrows captured by those tasks are free again.
pub proof fn lemma_scope_barrier(s: ScopeInner)
    requires
        s.wf(),
        s.running_tasks == 0,
    ensures
        s.completed@ == s.spawned@,
{
}

} // verus!
