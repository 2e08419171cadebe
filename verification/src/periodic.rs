//! The record of a periodic task: a repeating unit of work with a period, a
//! next-due instant on the driving clock, and an optional remaining count.
//!
//! The user callable itself is held by the surrounding glue; this record is
//! the verified bookkeeping: when the task is due, how often it still runs,
//! and — through a ghost count — that a task created with count `n` is
//! invoked exactly `n` times.

use vstd::prelude::*;

verus! {

/// The bookkeeping of one periodic task. Instants are milliseconds on the
/// driving clock (any monotonic origin serves).
pub struct PeriodicTask {
    /// The period between two runs, in milliseconds.
    pub every: u64,
    /// The instant the task is next due.
    pub next: u64,
    /// How many runs remain; None repeats forever.
    pub times: Option<usize>,
    /// The index of the result cell used for abort signaling, if any.
    pub cell: Option<usize>,
    /// How many invocations of the user callable have happened.
    pub invoked: Ghost<nat>,
    /// The remaining count the task was created with, if bounded.
    pub budget: Ghost<Option<nat>>,
}

impl PeriodicTask {
    /// The count bookkeeping is consistent: for a bounded task, invocations
    /// done plus runs remaining always equal the count it was created with.
    pub open spec fn wf(&self) -> bool {
        &&& match self.times {
            Some(t) => self.budget@ == Some(self.invoked@ + t as nat),
            None => self.budget@ is None,
        }
    }

    /// A fresh record, first due one period after `now`.
    pub fn new(every: u64, now: u64, times: Option<usize>, cell: Option<usize>) -> (r: Self)
        requires
            now + every <= u64::MAX,
        ensures
            r.every == every,
            r.next == now + every,
            r.times == times,
            r.cell == cell,
            r.invoked@ == 0,
            r.wf(),
    {
        let ghost budget = match times {
            Some(t) => Some(t as nat),
            None => None,
        };
        PeriodicTask {
            every,
            next: now + every,
            times,
            cell,
            invoked: Ghost(0nat),
            budget: Ghost(budget),
        }
    }

    /// True exactly when the task is due at `now`.
    pub fn can_run(&self, now: u64) -> (r: bool)
        ensures
            r <==> now >= self.next,
    {
        now >= self.next
    }

    /// The bookkeeping of one run of the user callable: count the
    /// invocation, decrement a bounded remaining count, and decide whether
    /// the task is rescheduled (one period after `now`) or dropped.
    pub fn note_run(&mut self, now: u64) -> (resched: bool)
        requires
            old(self).wf(),
            old(self).times != Some(0usize),
            now + old(self).every <= u64::MAX,
        ensures
            final(self).invoked@ == old(self).invoked@ + 1,
            final(self).times == match old(self).times {
                Some(t) => Some((t - 1) as usize),
                None => None::<usize>,
            },
            resched <==> (final(self).times is None || final(self).times != Some(0usize)),
            final(self).next == if resched {
                (now + old(self).every) as u64
            } else {
                old(self).next
            },
            final(self).every == old(self).every,
            final(self).cell == old(self).cell,
            final(self).budget == old(self).budget,
            final(self).wf(),
    {
        proof {
            self.invoked@ = self.invoked@ + 1;
        }
        let resched: bool;
        match self.times {
            None => {
                resched = true;
            },
            Some(t) => {
                self.times = Some(t - 1);
                resched = t - 1 >= 1;
            },
        }
        if resched {
            self.next = now + self.every;
        }
        resched
    }
}

/// A bounded periodic task runs out exactly at its count: when the
/// remaining count has reached zero — the point at which the record is
/// dropped — the callable has been invoked exactly as many times as the
/// count the task was created with.
pub proof fn lemma_periodic_exact_count(p: PeriodicTask)
    requires
        p.wf(),
        p.times == Some(0usize),
    ensures
        p.budget@ == Some(p.invoked@),
{
}

/// A bounded periodic task never exceeds its count: while the record is
/// live (aborted or not), the invocations done are at most the count it was
/// created with.
pub proof fn lemma_periodic_at_most(p: PeriodicTask)
    requires
        p.wf(),
        p.times is Some,
    ensures
        p.budget@ is Some,
        p.invoked@ <= p.budget@->0,
{
}

} // verus!
