//! The result cell: a one-shot slot holding the cell state, an optional
//! notifier and a reference count of endpoints, shared between the task that
//! publishes an output and the waiter that consumes it.
//!
//! The cell itself is plain data; the caller serialises access to it (a
//! single mutex in the driving glue). Every transition is a method here, so
//! the cell protocol is checked: a terminal state is published exactly once,
//! the notifier is consumed together with the terminal transition, and the
//! endpoint count falls to zero exactly once.

use vstd::prelude::*;
use crate::error::Error;
use crate::state::{State, is_terminal};

verus! {

/// The shared result cell.
///
/// `T` is the output type of the task; `N` is the notifier installed by a
/// waiter (a park token or a wake callback — the cell only stores and hands
/// it back, so any type serves).
pub struct Inner<T, N> {
    /// The lifecycle state plus the output slot.
    pub state: State<T>,
    /// The notifier a waiter installed, if any; consumed by the terminal
    /// transition, to be fired exactly once by the caller.
    pub notifier: Option<N>,
    /// The number of live endpoints onto this cell.
    pub handles: u8,
}

/// The transitions a cell state can make through the operations of this
/// module: stay, publish a terminal state from `Started`, or take the stored
/// output out of `Finished`.
pub open spec fn cell_step<T>(pre: State<T>, post: State<T>) -> bool {
    ||| post == pre
    ||| (pre is Started && post is Aborted)
    ||| (pre is Started && (post matches State::Finished(o) && o is Some))
    ||| (pre is Finished && post == State::<T>::Finished(None))
}

/// Once a cell state is terminal, every further step keeps the variant:
/// `Finished` stays `Finished`, `Aborted` stays `Aborted` (the state only
/// moves forward through Started → {Finished | Aborted}).
pub proof fn lemma_step_monotonic<T>(pre: State<T>, post: State<T>)
    requires
        cell_step(pre, post),
    ensures
        pre is Finished ==> post is Finished,
        pre is Aborted ==> post is Aborted,
{
}

/// Monotonicity over a whole history: in any sequence of states linked by
/// cell steps, a state that is terminal at some point keeps its variant at
/// every later point.
pub proof fn lemma_trace_monotonic<T>(trace: Seq<State<T>>, i: int, j: int)
    requires
        forall|k: int| 0 <= k < trace.len() - 1 ==> #[trigger] cell_step(trace[k], trace[k + 1]),
        0 <= i <= j < trace.len(),
    ensures
        trace[i] is Finished ==> trace[j] is Finished,
        trace[i] is Aborted ==> trace[j] is Aborted,
    decreases j - i,
{
    if i < j {
        lemma_trace_monotonic(trace, i, j - 1);
        assert(cell_step(trace[j - 1], trace[j - 1 + 1]));
        lemma_step_monotonic(trace[j - 1], trace[j]);
    }
}

/// A waiter observes exactly one outcome: in any history of cell steps,
/// once the state is terminal it is either finished or aborted, never both,
/// and every later state keeps that same variant — so the output taken is
/// the stored result exactly when the task finished, and `Aborted` exactly
/// when it was aborted.
pub proof fn lemma_one_terminal_outcome<T>(trace: Seq<State<T>>, i: int, j: int)
    requires
        forall|k: int| 0 <= k < trace.len() - 1 ==> #[trigger] cell_step(trace[k], trace[k + 1]),
        0 <= i <= j < trace.len(),
        is_terminal(trace[i]),
    ensures
        is_terminal(trace[j]),
        (trace[j] is Finished) <==> (trace[i] is Finished),
        (trace[j] is Aborted) <==> (trace[i] is Aborted),
        (trace[j] is Finished) <==> !(trace[j] is Aborted),
{
    lemma_trace_monotonic(trace, i, j);
}

impl<T, N> Inner<T, N> {
    /// A fresh cell: state `Started`, no notifier, one endpoint.
    pub fn new() -> (r: Self)
        ensures
            r.state is Started,
            r.notifier is None,
            r.handles == 1,
    {
        Inner { state: State::Started, notifier: None, handles: 1 }
    }

    /// Stores the task's output, moving the state to `Finished`. Publishing
    /// happens at most once: the state must still be `Started`.
    pub fn finish(&mut self, data: Result<T, Error>)
        requires
            old(self).state is Started,
        ensures
            final(self).state == State::Finished(Some(data)),
            final(self).notifier == old(self).notifier,
            final(self).handles == old(self).handles,
            cell_step(old(self).state, final(self).state),
    {
        self.state = State::Finished(Some(data));
    }

    /// Publishes the task's output and takes out the notifier to fire, in
    /// one transition, so that exactly one wake follows the terminal state.
    pub fn set_result(&mut self, data: Result<T, Error>) -> (r: Option<N>)
        requires
            old(self).state is Started,
        ensures
            final(self).state == State::Finished(Some(data)),
            final(self).notifier is None,
            r == old(self).notifier,
            final(self).handles == old(self).handles,
            cell_step(old(self).state, final(self).state),
    {
        self.finish(data);
        self.notifier.take()
    }

    /// Publishes `Aborted` and takes out the notifier to fire. On a cell
    /// that already finished, the state stays `Finished` (terminal states
    /// are stable), but a pending notifier is still consumed so a waiter is
    /// not left blocked.
    pub fn abort(&mut self) -> (r: Option<N>)
        ensures
            final(self).state == if old(self).state is Finished {
                old(self).state
            } else {
                State::<T>::Aborted
            },
            final(self).notifier is None,
            r == old(self).notifier,
            final(self).handles == old(self).handles,
            cell_step(old(self).state, final(self).state),
    {
        if !self.state.is_finished() {
            self.state.abort();
        }
        self.notifier.take()
    }

    /// Takes the output if the cell is terminal: the stored result once
    /// after finishing, `Err(Aborted)` on an aborted cell, `None` otherwise.
    pub fn try_get(&mut self) -> (r: Option<Result<T, Error>>)
        ensures
            match old(self).state {
                State::Finished(out) => r == out
                    && final(self).state == State::<T>::Finished(None),
                State::Aborted => (r matches Some(res) && res matches Err(e) && e is Aborted)
                    && final(self).state == State::<T>::Aborted,
                State::Started => r is None && final(self).state == State::<T>::Started,
            },
            final(self).notifier == old(self).notifier,
            final(self).handles == old(self).handles,
            cell_step(old(self).state, final(self).state),
    {
        self.state.get_output()
    }

    /// A waiter installs its notifier before blocking. If the state is
    /// already terminal the notifier is handed straight back: the installer
    /// wakes itself instead of storing, so no wake is lost. Installing while
    /// running replaces any earlier notifier (a poll installs a fresh wake
    /// callback each time).
    pub fn install_notifier(&mut self, n: N) -> (r: Option<N>)
        ensures
            if old(self).state is Started {
                final(self).notifier == Some(n) && r is None
            } else {
                final(self).notifier == old(self).notifier && r == Some(n)
            },
            final(self).state == old(self).state,
            final(self).handles == old(self).handles,
    {
        if self.state.is_running() {
            self.notifier = Some(n);
            None
        } else {
            Some(n)
        }
    }

    /// Adds an endpoint onto the cell.
    pub fn create_end(&mut self)
        requires
            old(self).handles < u8::MAX,
        ensures
            final(self).handles == old(self).handles + 1,
            final(self).state == old(self).state,
            final(self).notifier == old(self).notifier,
    {
        self.handles = self.handles + 1;
    }

    /// Removes an endpoint, returning true exactly when the removed endpoint
    /// was the last one: the single point at which the cell is released.
    pub fn drop_end(&mut self) -> (r: bool)
        requires
            old(self).handles >= 1,
        ensures
            final(self).handles == old(self).handles - 1,
            r <==> (old(self).handles == 1),
            r <==> (final(self).handles == 0),
            final(self).state == old(self).state,
            final(self).notifier == old(self).notifier,
    {
        let last = self.handles == 1;
        self.handles = self.handles - 1;
        last
    }
}

/// Out of `n` endpoints dropped one by one, exactly the last drop reports
/// the cell released: the count after `k` drops is `n - k`, and only the
/// `n`-th drop moves it to zero.
pub proof fn lemma_released_exactly_once(n: nat, k: nat)
    requires
        1 <= k <= n,
    ensures
        ((n - k) == 0) <==> (k == n),
        (n - k) >= 0,
{
}

} // verus!
