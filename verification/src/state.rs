//! The state of a result cell: the one-shot slot shared between the task
//! that produces an output and the waiter that consumes it.

use vstd::prelude::*;
use crate::error::Error;

verus! {

/// The lifecycle state of a result cell.
///
/// A cell starts `Started`, and moves exactly once to one of the terminal
/// states `Finished` or `Aborted`; terminal states never change back. The
/// output stored by `Finished` may be taken at most once.
pub enum State<T> {
    /// The task has neither finished nor been aborted yet.
    Started,
    /// The task was aborted before it could run.
    Aborted,
    /// The task ran; the slot holds its output until taken.
    Finished(Option<Result<T, Error>>),
}

/// True on the two terminal states, which a cell never leaves.
pub open spec fn is_terminal<T>(s: State<T>) -> bool {
    !(s is Started)
}

impl<T> Default for State<T> {
    /// A fresh cell state: `Started`.
    fn default() -> (r: Self)
        ensures
            r is Started,
    {
        State::Started
    }
}

impl<T> State<T> {
    /// True exactly when the task has finished (its output may already be taken).
    pub fn is_finished(&self) -> (r: bool)
        ensures
            r <==> (self is Finished),
    {
        match self {
            State::Finished(_) => true,
            _ => false,
        }
    }

    /// True exactly when the task has neither finished nor been aborted.
    pub fn is_running(&self) -> (r: bool)
        ensures
            r <==> (self is Started),
    {
        !self.is_finished() && !self.is_aborted()
    }

    /// True exactly when the task was aborted.
    pub fn is_aborted(&self) -> (r: bool)
        ensures
            r <==> (self is Aborted),
    {
        match self {
            State::Aborted => true,
            _ => false,
        }
    }

    /// Moves the state to `Aborted`. A terminal state never changes, so a
    /// finished state is never aborted: callers test `is_finished` first,
    /// and the cell-level abort keeps a finished cell finished.
    pub fn abort(&mut self)
        requires
            !(*old(self) is Finished),
        ensures
            *final(self) == State::<T>::Aborted,
    {
        *self = State::Aborted;
    }

    /// Takes the output out of the slot: the stored result on the first call
    /// after finishing, `Err(Aborted)` on an aborted cell, `None` while the
    /// task still runs or once the output is gone.
    pub fn get_output(&mut self) -> (r: Option<Result<T, Error>>)
        ensures
            match *old(self) {
                State::Finished(out) => r == out && *final(self) == State::<T>::Finished(None),
                State::Aborted => (r matches Some(res) && res matches Err(e) && e is Aborted)
                    && *final(self) == State::<T>::Aborted,
                State::Started => r is None && *final(self) == State::<T>::Started,
            },
    {
        match self {
            State::Finished(o) => o.take(),
            State::Aborted => Some(Err(Error::Aborted)),
            State::Started => None,
        }
    }
}

} // verus!
