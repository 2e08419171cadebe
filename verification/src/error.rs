//! The error surfaced to a waiter when a task did not produce its output.

use vstd::prelude::*;

verus! {

/// The error that can be returned after spawning a task.
///
/// `Panicked` carries the panic message of a task that unwound; `Aborted` is
/// seen when the pool was stopped (or the task explicitly aborted) before the
/// task could be executed.
#[derive(Debug)]
pub enum Error {
    /// The task has panicked; the payload's message is carried along.
    Panicked(String),
    /// The task has been aborted before it could run.
    Aborted,
}

impl Error {
    /// True exactly on the `Aborted` variant.
    pub fn is_aborted(&self) -> (r: bool)
        ensures
            r <==> (self is Aborted),
    {
        match self {
            Error::Aborted => true,
            Error::Panicked(_) => false,
        }
    }
}

} // verus!
