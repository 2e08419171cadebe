//! What can be spawned into the pool: a unit of work consumed by one run.

use vstd::prelude::*;

verus! {

/// A unit of work that the pool can execute once.
///
/// Any `FnOnce() -> Ret` closure is `Runnable` through the blanket
/// implementation below; `pre` and `post` expose the closure's own
/// precondition and postcondition to callers of `run`.
pub trait Runnable: Sized + Send + 'static {
    /// The type of the value the task returns when executed.
    type Output: Sized + 'static;

    /// What must hold before the task may run.
    spec fn pre(self) -> bool;

    /// What holds of the task's output.
    spec fn post(self, r: Self::Output) -> bool;

    /// The task's function body.
    fn run(self) -> (r: Self::Output)
        requires
            self.pre(),
        ensures
            self.post(r),
    ;
}

impl<Fun, Ret> Runnable for Fun
    where
        Fun: FnOnce() -> Ret + Send + 'static,
        Ret: Sized + 'static,
{
    type Output = Ret;

    open spec fn pre(self) -> bool {
        call_requires(self, ())
    }

    open spec fn post(self, r: Ret) -> bool {
        call_ensures(self, (), r)
    }

    fn run(self) -> (r: Ret) {
        (self)()
    }
}

} // verus!
