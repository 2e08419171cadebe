//! The waiter's side of a result cell, addressed through the core by the
//! cell index that `spawn` handed out: polling for the output, installing a
//! notifier before blocking, aborting, and dropping the waiter's endpoint.
//!
//! A join handle in the threaded pool is this cell index plus the glue that
//! parks the calling thread: wait polls `try_get`, installs its park token
//! through `install_notifier` (parking only if the token was stored), and
//! polls again after waking — by then the state is terminal and the output
//! is there.

use vstd::prelude::*;
use crate::dispatcher::CoreInner;
use crate::error::Error;
use crate::state::State;

verus! {

impl<T, N> CoreInner<T, N> {
    /// Takes the output of cell `cell` if it is terminal: the stored result
    /// once after finishing, `Err(Aborted)` on an aborted cell, `None`
    /// while the task still runs or once the output is gone.
    pub fn try_get(&mut self, cell: usize) -> (r: Option<Result<T, Error>>)
        requires
            old(self).wf(),
            old(self).cell_live(cell),
        ensures
            ({
                let oc = old(self).cells@[cell as int].unwrap();
                let nc = final(self).cells@[cell as int].unwrap();
                &&& match oc.state {
                    State::Finished(out) => r == out && nc.state == State::<T>::Finished(None),
                    State::Aborted => (r matches Some(res) && res matches Err(e) && e is Aborted)
                        && nc.state == State::<T>::Aborted,
                    State::Started => r is None && nc.state == State::<T>::Started,
                }
                &&& nc.notifier == oc.notifier
                &&& nc.handles == oc.handles
            }),
            final(self).cells@.len() == old(self).cells@.len(),
            forall|i: int|
                0 <= i < old(self).cells@.len() && i != cell ==> final(self).cells@[i] == old(
                    self,
                ).cells@[i],
            final(self).tasks == old(self).tasks,
            final(self).periodics == old(self).periodics,
            final(self).driver == old(self).driver,
            final(self).timer == old(self).timer,
            final(self).exit == old(self).exit,
            final(self).wf(),
    {
        let r = self.cells[cell].as_mut().unwrap().try_get();
        proof {
            assert(final(self).wf());
        }
        r
    }

    /// Installs a waiter's notifier on cell `cell` before blocking. If the
    /// state is already terminal the notifier is handed straight back and
    /// the waiter does not block; otherwise it is stored, and the terminal
    /// transition will take it out to wake the waiter exactly once.
    pub fn install_notifier(&mut self, cell: usize, n: N) -> (r: Option<N>)
        requires
            old(self).wf(),
            old(self).cell_live(cell),
        ensures
            ({
                let oc = old(self).cells@[cell as int].unwrap();
                let nc = final(self).cells@[cell as int].unwrap();
                &&& if oc.state is Started {
                    nc.notifier == Some(n) && r is None
                } else {
                    nc.notifier == oc.notifier && r == Some(n)
                }
                &&& nc.state == oc.state
                &&& nc.handles == oc.handles
            }),
            final(self).cells@.len() == old(self).cells@.len(),
            forall|i: int|
                0 <= i < old(self).cells@.len() && i != cell ==> final(self).cells@[i] == old(
                    self,
                ).cells@[i],
            final(self).tasks == old(self).tasks,
            final(self).periodics == old(self).periodics,
            final(self).driver == old(self).driver,
            final(self).timer == old(self).timer,
            final(self).exit == old(self).exit,
            final(self).wf(),
    {
        let r = self.cells[cell].as_mut().unwrap().install_notifier(n);
        proof {
            assert(final(self).wf());
        }
        r
    }

    /// Aborts cell `cell` from the waiter's side: publishes `Aborted`
    /// unless the cell already finished — terminal states stay — and takes
    /// out any pending notifier, which the caller fires once.
    pub fn abort(&mut self, cell: usize) -> (r: Option<N>)
        requires
            old(self).wf(),
            old(self).cell_live(cell),
        ensures
            ({
                let oc = old(self).cells@[cell as int].unwrap();
                let nc = final(self).cells@[cell as int].unwrap();
                &&& nc.state == (if oc.state is Finished {
                    oc.state
                } else {
                    State::<T>::Aborted
                })
                &&& nc.notifier is None
                &&& r == oc.notifier
                &&& nc.handles == oc.handles
            }),
            final(self).cells@.len() == old(self).cells@.len(),
            forall|i: int|
                0 <= i < old(self).cells@.len() && i != cell ==> final(self).cells@[i] == old(
                    self,
                ).cells@[i],
            final(self).tasks == old(self).tasks,
            final(self).periodics == old(self).periodics,
            final(self).driver == old(self).driver,
            final(self).timer == old(self).timer,
            final(self).exit == old(self).exit,
            final(self).wf(),
    {
        let r = self.cells[cell].as_mut().unwrap().abort();
        proof {
            assert(final(self).wf());
        }
        r
    }

    /// True exactly when cell `cell` has finished (its output may already
    /// be taken).
    pub fn is_finished(&self, cell: usize) -> (r: bool)
        requires
            self.cell_live(cell),
        ensures
            r <==> self.cells@[cell as int].unwrap().state is Finished,
    {
        self.cells[cell].as_ref().unwrap().state.is_finished()
    }

    /// True exactly when cell `cell` has neither finished nor been aborted.
    pub fn is_running(&self, cell: usize) -> (r: bool)
        requires
            self.cell_live(cell),
        ensures
            r <==> self.cells@[cell as int].unwrap().state is Started,
    {
        self.cells[cell].as_ref().unwrap().state.is_running()
    }

    /// True exactly when cell `cell` was aborted.
    pub fn is_aborted(&self, cell: usize) -> (r: bool)
        requires
            self.cell_live(cell),
        ensures
            r <==> self.cells@[cell as int].unwrap().state is Aborted,
    {
        self.cells[cell].as_ref().unwrap().state.is_aborted()
    }

    /// Drops the waiter's endpoint of cell `cell`, freeing the slot when it
    /// was the last: the cell's memory is released exactly once, at the
    /// moment its endpoint count reaches zero. The waiter's endpoint is the
    /// last exactly when no record holds one (the caller's protocol: one
    /// drop per handle, after the records are done).
    pub fn drop_waiter(&mut self, cell: usize)
        requires
            old(self).wf(),
            old(self).cell_live(cell),
            old(self).cells@[cell as int].unwrap().handles >= 1,
            old(self).cells@[cell as int].unwrap().handles == 1 ==> old(self).cell_unclaimed(
                cell,
            ),
        ensures
            Self::released_cell(*old(self), *final(self), cell, false),
            final(self).cells@.len() == old(self).cells@.len(),
            forall|i: int|
                0 <= i < old(self).cells@.len() && i != cell ==> final(self).cells@[i] == old(
                    self,
                ).cells@[i],
            final(self).tasks == old(self).tasks,
            final(self).periodics == old(self).periodics,
            final(self).driver == old(self).driver,
            final(self).timer == old(self).timer,
            final(self).exit == old(self).exit,
            final(self).wf(),
    {
        let _ = self.release_cell_end(cell, false);
        proof {
            assert(final(self).wf());
        }
    }
}

} // verus!
