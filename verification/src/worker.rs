//! The worker's step decisions. A worker thread loops: promote due periodic
//! records, sleep when there is nothing ready, pop one entry and run it,
//! and exit once the pool is stopped. The loop body's outside work — the
//! condvar sleep, the user callable under its panic guard — is performed by
//! the glue; each decision between those steps is taken here.

use vstd::prelude::*;
use vstd::seq_lib::group_filter_ensures;
use crate::dispatcher::CoreInner;
use crate::driver::{Entry, task_entry, periodic_entry};
use crate::error::Error;
use crate::timer::{due_pred, not_due_pred, entry_fn, lemma_filter_no_dup};

verus! {

broadcast use group_filter_ensures;

/// What a worker does next, decided by one poll of the core.
pub enum WorkerStep {
    /// The pool is stopped: leave the loop.
    Exit,
    /// Nothing is ready: sleep on the condvar — bounded when the timer
    /// still holds records that will become due, unbounded otherwise.
    Sleep { bounded: bool },
    /// Run the one-shot task record; report its outcome to `complete_task`.
    RunTask { task: usize },
    /// Run the periodic record's callable once; then call
    /// `complete_periodic` for the rescheduling decision.
    RunPeriodic { periodic: usize },
    /// The popped entry was consumed without running (its cell was already
    /// aborted, or a bounded count was exhausted): poll again.
    Skipped,
}

impl<T, N> CoreInner<T, N> {
    /// The ready queue after the timer promote at `now`: the queued entries
    /// followed by the due periodic records, in waiting order.
    pub open spec fn promoted_queue(self, now: u64) -> Seq<Entry> {
        self.driver.items() + self.timer.waiting@.filter(due_pred(self.periodics@, now)).map_values(
            entry_fn(),
        )
    }

    /// The timer after the promote at `now`: the records not yet due.
    pub open spec fn promoted_waiting(self, now: u64) -> Seq<usize> {
        self.timer.waiting@.filter(not_due_pred(self.periodics@, now))
    }

    /// Promotes every due periodic record from the timer onto the ready
    /// queue; returns how many were promoted, each of which asks for one
    /// worker wake-up. In the threaded pool, at most one worker scans at a
    /// time (the timer lock is only tried); the scan itself is this.
    pub fn try_schedule_periodical(&mut self, now: u64) -> (promoted: usize)
        requires
            old(self).wf(),
        ensures
            final(self).driver.items() == old(self).promoted_queue(now),
            final(self).timer.waiting@ == old(self).promoted_waiting(now),
            promoted == old(self).timer.waiting@.filter(due_pred(old(self).periodics@, now)).len(),
            final(self).cells == old(self).cells,
            final(self).tasks == old(self).tasks,
            final(self).periodics == old(self).periodics,
            final(self).exit == old(self).exit,
            final(self).wf(),
    {
        let ghost d = due_pred(self.periodics@, now);
        let ghost nd = not_due_pred(self.periodics@, now);
        let ghost oldw = self.timer.waiting@;
        let ghost oldq = self.driver.items();
        proof {
            assert forall|j: int| 0 <= j < oldw.len() implies crate::timer::valid_periodic(
                self.periodics@,
                #[trigger] oldw[j],
            ) by {
                assert(self.periodic_live(oldw[j]));
            }
        }
        let promoted = {
            let periodics = &self.periodics;
            let timer = &mut self.timer;
            let driver = &mut self.driver;
            timer.schedule_available(periodics, now, driver)
        };
        proof {
            lemma_filter_no_dup(oldw, d);
            lemma_filter_no_dup(oldw, nd);
            let q = self.driver.items();
            let w = self.timer.waiting@;
            let dues = oldw.filter(d);
            assert forall|j: int| 0 <= j < q.len() implies self.entry_ok(#[trigger] q[j]) by {
                if j < oldq.len() {
                    assert(q[j] == oldq[j]);
                    assert(old(self).entry_ok(oldq[j]));
                } else {
                    let id = dues[j - oldq.len()];
                    assert(q[j] == periodic_entry(id));
                    assert(oldw.contains(id));
                    let wj = choose|wj: int| 0 <= wj < oldw.len() && oldw[wj] == id;
                    assert(old(self).periodic_live(oldw[wj]));
                }
            }
            assert forall|j: int, k: int| 0 <= j < k < q.len() implies q[j] != q[k] by {
                if k < oldq.len() {
                } else {
                    let idk = dues[k - oldq.len()];
                    assert(q[k] == periodic_entry(idk));
                    if j < oldq.len() {
                        assert(oldw.contains(idk));
                        let wk = choose|wk: int| 0 <= wk < oldw.len() && oldw[wk] == idk;
                        assert(periodic_entry(oldw[wk]) != oldq[j]);
                    } else {
                        assert(dues[j - oldq.len()] != idk);
                    }
                }
            }
            assert forall|j: int| 0 <= j < w.len() implies self.periodic_live(#[trigger] w[j]) by {
                assert(w[j] == oldw.filter(nd)[j]);
                assert(oldw.contains(w[j]));
                let wj = choose|wj: int| 0 <= wj < oldw.len() && oldw[wj] == w[j];
                assert(old(self).periodic_live(oldw[wj]));
            }
            assert forall|j: int, k: int|
                0 <= j < w.len() && 0 <= k < q.len() implies periodic_entry(#[trigger] w[j])
                != #[trigger] q[k] by {
                assert(nd(w[j]));
                assert(oldw.contains(w[j]));
                if k < oldq.len() {
                    let wj = choose|wj: int| 0 <= wj < oldw.len() && oldw[wj] == w[j];
                    assert(periodic_entry(oldw[wj]) != oldq[k]);
                } else {
                    let idk = dues[k - oldq.len()];
                    assert(d(idk));
                    assert(q[k] == periodic_entry(idk));
                }
            }
            assert(final(self).wf());
        }
        promoted
    }

    /// One poll of a worker's loop: exit if the pool is stopped; promote
    /// due periodic records; sleep if nothing is ready — so after any push
    /// onto the ready queue, a polling worker finds work rather than sleep;
    /// otherwise pop the oldest entry and decide. A popped entry whose cell
    /// was already aborted, or a periodic record submitted with a zero
    /// count, is consumed without running.
    pub fn worker_poll(&mut self, now: u64) -> (step: WorkerStep)
        requires
            old(self).wf(),
        ensures
            old(self).exit ==> step is Exit && *final(self) == *old(self),
            // Wake completeness: when anything has been pushed onto the
            // ready queue, a polling worker pops instead of sleeping.
            !old(self).exit && old(self).promoted_queue(now).len() > 0 ==> !(step is Sleep),
            !old(self).exit ==> ({
                let pq = old(self).promoted_queue(now);
                let pw = old(self).promoted_waiting(now);
                &&& final(self).timer.waiting@ == pw
                &&& final(self).exit == old(self).exit
                &&& final(self).cells@.len() == old(self).cells@.len()
                &&& final(self).tasks@.len() == old(self).tasks@.len()
                &&& final(self).periodics@.len() == old(self).periodics@.len()
                &&& if pq.len() == 0 {
                    &&& step == (WorkerStep::Sleep { bounded: pw.len() > 0 })
                    &&& final(self).driver.items().len() == 0
                    &&& final(self).cells == old(self).cells
                    &&& final(self).tasks == old(self).tasks
                    &&& final(self).periodics == old(self).periodics
                } else {
                    let e = pq[0];
                    &&& final(self).driver.items() == pq.drop_first()
                    &&& if !e.0 {
                        let rec = old(self).tasks@[e.1 as int].unwrap();
                        let aborted = match rec.cell {
                            Some(c) => old(self).cells@[c as int].unwrap().state is Aborted,
                            None => false,
                        };
                        if aborted {
                            &&& step is Skipped
                            &&& final(self).tasks@ == old(self).tasks@.update(e.1 as int, None)
                            &&& final(self).periodics == old(self).periodics
                            &&& Self::released_cell(
                                *old(self),
                                *final(self),
                                rec.cell.unwrap(),
                                false,
                            )
                            &&& forall|i: int|
                                0 <= i < old(self).cells@.len() && i != rec.cell.unwrap()
                                    ==> final(self).cells@[i] == old(self).cells@[i]
                        } else {
                            &&& step == (WorkerStep::RunTask { task: e.1 })
                            &&& final(self).tasks == old(self).tasks
                            &&& final(self).periodics == old(self).periodics
                            &&& final(self).cells == old(self).cells
                            &&& !final(self).queued_task(e.1)
                        }
                    } else {
                        let rec = old(self).periodics@[e.1 as int].unwrap();
                        let aborted = match rec.cell {
                            Some(c) => old(self).cells@[c as int].unwrap().state is Aborted,
                            None => false,
                        };
                        if aborted || rec.times == Some(0usize) {
                            &&& step is Skipped
                            &&& final(self).periodics@ == old(self).periodics@.update(
                                e.1 as int,
                                None,
                            )
                            &&& final(self).tasks == old(self).tasks
                            &&& match rec.cell {
                                Some(c) => Self::released_cell(*old(self), *final(self), c, false)
                                    && (forall|i: int|
                                    0 <= i < old(self).cells@.len() && i != c
                                        ==> final(self).cells@[i] == old(self).cells@[i]),
                                None => final(self).cells == old(self).cells,
                            }
                        } else {
                            &&& step == (WorkerStep::RunPeriodic { periodic: e.1 })
                            &&& final(self).tasks == old(self).tasks
                            &&& final(self).periodics == old(self).periodics
                            &&& final(self).cells == old(self).cells
                            &&& !final(self).queued_periodic(e.1)
                            &&& !final(self).timer.waiting@.contains(e.1)
                        }
                    }
                }
                &&& final(self).wf()
            }),
    {
        if self.exit {
            return WorkerStep::Exit;
        }
        self.try_schedule_periodical(now);
        let ghost mid = *self;
        let timer_busy = self.timer.waiting.len() > 0;
        match self.driver.pop() {
            None => WorkerStep::Sleep { bounded: timer_busy },
            Some(crate::driver::Either::Left(tid)) => {
                proof {
                    assert(mid.entry_ok(mid.driver.items()[0]));
                    assert(mid.driver.items()[0] == task_entry(tid));
                    assert forall|j: int|
                        0 <= j < self.driver.items().len() implies #[trigger] self.driver.items()[j]
                        != task_entry(tid) by {
                        assert(self.driver.items()[j] == mid.driver.items()[j + 1]);
                    }
                    assert(!self.queued_task(tid));
                }
                let cellopt = self.tasks[tid].as_ref().unwrap().cell;
                let aborted = match cellopt {
                    Some(c) => {
                        proof {
                            assert(mid.rec_cell_ok(Some(c)));
                        }
                        self.cells[c].as_ref().unwrap().state.is_aborted()
                    },
                    None => false,
                };
                if aborted {
                    let ghost before = *self;
                    let slot = &mut self.tasks[tid];
                    let rec = slot.take().unwrap();
                    self.free_tasks.push(tid);
                    proof {
                        assert(self.tasks@ =~= before.tasks@.update(tid as int, None));
                        crate::dispatcher::lemma_free_push(
                            before.tasks@,
                            self.tasks@,
                            before.free_tasks@,
                            tid,
                        );
                    }
                    match rec.cell {
                        Some(c) => {
                            let _ = self.release_cell_end(c, false);
                        },
                        None => (),
                    }
                    proof {
                        assert(final(self).wf());
                    }
                    WorkerStep::Skipped
                } else {
                    proof {
                        assert(final(self).wf());
                    }
                    WorkerStep::RunTask { task: tid }
                }
            },
            Some(crate::driver::Either::Right(pid)) => {
                proof {
                    assert(mid.entry_ok(mid.driver.items()[0]));
                    assert(mid.driver.items()[0] == periodic_entry(pid));
                    assert forall|j: int|
                        0 <= j < self.driver.items().len() implies #[trigger] self.driver.items()[j]
                        != periodic_entry(pid) by {
                        assert(self.driver.items()[j] == mid.driver.items()[j + 1]);
                    }
                    assert(!self.queued_periodic(pid));
                    assert forall|j: int|
                        0 <= j < self.timer.waiting@.len() implies #[trigger] self.timer.waiting@[j]
                        != pid by {
                        assert(periodic_entry(mid.timer.waiting@[j]) != mid.driver.items()[0]);
                    }
                    assert(!self.timer.waiting@.contains(pid));
                }
                let rec_ref = self.periodics[pid].as_ref().unwrap();
                let cellopt = rec_ref.cell;
                let exhausted = match rec_ref.times {
                    Some(t) => t == 0,
                    None => false,
                };
                let aborted = match cellopt {
                    Some(c) => {
                        proof {
                            assert(mid.rec_cell_ok(Some(c)));
                        }
                        self.cells[c].as_ref().unwrap().state.is_aborted()
                    },
                    None => false,
                };
                if aborted || exhausted {
                    let ghost before = *self;
                    let slot = &mut self.periodics[pid];
                    let rec = slot.take().unwrap();
                    self.free_periodics.push(pid);
                    proof {
                        assert(self.periodics@ =~= before.periodics@.update(pid as int, None));
                        crate::dispatcher::lemma_free_push(
                            before.periodics@,
                            self.periodics@,
                            before.free_periodics@,
                            pid,
                        );
                    }
                    match rec.cell {
                        Some(c) => {
                            let _ = self.release_cell_end(c, false);
                        },
                        None => (),
                    }
                    proof {
                        assert(final(self).wf());
                    }
                    WorkerStep::Skipped
                } else {
                    proof {
                        assert(final(self).wf());
                    }
                    WorkerStep::RunPeriodic { periodic: pid }
                }
            },
        }
    }

    /// Reports the outcome of running the one-shot task record `task`: the
    /// record is consumed, the outcome is published into its cell — unless
    /// the cell was aborted while the task ran: a terminal state stays —
    /// and the task's endpoint is dropped. Returns the waiter's notifier to
    /// fire, if one was installed and the outcome was published. A panic in
    /// the task arrives here as an `Err(Panicked)` outcome like any other:
    /// the worker carries on polling afterwards.
    pub fn complete_task(&mut self, task: usize, outcome: Result<T, Error>) -> (notify: Option<
        N,
    >)
        requires
            old(self).wf(),
            old(self).task_live(task),
            !old(self).queued_task(task),
        ensures
            final(self).tasks@ == old(self).tasks@.update(task as int, None),
            ({
                let rec = old(self).tasks@[task as int].unwrap();
                match rec.cell {
                    Some(c) => {
                        let oc = old(self).cells@[c as int].unwrap();
                        let published = oc.state is Started;
                        &&& notify == (if published {
                            oc.notifier
                        } else {
                            Option::<N>::None
                        })
                        &&& if oc.handles == 1 {
                            final(self).cells@[c as int] is None
                        } else {
                            final(self).cells@[c as int] matches Some(nc) && nc.handles
                                == oc.handles - 1 && nc.state == (if published {
                                crate::state::State::Finished(Some(outcome))
                            } else {
                                oc.state
                            }) && nc.notifier == (if published {
                                None
                            } else {
                                oc.notifier
                            })
                        }
                        &&& forall|i: int|
                            0 <= i < old(self).cells@.len() && i != c ==> final(self).cells@[i]
                                == old(self).cells@[i]
                    },
                    None => final(self).cells == old(self).cells && notify is None,
                }
            }),
            final(self).cells@.len() == old(self).cells@.len(),
            final(self).driver == old(self).driver,
            final(self).timer == old(self).timer,
            final(self).periodics == old(self).periodics,
            final(self).exit == old(self).exit,
            final(self).wf(),
    {
        let slot = &mut self.tasks[task];
        let rec = slot.take().unwrap();
        self.free_tasks.push(task);
        proof {
            assert(rec == old(self).tasks@[task as int].unwrap());
            assert(self.tasks@ =~= old(self).tasks@.update(task as int, None));
            crate::dispatcher::lemma_free_push(
                old(self).tasks@,
                self.tasks@,
                old(self).free_tasks@,
                task,
            );
        }
        match rec.cell {
            Some(c) => {
                proof {
                    assert(old(self).rec_cell_ok(Some(c)));
                }
                let notify = self.publish_cell_end(c, outcome);
                proof {
                    assert(final(self).wf());
                }
                notify
            },
            None => {
                proof {
                    assert(final(self).wf());
                }
                None
            },
        }
    }

    /// Reports that the periodic record `periodic`'s callable ran once at
    /// `now`: the run is counted against a bounded remaining count, and the
    /// record is rescheduled one period ahead — back onto the ready queue
    /// if the period is zero, into the timer otherwise — unless its count
    /// is exhausted, its cell was aborted meanwhile, or the pool is
    /// stopping: then the record is dropped and its cell endpoint released.
    /// Returns whether the record was rescheduled.
    pub fn complete_periodic(&mut self, periodic: usize, now: u64) -> (resched: bool)
        requires
            old(self).wf(),
            old(self).periodic_live(periodic),
            !old(self).queued_periodic(periodic),
            !old(self).timer.waiting@.contains(periodic),
            old(self).periodics@[periodic as int].unwrap().times != Some(0usize),
            now + old(self).periodics@[periodic as int].unwrap().every <= u64::MAX,
        ensures
            ({
                let rec = old(self).periodics@[periodic as int].unwrap();
                let aborted = match rec.cell {
                    Some(c) => old(self).cells@[c as int].unwrap().state is Aborted,
                    None => false,
                };
                let more = match rec.times {
                    None => true,
                    Some(t) => t >= 2,
                };
                &&& resched == (more && !aborted && !old(self).exit)
                &&& if resched {
                    &&& final(self).periodics@ =~= old(self).periodics@.update(
                        periodic as int,
                        final(self).periodics@[periodic as int],
                    )
                    &&& final(self).periodics@[periodic as int] matches Some(nr)
                        && nr.every == rec.every && nr.cell == rec.cell && nr.next == now
                        + rec.every && nr.times == (match rec.times {
                        Some(t) => Some((t - 1) as usize),
                        None => None::<usize>,
                    }) && nr.invoked@ == rec.invoked@ + 1 && nr.budget == rec.budget
                    &&& final(self).cells == old(self).cells
                    &&& if rec.every == 0 {
                        final(self).driver.items() == old(self).driver.items().push(
                            periodic_entry(periodic),
                        ) && final(self).timer == old(self).timer
                    } else {
                        final(self).timer.waiting@ == old(self).timer.waiting@.push(periodic)
                            && final(self).driver == old(self).driver
                    }
                } else {
                    &&& final(self).periodics@ == old(self).periodics@.update(
                        periodic as int,
                        None,
                    )
                    &&& match rec.cell {
                        Some(c) => Self::released_cell(*old(self), *final(self), c, false)
                            && (forall|i: int|
                            0 <= i < old(self).cells@.len() && i != c ==> final(self).cells@[i]
                                == old(self).cells@[i]),
                        None => final(self).cells == old(self).cells,
                    }
                    &&& final(self).driver == old(self).driver
                    &&& final(self).timer == old(self).timer
                }
            }),
            final(self).cells@.len() == old(self).cells@.len(),
            final(self).tasks == old(self).tasks,
            final(self).exit == old(self).exit,
            final(self).wf(),
    {
        let slot = &mut self.periodics[periodic];
        let mut rec = slot.take().unwrap();
        proof {
            assert(rec == old(self).periodics@[periodic as int].unwrap());
            assert(old(self).rec_cell_ok(rec.cell));
            assert(rec.wf());
        }
        let aborted = match rec.cell {
            Some(c) => self.cells[c].as_ref().unwrap().state.is_aborted(),
            None => false,
        };
        let more = rec.note_run(now);
        if more && !aborted && !self.exit {
            let due = rec.can_run(now);
            self.periodics[periodic] = Some(rec);
            proof {
                assert forall|j: int|
                    0 <= j < self.timer.waiting@.len() implies self.periodic_live(
                    #[trigger] self.timer.waiting@[j],
                ) by {
                    assert(old(self).periodic_live(self.timer.waiting@[j]));
                }
                assert forall|j: int|
                    0 <= j < self.driver.items().len() implies self.entry_ok(
                    #[trigger] self.driver.items()[j],
                ) by {
                    assert(old(self).entry_ok(self.driver.items()[j]));
                }
            }
            if due {
                self.driver.schedule((true, periodic));
                proof {
                    let q = self.driver.items();
                    let oldq = old(self).driver.items();
                    assert forall|j: int| 0 <= j < q.len() implies self.entry_ok(
                        #[trigger] q[j],
                    ) by {
                        if j < oldq.len() {
                            assert(q[j] == oldq[j]);
                            assert(old(self).entry_ok(oldq[j]));
                        }
                    }
                    assert forall|j: int, k: int| 0 <= j < k < q.len() implies q[j] != q[k] by {
                        if k == oldq.len() {
                            assert(q[k] == periodic_entry(periodic));
                            assert(oldq[j] != periodic_entry(periodic));
                        }
                    }
                    assert forall|j: int, k: int|
                        0 <= j < self.timer.waiting@.len() && 0 <= k < q.len() implies
                        periodic_entry(#[trigger] self.timer.waiting@[j]) != #[trigger] q[k] by {
                        if k < oldq.len() {
                            assert(q[k] == oldq[k]);
                        } else {
                            assert(q[k] == periodic_entry(periodic));
                            assert(self.timer.waiting@[j] != periodic);
                        }
                    }
                    assert(final(self).wf());
                }
            } else {
                self.timer.schedule(periodic);
                proof {
                    let w = self.timer.waiting@;
                    let oldw = old(self).timer.waiting@;
                    assert forall|j: int| 0 <= j < w.len() implies self.periodic_live(
                        #[trigger] w[j],
                    ) by {
                        if j < oldw.len() {
                            assert(w[j] == oldw[j]);
                            assert(old(self).periodic_live(oldw[j]));
                        }
                    }
                    assert forall|j: int, k: int| 0 <= j < k < w.len() implies w[j] != w[k] by {
                        if k == oldw.len() {
                            assert(w[k] == periodic);
                            assert(oldw[j] != periodic);
                        }
                    }
                    assert forall|j: int, k: int|
                        0 <= j < w.len() && 0 <= k < self.driver.items().len() implies
                        periodic_entry(#[trigger] w[j]) != #[trigger] self.driver.items()[k] by {
                        if j < oldw.len() {
                            assert(w[j] == oldw[j]);
                        } else {
                            assert(w[j] == periodic);
                            assert(!old(self).queued_periodic(periodic));
                            assert(old(self).driver.items()[k] != periodic_entry(periodic));
                        }
                    }
                    assert(final(self).wf());
                }
            }
            true
        } else {
            self.free_periodics.push(periodic);
            proof {
                assert(self.periodics@ =~= old(self).periodics@.update(periodic as int, None));
                crate::dispatcher::lemma_free_push(
                    old(self).periodics@,
                    self.periodics@,
                    old(self).free_periodics@,
                    periodic,
                );
            }
            match rec.cell {
                Some(c) => {
                    let _ = self.release_cell_end(c, false);
                },
                None => (),
            }
            proof {
                assert(final(self).wf());
            }
            false
        }
    }
}

} // verus!
