//! The dispatcher core shared by every worker thread and handle: the ready
//! queue, the timer, the tables of task records and result cells, and the
//! exit flag.
//!
//! The core is a sequential state machine; the glue around it serialises
//! access (one mutex) and performs what the machine decides: waking workers
//! after a submission, sleeping when told to, running user callables and
//! reporting their outcome back. Records and cells are held in tables and
//! named by index, so the queues hold plain entries; an index is never
//! reused, a freed slot stays empty.

use vstd::prelude::*;
use crate::driver::{Driver, Entry, task_entry, periodic_entry};
use crate::error::Error;
use crate::periodic::PeriodicTask;
use crate::timer::Timer;
use crate::wait::Inner;

verus! {

/// The record of one submitted one-shot task: the index of its result
/// cell, if a join handle was taken. The callable itself is keyed by the
/// record index in the driving glue.
pub struct TaskRec {
    /// The index of the task's result cell, if any.
    pub cell: Option<usize>,
}

/// The core shared among all worker threads and handles.
pub struct CoreInner<T, N> {
    /// The queue of ready entries of the pool.
    pub driver: Driver,
    /// The timer holding periodic records that are not yet due.
    pub timer: Timer,
    /// The result cells, by index; a freed slot stays `None`.
    pub cells: Vec<Option<Inner<T, N>>>,
    /// The one-shot task records, by index.
    pub tasks: Vec<Option<TaskRec>>,
    /// The periodic task records, by index.
    pub periodics: Vec<Option<PeriodicTask>>,
    /// The freed result-cell slots, ready for reuse.
    pub free_cells: Vec<usize>,
    /// The freed one-shot task slots, ready for reuse.
    pub free_tasks: Vec<usize>,
    /// The freed periodic slots, ready for reuse.
    pub free_periodics: Vec<usize>,
    /// Whether the pool should exit; written exactly once, by shutdown.
    pub exit: bool,
}

/// A free list is sound for its table: every listed index names an empty
/// slot, each at most once.
pub open spec fn free_list_ok<A>(table: Seq<Option<A>>, free: Seq<usize>) -> bool {
    &&& forall|k: int|
        0 <= k < free.len() ==> (#[trigger] free[k]) < table.len() && table[free[k] as int]
            is None
    &&& forall|k: int, l: int| 0 <= k < l < free.len() ==> free[k] != free[l]
}

/// How allocating into a slot table changes it: the value lands either in
/// a fresh slot at the end or in a freed slot, leaving every other slot
/// unchanged.
pub open spec fn placed<A>(pre: Seq<Option<A>>, post: Seq<Option<A>>, id: usize, value: A) -> bool {
    ||| (id == pre.len() && post == pre.push(Some(value)))
    ||| (id < pre.len() && pre[id as int] is None && post == pre.update(id as int, Some(value)))
}

/// Emptying a live slot and listing its index keeps the free list sound:
/// the index was not listed before (its slot was occupied), and every
/// other listed slot is untouched.
pub proof fn lemma_free_push<A>(
    pre_table: Seq<Option<A>>,
    post_table: Seq<Option<A>>,
    pre_free: Seq<usize>,
    id: usize,
)
    requires
        free_list_ok(pre_table, pre_free),
        id < pre_table.len(),
        pre_table[id as int] is Some,
        post_table == pre_table.update(id as int, None),
    ensures
        free_list_ok(post_table, pre_free.push(id)),
{
    let post_free = pre_free.push(id);
    assert forall|k: int|
        0 <= k < post_free.len() implies (#[trigger] post_free[k]) < post_table.len()
        && post_table[post_free[k] as int] is None by {
        if k < pre_free.len() {
            assert(pre_free[k] < pre_table.len() && pre_table[pre_free[k] as int] is None);
        }
    }
    assert forall|k: int, l: int| 0 <= k < l < post_free.len() implies post_free[k]
        != post_free[l] by {
        if l == pre_free.len() {
            assert(pre_free[k] < pre_table.len() && pre_table[pre_free[k] as int] is None);
        }
    }
}

/// Places a value into a table, reusing a freed slot if one is listed and
/// appending a fresh one otherwise; keeps the free list sound.
fn place<A>(table: &mut Vec<Option<A>>, free: &mut Vec<usize>, value: A) -> (id: usize)
    requires
        free_list_ok(old(table)@, old(free)@),
    ensures
        placed(old(table)@, final(table)@, id, value),
        free_list_ok(final(table)@, final(free)@),
{
    match free.pop() {
        Some(id) => {
            proof {
                assert(old(free)@[old(free)@.len() - 1] == id);
                assert(id < table@.len() && table@[id as int] is None);
            }
            table[id] = Some(value);
            proof {
                let post_free = free@;
                assert forall|k: int|
                    0 <= k < post_free.len() implies (#[trigger] post_free[k]) < table@.len()
                    && table@[post_free[k] as int] is None by {
                    assert(post_free[k] == old(free)@[k]);
                    assert(old(free)@[k] < old(table)@.len()
                        && old(table)@[old(free)@[k] as int] is None);
                    assert(old(free)@[k] != id);
                }
                assert forall|k: int, l: int| 0 <= k < l < post_free.len() implies post_free[k]
                    != post_free[l] by {
                    assert(old(free)@[k] != old(free)@[l]);
                }
            }
            id
        },
        None => {
            let id = table.len();
            table.push(Some(value));
            proof {
                assert forall|k: int|
                    0 <= k < free@.len() implies (#[trigger] free@[k]) < table@.len()
                    && table@[free@[k] as int] is None by {
                    assert(old(free)@[k] < old(table)@.len()
                        && old(table)@[old(free)@[k] as int] is None);
                }
            }
            id
        },
    }
}

impl<T, N> CoreInner<T, N> {
    /// True when `id` names a live one-shot task record.
    pub open spec fn task_live(self, id: usize) -> bool {
        id < self.tasks@.len() && self.tasks@[id as int] is Some
    }

    /// True when `id` names a live periodic task record.
    pub open spec fn periodic_live(self, id: usize) -> bool {
        id < self.periodics@.len() && self.periodics@[id as int] is Some
    }

    /// True when `c` names a live result cell.
    pub open spec fn cell_live(self, c: usize) -> bool {
        c < self.cells@.len() && self.cells@[c as int] is Some
    }

    /// True when a ready-queue entry names a live record of its kind.
    pub open spec fn entry_ok(self, e: Entry) -> bool {
        if e.0 {
            self.periodic_live(e.1)
        } else {
            self.task_live(e.1)
        }
    }

    /// True when a record's cell reference is sound: absent, or naming a
    /// live cell that still counts the record's endpoint.
    pub open spec fn rec_cell_ok(self, cell: Option<usize>) -> bool {
        match cell {
            Some(c) => self.cell_live(c) && self.cells@[c as int].unwrap().handles >= 1,
            None => true,
        }
    }

    /// True when no live record holds an endpoint of cell `c`: the last
    /// counted endpoint is then held outside, and the cell may be freed
    /// when that endpoint drops.
    pub open spec fn cell_unclaimed(self, c: usize) -> bool {
        &&& forall|i: int|
            0 <= i < self.tasks@.len() && self.tasks@[i] is Some
                ==> (#[trigger] self.tasks@[i]).unwrap().cell != Some(c)
        &&& forall|i: int|
            0 <= i < self.periodics@.len() && self.periodics@[i] is Some
                ==> (#[trigger] self.periodics@[i]).unwrap().cell != Some(c)
    }

    /// The well-formedness of the core, preserved by every operation:
    /// queue and timer entries name live records exactly once, records
    /// reference live cells with a counted endpoint, and no two records
    /// share a cell.
    pub open spec fn wf(self) -> bool {
        let q = self.driver.items();
        let w = self.timer.waiting@;
        &&& forall|j: int| 0 <= j < q.len() ==> self.entry_ok(#[trigger] q[j])
        &&& forall|j: int, k: int| 0 <= j < k < q.len() ==> q[j] != q[k]
        &&& forall|j: int| 0 <= j < w.len() ==> self.periodic_live(#[trigger] w[j])
        &&& forall|j: int, k: int| 0 <= j < k < w.len() ==> w[j] != w[k]
        &&& forall|j: int, k: int|
            0 <= j < w.len() && 0 <= k < q.len() ==> periodic_entry(#[trigger] w[j])
                != #[trigger] q[k]
        &&& forall|i: int|
            0 <= i < self.tasks@.len() && self.tasks@[i] is Some ==> self.rec_cell_ok(
                (#[trigger] self.tasks@[i]).unwrap().cell,
            )
        &&& forall|i: int|
            0 <= i < self.periodics@.len() && self.periodics@[i] is Some ==> self.rec_cell_ok(
                (#[trigger] self.periodics@[i]).unwrap().cell,
            ) && (#[trigger] self.periodics@[i]).unwrap().wf()
        &&& forall|i: int, j: int|
            0 <= i < self.tasks@.len() && self.tasks@[i] is Some && 0 <= j < self.tasks@.len()
                && self.tasks@[j] is Some && i != j && (#[trigger] self.tasks@[i]).unwrap().cell
                is Some ==> (#[trigger] self.tasks@[i]).unwrap().cell
                != (#[trigger] self.tasks@[j]).unwrap().cell
        &&& forall|i: int, j: int|
            0 <= i < self.periodics@.len() && self.periodics@[i] is Some && 0 <= j
                < self.periodics@.len() && self.periodics@[j] is Some && i != j
                && (#[trigger] self.periodics@[i]).unwrap().cell is Some
                ==> (#[trigger] self.periodics@[i]).unwrap().cell
                != (#[trigger] self.periodics@[j]).unwrap().cell
        &&& forall|i: int, j: int|
            0 <= i < self.tasks@.len() && self.tasks@[i] is Some && 0 <= j
                < self.periodics@.len() && self.periodics@[j] is Some
                && (#[trigger] self.tasks@[i]).unwrap().cell is Some
                ==> (#[trigger] self.tasks@[i]).unwrap().cell
                != (#[trigger] self.periodics@[j]).unwrap().cell
        &&& free_list_ok(self.cells@, self.free_cells@)
        &&& free_list_ok(self.tasks@, self.free_tasks@)
        &&& free_list_ok(self.periodics@, self.free_periodics@)
    }

    /// True when the ready queue holds the one-shot task record `tid`.
    pub open spec fn queued_task(self, tid: usize) -> bool {
        self.driver.items().contains(task_entry(tid))
    }

    /// True when the ready queue holds the periodic record `pid`.
    pub open spec fn queued_periodic(self, pid: usize) -> bool {
        self.driver.items().contains(periodic_entry(pid))
    }

    /// True when some record named by the ready queue holds an endpoint of
    /// cell `c`.
    pub open spec fn cell_queued(self, c: usize) -> bool {
        ||| exists|tid: usize|
            self.queued_task(tid) && self.task_live(tid)
                && (#[trigger] self.tasks@[tid as int]).unwrap().cell == Some(c)
        ||| exists|pid: usize|
            self.queued_periodic(pid) && self.periodic_live(pid)
                && (#[trigger] self.periodics@[pid as int]).unwrap().cell == Some(c)
    }

    /// How one endpoint-release changes cell `c` from `pre` to `post`:
    /// the last endpoint frees the slot; otherwise the count drops by one,
    /// and an aborting release publishes `Aborted` (unless the cell already
    /// finished) and consumes the notifier.
    pub open spec fn released_cell(pre: Self, post: Self, c: usize, abort: bool) -> bool {
        let oc = pre.cells@[c as int].unwrap();
        if oc.handles == 1 {
            post.cells@[c as int] is None
        } else {
            post.cells@[c as int] matches Some(nc) && nc.handles == oc.handles - 1 && nc.state
                == (if abort && !(oc.state is Finished) {
                crate::state::State::<T>::Aborted
            } else {
                oc.state
            }) && nc.notifier == (if abort {
                None
            } else {
                oc.notifier
            })
        }
    }

    /// What shutdown does to the queued one-shot record `tid`: the record
    /// is consumed, and its cell (if any) is aborted and loses the record's
    /// endpoint, so a waiter observes `Aborted`.
    pub open spec fn shutdown_task_post(pre: Self, post: Self, tid: usize) -> bool {
        &&& post.tasks@[tid as int] is None
        &&& match pre.tasks@[tid as int].unwrap().cell {
            Some(c) => Self::released_cell(pre, post, c, true),
            None => true,
        }
    }

    /// What shutdown does to the queued periodic record `pid`: like every
    /// task still in the ready queue it is aborted — the record is dropped,
    /// and its cell is aborted and loses the record's endpoint.
    pub open spec fn shutdown_periodic_post(pre: Self, post: Self, pid: usize) -> bool {
        &&& post.periodics@[pid as int] is None
        &&& match pre.periodics@[pid as int].unwrap().cell {
            Some(c) => Self::released_cell(pre, post, c, true),
            None => true,
        }
    }

    /// The notifiers shutdown collects while aborting the records named by
    /// `entries`, in queue order: one per aborted cell that had a notifier
    /// installed.
    pub open spec fn collected_notifiers(pre: Self, entries: Seq<Entry>) -> Seq<N>
        decreases entries.len(),
    {
        if entries.len() == 0 {
            Seq::empty()
        } else {
            let rest = Self::collected_notifiers(pre, entries.drop_last());
            let e = entries.last();
            let cell = if !e.0 {
                pre.tasks@[e.1 as int].unwrap().cell
            } else {
                pre.periodics@[e.1 as int].unwrap().cell
            };
            match cell {
                Some(c) => match pre.cells@[c as int].unwrap().notifier {
                    Some(n) => rest.push(n),
                    None => rest,
                },
                None => rest,
            }
        }
    }

    /// Removes one endpoint of cell `c`, freeing the slot when it was the
    /// last; an aborting release first publishes `Aborted` (terminal states
    /// stay) and takes out the notifier, which the caller fires.
    pub(crate) fn release_cell_end(&mut self, c: usize, abort: bool) -> (notify: Option<N>)
        requires
            old(self).cell_live(c),
            old(self).cells@[c as int].unwrap().handles >= 1,
            free_list_ok(old(self).cells@, old(self).free_cells@),
        ensures
            free_list_ok(final(self).cells@, final(self).free_cells@),
            final(self).free_tasks == old(self).free_tasks,
            final(self).free_periodics == old(self).free_periodics,
            notify == (if abort {
                old(self).cells@[c as int].unwrap().notifier
            } else {
                Option::<N>::None
            }),
            Self::released_cell(*old(self), *final(self), c, abort),
            final(self).cells@.len() == old(self).cells@.len(),
            forall|i: int|
                0 <= i < old(self).cells@.len() && i != c ==> final(self).cells@[i] == old(
                    self,
                ).cells@[i],
            final(self).tasks == old(self).tasks,
            final(self).periodics == old(self).periodics,
            final(self).driver == old(self).driver,
            final(self).timer == old(self).timer,
            final(self).exit == old(self).exit,
    {
        let slot = &mut self.cells[c];
        let mut cell = slot.take().unwrap();
        let notify = if abort {
            cell.abort()
        } else {
            None
        };
        let last = cell.drop_end();
        if !last {
            self.cells[c] = Some(cell);
            proof {
                assert forall|k: int|
                    0 <= k < self.free_cells@.len() implies (#[trigger] self.free_cells@[k])
                    < self.cells@.len() && self.cells@[self.free_cells@[k] as int] is None by {
                    assert(old(self).free_cells@[k] < old(self).cells@.len()
                        && old(self).cells@[old(self).free_cells@[k] as int] is None);
                }
            }
        } else {
            self.free_cells.push(c);
            proof {
                assert(self.cells@ =~= old(self).cells@.update(c as int, None));
                lemma_free_push(old(self).cells@, self.cells@, old(self).free_cells@, c);
            }
        }
        notify
    }

    /// Publishes a finished task's outcome into cell `c` — only if the cell
    /// still runs: a terminal state already published stays — and removes
    /// the task's endpoint, freeing the slot when it was the last. Returns
    /// the notifier to fire when the outcome was published.
    pub(crate) fn publish_cell_end(&mut self, c: usize, outcome: Result<T, Error>) -> (notify:
        Option<N>)
        requires
            old(self).cell_live(c),
            old(self).cells@[c as int].unwrap().handles >= 1,
            free_list_ok(old(self).cells@, old(self).free_cells@),
        ensures
            free_list_ok(final(self).cells@, final(self).free_cells@),
            final(self).free_tasks == old(self).free_tasks,
            final(self).free_periodics == old(self).free_periodics,
            ({
                let oc = old(self).cells@[c as int].unwrap();
                let published = oc.state is Started;
                &&& notify == (if published {
                    oc.notifier
                } else {
                    Option::<N>::None
                })
                &&& if oc.handles == 1 {
                    final(self).cells@[c as int] is None
                } else {
                    final(self).cells@[c as int] matches Some(nc) && nc.handles == oc.handles - 1
                        && nc.state == (if published {
                        crate::state::State::Finished(Some(outcome))
                    } else {
                        oc.state
                    }) && nc.notifier == (if published {
                        None
                    } else {
                        oc.notifier
                    })
                }
            }),
            final(self).cells@.len() == old(self).cells@.len(),
            forall|i: int|
                0 <= i < old(self).cells@.len() && i != c ==> final(self).cells@[i] == old(
                    self,
                ).cells@[i],
            final(self).tasks == old(self).tasks,
            final(self).periodics == old(self).periodics,
            final(self).driver == old(self).driver,
            final(self).timer == old(self).timer,
            final(self).exit == old(self).exit,
    {
        let slot = &mut self.cells[c];
        let mut cell = slot.take().unwrap();
        let notify = if cell.state.is_running() {
            cell.set_result(outcome)
        } else {
            None
        };
        let last = cell.drop_end();
        if !last {
            self.cells[c] = Some(cell);
            proof {
                assert forall|k: int|
                    0 <= k < self.free_cells@.len() implies (#[trigger] self.free_cells@[k])
                    < self.cells@.len() && self.cells@[self.free_cells@[k] as int] is None by {
                    assert(old(self).free_cells@[k] < old(self).cells@.len()
                        && old(self).cells@[old(self).free_cells@[k] as int] is None);
                }
            }
        } else {
            self.free_cells.push(c);
            proof {
                assert(self.cells@ =~= old(self).cells@.update(c as int, None));
                lemma_free_push(old(self).cells@, self.cells@, old(self).free_cells@, c);
            }
        }
        notify
    }

    /// A fresh core: empty queues and tables, not exiting.
    pub fn new() -> (r: Self)
        ensures
            r.driver.items().len() == 0,
            r.timer.waiting@.len() == 0,
            r.cells@.len() == 0,
            r.tasks@.len() == 0,
            r.periodics@.len() == 0,
            !r.exit,
            r.wf(),
    {
        CoreInner {
            driver: Driver::default(),
            timer: Timer::default(),
            cells: Vec::new(),
            tasks: Vec::new(),
            periodics: Vec::new(),
            free_cells: Vec::new(),
            free_tasks: Vec::new(),
            free_periodics: Vec::new(),
            exit: false,
        }
    }

    /// Stops the pool: drains the ready queue, aborting each entry still
    /// waiting there — a one-shot task's cell is aborted so its waiter
    /// observes `Aborted`; a queued periodic record is dropped with its
    /// cell aborted likewise — then sets the exit flag. Returns the notifiers taken out of the aborted
    /// cells; the caller fires each once, broadcasts to all sleeping
    /// workers and joins the worker threads. Shutdown of a stopped pool is
    /// fatal, so callers check `exit` first; in-flight tasks are not
    /// cancelled and still publish their outcome.
    pub fn shutdown(&mut self) -> (notifies: Vec<N>)
        requires
            !old(self).exit,
            old(self).wf(),
        ensures
            final(self).exit,
            final(self).driver.items().len() == 0,
            final(self).timer == old(self).timer,
            final(self).cells@.len() == old(self).cells@.len(),
            final(self).tasks@.len() == old(self).tasks@.len(),
            final(self).periodics@.len() == old(self).periodics@.len(),
            forall|j: int|
                0 <= j < old(self).driver.items().len() && !(#[trigger] old(self).driver.items()[j]).0 ==> Self::shutdown_task_post(
                    *old(self),
                    *final(self),
                    old(self).driver.items()[j].1,
                ),
            forall|j: int|
                0 <= j < old(self).driver.items().len() && (#[trigger] old(self).driver.items()[j]).0 ==> Self::shutdown_periodic_post(
                    *old(self),
                    *final(self),
                    old(self).driver.items()[j].1,
                ),
            forall|i: usize|
                i < old(self).tasks@.len() && !old(self).queued_task(i) ==> final(self).tasks@[i as int] == old(self).tasks@[i as int],
            forall|i: usize|
                i < old(self).periodics@.len() && !old(self).queued_periodic(i) ==> final(self).periodics@[i as int] == old(self).periodics@[i as int],
            forall|c: usize|
                c < old(self).cells@.len() && !old(self).cell_queued(c) ==> final(self).cells@[c as int] == old(self).cells@[c as int],
            notifies@ == Self::collected_notifiers(*old(self), old(self).driver.items()),
            final(self).wf(),
    {
        let ghost pre = *old(self);
        let drained = self.driver.clear();
        let ghost dr = drained@;
        let mut notifies: Vec<N> = Vec::new();
        let mut k: usize = 0;
        while k < drained.len()
            invariant
                pre == *old(self),
                dr == drained@,
                dr == pre.driver.items(),
                pre.wf(),
                k <= dr.len(),
                self.driver.items().len() == 0,
                self.timer == pre.timer,
                self.exit == pre.exit,
                self.cells@.len() == pre.cells@.len(),
                self.tasks@.len() == pre.tasks@.len(),
                self.periodics@.len() == pre.periodics@.len(),
                forall|j: int|
                    0 <= j < k && !(#[trigger] dr[j]).0 ==> Self::shutdown_task_post(
                        pre,
                        *self,
                        dr[j].1,
                    ),
                forall|j: int|
                    0 <= j < k && (#[trigger] dr[j]).0 ==> Self::shutdown_periodic_post(
                        pre,
                        *self,
                        dr[j].1,
                    ),
                forall|j: int|
                    k <= j < dr.len() && !(#[trigger] dr[j]).0 ==> self.tasks@[dr[j].1 as int]
                        == pre.tasks@[dr[j].1 as int],
                forall|j: int|
                    k <= j < dr.len() && (#[trigger] dr[j]).0 ==> self.periodics@[dr[j].1 as int]
                        == pre.periodics@[dr[j].1 as int],
                forall|j: int|
                    k <= j < dr.len() && !(#[trigger] dr[j]).0 && pre.tasks@[dr[j].1 as int].unwrap().cell
                        is Some ==> self.cells@[pre.tasks@[dr[j].1 as int].unwrap().cell.unwrap() as int]
                        == pre.cells@[pre.tasks@[dr[j].1 as int].unwrap().cell.unwrap() as int],
                forall|j: int|
                    k <= j < dr.len() && (#[trigger] dr[j]).0
                        && pre.periodics@[dr[j].1 as int].unwrap().cell is Some
                        ==> self.cells@[pre.periodics@[dr[j].1 as int].unwrap().cell.unwrap() as int]
                        == pre.cells@[pre.periodics@[dr[j].1 as int].unwrap().cell.unwrap() as int],
                forall|i: usize|
                    i < pre.tasks@.len() && !pre.queued_task(i) ==> self.tasks@[i as int]
                        == pre.tasks@[i as int],
                forall|i: usize|
                    i < pre.periodics@.len() && !pre.queued_periodic(i)
                        ==> self.periodics@[i as int] == pre.periodics@[i as int],
                forall|c: usize|
                    c < pre.cells@.len() && !pre.cell_queued(c) ==> self.cells@[c as int]
                        == pre.cells@[c as int],
                notifies@ == Self::collected_notifiers(pre, dr.take(k as int)),
                self.wf(),
            decreases dr.len() - k,
        {
            let ghost prev = *self;
            let e = drained[k];
            proof {
                assert(pre.driver.items()[k as int] == e);
                assert(pre.entry_ok(e));
                assert(dr.take(k + 1).drop_last() =~= dr.take(k as int));
                assert(dr.take(k + 1).last() == e);
            }
            if !e.0 {
                let tid = e.1;
                let slot = &mut self.tasks[tid];
                let rec = slot.take().unwrap();
                self.free_tasks.push(tid);
                proof {
                    assert(rec == pre.tasks@[tid as int].unwrap());
                    assert(self.tasks@ =~= prev.tasks@.update(tid as int, None));
                    lemma_free_push(prev.tasks@, self.tasks@, prev.free_tasks@, tid);
                }
                match rec.cell {
                    Some(c) => {
                        proof {
                            assert(pre.rec_cell_ok(Some(c)));
                            assert(prev.cells@[c as int] == pre.cells@[c as int]);
                        }
                        let notify = self.release_cell_end(c, true);
                        match notify {
                            Some(n) => notifies.push(n),
                            None => (),
                        }
                    },
                    None => (),
                }
            } else {
                let pid = e.1;
                let slot = &mut self.periodics[pid];
                let rec = slot.take().unwrap();
                self.free_periodics.push(pid);
                proof {
                    assert(rec == pre.periodics@[pid as int].unwrap());
                    assert(self.periodics@ =~= prev.periodics@.update(pid as int, None));
                    lemma_free_push(prev.periodics@, self.periodics@, prev.free_periodics@, pid);
                }
                match rec.cell {
                    Some(c) => {
                        proof {
                            assert(pre.rec_cell_ok(Some(c)));
                            assert(prev.cells@[c as int] == pre.cells@[c as int]);
                        }
                        let notify = self.release_cell_end(c, true);
                        match notify {
                            Some(n) => notifies.push(n),
                            None => (),
                        }
                    },
                    None => (),
                }
            }
            proof {
                assert(dr[k as int] == e);
            }
            k = k + 1;
        }
        proof {
            assert(dr.take(dr.len() as int) =~= dr);
        }
        self.exit = true;
        notifies
    }

    /// Enqueues a one-shot task record onto the ready queue, allocating its
    /// record index. The caller signals one worker afterwards. Submitting
    /// into a stopped pool is fatal, so callers check `exit` first.
    pub fn schedule(&mut self, rec: TaskRec) -> (id: usize)
        requires
            !old(self).exit,
            old(self).wf(),
            old(self).rec_cell_ok(rec.cell),
            (rec.cell matches Some(c) ==> old(self).cell_unclaimed(c)),
        ensures
            placed(old(self).tasks@, final(self).tasks@, id, rec),
            final(self).task_live(id),
            !old(self).queued_task(id),
            final(self).driver.items() == old(self).driver.items().push(task_entry(id)),
            final(self).cells == old(self).cells,
            final(self).periodics == old(self).periodics,
            final(self).timer == old(self).timer,
            final(self).free_cells == old(self).free_cells,
            final(self).free_periodics == old(self).free_periodics,
            final(self).exit == old(self).exit,
            final(self).wf(),
    {
        let id = place(&mut self.tasks, &mut self.free_tasks, rec);
        proof {
            assert forall|j: int|
                0 <= j < old(self).driver.items().len() implies #[trigger] old(
                self,
            ).driver.items()[j] != task_entry(id) by {
                assert(old(self).entry_ok(old(self).driver.items()[j]));
            }
            assert(!old(self).queued_task(id));
        }
        self.driver.schedule((false, id));
        proof {
            let q = self.driver.items();
            let oldq = old(self).driver.items();
            assert forall|j: int| 0 <= j < q.len() implies self.entry_ok(#[trigger] q[j]) by {
                if j < oldq.len() {
                    assert(q[j] == oldq[j]);
                    assert(old(self).entry_ok(oldq[j]));
                } else {
                    assert(q[j] == task_entry(id));
                }
            }
            assert forall|j: int, k: int| 0 <= j < k < q.len() implies q[j] != q[k] by {
                if k < oldq.len() {
                } else {
                    assert(q[k] == task_entry(id));
                    if j < oldq.len() {
                        assert(oldq[j] != task_entry(id));
                    }
                }
            }
            assert(final(self).wf());
        }
        id
    }

    /// Submits a one-shot task with a join handle: creates its result cell
    /// with two endpoints (the task's and the waiter's), records the task
    /// and enqueues it. Returns the task's record index — which keys its
    /// callable in the driving glue — and the cell index, which is the
    /// join handle's ticket; the caller signals one worker. Fatal on a
    /// stopped pool, so callers check `exit` first.
    pub fn spawn(&mut self) -> (r: (usize, usize))
        requires
            !old(self).exit,
            old(self).wf(),
        ensures
            placed(
                old(self).cells@,
                final(self).cells@,
                r.1,
                (Inner { state: crate::state::State::Started, notifier: None, handles: 2 }),
            ),
            placed(old(self).tasks@, final(self).tasks@, r.0, (TaskRec { cell: Some(r.1) })),
            final(self).cell_live(r.1),
            final(self).task_live(r.0),
            final(self).driver.items() == old(self).driver.items().push(task_entry(r.0)),
            final(self).periodics == old(self).periodics,
            final(self).timer == old(self).timer,
            final(self).free_periodics == old(self).free_periodics,
            final(self).exit == old(self).exit,
            final(self).wf(),
    {
        let mut cell: Inner<T, N> = Inner::new();
        cell.create_end();
        let cell_id = place(&mut self.cells, &mut self.free_cells, cell);
        proof {
            assert forall|i: int|
                0 <= i < self.tasks@.len() && self.tasks@[i] is Some implies (#[trigger] self
                .tasks@[i]).unwrap().cell != Some(cell_id) by {
                let c_opt = self.tasks@[i].unwrap().cell;
                if c_opt is Some {
                    assert(old(self).rec_cell_ok(c_opt));
                }
            }
            assert forall|i: int|
                0 <= i < self.periodics@.len() && self.periodics@[i] is Some implies (
            #[trigger] self.periodics@[i]).unwrap().cell != Some(cell_id) by {
                let c_opt = self.periodics@[i].unwrap().cell;
                if c_opt is Some {
                    assert(old(self).rec_cell_ok(c_opt));
                }
            }
            assert(self.cell_unclaimed(cell_id));
            assert(self.wf());
        }
        let task_id = self.schedule(TaskRec { cell: Some(cell_id) });
        (task_id, cell_id)
    }

    /// Places a periodic record where it belongs, allocating its record
    /// index: onto the ready queue if it is already due at `now` — the
    /// caller then signals one worker — or into the timer otherwise, where
    /// workers pick it up on their periodic scan. Fatal on a stopped pool,
    /// so callers check `exit` first.
    pub fn schedule_periodical(&mut self, rec: PeriodicTask, now: u64) -> (id: usize)
        requires
            !old(self).exit,
            old(self).wf(),
            rec.wf(),
            old(self).rec_cell_ok(rec.cell),
            (rec.cell matches Some(c) ==> old(self).cell_unclaimed(c)),
        ensures
            placed(old(self).periodics@, final(self).periodics@, id, rec),
            final(self).periodic_live(id),
            rec.next <= now ==> final(self).driver.items() == old(self).driver.items().push(
                periodic_entry(id),
            ) && final(self).timer == old(self).timer,
            rec.next > now ==> final(self).timer.waiting@ == old(self).timer.waiting@.push(id)
                && final(self).driver == old(self).driver,
            final(self).cells == old(self).cells,
            final(self).tasks == old(self).tasks,
            final(self).free_cells == old(self).free_cells,
            final(self).free_tasks == old(self).free_tasks,
            final(self).exit == old(self).exit,
            final(self).wf(),
    {
        let due = rec.can_run(now);
        let id = place(&mut self.periodics, &mut self.free_periodics, rec);
        proof {
            assert forall|j: int|
                0 <= j < old(self).timer.waiting@.len() implies #[trigger] old(
                self,
            ).timer.waiting@[j] != id by {
                assert(old(self).periodic_live(old(self).timer.waiting@[j]));
            }
            assert forall|j: int|
                0 <= j < old(self).driver.items().len() implies #[trigger] old(
                self,
            ).driver.items()[j] != periodic_entry(id) by {
                assert(old(self).entry_ok(old(self).driver.items()[j]));
            }
            let w = self.timer.waiting@;
            assert forall|j: int| 0 <= j < w.len() implies self.periodic_live(#[trigger] w[j]) by {
                assert(old(self).periodic_live(w[j]));
            }
            let q = self.driver.items();
            assert forall|j: int| 0 <= j < q.len() implies self.entry_ok(#[trigger] q[j]) by {
                assert(old(self).entry_ok(q[j]));
            }
        }
        if due {
            self.driver.schedule((true, id));
            proof {
                let q = self.driver.items();
                let oldq = old(self).driver.items();
                assert forall|j: int| 0 <= j < q.len() implies self.entry_ok(#[trigger] q[j]) by {
                    if j < oldq.len() {
                        assert(q[j] == oldq[j]);
                        assert(old(self).entry_ok(oldq[j]));
                    } else {
                        assert(q[j] == periodic_entry(id));
                    }
                }
                assert forall|j: int, k: int| 0 <= j < k < q.len() implies q[j] != q[k] by {
                    if k < oldq.len() {
                    } else {
                        assert(q[k] == periodic_entry(id));
                        if j < oldq.len() {
                            assert(old(self).entry_ok(oldq[j]));
                        }
                    }
                }
                assert forall|j: int, k: int|
                    0 <= j < self.timer.waiting@.len() && 0 <= k < q.len() implies periodic_entry(
                    #[trigger] self.timer.waiting@[j],
                ) != #[trigger] q[k] by {
                    assert(old(self).periodic_live(self.timer.waiting@[j]));
                    if k < oldq.len() {
                        assert(q[k] == oldq[k]);
                    } else {
                        assert(q[k] == periodic_entry(id));
                    }
                }
                assert(final(self).wf());
            }
        } else {
            self.timer.schedule(id);
            proof {
                let w = self.timer.waiting@;
                let oldw = old(self).timer.waiting@;
                assert forall|j: int| 0 <= j < w.len() implies self.periodic_live(
                    #[trigger] w[j],
                ) by {
                    if j < oldw.len() {
                        assert(w[j] == oldw[j]);
                        assert(old(self).periodic_live(oldw[j]));
                    }
                }
                assert forall|j: int, k: int| 0 <= j < k < w.len() implies w[j] != w[k] by {
                    if k < oldw.len() {
                    } else {
                        assert(w[k] == id);
                        if j < oldw.len() {
                            assert(old(self).periodic_live(oldw[j]));
                        }
                    }
                }
                assert forall|j: int, k: int|
                    0 <= j < w.len() && 0 <= k < self.driver.items().len() implies periodic_entry(
                    #[trigger] w[j],
                ) != #[trigger] self.driver.items()[k] by {
                    assert(old(self).entry_ok(self.driver.items()[k]));
                    if j < oldw.len() {
                        assert(w[j] == oldw[j]);
                    } else {
                        assert(w[j] == id);
                        let e = self.driver.items()[k];
                        if e.0 {
                            assert(old(self).periodic_live(e.1));
                        }
                    }
                }
                assert(final(self).wf());
            }
        }
        id
    }

    /// Submits a periodic task, to run every `every` milliseconds, `times`
    /// times (forever if `times` is absent), first due one period from
    /// `now`. Creates its result cell — used only for abort signaling —
    /// with two endpoints (the record's and the handle's). Returns the
    /// record index — which keys its callable in the driving glue — and
    /// the cell index, which is the periodic handle's ticket. Fatal on a
    /// stopped pool, so callers check `exit` first.
    pub fn spawn_periodic(&mut self, every: u64, now: u64, times: Option<usize>) -> (r: (
        usize,
        usize,
    ))
        requires
            !old(self).exit,
            old(self).wf(),
            now + every <= u64::MAX,
        ensures
            placed(
                old(self).cells@,
                final(self).cells@,
                r.1,
                (Inner { state: crate::state::State::Started, notifier: None, handles: 2 }),
            ),
            final(self).cell_live(r.1),
            final(self).periodic_live(r.0),
            final(self).periodics@[r.0 as int] matches Some(rec) && rec.every == every
                && rec.next == now + every && rec.times == times && rec.cell == Some(r.1)
                && rec.invoked@ == 0,
            placed(
                old(self).periodics@,
                final(self).periodics@,
                r.0,
                final(self).periodics@[r.0 as int].unwrap(),
            ),
            every > 0 ==> final(self).timer.waiting@ == old(self).timer.waiting@.push(r.0)
                && final(self).driver == old(self).driver,
            every == 0 ==> final(self).driver.items() == old(self).driver.items().push(
                periodic_entry(r.0),
            ) && final(self).timer == old(self).timer,
            final(self).tasks == old(self).tasks,
            final(self).free_tasks == old(self).free_tasks,
            final(self).exit == old(self).exit,
            final(self).wf(),
    {
        let mut cell: Inner<T, N> = Inner::new();
        cell.create_end();
        let cell_id = place(&mut self.cells, &mut self.free_cells, cell);
        proof {
            assert forall|i: int|
                0 <= i < self.tasks@.len() && self.tasks@[i] is Some implies (#[trigger] self
                .tasks@[i]).unwrap().cell != Some(cell_id) by {
                let c_opt = self.tasks@[i].unwrap().cell;
                if c_opt is Some {
                    assert(old(self).rec_cell_ok(c_opt));
                }
            }
            assert forall|i: int|
                0 <= i < self.periodics@.len() && self.periodics@[i] is Some implies (
            #[trigger] self.periodics@[i]).unwrap().cell != Some(cell_id) by {
                let c_opt = self.periodics@[i].unwrap().cell;
                if c_opt is Some {
                    assert(old(self).rec_cell_ok(c_opt));
                }
            }
            assert(self.cell_unclaimed(cell_id));
            assert(self.wf());
        }
        let rec = PeriodicTask::new(every, now, times, Some(cell_id));
        let id = self.schedule_periodical(rec, now);
        (id, cell_id)
    }

    /// Submits a one-shot task without a join handle: no cell is allocated,
    /// so the output cannot be retrieved and failures are discarded. The
    /// caller signals one worker. Fatal on a stopped pool, so callers check
    /// `exit` first.
    pub fn spawn_detached(&mut self) -> (task_id: usize)
        requires
            !old(self).exit,
            old(self).wf(),
        ensures
            placed(old(self).tasks@, final(self).tasks@, task_id, (TaskRec { cell: None })),
            final(self).task_live(task_id),
            final(self).driver.items() == old(self).driver.items().push(task_entry(task_id)),
            final(self).cells == old(self).cells,
            final(self).periodics == old(self).periodics,
            final(self).timer == old(self).timer,
            final(self).exit == old(self).exit,
            final(self).wf(),
    {
        self.schedule(TaskRec { cell: None })
    }
}

} // verus!
