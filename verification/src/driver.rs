//! The ready queue of the pool: every entry stored here is picked up and
//! executed by a worker.
//!
//! The queue itself is crossbeam's lock-free `SegQueue`, used here through
//! trusted declarations; an entry is the tag and the record index of a
//! runnable item, and the surrounding logic is verified against the queue's
//! FIFO contract.

use vstd::prelude::*;
use crate::runnable::Runnable;

verus! {

/// One of two alternatives; the ready queue distinguishes one-shot tasks
/// (left) from due periodic tasks (right).
#[derive(Clone, Copy, PartialEq, Eq, Structural, Debug)]
pub enum Either<A, B> {
    Left(A),
    Right(B),
}

impl<A: Runnable, B: Runnable> Either<A, B> {
    /// Runs whichever item is held, returning its output on the same side.
    pub fn run(self) -> (r: Either<A::Output, B::Output>)
        requires
            (self matches Either::Left(a) ==> a.pre()),
            (self matches Either::Right(b) ==> b.pre()),
        ensures
            (self matches Either::Left(a) ==> r matches Either::Left(out) && a.post(out)),
            (self matches Either::Right(b) ==> r matches Either::Right(out) && b.post(out)),
    {
        match self {
            Either::Left(task) => Either::Left(task.run()),
            Either::Right(task) => Either::Right(task.run()),
        }
    }
}

/// An entry of the ready queue: the flag says whether the index names a
/// periodic record (true) or a one-shot task record (false).
pub type Entry = (bool, usize);

/// The entry for the one-shot task record `id`.
pub open spec fn task_entry(id: usize) -> Entry {
    (false, id)
}

/// The entry for the periodic task record `id`.
pub open spec fn periodic_entry(id: usize) -> Entry {
    (true, id)
}

/// The entry `e` decoded into the alternative it names.
pub open spec fn decode(e: Entry) -> Either<usize, usize> {
    if e.0 {
        Either::Right(e.1)
    } else {
        Either::Left(e.1)
    }
}

#[verifier::external_type_specification]
#[verifier::external_body]
#[verifier::reject_recursive_types(T)]
pub struct ExSegQueue<T>(crossbeam_queue::SegQueue<T>);

/// The entries a ready queue holds, oldest first.
pub uninterp spec fn ready_items(q: crossbeam_queue::SegQueue<Entry>) -> Seq<Entry>;

/// Relies on crossbeam_queue::SegQueue::new: creates an empty queue.
#[verifier::external_body]
fn seg_new() -> (r: crossbeam_queue::SegQueue<Entry>)
    ensures
        ready_items(r) == Seq::<Entry>::empty(),
{
    crossbeam_queue::SegQueue::new()
}

/// Relies on crossbeam_queue::SegQueue::push: appends the element at the
/// tail of the FIFO queue.
#[verifier::external_body]
fn seg_push(q: &mut crossbeam_queue::SegQueue<Entry>, item: Entry)
    ensures
        ready_items(*final(q)) == ready_items(*old(q)).push(item),
{
    q.push(item);
}

/// Relies on crossbeam_queue::SegQueue::pop: takes the element at the head
/// of the FIFO queue, or returns None when the queue is empty.
#[verifier::external_body]
fn seg_pop(q: &mut crossbeam_queue::SegQueue<Entry>) -> (r: Option<Entry>)
    ensures
        ready_items(*old(q)).len() == 0 ==> r is None
            && ready_items(*final(q)) == ready_items(*old(q)),
        ready_items(*old(q)).len() > 0 ==> r == Some(ready_items(*old(q))[0])
            && ready_items(*final(q)) == ready_items(*old(q)).drop_first(),
{
    q.pop()
}

/// Relies on crossbeam_queue::SegQueue::is_empty: true exactly when the
/// queue holds no element.
#[verifier::external_body]
fn seg_is_empty(q: &crossbeam_queue::SegQueue<Entry>) -> (r: bool)
    ensures
        r <==> ready_items(*q).len() == 0,
{
    q.is_empty()
}

/// The main queue of the pool; all entries stored here name records that
/// worker threads will execute.
pub struct Driver {
    pub queue: crossbeam_queue::SegQueue<Entry>,
}

impl Driver {
    /// The entries currently queued, oldest first.
    pub open spec fn items(&self) -> Seq<Entry> {
        ready_items(self.queue)
    }

    /// Appends an entry at the tail of the ready queue.
    pub fn schedule(&mut self, item: Entry)
        ensures
            final(self).items() == old(self).items().push(item),
    {
        seg_push(&mut self.queue, item);
    }

    /// Takes the oldest entry, decoded into the alternative it names, or
    /// returns None when the queue is empty.
    pub fn pop(&mut self) -> (r: Option<Either<usize, usize>>)
        ensures
            old(self).items().len() == 0 ==> r is None && final(self).items() == old(self).items(),
            old(self).items().len() > 0 ==> r == Some(decode(old(self).items()[0]))
                && final(self).items() == old(self).items().drop_first(),
    {
        match seg_pop(&mut self.queue) {
            None => None,
            Some(e) => {
                if e.0 {
                    Some(Either::Right(e.1))
                } else {
                    Some(Either::Left(e.1))
                }
            },
        }
    }

    /// True exactly when no entry is queued.
    pub fn is_empty(&self) -> (r: bool)
        ensures
            r <==> self.items().len() == 0,
    {
        seg_is_empty(&self.queue)
    }

    /// Drains the queue, returning every entry in queue order; used by
    /// shutdown, which aborts the cells of the drained entries.
    pub fn clear(&mut self) -> (r: Vec<Entry>)
        ensures
            r@ == old(self).items(),
            final(self).items().len() == 0,
    {
        let mut drained: Vec<Entry> = Vec::new();
        loop
            invariant
                drained@ + self.items() == old(self).items(),
            decreases self.items().len(),
        {
            let ghost pre = self.items();
            match seg_pop(&mut self.queue) {
                None => {
                    return drained;
                },
                Some(e) => {
                    proof {
                        assert(pre.drop_first() == pre.subrange(1, pre.len() as int));
                    }
                    drained.push(e);
                    proof {
                        assert(drained@ + self.items() =~= old(self).items());
                    }
                },
            }
        }
    }
}

impl Default for Driver {
    /// An empty ready queue.
    fn default() -> (r: Self)
        ensures
            r.items() == Seq::<Entry>::empty(),
    {
        Driver { queue: seg_new() }
    }
}

} // verus!
