//! The timer of the pool: the collection of periodic task records that are
//! not yet due. When a record becomes due it is promoted onto the ready
//! queue, where a worker picks it up.

use vstd::prelude::*;
use vstd::seq_lib::group_filter_ensures;
use crate::driver::{Driver, Entry, periodic_entry};
use crate::periodic::PeriodicTask;

verus! {

broadcast use group_filter_ensures;

/// True when `id` names a live periodic record in the record table.
pub open spec fn valid_periodic(periodics: Seq<Option<PeriodicTask>>, id: usize) -> bool {
    id < periodics.len() && periodics[id as int] is Some
}

/// The predicate "this record is due at `now`" over the record table.
pub open spec fn due_pred(periodics: Seq<Option<PeriodicTask>>, now: u64) -> spec_fn(usize) -> bool {
    |id: usize| periodics[id as int].unwrap().next <= now
}

/// The predicate "this record is not yet due at `now`".
pub open spec fn not_due_pred(periodics: Seq<Option<PeriodicTask>>, now: u64) -> spec_fn(
    usize,
) -> bool {
    |id: usize| !(periodics[id as int].unwrap().next <= now)
}

/// The function turning a periodic record index into its queue entry.
pub open spec fn entry_fn() -> spec_fn(usize) -> Entry {
    |id: usize| periodic_entry(id)
}

/// Filtering keeps a duplicate-free sequence duplicate-free, and every kept
/// element was in the original sequence.
pub proof fn lemma_filter_no_dup<A>(s: Seq<A>, p: spec_fn(A) -> bool)
    requires
        forall|i: int, j: int| 0 <= i < j < s.len() ==> s[i] != s[j],
    ensures
        forall|i: int, j: int|
            0 <= i < j < s.filter(p).len() ==> s.filter(p)[i] != s.filter(p)[j],
        forall|i: int| 0 <= i < s.filter(p).len() ==> s.contains(#[trigger] s.filter(p)[i]),
    decreases s.len(),
{
    reveal(Seq::filter);
    if s.len() > 0 {
        let t = s.drop_last();
        let x = s.last();
        lemma_filter_no_dup(t, p);
        assert forall|i: int| 0 <= i < t.filter(p).len() implies s.contains(
            #[trigger] t.filter(p)[i],
        ) by {
            assert(t.contains(t.filter(p)[i]));
            let w = choose|w: int| 0 <= w < t.len() && t[w] == t.filter(p)[i];
            assert(s[w] == t.filter(p)[i]);
        }
        if p(x) {
            assert(s.filter(p) == t.filter(p).push(x));
            assert(!t.contains(x)) by {
                if t.contains(x) {
                    let w = choose|w: int| 0 <= w < t.len() && t[w] == x;
                    assert(s[w] == s[s.len() - 1]);
                }
            }
            assert(s.contains(x)) by {
                assert(s[s.len() - 1] == x);
            }
        } else {
            assert(s.filter(p) == t.filter(p));
        }
    }
}

/// The queue of periodic task records awaiting their next due instant; the
/// records are scheduled onto the main queue when needed. Held unordered;
/// promotion scans it.
pub struct Timer {
    /// The indices of the waiting periodic records.
    pub waiting: Vec<usize>,
}

impl Default for Timer {
    /// An empty timer.
    fn default() -> (r: Self)
        ensures
            r.waiting@ == Seq::<usize>::empty(),
    {
        Timer { waiting: Vec::new() }
    }
}

impl Timer {
    /// Appends a periodic record to the waiting list.
    pub fn schedule(&mut self, id: usize)
        ensures
            final(self).waiting@ == old(self).waiting@.push(id),
    {
        self.waiting.push(id);
    }

    /// Moves every record that is due at `now` onto the ready queue, in
    /// waiting order, keeping the rest in order; returns how many were
    /// promoted, each of which asks for one worker wake-up.
    pub fn schedule_available(
        &mut self,
        periodics: &Vec<Option<PeriodicTask>>,
        now: u64,
        to: &mut Driver,
    ) -> (promoted: usize)
        requires
            forall|k: int|
                0 <= k < old(self).waiting@.len() ==> valid_periodic(
                    periodics@,
                    #[trigger] old(self).waiting@[k],
                ),
        ensures
            final(self).waiting@ == old(self).waiting@.filter(not_due_pred(periodics@, now)),
            final(to).items() == old(to).items() + old(self).waiting@.filter(
                due_pred(periodics@, now),
            ).map_values(entry_fn()),
            promoted == old(self).waiting@.filter(due_pred(periodics@, now)).len(),
    {
        let ghost all = self.waiting@;
        let ghost base = to.items();
        let ghost d = due_pred(periodics@, now);
        let ghost nd = not_due_pred(periodics@, now);
        let mut kept: Vec<usize> = Vec::new();
        let mut promoted: usize = 0;
        let mut i: usize = 0;
        while i < self.waiting.len()
            invariant
                i <= self.waiting.len(),
                self.waiting@ == all,
                d == due_pred(periodics@, now),
                nd == not_due_pred(periodics@, now),
                base == old(to).items(),
                forall|k: int|
                    0 <= k < all.len() ==> valid_periodic(periodics@, #[trigger] all[k]),
                kept@ == all.take(i as int).filter(nd),
                to.items() == base + all.take(i as int).filter(d).map_values(entry_fn()),
                promoted == all.take(i as int).filter(d).len(),
                promoted <= i,
            decreases self.waiting.len() - i,
        {
            let ghost pre = all.take(i as int);
            let id = self.waiting[i];
            let rec = periodics[id].as_ref().unwrap();
            if rec.can_run(now) {
                to.schedule((true, id));
                promoted = promoted + 1;
                proof {
                    reveal(Seq::filter);
                    assert(all.take(i + 1).drop_last() =~= pre);
                    assert(all.take(i + 1).last() == id);
                    assert(periodics@[id as int].unwrap().next <= now);
                    assert(d(id));
                    assert(!nd(id));
                    assert(all.take(i + 1).filter(d) == pre.filter(d).push(id));
                    assert(all.take(i + 1).filter(nd) == pre.filter(nd));
                    assert(to.items() =~= base + all.take(i + 1).filter(d).map_values(entry_fn()));
                }
            } else {
                kept.push(id);
                proof {
                    reveal(Seq::filter);
                    assert(all.take(i + 1).drop_last() =~= pre);
                    assert(all.take(i + 1).last() == id);
                    assert(nd(id));
                    assert(all.take(i + 1).filter(nd) == pre.filter(nd).push(id));
                    assert(all.take(i + 1).filter(d) == pre.filter(d));
                }
            }
            i = i + 1;
        }
        proof {
            assert(all.take(all.len() as int) =~= all);
        }
        self.waiting = kept;
        promoted
    }
}

} // verus!
