//! The bounded, time-ordered store of recent snapshots: append evicts
//! the oldest entry once the fixed capacity is reached, queries copy the
//! retained entries out in chronological order.
use vstd::prelude::*;
use std::collections::VecDeque;
use crate::collectors::snapshot::{Snapshot, SnapshotView};
use crate::seq_view;

verus! {

/// One append to a store of capacity `cap`: the oldest entry leaves
/// first when the store is full.
pub open spec fn append_evict(s: Seq<Snapshot>, cap: int, x: Snapshot) -> Seq<Snapshot> {
    if s.len() >= cap {
        s.drop_first().push(x)
    } else {
        s.push(x)
    }
}

/// The same step on snapshot models.
pub open spec fn append_evict_v(s: Seq<SnapshotView>, cap: int, x: SnapshotView) -> Seq<
    SnapshotView,
> {
    if s.len() >= cap {
        s.drop_first().push(x)
    } else {
        s.push(x)
    }
}

/// The store's contents after a whole sequence of appends, oldest
/// append first, starting from empty.
pub open spec fn history_after(cap: int, appends: Seq<SnapshotView>) -> Seq<SnapshotView>
    decreases appends.len(),
{
    if appends.len() == 0 {
        Seq::empty()
    } else {
        append_evict_v(history_after(cap, appends.drop_last()), cap, appends.last())
    }
}

/// The cut-off timestamp of a query for the last `duration_secs`
/// seconds, placed at `now_ms`.
pub open spec fn cutoff_ms(now_ms: i64, duration_secs: u64) -> int {
    now_ms - duration_secs * 1000
}

/// The models of the entries not older than the cut-off, in stored
/// order.
pub open spec fn recent_views(s: Seq<Snapshot>, cutoff: int) -> Seq<SnapshotView>
    decreases s.len(),
{
    if s.len() == 0 {
        Seq::empty()
    } else {
        let rest = recent_views(s.drop_last(), cutoff);
        if s.last().ts >= cutoff {
            rest.push(s.last()@)
        } else {
            rest
        }
    }
}

/// Bounded storage of the most recent snapshots, strictly first-in
/// first-out, which equals chronological order since appends are
/// sequential.
pub struct HistoricalData {
    data_points: VecDeque<Snapshot>,
    max_points: usize,
}

impl HistoricalData {
    /// The retained snapshots, oldest first.
    pub closed spec fn contents(&self) -> Seq<Snapshot> {
        self.data_points@
    }

    /// The models of the retained snapshots, oldest first.
    pub open spec fn contents_views(&self) -> Seq<SnapshotView> {
        seq_view(self.contents())
    }

    /// The fixed capacity.
    pub closed spec fn capacity(&self) -> int {
        self.max_points as int
    }

    /// The store never outgrows its capacity, which is at least one.
    pub open spec fn wf(&self) -> bool {
        self.contents().len() <= self.capacity() && self.capacity() >= 1
    }

    /// An empty store of the given fixed capacity.
    pub fn new(max_points: usize) -> (r: HistoricalData)
        requires
            max_points >= 1,
        ensures
            r.wf(),
            r.capacity() == max_points,
            r.contents() == Seq::<Snapshot>::empty(),
    {
        HistoricalData { data_points: VecDeque::with_capacity(max_points), max_points }
    }

    /// Appends one snapshot, evicting the single oldest entry when the
    /// store is already full.
    pub fn add_snapshot(&mut self, snapshot: Snapshot)
        requires
            old(self).wf(),
        ensures
            final(self).wf(),
            final(self).capacity() == old(self).capacity(),
            final(self).contents() == append_evict(
                old(self).contents(),
                old(self).capacity(),
                snapshot,
            ),
    {
        if self.data_points.len() >= self.max_points {
            self.data_points.pop_front();
        }
        self.data_points.push_back(snapshot);
    }

    /// Copies out every retained snapshot whose capture time is within
    /// the last `duration_secs` seconds before `now_ms`, oldest first.
    pub fn get_recent_data(&self, duration_secs: u64, now_ms: i64) -> (r: Vec<Snapshot>)
        ensures
            seq_view(r@) == recent_views(self.contents(), cutoff_ms(now_ms, duration_secs)),
    {
        let ghost cutoff = cutoff_ms(now_ms, duration_secs);
        let mut r: Vec<Snapshot> = Vec::new();
        let mut i: usize = 0;
        while i < self.data_points.len()
            invariant
                i <= self.contents().len(),
                cutoff == cutoff_ms(now_ms, duration_secs),
                seq_view(r@) == recent_views(self.contents().take(i as int), cutoff),
            decreases self.contents().len() - i,
        {
            let s = &self.data_points[i];
            let ghost before = r@;
            let keep: bool = (s.ts as i128) >= (now_ms as i128) - (duration_secs as i128) * 1000;
            if keep {
                r.push(s.clone());
            }
            proof {
                let pre = self.contents().take(i as int);
                assert(self.contents().take(i + 1 as int).drop_last() =~= pre);
                assert(self.contents().take(i + 1 as int).last() == self.contents()[i as int]);
                if keep {
                    assert(seq_view(r@) =~= seq_view(before).push(self.contents()[i as int]@));
                }
            }
            i = i + 1;
        }
        proof {
            assert(self.contents().take(self.contents().len() as int) =~= self.contents());
        }
        r
    }

    /// Copies out every retained snapshot, oldest first.
    pub fn get_all_data(&self) -> (r: Vec<Snapshot>)
        ensures
            seq_view(r@) == self.contents_views(),
    {
        let mut r: Vec<Snapshot> = Vec::new();
        let mut i: usize = 0;
        while i < self.data_points.len()
            invariant
                i <= self.contents().len(),
                seq_view(r@) == seq_view(self.contents().take(i as int)),
            decreases self.contents().len() - i,
        {
            let ghost before = r@;
            r.push(self.data_points[i].clone());
            proof {
                assert(self.contents().take(i + 1 as int) =~= self.contents().take(i as int).push(
                    self.contents()[i as int],
                ));
                assert(seq_view(self.contents().take(i + 1 as int)) =~= seq_view(
                    self.contents().take(i as int),
                ).push(self.contents()[i as int]@));
                assert(seq_view(r@) =~= seq_view(before).push(self.contents()[i as int]@));
            }
            i = i + 1;
        }
        proof {
            assert(self.contents().take(self.contents().len() as int) =~= self.contents());
        }
        r
    }
}

/// Law: a store of capacity `cap` fed any sequence of appends holds
/// `min(cap, appends)` entries — never more than `cap` — and they are
/// exactly the most recent appends, in the order they were appended.
pub proof fn lemma_history_bounded(cap: int, appends: Seq<SnapshotView>)
    requires
        cap >= 1,
    ensures
        history_after(cap, appends).len() == if appends.len() <= cap {
            appends.len() as int
        } else {
            cap
        },
        history_after(cap, appends) == appends.skip(
            if appends.len() <= cap {
                0
            } else {
                appends.len() - cap
            },
        ),
    decreases appends.len(),
{
    if appends.len() > 0 {
        let t = appends.drop_last();
        lemma_history_bounded(cap, t);
        let h = history_after(cap, t);
        if h.len() >= cap {
            assert(history_after(cap, appends) =~= appends.skip(appends.len() - cap));
        } else {
            assert(history_after(cap, appends) =~= appends.skip(
                if appends.len() <= cap {
                    0
                } else {
                    appends.len() - cap
                },
            ));
        }
    }
}

} // verus!
