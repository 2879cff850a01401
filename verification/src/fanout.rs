//! The distribution fan-out: every subscriber owns an independent
//! queue, the publisher appends to all of them and never waits for
//! anyone. A ghost log of everything ever published ties each queue to
//! the published stream.
use vstd::prelude::*;
use crate::collectors::snapshot::{Snapshot, SnapshotView};
use crate::{element_at_mut, seq_view};

verus! {

/// One subscriber's state: the snapshots published since registration
/// and not yet handed out, plus the ghost record of what was already
/// handed out.
pub struct SubscriberQueue {
    buf: Vec<Snapshot>,
    registered_at: Ghost<int>,
    taken: Ghost<Seq<SnapshotView>>,
}

/// The publish/subscribe registry.
pub struct FanOut {
    subs: Vec<SubscriberQueue>,
    log: Ghost<Seq<SnapshotView>>,
}

impl FanOut {
    /// Everything ever published, in publish order.
    pub closed spec fn log(&self) -> Seq<SnapshotView> {
        self.log@
    }

    /// How many subscribers are registered.
    pub closed spec fn sub_count(&self) -> int {
        self.subs@.len() as int
    }

    /// The length the log had when subscriber `i` registered.
    pub closed spec fn registered_of(&self, i: int) -> int {
        self.subs@[i].registered_at@
    }

    /// What subscriber `i` has already been handed, in hand-out order.
    pub closed spec fn taken_of(&self, i: int) -> Seq<SnapshotView> {
        self.subs@[i].taken@
    }

    /// What still waits in subscriber `i`'s queue, oldest first.
    pub closed spec fn buffered_of(&self, i: int) -> Seq<SnapshotView> {
        seq_view(self.subs@[i].buf@)
    }

    /// Everything subscriber `i` observes, in order: what it was handed
    /// followed by what still waits for it.
    pub open spec fn observed_of(&self, i: int) -> Seq<SnapshotView> {
        self.taken_of(i) + self.buffered_of(i)
    }

    /// Subscriber `i`'s observations are exactly the published stream
    /// since its registration.
    pub open spec fn sub_ok(&self, i: int) -> bool {
        &&& 0 <= self.registered_of(i) <= self.log().len()
        &&& self.observed_of(i) == self.log().subrange(
            self.registered_of(i),
            self.log().len() as int,
        )
    }

    /// Every subscriber's observations are exactly the published stream
    /// since its registration.
    pub open spec fn wf(&self) -> bool {
        forall|i: int| 0 <= i < self.sub_count() ==> #[trigger] self.sub_ok(i)
    }

    /// A registry with no subscribers and nothing published.
    pub fn new() -> (r: FanOut)
        ensures
            r.wf(),
            r.sub_count() == 0,
            r.log() == Seq::<SnapshotView>::empty(),
    {
        FanOut { subs: Vec::new(), log: Ghost(Seq::empty()) }
    }

    /// Registers a new subscriber, which will observe exactly the
    /// snapshots published from this point on.
    pub fn subscribe(&mut self) -> (id: usize)
        requires
            old(self).wf(),
        ensures
            final(self).wf(),
            id == old(self).sub_count(),
            final(self).sub_count() == old(self).sub_count() + 1,
            final(self).log() == old(self).log(),
            final(self).registered_of(id as int) == old(self).log().len(),
            final(self).taken_of(id as int) == Seq::<SnapshotView>::empty(),
            final(self).buffered_of(id as int) == Seq::<SnapshotView>::empty(),
            forall|i: int|
                0 <= i < old(self).sub_count() ==> {
                    &&& final(self).registered_of(i) == old(self).registered_of(i)
                    &&& final(self).taken_of(i) == old(self).taken_of(i)
                    &&& final(self).buffered_of(i) == old(self).buffered_of(i)
                },
    {
        let id = self.subs.len();
        let q = SubscriberQueue {
            buf: Vec::new(),
            registered_at: Ghost(self.log@.len() as int),
            taken: Ghost(Seq::empty()),
        };
        self.subs.push(q);
        proof {
            assert(self.buffered_of(id as int) =~= Seq::<SnapshotView>::empty());
            assert(self.observed_of(id as int) =~= self.log().subrange(
                self.log().len() as int,
                self.log().len() as int,
            ));
            assert forall|i: int| 0 <= i < self.sub_count() implies #[trigger] self.sub_ok(
                i,
            ) by {
                if i < id {
                    assert(self.buffered_of(i) == old(self).buffered_of(i));
                    assert(old(self).sub_ok(i));
                }
            }
        }
        id
    }

    /// Publishes one snapshot: it is appended to every subscriber's
    /// queue, and no subscriber can delay another, since each queue is
    /// touched once regardless of how far its owner has read.
    pub fn publish(&mut self, snap: Snapshot)
        requires
            old(self).wf(),
        ensures
            final(self).wf(),
            final(self).log() == old(self).log().push(snap@),
            final(self).sub_count() == old(self).sub_count(),
            forall|i: int|
                0 <= i < old(self).sub_count() ==> {
                    &&& final(self).registered_of(i) == old(self).registered_of(i)
                    &&& final(self).taken_of(i) == old(self).taken_of(i)
                    &&& final(self).buffered_of(i) == old(self).buffered_of(i).push(snap@)
                },
    {
        let n = self.subs.len();
        let mut i: usize = 0;
        while i < n
            invariant
                n == self.subs@.len(),
                i <= n,
                forall|k: int|
                    0 <= k < n ==> {
                        &&& self.subs@[k].registered_at == old(self).subs@[k].registered_at
                        &&& self.subs@[k].taken == old(self).subs@[k].taken
                    },
                forall|k: int|
                    0 <= k < i ==> seq_view(#[trigger] self.subs@[k].buf@) == seq_view(
                        old(self).subs@[k].buf@,
                    ).push(snap@),
                forall|k: int|
                    i <= k < n ==> #[trigger] self.subs@[k].buf@ == old(self).subs@[k].buf@,
                self.log == old(self).log,
            decreases n - i,
        {
            let copy = snap.clone();
            let q = element_at_mut(&mut self.subs, i);
            let ghost qbuf = q.buf@;
            q.buf.push(copy);
            proof {
                assert(seq_view(q.buf@) =~= seq_view(qbuf).push(snap@));
            }
            i = i + 1;
        }
        proof {
            self.log@ = self.log@.push(snap@);
        }
        proof {
            assert forall|k: int| 0 <= k < self.sub_count() implies #[trigger] self.sub_ok(
                k,
            ) by {
                let reg = old(self).registered_of(k);
                let oldlog = old(self).log();
                assert(old(self).sub_ok(k));
                assert(old(self).observed_of(k) == oldlog.subrange(reg, oldlog.len() as int));
                assert(self.registered_of(k) == reg);
                assert(self.taken_of(k) == old(self).taken_of(k));
                assert(self.buffered_of(k) == old(self).buffered_of(k).push(snap@));
                assert(self.log() == oldlog.push(snap@));
                assert(self.observed_of(k) =~= old(self).observed_of(k).push(snap@));
                assert(self.log().subrange(reg, self.log().len() as int) =~= oldlog.subrange(
                    reg,
                    oldlog.len() as int,
                ).push(snap@));
                assert(self.observed_of(k) == self.log().subrange(reg, self.log().len() as int));
            }
        }
    }

    /// Hands out everything buffered for one subscriber, oldest first,
    /// emptying its queue.
    pub fn poll(&mut self, id: usize) -> (out: Vec<Snapshot>)
        requires
            old(self).wf(),
            id < old(self).sub_count(),
        ensures
            final(self).wf(),
            final(self).log() == old(self).log(),
            final(self).sub_count() == old(self).sub_count(),
            seq_view(out@) == old(self).buffered_of(id as int),
            final(self).buffered_of(id as int) == Seq::<SnapshotView>::empty(),
            final(self).taken_of(id as int) == old(self).observed_of(id as int),
            final(self).registered_of(id as int) == old(self).registered_of(id as int),
            forall|i: int|
                0 <= i < old(self).sub_count() && i != id ==> {
                    &&& final(self).registered_of(i) == old(self).registered_of(i)
                    &&& final(self).taken_of(i) == old(self).taken_of(i)
                    &&& final(self).buffered_of(i) == old(self).buffered_of(i)
                },
    {
        let q = element_at_mut(&mut self.subs, id);
        let mut out: Vec<Snapshot> = Vec::new();
        core::mem::swap(&mut q.buf, &mut out);
        proof {
            q.taken@ = q.taken@ + seq_view(out@);
        }
        proof {
            assert(self.buffered_of(id as int) =~= Seq::<SnapshotView>::empty());
            assert forall|k: int| 0 <= k < self.sub_count() implies #[trigger] self.sub_ok(
                k,
            ) by {
                assert(old(self).sub_ok(k));
                assert(self.observed_of(k) =~= old(self).observed_of(k));
            }
        }
        out
    }

    /// Drains one subscriber's queue and keeps only the most recent
    /// snapshot, the full-state answer a poller needs; older buffered
    /// entries are superseded and legitimately discarded.
    pub fn latest(&mut self, id: usize) -> (r: Option<Snapshot>)
        requires
            old(self).wf(),
            id < old(self).sub_count(),
        ensures
            final(self).wf(),
            final(self).log() == old(self).log(),
            final(self).sub_count() == old(self).sub_count(),
            match r {
                Some(s) => old(self).buffered_of(id as int).len() > 0 && s@ == old(
                    self,
                ).buffered_of(id as int).last(),
                None => old(self).buffered_of(id as int).len() == 0,
            },
            final(self).buffered_of(id as int) == Seq::<SnapshotView>::empty(),
            final(self).taken_of(id as int) == old(self).observed_of(id as int),
            final(self).registered_of(id as int) == old(self).registered_of(id as int),
            forall|i: int|
                0 <= i < old(self).sub_count() && i != id ==> {
                    &&& final(self).registered_of(i) == old(self).registered_of(i)
                    &&& final(self).taken_of(i) == old(self).taken_of(i)
                    &&& final(self).buffered_of(i) == old(self).buffered_of(i)
                },
    {
        let mut out = self.poll(id);
        out.pop()
    }
}

/// Law: two subscribers registered at the same point observe exactly
/// the same snapshots in the same order — the published stream since
/// that point — however differently often each of them has polled.
pub proof fn lemma_same_stream(f: &FanOut, i: int, j: int)
    requires
        f.wf(),
        0 <= i < f.sub_count(),
        0 <= j < f.sub_count(),
        f.registered_of(i) == f.registered_of(j),
    ensures
        f.observed_of(i) == f.observed_of(j),
        f.observed_of(i) == f.log().subrange(f.registered_of(i), f.log().len() as int),
{
    assert(f.sub_ok(i));
    assert(f.sub_ok(j));
}

} // verus!
