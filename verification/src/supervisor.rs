//! The sampling supervisor's state: the previous snapshot slot it alone
//! writes, the bounded history, and the fan-out registry. One `tick`
//! performs everything a sampling round does between the raw read and
//! the sleep; the surrounding loop, clock and I/O live outside.
use vstd::prelude::*;
use crate::cfg::{Config, ConfigError};
use crate::collectors::snapshot::{build_view, RawCounters, Snapshot, SnapshotView};
use crate::fanout::FanOut;
use crate::history::{append_evict, append_evict_v, cutoff_ms, recent_views, HistoricalData};
use crate::seq_view;

verus! {

/// How many snapshots the history retains: one hour at one capture per
/// second.
pub const HISTORY_CAPACITY: usize = 3600;

/// Capture times strictly increase along a sequence of snapshots.
pub open spec fn ts_increasing(s: Seq<SnapshotView>) -> bool {
    forall|a: int, b: int| 0 <= a < b < s.len() ==> (#[trigger] s[a]).ts < (#[trigger] s[b]).ts
}

/// The sampling supervisor: sole owner of the previous-snapshot slot,
/// the history store and the fan-out registry.
pub struct Supervisor {
    interval_ms: u64,
    running: bool,
    previous: Option<Snapshot>,
    history: HistoricalData,
    fanout: FanOut,
}

impl Supervisor {
    /// The configured sampling cadence in milliseconds.
    pub closed spec fn interval(&self) -> u64 {
        self.interval_ms
    }

    /// Whether the loop may tick.
    pub closed spec fn is_running(&self) -> bool {
        self.running
    }

    /// The model of the snapshot the next tick will difference against.
    pub closed spec fn previous_view(&self) -> Option<SnapshotView> {
        match self.previous {
            None => None,
            Some(p) => Some(p@),
        }
    }

    /// The capture time of the previous snapshot, or the smallest
    /// timestamp when no tick has completed yet.
    pub open spec fn last_ts(&self) -> int {
        match self.previous_view() {
            None => i64::MIN as int,
            Some(p) => p.ts as int,
        }
    }

    /// The retained history entries.
    pub closed spec fn history_contents(&self) -> Seq<Snapshot> {
        self.history.contents()
    }

    /// The models of the retained history entries, oldest first.
    pub open spec fn history_views(&self) -> Seq<SnapshotView> {
        seq_view(self.history_contents())
    }

    /// Everything ever published, in publish order.
    pub closed spec fn log(&self) -> Seq<SnapshotView> {
        self.fanout.log()
    }

    /// How many subscribers are registered.
    pub closed spec fn sub_count(&self) -> int {
        self.fanout.sub_count()
    }

    /// The log length at subscriber `i`'s registration.
    pub closed spec fn registered_of(&self, i: int) -> int {
        self.fanout.registered_of(i)
    }

    /// What subscriber `i` was already handed.
    pub closed spec fn taken_of(&self, i: int) -> Seq<SnapshotView> {
        self.fanout.taken_of(i)
    }

    /// What still waits in subscriber `i`'s queue.
    pub closed spec fn buffered_of(&self, i: int) -> Seq<SnapshotView> {
        self.fanout.buffered_of(i)
    }

    /// Everything subscriber `i` observes, in order.
    pub open spec fn observed_of(&self, i: int) -> Seq<SnapshotView> {
        self.taken_of(i) + self.buffered_of(i)
    }

    /// Capture times of the published log and of the retained history
    /// strictly increase, and none passes the previous snapshot's: what
    /// each tick's strictly advancing capture time maintains.
    pub closed spec fn times_ok(&self) -> bool {
        &&& ts_increasing(self.log())
        &&& ts_increasing(self.history_views())
        &&& forall|a: int|
            0 <= a < self.log().len() ==> (#[trigger] self.log()[a]).ts as int <= self.last_ts()
        &&& forall|a: int|
            0 <= a < self.history_views().len() ==> (#[trigger] self.history_views()[a]).ts as int
                <= self.last_ts()
    }

    /// The supervisor's invariant: valid cadence, a history of the
    /// fixed capacity, a fan-out whose queues mirror the log, and
    /// strictly advancing capture times throughout.
    pub closed spec fn wf(&self) -> bool {
        &&& self.interval_ms > 0
        &&& self.history.wf()
        &&& self.history.capacity() == HISTORY_CAPACITY
        &&& self.fanout.wf()
        &&& self.times_ok()
    }

    /// A stopped supervisor with empty state, or the configuration
    /// error that forbids starting: a zero refresh interval is rejected
    /// here, before any tick could run.
    pub fn new(cfg: &Config) -> (r: Result<Supervisor, ConfigError>)
        ensures
            r is Ok <==> cfg.is_valid(),
            r is Err ==> r->Err_0 is InvalidInterval,
            r is Ok ==> {
                let s = r->Ok_0;
                &&& s.wf()
                &&& !s.is_running()
                &&& s.interval() == cfg.refresh.interval_ms
                &&& s.previous_view() is None
                &&& s.history_views() == Seq::<SnapshotView>::empty()
                &&& s.log() == Seq::<SnapshotView>::empty()
                &&& s.sub_count() == 0
            },
    {
        if cfg.refresh.interval_ms == 0 {
            return Err(ConfigError::InvalidInterval);
        }
        let s = Supervisor {
            interval_ms: cfg.refresh.interval_ms,
            running: false,
            previous: None,
            history: HistoricalData::new(HISTORY_CAPACITY),
            fanout: FanOut::new(),
        };
        proof {
            assert(s.history_views() =~= Seq::<SnapshotView>::empty());
        }
        Ok(s)
    }

    /// Stopped to running; ticks may start.
    pub fn start(&mut self)
        requires
            old(self).wf(),
        ensures
            final(self).wf(),
            final(self).is_running(),
            final(self).interval() == old(self).interval(),
            final(self).previous_view() == old(self).previous_view(),
            final(self).history_contents() == old(self).history_contents(),
            final(self).log() == old(self).log(),
            final(self).sub_count() == old(self).sub_count(),
            forall|i: int|
                0 <= i < old(self).sub_count() ==> {
                    &&& final(self).registered_of(i) == old(self).registered_of(i)
                    &&& final(self).taken_of(i) == old(self).taken_of(i)
                    &&& final(self).buffered_of(i) == old(self).buffered_of(i)
                },
    {
        self.running = true;
        proof {
            lemma_times_carry(*old(self), *self);
        }
    }

    /// Running to stopped; no new tick starts afterwards. A tick in
    /// flight is unaffected: it holds the supervisor exclusively until
    /// it has published.
    pub fn stop(&mut self)
        requires
            old(self).wf(),
        ensures
            final(self).wf(),
            !final(self).is_running(),
            final(self).interval() == old(self).interval(),
            final(self).previous_view() == old(self).previous_view(),
            final(self).history_contents() == old(self).history_contents(),
            final(self).log() == old(self).log(),
            final(self).sub_count() == old(self).sub_count(),
            forall|i: int|
                0 <= i < old(self).sub_count() ==> {
                    &&& final(self).registered_of(i) == old(self).registered_of(i)
                    &&& final(self).taken_of(i) == old(self).taken_of(i)
                    &&& final(self).buffered_of(i) == old(self).buffered_of(i)
                },
    {
        self.running = false;
        proof {
            lemma_times_carry(*old(self), *self);
        }
    }

    /// One sampling round, from raw counters to publication: build the
    /// snapshot against the previous one, retain it in the history,
    /// hand it to every subscriber, and make it the new previous
    /// snapshot. The capture time strictly succeeds the previous
    /// tick's, so every subscriber's stream strictly advances in time.
    pub fn tick(&mut self, raw: RawCounters, now_ms: i64)
        requires
            old(self).wf(),
            old(self).is_running(),
            now_ms > old(self).last_ts(),
        ensures
            final(self).wf(),
            final(self).is_running(),
            final(self).interval() == old(self).interval(),
            ({
                let bv = build_view(raw@, old(self).previous_view(), now_ms);
                &&& final(self).previous_view() == Some(bv)
                &&& final(self).last_ts() == now_ms
                &&& final(self).last_ts() > old(self).last_ts()
                &&& final(self).history_views() == append_evict_v(
                    old(self).history_views(),
                    HISTORY_CAPACITY as int,
                    bv,
                )
                &&& final(self).log() == old(self).log().push(bv)
                &&& final(self).sub_count() == old(self).sub_count()
                &&& forall|i: int|
                    0 <= i < old(self).sub_count() ==> {
                        &&& final(self).registered_of(i) == old(self).registered_of(i)
                        &&& final(self).taken_of(i) == old(self).taken_of(i)
                        &&& final(self).buffered_of(i) == old(self).buffered_of(i).push(bv)
                    }
            }),
    {
        let snap = Snapshot::build(raw, self.previous.as_ref(), now_ms);
        let ghost bv = snap@;
        proof {
            assert(bv.ts == now_ms);
        }
        let ghost pre_contents = self.history.contents();
        self.history.add_snapshot(snap.clone());
        proof {
            assert(seq_view(
                append_evict(pre_contents, HISTORY_CAPACITY as int, self.history.contents().last()),
            ) =~= append_evict_v(seq_view(pre_contents), HISTORY_CAPACITY as int, bv));
            assert(self.history_views() =~= append_evict_v(
                seq_view(pre_contents),
                HISTORY_CAPACITY as int,
                bv,
            ));
        }
        self.fanout.publish(snap.clone());
        self.previous = Some(snap);
        proof {
            let oldlog = old(self).log();
            assert forall|a: int, b: int|
                0 <= a < b < self.log().len() implies (#[trigger] self.log()[a]).ts < (
            #[trigger] self.log()[b]).ts by {
                if b < self.log().len() - 1 {
                    assert(oldlog[a].ts < oldlog[b].ts);
                } else {
                    assert(oldlog[a].ts as int <= old(self).last_ts());
                }
            }
            assert forall|a: int|
                0 <= a < self.log().len() implies (#[trigger] self.log()[a]).ts as int
                <= self.last_ts() by {
                if a < self.log().len() - 1 {
                    assert(oldlog[a].ts as int <= old(self).last_ts());
                }
            }
            // the new history is the old one — shifted by one entry
            // when full — with the new snapshot at the end
            let oldhv = seq_view(pre_contents);
            let newhv = self.history_views();
            let shift: int = if oldhv.len() >= HISTORY_CAPACITY {
                1
            } else {
                0
            };
            assert(forall|k: int|
                0 <= k < newhv.len() - 1 ==> #[trigger] newhv[k] == oldhv[k + shift]);
            assert(newhv.last() == bv);
            assert forall|a: int, b: int|
                0 <= a < b < newhv.len() implies (#[trigger] newhv[a]).ts < (
            #[trigger] newhv[b]).ts by {
                if b < newhv.len() - 1 {
                    assert(oldhv[a + shift].ts < oldhv[b + shift].ts);
                } else {
                    assert(oldhv[a + shift].ts as int <= old(self).last_ts());
                }
            }
            assert forall|a: int|
                0 <= a < newhv.len() implies (#[trigger] newhv[a]).ts as int <= self.last_ts() by {
                if a < newhv.len() - 1 {
                    assert(oldhv[a + shift].ts as int <= old(self).last_ts());
                }
            }
        }
    }

    /// Registers a new subscriber, which observes every snapshot
    /// published from this point on.
    pub fn subscribe(&mut self) -> (id: usize)
        requires
            old(self).wf(),
        ensures
            final(self).wf(),
            id == old(self).sub_count(),
            final(self).sub_count() == old(self).sub_count() + 1,
            final(self).log() == old(self).log(),
            final(self).registered_of(id as int) == old(self).log().len(),
            final(self).observed_of(id as int) == Seq::<SnapshotView>::empty(),
            final(self).is_running() == old(self).is_running(),
            final(self).interval() == old(self).interval(),
            final(self).previous_view() == old(self).previous_view(),
            final(self).history_views() == old(self).history_views(),
            forall|i: int|
                0 <= i < old(self).sub_count() ==> {
                    &&& final(self).registered_of(i) == old(self).registered_of(i)
                    &&& final(self).taken_of(i) == old(self).taken_of(i)
                    &&& final(self).buffered_of(i) == old(self).buffered_of(i)
                },
    {
        let id = self.fanout.subscribe();
        proof {
            assert(self.observed_of(id as int) =~= Seq::<SnapshotView>::empty());
            lemma_times_carry(*old(self), *self);
        }
        id
    }

    /// Hands subscriber `id` everything published since it last asked,
    /// in publish order. Only that subscriber's queue moves: everyone
    /// else's registration point, hand-out record and queue stay as
    /// they are, as does the poller's own registration point.
    pub fn poll(&mut self, id: usize) -> (out: Vec<Snapshot>)
        requires
            old(self).wf(),
            id < old(self).sub_count(),
        ensures
            final(self).wf(),
            seq_view(out@) == old(self).buffered_of(id as int),
            final(self).buffered_of(id as int) == Seq::<SnapshotView>::empty(),
            final(self).taken_of(id as int) == old(self).observed_of(id as int),
            final(self).registered_of(id as int) == old(self).registered_of(id as int),
            final(self).log() == old(self).log(),
            final(self).sub_count() == old(self).sub_count(),
            final(self).is_running() == old(self).is_running(),
            final(self).interval() == old(self).interval(),
            final(self).previous_view() == old(self).previous_view(),
            final(self).history_views() == old(self).history_views(),
            forall|i: int|
                0 <= i < old(self).sub_count() && i != id ==> {
                    &&& final(self).registered_of(i) == old(self).registered_of(i)
                    &&& final(self).taken_of(i) == old(self).taken_of(i)
                    &&& final(self).buffered_of(i) == old(self).buffered_of(i)
                },
    {
        let out = self.fanout.poll(id);
        proof {
            lemma_times_carry(*old(self), *self);
        }
        out
    }

    /// The most recent snapshot waiting for subscriber `id`, or nothing
    /// before the first publication since it last asked; everything
    /// older in its queue is superseded and discarded. Only that
    /// subscriber's queue moves, exactly as for `poll`.
    pub fn latest(&mut self, id: usize) -> (r: Option<Snapshot>)
        requires
            old(self).wf(),
            id < old(self).sub_count(),
        ensures
            final(self).wf(),
            match r {
                Some(s) => old(self).buffered_of(id as int).len() > 0 && s@ == old(
                    self,
                ).buffered_of(id as int).last(),
                None => old(self).buffered_of(id as int).len() == 0,
            },
            final(self).buffered_of(id as int) == Seq::<SnapshotView>::empty(),
            final(self).taken_of(id as int) == old(self).observed_of(id as int),
            final(self).registered_of(id as int) == old(self).registered_of(id as int),
            final(self).log() == old(self).log(),
            final(self).sub_count() == old(self).sub_count(),
            final(self).is_running() == old(self).is_running(),
            final(self).interval() == old(self).interval(),
            final(self).previous_view() == old(self).previous_view(),
            final(self).history_views() == old(self).history_views(),
            forall|i: int|
                0 <= i < old(self).sub_count() && i != id ==> {
                    &&& final(self).registered_of(i) == old(self).registered_of(i)
                    &&& final(self).taken_of(i) == old(self).taken_of(i)
                    &&& final(self).buffered_of(i) == old(self).buffered_of(i)
                },
    {
        let out = self.fanout.latest(id);
        proof {
            lemma_times_carry(*old(self), *self);
        }
        out
    }

    /// Law: any one subscriber observes the published snapshots in
    /// strictly increasing capture-time order — what it was already
    /// handed followed by what still waits never repeats or steps back
    /// in time.
    pub proof fn lemma_observed_in_time_order(&self, i: int)
        requires
            self.wf(),
            0 <= i < self.sub_count(),
        ensures
            ts_increasing(self.observed_of(i)),
    {
        assert(self.fanout.sub_ok(i));
        let obs = self.observed_of(i);
        let reg = self.registered_of(i);
        assert forall|a: int, b: int| 0 <= a < b < obs.len() implies (#[trigger] obs[a]).ts < (
        #[trigger] obs[b]).ts by {
            assert(obs[a] == self.log()[reg + a]);
            assert(obs[b] == self.log()[reg + b]);
            assert(self.log()[reg + a].ts < self.log()[reg + b].ts);
        }
    }

    /// Law: the retained history is in strictly increasing
    /// capture-time order, so every range query comes back
    /// chronologically ordered.
    pub proof fn lemma_history_in_time_order(&self)
        requires
            self.wf(),
        ensures
            ts_increasing(self.history_views()),
    {
    }

    /// Law: two subscribers registered at the same point observe
    /// exactly the same snapshots in the same order — the published
    /// stream since that point — however differently often each has
    /// polled.
    pub proof fn lemma_same_stream(&self, i: int, j: int)
        requires
            self.wf(),
            0 <= i < self.sub_count(),
            0 <= j < self.sub_count(),
            self.registered_of(i) == self.registered_of(j),
        ensures
            self.observed_of(i) == self.observed_of(j),
            self.observed_of(i) == self.log().subrange(
                self.registered_of(i),
                self.log().len() as int,
            ),
    {
        crate::fanout::lemma_same_stream(&self.fanout, i, j);
    }

    /// Copies out the retained snapshots of the last `duration_secs`
    /// seconds before `now_ms`, oldest first.
    pub fn get_historical_data(&self, duration_secs: u64, now_ms: i64) -> (r: Vec<Snapshot>)
        ensures
            seq_view(r@) == recent_views(
                self.history_contents(),
                cutoff_ms(now_ms, duration_secs),
            ),
    {
        self.history.get_recent_data(duration_secs, now_ms)
    }

    /// Copies out every retained snapshot, oldest first.
    pub fn get_all_historical_data(&self) -> (r: Vec<Snapshot>)
        ensures
            seq_view(r@) == self.history_views(),
    {
        self.history.get_all_data()
    }
}

/// A state change that leaves the log, the history and the previous
/// snapshot alone leaves every capture-time bound intact.
proof fn lemma_times_carry(a: Supervisor, b: Supervisor)
    requires
        a.times_ok(),
        b.log() == a.log(),
        b.history_contents() == a.history_contents(),
        b.last_ts() == a.last_ts(),
    ensures
        b.times_ok(),
{
    assert forall|x: int, y: int|
        0 <= x < y < b.log().len() implies (#[trigger] b.log()[x]).ts < (
    #[trigger] b.log()[y]).ts by {
        assert(a.log()[x].ts < a.log()[y].ts);
    }
    assert forall|x: int|
        0 <= x < b.log().len() implies (#[trigger] b.log()[x]).ts as int <= b.last_ts() by {
        assert(a.log()[x].ts as int <= a.last_ts());
    }
    assert forall|x: int, y: int|
        0 <= x < y < b.history_views().len() implies (#[trigger] b.history_views()[x]).ts < (
    #[trigger] b.history_views()[y]).ts by {
        assert(a.history_views()[x].ts < a.history_views()[y].ts);
    }
    assert forall|x: int|
        0 <= x < b.history_views().len() implies (#[trigger] b.history_views()[x]).ts as int
        <= b.last_ts() by {
        assert(a.history_views()[x].ts as int <= a.last_ts());
    }
}

} // verus!
