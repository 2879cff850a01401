//! The snapshot: one immutable capture of the host, assembled from one
//! raw counter read and, for the derived rates, the previous snapshot.
use vstd::prelude::*;
use crate::collectors::connections::{ConnectionInfo, ConnectionInfoView};
use crate::collectors::containers::{ContainerInfo, ContainerInfoView};
use crate::collectors::disk::{volume_info, DiskInfo, DiskInfoView, RawVolume, RawVolumeView};
use crate::collectors::gpu::{GpuInfo, GpuInfoView};
use crate::collectors::net::{
    fresh_sample, rated_sample, IfaceCounters, IfaceCountersView, NetworkInfo, NetworkInfoView,
};
use crate::collectors::process::{
    info_of_sample, ProcSample, ProcSampleView, ProcessInfo, ProcessInfoView,
};
use crate::collectors::process_tree::{
    build_process_tree, node_of_sample, ProcessTreeNode, ProcessTreeNodeView,
};
use crate::collectors::sensors::{BatteryInfo, BatteryInfoView, SensorInfo, SensorInfoView};
use crate::seq_view;

verus! {

/// Everything one raw read of the operating system reports: cumulative
/// counters and flat lists, nothing derived. Per-core CPU usage is in
/// hundredths of a percent, load averages in thousandths.
pub struct RawCounters {
    pub cpu_per_core: Vec<u32>,
    pub mem_total_bytes: u64,
    pub mem_available_bytes: u64,
    pub swap_total_bytes: u64,
    pub swap_free_bytes: u64,
    pub load1: u64,
    pub load5: u64,
    pub load15: u64,
    pub interfaces: Vec<IfaceCounters>,
    pub volumes: Vec<RawVolume>,
    pub processes: Vec<ProcSample>,
    pub sensors: Vec<SensorInfo>,
    pub batteries: Vec<BatteryInfo>,
    pub gpus: Vec<GpuInfo>,
    pub connections: Vec<ConnectionInfo>,
    pub containers: Vec<ContainerInfo>,
}

/// Mathematical model of `RawCounters`.
#[verifier::ext_equal]
pub ghost struct RawCountersView {
    pub cpu_per_core: Seq<u32>,
    pub mem_total_bytes: u64,
    pub mem_available_bytes: u64,
    pub swap_total_bytes: u64,
    pub swap_free_bytes: u64,
    pub load1: u64,
    pub load5: u64,
    pub load15: u64,
    pub interfaces: Seq<IfaceCountersView>,
    pub volumes: Seq<RawVolumeView>,
    pub processes: Seq<ProcSampleView>,
    pub sensors: Seq<SensorInfoView>,
    pub batteries: Seq<BatteryInfoView>,
    pub gpus: Seq<GpuInfoView>,
    pub connections: Seq<ConnectionInfoView>,
    pub containers: Seq<ContainerInfoView>,
}

impl View for RawCounters {
    type V = RawCountersView;

    open spec fn view(&self) -> RawCountersView {
        RawCountersView {
            cpu_per_core: self.cpu_per_core@,
            mem_total_bytes: self.mem_total_bytes,
            mem_available_bytes: self.mem_available_bytes,
            swap_total_bytes: self.swap_total_bytes,
            swap_free_bytes: self.swap_free_bytes,
            load1: self.load1,
            load5: self.load5,
            load15: self.load15,
            interfaces: seq_view(self.interfaces@),
            volumes: seq_view(self.volumes@),
            processes: seq_view(self.processes@),
            sensors: seq_view(self.sensors@),
            batteries: seq_view(self.batteries@),
            gpus: seq_view(self.gpus@),
            connections: seq_view(self.connections@),
            containers: seq_view(self.containers@),
        }
    }
}

/// One immutable point-in-time capture of the host. `ts` is a wall-clock
/// timestamp in milliseconds; `cpu_total_pct` and the per-core figures
/// are in hundredths of a percent; load averages in thousandths.
pub struct Snapshot {
    pub ts: i64,
    pub cpu_total_pct: u32,
    pub cpu_per_core: Vec<u32>,
    pub mem_used_bytes: u64,
    pub mem_total_bytes: u64,
    pub swap_used_bytes: u64,
    pub swap_total_bytes: u64,
    pub load1: u64,
    pub load5: u64,
    pub load15: u64,
    pub network: Vec<NetworkInfo>,
    pub disks: Vec<DiskInfo>,
    pub top_processes: Vec<ProcessInfo>,
    pub sensors: Vec<SensorInfo>,
    pub batteries: Vec<BatteryInfo>,
    pub gpus: Vec<GpuInfo>,
    pub connections: Vec<ConnectionInfo>,
    pub process_tree: Vec<ProcessTreeNode>,
    pub containers: Vec<ContainerInfo>,
}

/// Mathematical model of `Snapshot`.
#[verifier::ext_equal]
pub ghost struct SnapshotView {
    pub ts: i64,
    pub cpu_total_pct: u32,
    pub cpu_per_core: Seq<u32>,
    pub mem_used_bytes: u64,
    pub mem_total_bytes: u64,
    pub swap_used_bytes: u64,
    pub swap_total_bytes: u64,
    pub load1: u64,
    pub load5: u64,
    pub load15: u64,
    pub network: Seq<NetworkInfoView>,
    pub disks: Seq<DiskInfoView>,
    pub top_processes: Seq<ProcessInfoView>,
    pub sensors: Seq<SensorInfoView>,
    pub batteries: Seq<BatteryInfoView>,
    pub gpus: Seq<GpuInfoView>,
    pub connections: Seq<ConnectionInfoView>,
    pub process_tree: Seq<ProcessTreeNodeView>,
    pub containers: Seq<ContainerInfoView>,
}

impl View for Snapshot {
    type V = SnapshotView;

    open spec fn view(&self) -> SnapshotView {
        SnapshotView {
            ts: self.ts,
            cpu_total_pct: self.cpu_total_pct,
            cpu_per_core: self.cpu_per_core@,
            mem_used_bytes: self.mem_used_bytes,
            mem_total_bytes: self.mem_total_bytes,
            swap_used_bytes: self.swap_used_bytes,
            swap_total_bytes: self.swap_total_bytes,
            load1: self.load1,
            load5: self.load5,
            load15: self.load15,
            network: seq_view(self.network@),
            disks: seq_view(self.disks@),
            top_processes: seq_view(self.top_processes@),
            sensors: seq_view(self.sensors@),
            batteries: seq_view(self.batteries@),
            gpus: seq_view(self.gpus@),
            connections: seq_view(self.connections@),
            process_tree: seq_view(self.process_tree@),
            containers: seq_view(self.containers@),
        }
    }
}

/// Sum of a sequence of per-core readings.
pub open spec fn sum_u32(s: Seq<u32>) -> int
    decreases s.len(),
{
    if s.len() == 0 {
        0
    } else {
        sum_u32(s.drop_last()) + s.last()
    }
}

/// The mean of the per-core readings, rounded down; zero on a host that
/// reported no cores.
pub open spec fn cpu_mean(s: Seq<u32>) -> u32 {
    if s.len() == 0 {
        0
    } else {
        (sum_u32(s) / (s.len() as int)) as u32
    }
}

/// The sum of per-core readings is bounded by count times the largest
/// possible reading.
proof fn lemma_sum_bound(s: Seq<u32>)
    ensures
        0 <= sum_u32(s) <= s.len() * (u32::MAX as int),
    decreases s.len(),
{
    if s.len() > 0 {
        lemma_sum_bound(s.drop_last());
    }
}

/// Saturating difference of two unsigned figures.
pub open spec fn sat_sub_u64(a: u64, b: u64) -> u64 {
    if a >= b {
        (a - b) as u64
    } else {
        0
    }
}

/// Computes `cpu_mean` exactly, widening the sum to avoid overflow.
pub fn mean_cpu(cores: &Vec<u32>) -> (m: u32)
    ensures
        m == cpu_mean(cores@),
{
    let mut acc: u128 = 0;
    let mut i: usize = 0;
    while i < cores.len()
        invariant
            i <= cores.len(),
            acc == sum_u32(cores@.take(i as int)),
            acc <= (i as int) * (u32::MAX as int),
        decreases cores.len() - i,
    {
        proof {
            assert(cores@.take(i + 1 as int).drop_last() =~= cores@.take(i as int));
            lemma_sum_bound(cores@.take(i as int));
        }
        acc = acc + (cores[i] as u128);
        i = i + 1;
    }
    proof {
        assert(cores@.take(cores@.len() as int) =~= cores@);
    }
    if cores.len() == 0 {
        0
    } else {
        proof {
            lemma_sum_bound(cores@);
            assert(sum_u32(cores@) / (cores@.len() as int) <= u32::MAX as int) by (nonlinear_arith)
                requires
                    0 <= sum_u32(cores@) <= cores@.len() * (u32::MAX as int),
                    cores@.len() > 0,
            ;
        }
        (acc / (cores.len() as u128)) as u32
    }
}

/// The per-process sort keys: each entry's CPU usage.
pub open spec fn cpu_keys(s: Seq<ProcSampleView>) -> Seq<u32> {
    s.map_values(|q: ProcSampleView| q.cpu_usage)
}

/// Inserts index `x` into an index list sorted by descending key: `x`
/// goes in front of the first index whose key is strictly smaller, so
/// among equal keys the earlier index keeps the earlier place.
pub open spec fn insert_idx(keys: Seq<u32>, s: Seq<usize>, x: usize) -> Seq<usize>
    decreases s.len(),
{
    if s.len() == 0 {
        seq![x]
    } else if keys[x as int] > keys[s[0] as int] {
        seq![x] + s
    } else {
        seq![s[0]] + insert_idx(keys, s.drop_first(), x)
    }
}

/// The indices `0..n` ordered by descending key, insertion-sorted so
/// that equal keys keep their original relative order.
pub open spec fn sort_idx(keys: Seq<u32>, n: nat) -> Seq<usize>
    decreases n,
{
    if n == 0 {
        Seq::empty()
    } else {
        insert_idx(keys, sort_idx(keys, (n - 1) as nat), (n - 1) as usize)
    }
}

/// `insert_idx` splits the list exactly at the first position whose key
/// is strictly smaller than the key of `x`.
proof fn lemma_insert_idx_at(keys: Seq<u32>, s: Seq<usize>, x: usize, p: int)
    requires
        0 <= p <= s.len(),
        forall|q: int| 0 <= q < p ==> keys[s[q] as int] >= keys[x as int],
        p < s.len() ==> keys[s[p] as int] < keys[x as int],
    ensures
        insert_idx(keys, s, x) == s.take(p) + seq![x] + s.skip(p),
    decreases p,
{
    if p == 0 {
        if s.len() == 0 {
            assert(insert_idx(keys, s, x) =~= s.take(0) + seq![x] + s.skip(0));
        } else {
            assert(keys[s[0] as int] < keys[x as int]);
            assert(insert_idx(keys, s, x) =~= s.take(0) + seq![x] + s.skip(0));
        }
    } else {
        assert(keys[s[0] as int] >= keys[x as int]);
        let t = s.drop_first();
        assert(forall|q: int| 0 <= q < p - 1 ==> keys[t[q] as int] >= keys[x as int]);
        lemma_insert_idx_at(keys, t, x, p - 1);
        assert(insert_idx(keys, s, x) == seq![s[0]] + (t.take(p - 1) + seq![x] + t.skip(p - 1)));
        assert(seq![s[0]] + (t.take(p - 1) + seq![x] + t.skip(p - 1)) =~= s.take(p) + seq![x]
            + s.skip(p));
    }
}

/// Inserting keeps the list's length and adds nothing but `x`.
proof fn lemma_insert_idx_range(keys: Seq<u32>, s: Seq<usize>, x: usize)
    ensures
        insert_idx(keys, s, x).len() == s.len() + 1,
        forall|k: int|
            0 <= k < insert_idx(keys, s, x).len() ==> (insert_idx(keys, s, x)[k] == x
                || s.contains(insert_idx(keys, s, x)[k])),
    decreases s.len(),
{
    if s.len() > 0 && !(keys[x as int] > keys[s[0] as int]) {
        let t = s.drop_first();
        lemma_insert_idx_range(keys, t, x);
        assert forall|k: int| 0 <= k < insert_idx(keys, s, x).len() implies (insert_idx(
            keys,
            s,
            x,
        )[k] == x || s.contains(insert_idx(keys, s, x)[k])) by {
            if k > 0 {
                let e = insert_idx(keys, s, x)[k];
                assert(e == insert_idx(keys, t, x)[k - 1]);
                if e != x {
                    let m = choose|m: int| 0 <= m < t.len() && t[m] == e;
                    assert(s[m + 1] == e);
                }
            }
        }
    }
}

/// Every index the sorted order holds is one of `0..n`, each at most
/// once; the order has exactly `n` entries.
pub proof fn lemma_sort_idx_range(keys: Seq<u32>, n: nat)
    ensures
        sort_idx(keys, n).len() == n,
        forall|k: int| 0 <= k < n ==> 0 <= #[trigger] sort_idx(keys, n)[k] < n,
    decreases n,
{
    if n > 0 {
        lemma_sort_idx_range(keys, (n - 1) as nat);
        lemma_insert_idx_range(keys, sort_idx(keys, (n - 1) as nat), (n - 1) as usize);
    }
}

/// The first `count` processes by descending CPU usage, ties resolved
/// by raw read order.
pub open spec fn top_spec(s: Seq<ProcSampleView>) -> Seq<ProcessInfoView> {
    let order = sort_idx(cpu_keys(s), s.len());
    let count: int = if s.len() < 10 {
        s.len() as int
    } else {
        10
    };
    Seq::new(count as nat, |k: int| info_of_sample(s[order[k] as int]))
}

/// Sorts the indices of the process list by descending CPU usage,
/// stably: among equal usages the raw read order is kept.
fn sorted_order(procs: &Vec<ProcSample>) -> (order: Vec<usize>)
    ensures
        order@ == sort_idx(cpu_keys(seq_view(procs@)), procs@.len() as nat),
{
    let ghost keys = cpu_keys(seq_view(procs@));
    proof {
        assert(keys.len() == procs@.len());
    }
    let mut order: Vec<usize> = Vec::new();
    let mut i: usize = 0;
    while i < procs.len()
        invariant
            i <= procs.len(),
            keys == cpu_keys(seq_view(procs@)),
            keys.len() == procs@.len(),
            forall|k: int| 0 <= k < keys.len() ==> keys[k] == procs@[k]@.cpu_usage,
            order@ == sort_idx(keys, i as nat),
        decreases procs.len() - i,
    {
        proof {
            lemma_sort_idx_range(keys, i as nat);
        }
        let key_i = procs[i].cpu_usage;
        let mut p: usize = 0;
        while p < order.len() && procs[order[p]].cpu_usage >= key_i
            invariant
                p <= order.len(),
                i < procs.len(),
                key_i == keys[i as int],
                keys.len() == procs@.len(),
                forall|k: int| 0 <= k < keys.len() ==> keys[k] == procs@[k]@.cpu_usage,
                order@ == sort_idx(keys, i as nat),
                forall|k: int| 0 <= k < order@.len() ==> 0 <= #[trigger] order@[k] < i,
                forall|q: int| 0 <= q < p ==> keys[order@[q] as int] >= keys[i as int],
            decreases order.len() - p,
        {
            p = p + 1;
        }
        proof {
            lemma_insert_idx_at(keys, order@, i, p as int);
        }
        let ghost before = order@;
        order.insert(p, i);
        proof {
            assert(order@ =~= before.take(p as int) + seq![i] + before.skip(p as int));
        }
        i = i + 1;
    }
    order
}

/// The snapshot's top-process list: the whole process list sorted by
/// descending CPU usage with stable ties, trimmed to the first ten.
pub fn top_processes(procs: &Vec<ProcSample>) -> (r: Vec<ProcessInfo>)
    ensures
        seq_view(r@) == top_spec(seq_view(procs@)),
{
    let order = sorted_order(procs);
    proof {
        lemma_sort_idx_range(cpu_keys(seq_view(procs@)), procs@.len() as nat);
    }
    let count: usize = if procs.len() < 10 {
        procs.len()
    } else {
        10
    };
    let mut r: Vec<ProcessInfo> = Vec::new();
    let mut k: usize = 0;
    while k < count
        invariant
            k <= count,
            count == if procs@.len() < 10 {
                procs@.len() as int
            } else {
                10
            },
            order@ == sort_idx(cpu_keys(seq_view(procs@)), procs@.len() as nat),
            order@.len() == procs@.len(),
            forall|m: int| 0 <= m < order@.len() ==> 0 <= #[trigger] order@[m] < procs@.len(),
            r@.len() == k,
            forall|m: int|
                0 <= m < k ==> r@[m]@ == info_of_sample(seq_view(procs@)[order@[m] as int]),
        decreases count - k,
    {
        let idx = order[k];
        r.push(ProcessInfo::from_process(&procs[idx]));
        k = k + 1;
    }
    proof {
        assert(seq_view(r@) =~= top_spec(seq_view(procs@)));
    }
    r
}

/// The order the top-process sort establishes between two positions of
/// the raw list: higher CPU usage first, earlier read order first among
/// equals.
pub open spec fn ranks_before(keys: Seq<u32>, a: usize, b: usize) -> bool {
    keys[a as int] > keys[b as int] || (keys[a as int] == keys[b as int] && a < b)
}

/// A whole index list ordered by `ranks_before`.
pub open spec fn rank_sorted(keys: Seq<u32>, s: Seq<usize>) -> bool {
    forall|a: int, b: int| 0 <= a < b < s.len() ==> #[trigger] ranks_before(keys, s[a], s[b])
}

/// Every index of the list lies below `x`.
pub open spec fn below(s: Seq<usize>, x: usize) -> bool {
    forall|k: int| 0 <= k < s.len() ==> #[trigger] s[k] < x
}

/// Inserting an index fresh above everything present keeps the list
/// sorted by `ranks_before`.
proof fn lemma_insert_idx_sorted(keys: Seq<u32>, s: Seq<usize>, x: usize)
    requires
        rank_sorted(keys, s),
        below(s, x),
    ensures
        rank_sorted(keys, insert_idx(keys, s, x)),
    decreases s.len(),
{
    let out = insert_idx(keys, s, x);
    if s.len() == 0 {
    } else if keys[x as int] > keys[s[0] as int] {
        assert forall|a: int, b: int| 0 <= a < b < out.len() implies #[trigger] ranks_before(
            keys,
            out[a],
            out[b],
        ) by {
            if a == 0 {
                if b > 1 {
                    assert(ranks_before(keys, s[0], s[b - 1]));
                }
            } else {
                assert(ranks_before(keys, s[a - 1], s[b - 1]));
            }
        }
    } else {
        let t = s.drop_first();
        assert(rank_sorted(keys, t)) by {
            assert forall|a: int, b: int| 0 <= a < b < t.len() implies #[trigger] ranks_before(
                keys,
                t[a],
                t[b],
            ) by {
                assert(t[a] == s[a + 1] && t[b] == s[b + 1]);
                assert(ranks_before(keys, s[a + 1], s[b + 1]));
            }
        }
        assert(below(t, x)) by {
            assert forall|k: int| 0 <= k < t.len() implies #[trigger] t[k] < x by {
                assert(t[k] == s[k + 1]);
                assert(s[k + 1] < x);
            }
        }
        lemma_insert_idx_sorted(keys, t, x);
        lemma_insert_idx_range(keys, t, x);
        let rest = insert_idx(keys, t, x);
        assert forall|a: int, b: int| 0 <= a < b < out.len() implies #[trigger] ranks_before(
            keys,
            out[a],
            out[b],
        ) by {
            if a == 0 {
                let e = rest[b - 1];
                assert(out[b] == e);
                if e == x {
                    assert(keys[s[0] as int] >= keys[x as int] && s[0] < x);
                } else {
                    let m = choose|m: int| 0 <= m < t.len() && t[m] == e;
                    assert(ranks_before(keys, s[0], s[m + 1]));
                }
            } else {
                assert(ranks_before(keys, rest[a - 1], rest[b - 1]));
            }
        }
    }
}

/// The sorted order of the first `n` indices is sorted by
/// `ranks_before`.
proof fn lemma_sort_idx_sorted(keys: Seq<u32>, n: nat)
    requires
        n <= usize::MAX,
    ensures
        rank_sorted(keys, sort_idx(keys, n)),
    decreases n,
{
    if n > 0 {
        let prev = sort_idx(keys, (n - 1) as nat);
        lemma_sort_idx_sorted(keys, (n - 1) as nat);
        lemma_sort_idx_range(keys, (n - 1) as nat);
        assert(below(prev, (n - 1) as usize)) by {
            assert forall|k: int| 0 <= k < prev.len() implies #[trigger] prev[k] < (n - 1) as usize
                by {
                assert(0 <= sort_idx(keys, (n - 1) as nat)[k] < (n - 1) as nat);
            }
        }
        lemma_insert_idx_sorted(keys, prev, (n - 1) as usize);
    }
}

/// Law: the top-process list is the start of the process list sorted
/// by CPU usage, descending — never more than ten entries, never fewer
/// when ten are available, each entry one of the raw samples, and no
/// entry with more CPU below one with less.
pub proof fn lemma_top_processes_sorted(s: Seq<ProcSampleView>)
    requires
        s.len() <= usize::MAX,
    ensures
        top_spec(s).len() == if s.len() < 10 {
            s.len() as int
        } else {
            10
        },
        forall|a: int, b: int|
            0 <= a < b < top_spec(s).len() ==> (#[trigger] top_spec(s)[a]).cpu_usage >= (
            #[trigger] top_spec(s)[b]).cpu_usage,
        forall|k: int|
            0 <= k < top_spec(s).len() ==> exists|j: int|
                0 <= j < s.len() && #[trigger] top_spec(s)[k] == info_of_sample(#[trigger] s[j]),
{
    let keys = cpu_keys(s);
    let order = sort_idx(keys, s.len());
    lemma_sort_idx_range(keys, s.len());
    lemma_sort_idx_sorted(keys, s.len());
    assert(rank_sorted(keys, order));
    assert forall|a: int, b: int| 0 <= a < b < top_spec(s).len() implies (#[trigger] top_spec(
        s,
    )[a]).cpu_usage >= (#[trigger] top_spec(s)[b]).cpu_usage by {
        assert(ranks_before(keys, order[a], order[b]));
    }
    assert forall|k: int| 0 <= k < top_spec(s).len() implies exists|j: int|
        0 <= j < s.len() && #[trigger] top_spec(s)[k] == info_of_sample(#[trigger] s[j]) by {
        let j = order[k] as int;
        assert(0 <= j < s.len() && top_spec(s)[k] == info_of_sample(s[j]));
    }
}

/// Pairwise distinct texts.
pub open spec fn distinct_names(s: Seq<Seq<char>>) -> bool {
    forall|i: int, j: int| 0 <= i < j < s.len() ==> s[i] != s[j]
}

/// The interface names of a raw read, in read order.
pub open spec fn raw_iface_names(s: Seq<IfaceCountersView>) -> Seq<Seq<char>> {
    Seq::new(s.len(), |i: int| s[i].interface)
}

/// The mount points of a raw read, in read order.
pub open spec fn raw_mount_points(s: Seq<RawVolumeView>) -> Seq<Seq<char>> {
    Seq::new(s.len(), |i: int| s[i].mount_point)
}

/// The interface names of a snapshot's samples, in order.
pub open spec fn sample_iface_names(s: Seq<NetworkInfoView>) -> Seq<Seq<char>> {
    Seq::new(s.len(), |i: int| s[i].interface)
}

/// A well-formed raw read: interface names, mount points and pids are
/// unique, as one read of the operating system reports them.
pub open spec fn raw_wf(raw: RawCountersView) -> bool {
    &&& distinct_names(raw_iface_names(raw.interfaces))
    &&& distinct_names(raw_mount_points(raw.volumes))
    &&& crate::collectors::process_tree::distinct_pids(raw.processes)
}

/// Law: a snapshot built from a well-formed raw read keeps the data
/// model's invariants — used memory and swap never exceed their
/// totals, interface names stay unique, the forest holds exactly the
/// raw read's pids in read order, and every top process is one of
/// them.
pub proof fn lemma_build_invariants(raw: RawCountersView, prev: Option<SnapshotView>, now_ms: i64)
    requires
        raw_wf(raw),
        raw.processes.len() <= usize::MAX,
    ensures
        ({
            let bv = build_view(raw, prev, now_ms);
            &&& bv.mem_used_bytes <= bv.mem_total_bytes
            &&& bv.swap_used_bytes <= bv.swap_total_bytes
            &&& distinct_names(sample_iface_names(bv.network))
            &&& bv.process_tree.len() == raw.processes.len()
            &&& forall|i: int|
                0 <= i < raw.processes.len() ==> bv.process_tree[i].pid == raw.processes[i].pid
            &&& forall|k: int|
                0 <= k < bv.top_processes.len() ==> exists|j: int|
                    0 <= j < bv.process_tree.len() && (#[trigger] bv.top_processes[k]).pid == (
                    #[trigger] bv.process_tree[j]).pid
        }),
{
    let bv = build_view(raw, prev, now_ms);
    let names = sample_iface_names(bv.network);
    let raw_names = raw_iface_names(raw.interfaces);
    assert forall|i: int, j: int| 0 <= i < j < names.len() implies names[i] != names[j] by {
        assert(names[i] == raw_names[i] && names[j] == raw_names[j]);
        assert(raw_names[i] != raw_names[j]);
    }
    assert(distinct_names(names));
    assert(bv.mem_used_bytes <= bv.mem_total_bytes);
    assert(bv.swap_used_bytes <= bv.swap_total_bytes);
    assert(bv.process_tree.len() == raw.processes.len());
    assert forall|i: int| 0 <= i < raw.processes.len() implies bv.process_tree[i].pid
        == raw.processes[i].pid by {
        assert(bv.process_tree[i] == node_of_sample(raw.processes, raw.processes[i]));
    }
    lemma_top_processes_sorted(raw.processes);
    assert forall|k: int| 0 <= k < bv.top_processes.len() implies exists|j: int|
        0 <= j < bv.process_tree.len() && (#[trigger] bv.top_processes[k]).pid == (
    #[trigger] bv.process_tree[j]).pid by {
        let j = choose|j: int|
            0 <= j < raw.processes.len() && bv.top_processes[k] == info_of_sample(
                #[trigger] raw.processes[j],
            );
        assert(bv.process_tree[j].pid == raw.processes[j].pid);
    }
}

/// The first sample of the named interface, scanning from the front.
pub open spec fn find_sample(s: Seq<NetworkInfoView>, name: Seq<char>) -> Option<NetworkInfoView>
    decreases s.len(),
{
    if s.len() == 0 {
        None
    } else if s[0].interface == name {
        Some(s[0])
    } else {
        find_sample(s.drop_first(), name)
    }
}

/// `find_sample` returns the sample at the first matching position.
proof fn lemma_find_sample_at(s: Seq<NetworkInfoView>, name: Seq<char>, j: int)
    requires
        0 <= j < s.len(),
        forall|q: int| 0 <= q < j ==> s[q].interface != name,
        s[j].interface == name,
    ensures
        find_sample(s, name) == Some(s[j]),
    decreases j,
{
    if j > 0 {
        lemma_find_sample_at(s.drop_first(), name, j - 1);
    }
}

/// `find_sample` finds nothing when no sample carries the name.
proof fn lemma_find_sample_none(s: Seq<NetworkInfoView>, name: Seq<char>)
    requires
        forall|q: int| 0 <= q < s.len() ==> s[q].interface != name,
    ensures
        find_sample(s, name) is None,
    decreases s.len(),
{
    if s.len() > 0 {
        lemma_find_sample_none(s.drop_first(), name);
    }
}

/// Looks the named interface up in the previous snapshot's samples.
fn find_prev<'a>(nets: &'a Vec<NetworkInfo>, name: &String) -> (r: Option<&'a NetworkInfo>)
    ensures
        match r {
            Some(p) => find_sample(seq_view(nets@), name@) == Some(p@),
            None => find_sample(seq_view(nets@), name@) is None,
        },
{
    let mut j: usize = 0;
    while j < nets.len()
        invariant
            j <= nets.len(),
            forall|q: int| 0 <= q < j ==> seq_view(nets@)[q].interface != name@,
        decreases nets.len() - j,
    {
        if nets[j].interface == *name {
            proof {
                lemma_find_sample_at(seq_view(nets@), name@, j as int);
            }
            return Some(&nets[j]);
        }
        j = j + 1;
    }
    proof {
        lemma_find_sample_none(seq_view(nets@), name@);
    }
    None
}

/// The sample one interface contributes to the new snapshot: fresh when
/// the interface has no predecessor, rated against its predecessor
/// otherwise.
pub open spec fn sample_of(
    ifc: IfaceCountersView,
    prev_nets: Option<Seq<NetworkInfoView>>,
    elapsed_ms: u64,
) -> NetworkInfoView {
    match prev_nets {
        None => fresh_sample(ifc),
        Some(pn) => match find_sample(pn, ifc.interface) {
            None => fresh_sample(ifc),
            Some(prev) => rated_sample(fresh_sample(ifc), prev, elapsed_ms),
        },
    }
}

/// All interface samples of the new snapshot, in raw read order.
pub open spec fn net_samples(
    ifaces: Seq<IfaceCountersView>,
    prev_nets: Option<Seq<NetworkInfoView>>,
    elapsed_ms: u64,
) -> Seq<NetworkInfoView> {
    Seq::new(ifaces.len(), |k: int| sample_of(ifaces[k], prev_nets, elapsed_ms))
}

/// The process forest of the raw read, one node per process.
pub open spec fn forest_view(s: Seq<ProcSampleView>) -> Seq<ProcessTreeNodeView> {
    Seq::new(s.len(), |i: int| node_of_sample(s, s[i]))
}

/// The previous snapshot's model, if there is one.
pub open spec fn prev_view(previous: Option<&Snapshot>) -> Option<SnapshotView> {
    match previous {
        None => None,
        Some(p) => Some(p@),
    }
}

/// The previous snapshot's interface samples, if there is one.
pub open spec fn prev_nets_of(prev: Option<SnapshotView>) -> Option<Seq<NetworkInfoView>> {
    match prev {
        None => None,
        Some(p) => Some(p.network),
    }
}

/// Milliseconds between the previous capture and this one; zero without
/// a predecessor. Meaningful when `now_ms` is not older than the
/// predecessor, which the builder requires.
pub open spec fn elapsed_since(prev: Option<SnapshotView>, now_ms: i64) -> u64 {
    match prev {
        None => 0,
        Some(p) => (now_ms - p.ts) as u64,
    }
}

/// The snapshot one raw read turns into, given the previous snapshot
/// and the capture time: every derived figure of the data model, spelled
/// out field by field.
pub open spec fn build_view(
    raw: RawCountersView,
    prev: Option<SnapshotView>,
    now_ms: i64,
) -> SnapshotView {
    SnapshotView {
        ts: now_ms,
        cpu_total_pct: cpu_mean(raw.cpu_per_core),
        cpu_per_core: raw.cpu_per_core,
        mem_used_bytes: sat_sub_u64(raw.mem_total_bytes, raw.mem_available_bytes),
        mem_total_bytes: raw.mem_total_bytes,
        swap_used_bytes: sat_sub_u64(raw.swap_total_bytes, raw.swap_free_bytes),
        swap_total_bytes: raw.swap_total_bytes,
        load1: raw.load1,
        load5: raw.load5,
        load15: raw.load15,
        network: net_samples(raw.interfaces, prev_nets_of(prev), elapsed_since(prev, now_ms)),
        disks: raw.volumes.map_values(|v: RawVolumeView| volume_info(v)),
        top_processes: top_spec(raw.processes),
        sensors: raw.sensors,
        batteries: raw.batteries,
        gpus: raw.gpus,
        connections: raw.connections,
        process_tree: forest_view(raw.processes),
        containers: raw.containers,
    }
}

impl Snapshot {
    /// Assembles the snapshot of one raw read. Pure and total: every
    /// list the raw read could not fill simply stays empty. The capture
    /// time must not precede the previous snapshot's.
    pub fn build(raw: RawCounters, previous: Option<&Snapshot>, now_ms: i64) -> (snap: Snapshot)
        requires
            match previous {
                Some(p) => p.ts <= now_ms,
                None => true,
            },
        ensures
            snap@ == build_view(raw@, prev_view(previous), now_ms),
    {
        let cpu_total = mean_cpu(&raw.cpu_per_core);
        let mem_used: u64 = if raw.mem_total_bytes >= raw.mem_available_bytes {
            raw.mem_total_bytes - raw.mem_available_bytes
        } else {
            0
        };
        let swap_used: u64 = if raw.swap_total_bytes >= raw.swap_free_bytes {
            raw.swap_total_bytes - raw.swap_free_bytes
        } else {
            0
        };
        let elapsed: u64 = match previous {
            Some(p) => {
                let wide: i128 = (now_ms as i128) - (p.ts as i128);
                wide as u64
            },
            None => 0,
        };
        proof {
            assert(elapsed == elapsed_since(prev_view(previous), now_ms));
        }
        let ghost pnets = prev_nets_of(prev_view(previous));

        let mut network: Vec<NetworkInfo> = Vec::new();
        let mut i: usize = 0;
        while i < raw.interfaces.len()
            invariant
                i <= raw.interfaces.len(),
                pnets == prev_nets_of(prev_view(previous)),
                match previous {
                    Some(p) => pnets == Some(seq_view(p.network@)),
                    None => pnets is None,
                },
                network@.len() == i,
                forall|k: int|
                    0 <= k < i ==> network@[k]@ == sample_of(
                        seq_view(raw.interfaces@)[k],
                        pnets,
                        elapsed,
                    ),
            decreases raw.interfaces.len() - i,
        {
            let base = NetworkInfo::from_network_data(&raw.interfaces[i]);
            let cur = match previous {
                Some(p) => match find_prev(&p.network, &raw.interfaces[i].interface) {
                    Some(pn) => base.with_throughput(pn, elapsed),
                    None => base,
                },
                None => base,
            };
            network.push(cur);
            i = i + 1;
        }

        let mut disks: Vec<DiskInfo> = Vec::new();
        let mut d: usize = 0;
        while d < raw.volumes.len()
            invariant
                d <= raw.volumes.len(),
                disks@.len() == d,
                forall|k: int| 0 <= k < d ==> disks@[k]@ == volume_info(seq_view(raw.volumes@)[k]),
            decreases raw.volumes.len() - d,
        {
            disks.push(DiskInfo::from_disk(&raw.volumes[d]));
            d = d + 1;
        }

        let tops = top_processes(&raw.processes);
        let forest = build_process_tree(&raw.processes);

        let snap = Snapshot {
            ts: now_ms,
            cpu_total_pct: cpu_total,
            cpu_per_core: raw.cpu_per_core,
            mem_used_bytes: mem_used,
            mem_total_bytes: raw.mem_total_bytes,
            swap_used_bytes: swap_used,
            swap_total_bytes: raw.swap_total_bytes,
            load1: raw.load1,
            load5: raw.load5,
            load15: raw.load15,
            network,
            disks,
            top_processes: tops,
            sensors: raw.sensors,
            batteries: raw.batteries,
            gpus: raw.gpus,
            connections: raw.connections,
            process_tree: forest,
            containers: raw.containers,
        };
        proof {
            let rv = raw@;
            let pv = prev_view(previous);
            assert(seq_view(snap.network@) =~= net_samples(
                rv.interfaces,
                prev_nets_of(pv),
                elapsed_since(pv, now_ms),
            ));
            assert(seq_view(snap.disks@) =~= rv.volumes.map_values(
                |v: RawVolumeView| volume_info(v),
            ));
            assert(seq_view(snap.top_processes@) == top_spec(rv.processes));
            assert(seq_view(snap.process_tree@) =~= forest_view(rv.processes));
            assert(snap@ =~= build_view(rv, pv, now_ms));
        }
        snap
    }
}

impl Clone for Snapshot {
    fn clone(&self) -> (res: Self)
        ensures
            res@ == self@,
    {
        let res = Snapshot {
            ts: self.ts,
            cpu_total_pct: self.cpu_total_pct,
            cpu_per_core: crate::copy_u32s(&self.cpu_per_core),
            mem_used_bytes: self.mem_used_bytes,
            mem_total_bytes: self.mem_total_bytes,
            swap_used_bytes: self.swap_used_bytes,
            swap_total_bytes: self.swap_total_bytes,
            load1: self.load1,
            load5: self.load5,
            load15: self.load15,
            network: crate::clone_vec_view(&self.network),
            disks: crate::clone_vec_view(&self.disks),
            top_processes: crate::clone_vec_view(&self.top_processes),
            sensors: crate::clone_vec_view(&self.sensors),
            batteries: crate::clone_vec_view(&self.batteries),
            gpus: crate::clone_vec_view(&self.gpus),
            connections: crate::clone_vec_view(&self.connections),
            process_tree: crate::clone_vec_view(&self.process_tree),
            containers: crate::clone_vec_view(&self.containers),
        };
        proof {
            assert(res@ =~= self@);
        }
        res
    }
}

} // verus!
