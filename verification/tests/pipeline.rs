//! End-to-end behaviour of the snapshot pipeline: throughput math,
//! bounded history, process forest, fan-out and the supervisor tick.
use zek::cfg::{Collectors, Config, Exporters, Refresh, Web};
use zek::collectors::disk::{DiskInfo, RawVolume};
use zek::collectors::net::{rate_bps, IfaceCounters, NetworkInfo};
use zek::collectors::process::ProcSample;
use zek::collectors::process_tree::build_process_tree;
use zek::collectors::snapshot::{RawCounters, Snapshot};
use zek::history::HistoricalData;
use zek::supervisor::Supervisor;

fn empty_raw(now_cpu: Vec<u32>) -> RawCounters {
    RawCounters {
        cpu_per_core: now_cpu,
        mem_total_bytes: 0,
        mem_available_bytes: 0,
        swap_total_bytes: 0,
        swap_free_bytes: 0,
        load1: 0,
        load5: 0,
        load15: 0,
        interfaces: Vec::new(),
        volumes: Vec::new(),
        processes: Vec::new(),
        sensors: Vec::new(),
        batteries: Vec::new(),
        gpus: Vec::new(),
        connections: Vec::new(),
        containers: Vec::new(),
    }
}

fn iface(name: &str, rx: u64, tx: u64) -> IfaceCounters {
    IfaceCounters {
        interface: name.to_string(),
        rx_bytes: rx,
        tx_bytes: tx,
        rx_packets: 0,
        tx_packets: 0,
        rx_errors: 0,
        tx_errors: 0,
    }
}

fn plain_config(interval_ms: u64) -> Config {
    Config {
        refresh: Refresh { interval_ms },
        collectors: Collectors { cpu: true, mem: true, load: true },
        exporters: Exporters { prometheus: None, prometheus_bind: None },
        web: Web { bind: None },
    }
}

#[test]
fn throughput_of_growing_counter_is_delta_per_second() {
    // counters grew by 1500 bytes over 3 seconds
    assert_eq!(rate_bps(2500, 1000, 3000), 500);
    // a whole second, delta equals the rate
    assert_eq!(rate_bps(2000, 1000, 1000), 1000);
    // an elapsed time of zero counts as one millisecond
    assert_eq!(rate_bps(1001, 1000, 0), 1000);
}

#[test]
fn throughput_of_reset_counter_is_zero() {
    // the counter went backwards: an interface reset, not a negative rate
    assert_eq!(rate_bps(10, 1_000_000, 1000), 0);
    assert_eq!(rate_bps(0, u64::MAX, 1), 0);
}

#[test]
fn history_keeps_the_most_recent_capacity_entries() {
    let mut store = HistoricalData::new(3);
    for ts in 1..=5i64 {
        let mut raw = empty_raw(vec![]);
        raw.mem_total_bytes = 100;
        store.add_snapshot(Snapshot::build(raw, None, ts));
    }
    let all = store.get_all_data();
    assert_eq!(all.len(), 3);
    let stamps: Vec<i64> = all.iter().map(|s| s.ts).collect();
    assert_eq!(stamps, vec![3, 4, 5]);
}

#[test]
fn history_query_since_filters_by_age() {
    let mut store = HistoricalData::new(10);
    for ts in [1_000i64, 5_000, 9_000] {
        store.add_snapshot(Snapshot::build(empty_raw(vec![]), None, ts));
    }
    let recent = store.get_recent_data(5, 10_000);
    let stamps: Vec<i64> = recent.iter().map(|s| s.ts).collect();
    assert_eq!(stamps, vec![5_000, 9_000]);
}

fn proc(pid: u32, parent: Option<u32>) -> ProcSample {
    ProcSample {
        pid,
        name: format!("p{}", pid),
        cpu_usage: 0,
        memory_bytes: 0,
        status: "Run".to_string(),
        parent_pid: parent,
    }
}

#[test]
fn process_forest_holds_every_pid_once() {
    let procs = vec![
        proc(1, None),
        proc(2, Some(1)),
        proc(3, Some(2)),
        proc(4, Some(99)), // orphan: its parent already exited
        proc(5, Some(5)),  // names itself: a root, not its own child
    ];
    let forest = build_process_tree(&procs);
    assert_eq!(forest.len(), 5);
    let pids: Vec<u32> = forest.iter().map(|n| n.pid).collect();
    assert_eq!(pids, vec![1, 2, 3, 4, 5]);
    assert_eq!(forest[0].children, vec![2]);
    assert_eq!(forest[1].children, vec![3]);
    assert_eq!(forest[2].children, Vec::<u32>::new());
    // the orphan and the self-parented process got no parent link
    let referenced: Vec<u32> = forest.iter().flat_map(|n| n.children.clone()).collect();
    assert!(!referenced.contains(&1));
    assert!(!referenced.contains(&4));
    assert!(!referenced.contains(&5));
}

#[test]
fn top_processes_sorted_by_cpu_with_stable_ties() {
    let mut procs = Vec::new();
    for (pid, cpu) in [(10u32, 500u32), (11, 900), (12, 900), (13, 100)] {
        let mut p = proc(pid, None);
        p.cpu_usage = cpu;
        procs.push(p);
    }
    let mut raw = empty_raw(vec![]);
    raw.processes = procs;
    let snap = Snapshot::build(raw, None, 0);
    let order: Vec<u32> = snap.top_processes.iter().map(|p| p.pid).collect();
    // 900 before 500 before 100; the two at 900 keep read order
    assert_eq!(order, vec![11, 12, 10, 13]);
}

#[test]
fn two_subscribers_observe_the_same_stream() {
    let mut sup = Supervisor::new(&plain_config(1000)).expect("valid config");
    sup.start();
    let a = sup.subscribe();
    let b = sup.subscribe();
    for ts in [100i64, 200, 300] {
        sup.tick(empty_raw(vec![]), ts);
    }
    // subscriber a reads eagerly, subscriber b lags: both see every
    // snapshot, in publish order
    let seen_a: Vec<i64> = sup.poll(a).iter().map(|s| s.ts).collect();
    sup.tick(empty_raw(vec![]), 400);
    let more_a: Vec<i64> = sup.poll(a).iter().map(|s| s.ts).collect();
    let seen_b: Vec<i64> = sup.poll(b).iter().map(|s| s.ts).collect();
    let mut all_a = seen_a.clone();
    all_a.extend(more_a);
    assert_eq!(all_a, vec![100, 200, 300, 400]);
    assert_eq!(seen_b, vec![100, 200, 300, 400]);
}

#[test]
fn latest_drains_and_keeps_the_newest() {
    let mut sup = Supervisor::new(&plain_config(250)).expect("valid config");
    sup.start();
    let id = sup.subscribe();
    assert!(sup.latest(id).is_none());
    sup.tick(empty_raw(vec![]), 10);
    sup.tick(empty_raw(vec![]), 20);
    let last = sup.latest(id).expect("two snapshots buffered");
    assert_eq!(last.ts, 20);
    // the older buffered snapshot was superseded and discarded
    assert!(sup.latest(id).is_none());
}

#[test]
fn zero_interval_is_a_configuration_error() {
    assert!(Supervisor::new(&plain_config(0)).is_err());
    assert!(plain_config(0).validate().is_err());
    assert!(plain_config(1).validate().is_ok());
}

#[test]
fn end_to_end_second_snapshot_has_derived_figures() {
    // first capture at t=0: two cores at 10% and 20%, 500 of 1000 bytes
    // used, eth0 has received 1000 bytes so far
    let mut raw0 = empty_raw(vec![1000, 2000]);
    raw0.mem_total_bytes = 1000;
    raw0.mem_available_bytes = 500;
    raw0.interfaces = vec![iface("eth0", 1000, 0)];
    let first = Snapshot::build(raw0, None, 0);
    assert_eq!(first.cpu_total_pct, 1500);
    assert_eq!(first.mem_used_bytes, 500);
    assert_eq!(first.network[0].rx_throughput, 0);

    // second capture one second later: cores at 30% and 40%, 600 used,
    // eth0 at 2000 received
    let mut raw1 = empty_raw(vec![3000, 4000]);
    raw1.mem_total_bytes = 1000;
    raw1.mem_available_bytes = 400;
    raw1.interfaces = vec![iface("eth0", 2000, 0)];
    let second = Snapshot::build(raw1, Some(&first), 1000);
    // 35 percent mean, in hundredths of a percent
    assert_eq!(second.cpu_total_pct, 3500);
    assert_eq!(second.mem_used_bytes, 600);
    // 1000 bytes in 1000 ms: 1000 bytes per second
    assert_eq!(second.network[0].rx_throughput, 1000);
}

#[test]
fn interface_that_just_appeared_has_zero_throughput() {
    let mut raw0 = empty_raw(vec![]);
    raw0.interfaces = vec![iface("eth0", 50, 50)];
    let first = Snapshot::build(raw0, None, 0);
    let mut raw1 = empty_raw(vec![]);
    raw1.interfaces = vec![iface("eth0", 150, 50), iface("wlan0", 700, 0)];
    let second = Snapshot::build(raw1, Some(&first), 1000);
    assert_eq!(second.network[0].rx_throughput, 100);
    // wlan0 has no previous sample: zero for this snapshot only
    assert_eq!(second.network[1].rx_throughput, 0);
}

#[test]
fn counter_reset_between_snapshots_yields_zero_throughput() {
    let mut raw0 = empty_raw(vec![]);
    raw0.interfaces = vec![iface("eth0", 1_000_000, 0)];
    let first = Snapshot::build(raw0, None, 0);
    let mut raw1 = empty_raw(vec![]);
    raw1.interfaces = vec![iface("eth0", 40, 0)]; // reset to near zero
    let second = Snapshot::build(raw1, Some(&first), 1000);
    assert_eq!(second.network[0].rx_throughput, 0);
}

#[test]
fn volume_figures_are_derived_exactly() {
    let v = RawVolume {
        name: "".to_string(), // an unnamed volume shows its mount point
        mount_point: "/data".to_string(),
        total_space: 4000,
        available_space: 1000,
    };
    let d = DiskInfo::from_disk(&v);
    assert_eq!(d.name, "/data");
    assert_eq!(d.used_space, 3000);
    // three quarters used, in hundredths of a percent
    assert_eq!(d.usage_percent, 7500);
    let empty = RawVolume {
        name: "ram".to_string(),
        mount_point: "/ram".to_string(),
        total_space: 0,
        available_space: 0,
    };
    let e = DiskInfo::from_disk(&empty);
    assert_eq!(e.name, "ram");
    assert_eq!(e.usage_percent, 0);
}

#[test]
fn fresh_network_sample_carries_counters() {
    let c = iface("lo", 7, 8);
    let s = NetworkInfo::from_network_data(&c);
    assert_eq!(s.interface, "lo");
    assert_eq!(s.rx_bytes, 7);
    assert_eq!(s.tx_bytes, 8);
    assert_eq!(s.rx_throughput, 0);
    assert_eq!(s.tx_throughput, 0);
}
