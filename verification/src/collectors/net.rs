//! Per-interface network samples and the derivation of throughput from
//! two consecutive cumulative counter readings.
use vstd::prelude::*;

verus! {

/// Cumulative counters of one network interface, exactly as the raw
/// reader reports them.
pub struct IfaceCounters {
    pub interface: String,
    pub rx_bytes: u64,
    pub tx_bytes: u64,
    pub rx_packets: u64,
    pub tx_packets: u64,
    pub rx_errors: u64,
    pub tx_errors: u64,
}

/// Mathematical model of `IfaceCounters`.
pub ghost struct IfaceCountersView {
    pub interface: Seq<char>,
    pub rx_bytes: u64,
    pub tx_bytes: u64,
    pub rx_packets: u64,
    pub tx_packets: u64,
    pub rx_errors: u64,
    pub tx_errors: u64,
}

impl View for IfaceCounters {
    type V = IfaceCountersView;

    open spec fn view(&self) -> IfaceCountersView {
        IfaceCountersView {
            interface: self.interface@,
            rx_bytes: self.rx_bytes,
            tx_bytes: self.tx_bytes,
            rx_packets: self.rx_packets,
            tx_packets: self.tx_packets,
            rx_errors: self.rx_errors,
            tx_errors: self.tx_errors,
        }
    }
}

/// One interface inside a snapshot: the cumulative counters plus the
/// derived throughput in whole bytes per second.
pub struct NetworkInfo {
    pub interface: String,
    pub rx_bytes: u64,
    pub tx_bytes: u64,
    pub rx_packets: u64,
    pub tx_packets: u64,
    pub rx_errors: u64,
    pub tx_errors: u64,
    pub rx_throughput: u64,
    pub tx_throughput: u64,
}

/// Mathematical model of `NetworkInfo`.
pub ghost struct NetworkInfoView {
    pub interface: Seq<char>,
    pub rx_bytes: u64,
    pub tx_bytes: u64,
    pub rx_packets: u64,
    pub tx_packets: u64,
    pub rx_errors: u64,
    pub tx_errors: u64,
    pub rx_throughput: u64,
    pub tx_throughput: u64,
}

impl View for NetworkInfo {
    type V = NetworkInfoView;

    open spec fn view(&self) -> NetworkInfoView {
        NetworkInfoView {
            interface: self.interface@,
            rx_bytes: self.rx_bytes,
            tx_bytes: self.tx_bytes,
            rx_packets: self.rx_packets,
            tx_packets: self.tx_packets,
            rx_errors: self.rx_errors,
            tx_errors: self.tx_errors,
            rx_throughput: self.rx_throughput,
            tx_throughput: self.tx_throughput,
        }
    }
}

impl Clone for NetworkInfo {
    fn clone(&self) -> (res: Self)
        ensures
            res@ == self@,
    {
        NetworkInfo {
            interface: self.interface.clone(),
            rx_bytes: self.rx_bytes,
            tx_bytes: self.tx_bytes,
            rx_packets: self.rx_packets,
            tx_packets: self.tx_packets,
            rx_errors: self.rx_errors,
            tx_errors: self.tx_errors,
            rx_throughput: self.rx_throughput,
            tx_throughput: self.tx_throughput,
        }
    }
}

/// The increase of a cumulative counter between two readings. A reading
/// lower than its predecessor means the counter was reset, and counts as
/// no increase at all, never as a wrapped or negative amount.
pub open spec fn counter_delta(cur: u64, prev: u64) -> int {
    if cur >= prev {
        cur - prev
    } else {
        0
    }
}

/// The elapsed time used for rate derivation, clamped to at least one
/// millisecond so that a rate is always well defined.
pub open spec fn clamp_elapsed(elapsed_ms: u64) -> int {
    if elapsed_ms == 0 {
        1
    } else {
        elapsed_ms as int
    }
}

/// Bytes per second derived from two consecutive readings of a cumulative
/// byte counter taken `elapsed_ms` milliseconds apart, capped at `u64::MAX`.
pub open spec fn throughput_bps(cur: u64, prev: u64, elapsed_ms: u64) -> u64 {
    let r = counter_delta(cur, prev) * 1000 / clamp_elapsed(elapsed_ms);
    if r > u64::MAX {
        u64::MAX
    } else {
        r as u64
    }
}

/// A fresh sample of an interface that has no predecessor: the counters
/// are carried over and the throughput is zero.
pub open spec fn fresh_sample(c: IfaceCountersView) -> NetworkInfoView {
    NetworkInfoView {
        interface: c.interface,
        rx_bytes: c.rx_bytes,
        tx_bytes: c.tx_bytes,
        rx_packets: c.rx_packets,
        tx_packets: c.tx_packets,
        rx_errors: c.rx_errors,
        tx_errors: c.tx_errors,
        rx_throughput: 0,
        tx_throughput: 0,
    }
}

/// `cur` with its two throughput fields derived against the previous
/// sample of the same interface.
pub open spec fn rated_sample(
    cur: NetworkInfoView,
    prev: NetworkInfoView,
    elapsed_ms: u64,
) -> NetworkInfoView {
    NetworkInfoView {
        rx_throughput: throughput_bps(cur.rx_bytes, prev.rx_bytes, elapsed_ms),
        tx_throughput: throughput_bps(cur.tx_bytes, prev.tx_bytes, elapsed_ms),
        ..cur
    }
}

/// Computes `throughput_bps` exactly, widening to avoid overflow.
pub fn rate_bps(cur: u64, prev: u64, elapsed_ms: u64) -> (r: u64)
    ensures
        r == throughput_bps(cur, prev, elapsed_ms),
{
    let e: u64 = if elapsed_ms == 0 {
        1
    } else {
        elapsed_ms
    };
    let d: u64 = if cur >= prev {
        cur - prev
    } else {
        0
    };
    let wide: u128 = (d as u128) * 1000 / (e as u128);
    if wide > (u64::MAX as u128) {
        u64::MAX
    } else {
        wide as u64
    }
}

impl NetworkInfo {
    /// Turns one raw counter reading into a sample with zero throughput,
    /// as used when no previous sample of the interface exists.
    pub fn from_network_data(c: &IfaceCounters) -> (r: NetworkInfo)
        ensures
            r@ == fresh_sample(c@),
    {
        NetworkInfo {
            interface: c.interface.clone(),
            rx_bytes: c.rx_bytes,
            tx_bytes: c.tx_bytes,
            rx_packets: c.rx_packets,
            tx_packets: c.tx_packets,
            rx_errors: c.rx_errors,
            tx_errors: c.tx_errors,
            rx_throughput: 0,
            tx_throughput: 0,
        }
    }

    /// Derives the throughput of this sample from the previous sample of
    /// the same interface, `elapsed_ms` milliseconds older.
    pub fn with_throughput(self, previous: &NetworkInfo, elapsed_ms: u64) -> (r: NetworkInfo)
        ensures
            r@ == rated_sample(self@, previous@, elapsed_ms),
    {
        let rx = rate_bps(self.rx_bytes, previous.rx_bytes, elapsed_ms);
        let tx = rate_bps(self.tx_bytes, previous.tx_bytes, elapsed_ms);
        NetworkInfo { rx_throughput: rx, tx_throughput: tx, ..self }
    }
}

/// Law: between two readings of a counter that does not decrease, the
/// derived throughput is exactly the counter increase scaled to whole
/// bytes per second, and it is never negative.
pub proof fn lemma_throughput_exact(prev: u64, cur: u64, elapsed_ms: u64)
    requires
        prev <= cur,
        elapsed_ms >= 1,
    ensures
        (cur - prev) * 1000 / (elapsed_ms as int) <= u64::MAX ==> throughput_bps(
            cur,
            prev,
            elapsed_ms,
        ) == (cur - prev) * 1000 / (elapsed_ms as int),
        throughput_bps(cur, prev, elapsed_ms) >= 0,
{
}

/// Law: a counter that decreases between two readings (an interface
/// reset) contributes a delta of exactly zero, so the derived throughput
/// is zero, never a negative or wrapped value.
pub proof fn lemma_reset_throughput_zero(prev: u64, cur: u64, elapsed_ms: u64)
    requires
        cur < prev,
    ensures
        counter_delta(cur, prev) == 0,
        throughput_bps(cur, prev, elapsed_ms) == 0,
{
}

} // verus!
