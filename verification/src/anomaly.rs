//! Trend analysis and anomaly detection over a series of snapshots.
//! Percentages are in hundredths of a percent, confidences in
//! thousandths.
use vstd::prelude::*;
use crate::collectors::snapshot::{Snapshot, SnapshotView};
use crate::seq_view;

verus! {

/// The direction a metric moved over the observed series.
pub enum Trend {
    Increasing,
    Decreasing,
    Stable,
    Unknown,
}

/// The outcome of one trend analysis. `confidence` is in thousandths
/// (1000 is full confidence); `prediction` extrapolates the series one
/// step, in hundredths of a percent, and may undershoot zero.
pub struct TrendAnalysis {
    pub metric: String,
    pub trend: Trend,
    pub confidence: u32,
    pub prediction: Option<i64>,
}

/// Mathematical model of `TrendAnalysis`.
pub ghost struct TrendAnalysisView {
    pub metric: Seq<char>,
    pub trend: Trend,
    pub confidence: u32,
    pub prediction: Option<i64>,
}

impl View for TrendAnalysis {
    type V = TrendAnalysisView;

    open spec fn view(&self) -> TrendAnalysisView {
        TrendAnalysisView {
            metric: self.metric@,
            trend: self.trend,
            confidence: self.confidence,
            prediction: self.prediction,
        }
    }
}

/// One reading that crossed a detection threshold.
pub struct Anomaly {
    pub metric: String,
    pub value: u32,
    pub threshold: u32,
    pub timestamp: i64,
    pub description: String,
}

/// Mathematical model of `Anomaly`.
pub ghost struct AnomalyView {
    pub metric: Seq<char>,
    pub value: u32,
    pub threshold: u32,
    pub timestamp: i64,
    pub description: Seq<char>,
}

impl View for Anomaly {
    type V = AnomalyView;

    open spec fn view(&self) -> AnomalyView {
        AnomalyView {
            metric: self.metric@,
            value: self.value,
            threshold: self.threshold,
            timestamp: self.timestamp,
            description: self.description@,
        }
    }
}

/// Memory usage as a share of the total, in hundredths of a percent,
/// capped at the type's maximum; an empty total counts as unused.
pub open spec fn mem_pct(used: u64, total: u64) -> u32 {
    if total == 0 {
        0
    } else {
        let p = used * 10000 / (total as int);
        if p > u32::MAX {
            u32::MAX
        } else {
            p as u32
        }
    }
}

/// The per-snapshot CPU readings of a series.
pub open spec fn cpu_series(s: Seq<SnapshotView>) -> Seq<u32> {
    s.map_values(|v: SnapshotView| v.cpu_total_pct)
}

/// The per-snapshot memory shares of a series.
pub open spec fn mem_series(s: Seq<SnapshotView>) -> Seq<u32> {
    s.map_values(|v: SnapshotView| mem_pct(v.mem_used_bytes, v.mem_total_bytes))
}

/// The movement of a series: how the last reading stands to the first,
/// with a five-percent band counting as stable.
pub open spec fn trend_of(values: Seq<u32>) -> Trend {
    if values.len() < 2 {
        Trend::Unknown
    } else {
        let diff = values.last() - values[0];
        if diff > 500 {
            Trend::Increasing
        } else if diff < -500 {
            Trend::Decreasing
        } else {
            Trend::Stable
        }
    }
}

/// Confidence grows with the number of readings, one tenth per
/// reading, up to full confidence at ten.
pub open spec fn confidence_of(n: nat) -> u32 {
    if n * 100 > 1000 {
        1000
    } else {
        (n * 100) as u32
    }
}

/// The next reading a straight line through the last two would give.
pub open spec fn prediction_of(values: Seq<u32>) -> Option<i64> {
    if values.len() < 2 {
        None
    } else {
        Some((values.last() + values.last() - values[values.len() - 2]) as i64)
    }
}

/// The whole analysis of one series: too short a series is unknown
/// with no confidence and no prediction.
pub open spec fn trend_analysis_of(metric: Seq<char>, values: Seq<u32>) -> TrendAnalysisView {
    if values.len() < 2 {
        TrendAnalysisView { metric, trend: Trend::Unknown, confidence: 0, prediction: None }
    } else {
        TrendAnalysisView {
            metric,
            trend: trend_of(values),
            confidence: confidence_of(values.len()),
            prediction: prediction_of(values),
        }
    }
}

/// Analyses of metric series over recent snapshots.
pub struct TrendAnalyzer;

/// Detection of readings beyond fixed thresholds.
pub struct AnomalyDetector;

/// Copies the CPU readings out of a series of snapshots.
fn collect_cpu_series(snapshots: &Vec<Snapshot>) -> (r: Vec<u32>)
    ensures
        r@ == cpu_series(seq_view(snapshots@)),
{
    let mut r: Vec<u32> = Vec::new();
    let mut i: usize = 0;
    while i < snapshots.len()
        invariant
            i <= snapshots@.len(),
            r@.len() == i,
            forall|q: int| 0 <= q < i ==> r@[q] == snapshots@[q]@.cpu_total_pct,
        decreases snapshots@.len() - i,
    {
        r.push(snapshots[i].cpu_total_pct);
        i = i + 1;
    }
    proof {
        assert(r@ =~= cpu_series(seq_view(snapshots@)));
    }
    r
}

/// Computes `mem_pct` exactly, widening to avoid overflow.
fn mem_pct_of(used: u64, total: u64) -> (r: u32)
    ensures
        r == mem_pct(used, total),
{
    if total == 0 {
        0
    } else {
        let wide: u128 = (used as u128) * 10000 / (total as u128);
        if wide > (u32::MAX as u128) {
            u32::MAX
        } else {
            wide as u32
        }
    }
}

/// Copies the memory shares out of a series of snapshots.
fn collect_mem_series(snapshots: &Vec<Snapshot>) -> (r: Vec<u32>)
    ensures
        r@ == mem_series(seq_view(snapshots@)),
{
    let mut r: Vec<u32> = Vec::new();
    let mut i: usize = 0;
    while i < snapshots.len()
        invariant
            i <= snapshots@.len(),
            r@.len() == i,
            forall|q: int|
                0 <= q < i ==> r@[q] == mem_pct(
                    snapshots@[q]@.mem_used_bytes,
                    snapshots@[q]@.mem_total_bytes,
                ),
        decreases snapshots@.len() - i,
    {
        r.push(mem_pct_of(snapshots[i].mem_used_bytes, snapshots[i].mem_total_bytes));
        i = i + 1;
    }
    proof {
        assert(r@ =~= mem_series(seq_view(snapshots@)));
    }
    r
}

/// The shared tail of both analyses: trend, confidence and prediction
/// of one extracted series.
fn analyze_series(metric: String, values: &Vec<u32>) -> (r: TrendAnalysis)
    ensures
        r@ == trend_analysis_of(metric@, values@),
{
    if values.len() < 2 {
        return TrendAnalysis { metric, trend: Trend::Unknown, confidence: 0, prediction: None };
    }
    let first = values[0];
    let last = values[values.len() - 1];
    let diff: i64 = (last as i64) - (first as i64);
    let trend = if diff > 500 {
        Trend::Increasing
    } else if diff < -500 {
        Trend::Decreasing
    } else {
        Trend::Stable
    };
    let confidence: u32 = if values.len() >= 10 {
        1000
    } else {
        (values.len() as u32) * 100
    };
    let prev = values[values.len() - 2];
    let prediction: i64 = (last as i64) + (last as i64) - (prev as i64);
    TrendAnalysis { metric, trend, confidence, prediction: Some(prediction) }
}

impl TrendAnalyzer {
    /// The movement of total CPU usage over the series.
    pub fn analyze_cpu_trend(snapshots: &Vec<Snapshot>) -> (r: TrendAnalysis)
        ensures
            r@ == trend_analysis_of("cpu_usage"@, cpu_series(seq_view(snapshots@))),
    {
        let values = collect_cpu_series(snapshots);
        analyze_series("cpu_usage".to_owned(), &values)
    }

    /// The movement of the memory share over the series.
    pub fn analyze_memory_trend(snapshots: &Vec<Snapshot>) -> (r: TrendAnalysis)
        ensures
            r@ == trend_analysis_of("memory_usage"@, mem_series(seq_view(snapshots@))),
    {
        let values = collect_mem_series(snapshots);
        analyze_series("memory_usage".to_owned(), &values)
    }
}

/// The findings one snapshot's CPU reading contributes: beyond ninety
/// percent it is anomalously high, under five anomalously low.
pub open spec fn cpu_findings(v: SnapshotView) -> Seq<AnomalyView> {
    let high = if v.cpu_total_pct > 9000 {
        seq![
            AnomalyView {
                metric: "cpu_usage"@,
                value: v.cpu_total_pct,
                threshold: 9000,
                timestamp: v.ts,
                description: "High CPU usage detected"@,
            },
        ]
    } else {
        Seq::empty()
    };
    let low = if v.cpu_total_pct < 500 {
        seq![
            AnomalyView {
                metric: "cpu_usage"@,
                value: v.cpu_total_pct,
                threshold: 500,
                timestamp: v.ts,
                description: "Very low CPU usage detected"@,
            },
        ]
    } else {
        Seq::empty()
    };
    high + low
}

/// Every CPU finding of the series, in series order.
pub open spec fn cpu_anomalies(s: Seq<SnapshotView>) -> Seq<AnomalyView>
    decreases s.len(),
{
    if s.len() == 0 {
        Seq::empty()
    } else {
        cpu_anomalies(s.drop_last()) + cpu_findings(s.last())
    }
}

/// The finding one snapshot's memory share contributes: beyond ninety
/// percent it is anomalously high.
pub open spec fn mem_findings(v: SnapshotView) -> Seq<AnomalyView> {
    if mem_pct(v.mem_used_bytes, v.mem_total_bytes) > 9000 {
        seq![
            AnomalyView {
                metric: "memory_usage"@,
                value: mem_pct(v.mem_used_bytes, v.mem_total_bytes),
                threshold: 9000,
                timestamp: v.ts,
                description: "High memory usage detected"@,
            },
        ]
    } else {
        Seq::empty()
    }
}

/// Every memory finding of the series, in series order.
pub open spec fn mem_anomalies(s: Seq<SnapshotView>) -> Seq<AnomalyView>
    decreases s.len(),
{
    if s.len() == 0 {
        Seq::empty()
    } else {
        mem_anomalies(s.drop_last()) + mem_findings(s.last())
    }
}

impl AnomalyDetector {
    /// Every snapshot whose CPU reading crossed a threshold, in order;
    /// one snapshot can contribute a high and a low finding never both.
    pub fn detect_cpu_anomalies(snapshots: &Vec<Snapshot>) -> (r: Vec<Anomaly>)
        ensures
            seq_view(r@) == cpu_anomalies(seq_view(snapshots@)),
    {
        let ghost s = seq_view(snapshots@);
        let mut r: Vec<Anomaly> = Vec::new();
        let mut i: usize = 0;
        while i < snapshots.len()
            invariant
                i <= snapshots@.len(),
                s == seq_view(snapshots@),
                seq_view(r@) == cpu_anomalies(s.take(i as int)),
            decreases snapshots@.len() - i,
        {
            let snap = &snapshots[i];
            let ghost before = seq_view(r@);
            if snap.cpu_total_pct > 9000 {
                r.push(Anomaly {
                    metric: "cpu_usage".to_owned(),
                    value: snap.cpu_total_pct,
                    threshold: 9000,
                    timestamp: snap.ts,
                    description: "High CPU usage detected".to_owned(),
                });
            }
            if snap.cpu_total_pct < 500 {
                r.push(Anomaly {
                    metric: "cpu_usage".to_owned(),
                    value: snap.cpu_total_pct,
                    threshold: 500,
                    timestamp: snap.ts,
                    description: "Very low CPU usage detected".to_owned(),
                });
            }
            proof {
                assert(s.take(i + 1 as int).drop_last() =~= s.take(i as int));
                assert(s.take(i + 1 as int).last() == s[i as int]);
                assert(seq_view(r@) =~= before + cpu_findings(s[i as int]));
            }
            i = i + 1;
        }
        proof {
            assert(s.take(s.len() as int) =~= s);
        }
        r
    }

    /// Every snapshot whose memory share crossed the threshold, in
    /// order.
    pub fn detect_memory_anomalies(snapshots: &Vec<Snapshot>) -> (r: Vec<Anomaly>)
        ensures
            seq_view(r@) == mem_anomalies(seq_view(snapshots@)),
    {
        let ghost s = seq_view(snapshots@);
        let mut r: Vec<Anomaly> = Vec::new();
        let mut i: usize = 0;
        while i < snapshots.len()
            invariant
                i <= snapshots@.len(),
                s == seq_view(snapshots@),
                seq_view(r@) == mem_anomalies(s.take(i as int)),
            decreases snapshots@.len() - i,
        {
            let snap = &snapshots[i];
            let ghost before = seq_view(r@);
            let pct = mem_pct_of(snap.mem_used_bytes, snap.mem_total_bytes);
            if pct > 9000 {
                r.push(Anomaly {
                    metric: "memory_usage".to_owned(),
                    value: pct,
                    threshold: 9000,
                    timestamp: snap.ts,
                    description: "High memory usage detected".to_owned(),
                });
            }
            proof {
                assert(s.take(i + 1 as int).drop_last() =~= s.take(i as int));
                assert(s.take(i + 1 as int).last() == s[i as int]);
                assert(seq_view(r@) =~= before + mem_findings(s[i as int]));
            }
            i = i + 1;
        }
        proof {
            assert(s.take(s.len() as int) =~= s);
        }
        r
    }
}

} // verus!
