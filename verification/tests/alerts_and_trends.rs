//! The alert registry and the trend and anomaly analyses. Thresholds
//! and metric readings are in thousandths of a unit, percentages in
//! hundredths of a percent.
use zek::alerts::{AlertConfig, AlertError, AlertManager, AlertOperator, MetricSample};
use zek::anomaly::{AnomalyDetector, Trend, TrendAnalyzer};
use zek::collectors::snapshot::Snapshot;

fn snapshot_with(ts: i64, cpu_pct: u32, mem_used: u64, mem_total: u64) -> Snapshot {
    Snapshot {
        ts,
        cpu_total_pct: cpu_pct,
        cpu_per_core: vec![cpu_pct],
        mem_used_bytes: mem_used,
        mem_total_bytes: mem_total,
        swap_used_bytes: 0,
        swap_total_bytes: 0,
        load1: 0,
        load5: 0,
        load15: 0,
        network: vec![],
        disks: vec![],
        top_processes: vec![],
        sensors: vec![],
        batteries: vec![],
        gpus: vec![],
        connections: vec![],
        process_tree: vec![],
        containers: vec![],
    }
}

#[test]
fn test_alert_manager() {
    let mut manager = AlertManager::new();

    let config = AlertConfig {
        id: "high_cpu".to_string(),
        name: "High CPU Usage".to_string(),
        metric: "cpu_usage".to_string(),
        threshold: 80_000,
        operator: AlertOperator::GreaterThan,
        enabled: true,
        description: Some("Alert when CPU usage exceeds 80%".to_string()),
    };

    assert!(manager.add_alert(config).is_ok());
    assert!(manager.get_alert("high_cpu").is_some());

    let alerts = manager.list_alerts();
    assert_eq!(alerts.len(), 1);
}

#[test]
fn test_alert_evaluation() {
    let mut manager = AlertManager::new();

    let config = AlertConfig {
        id: "high_memory".to_string(),
        name: "High Memory Usage".to_string(),
        metric: "memory_usage_percent".to_string(),
        threshold: 90_000,
        operator: AlertOperator::GreaterThan,
        enabled: true,
        description: None,
    };

    manager.add_alert(config).unwrap();

    let metric_data = vec![MetricSample {
        name: "memory_usage_percent".to_string(),
        value: 95_000,
    }];

    manager.evaluate_alerts(&metric_data, 1_234);

    let alert = manager.get_alert("high_memory").unwrap();
    assert!(alert.triggered);
    assert_eq!(alert.last_triggered, Some(1_234));
}

#[test]
fn duplicate_alert_id_is_refused() {
    let mut manager = AlertManager::new();
    let make = || AlertConfig {
        id: "dup".to_string(),
        name: "One".to_string(),
        metric: "m".to_string(),
        threshold: 1_000,
        operator: AlertOperator::LessThan,
        enabled: true,
        description: None,
    };
    assert!(manager.add_alert(make()).is_ok());
    match manager.add_alert(make()) {
        Err(AlertError::AlreadyExists(id)) => assert_eq!(id, "dup"),
        other => panic!("expected the duplicate to be refused, got {:?}", other.is_ok()),
    }
    assert_eq!(manager.list_alerts().len(), 1);
}

#[test]
fn removing_a_missing_alert_is_refused() {
    let mut manager = AlertManager::new();
    match manager.remove_alert("absent") {
        Err(AlertError::NotFound(id)) => assert_eq!(id, "absent"),
        _ => panic!("expected the removal to be refused"),
    }
}

#[test]
fn alert_resolves_when_the_reading_falls() {
    let mut manager = AlertManager::new();
    manager
        .add_alert(AlertConfig {
            id: "cpu".to_string(),
            name: "CPU".to_string(),
            metric: "cpu".to_string(),
            threshold: 50_000,
            operator: AlertOperator::GreaterThan,
            enabled: true,
            description: None,
        })
        .unwrap();
    let high = vec![MetricSample { name: "cpu".to_string(), value: 60_000 }];
    let low = vec![MetricSample { name: "cpu".to_string(), value: 40_000 }];
    manager.evaluate_alerts(&high, 10);
    assert!(manager.get_alert("cpu").unwrap().triggered);
    manager.evaluate_alerts(&low, 20);
    let alert = manager.get_alert("cpu").unwrap();
    assert!(!alert.triggered);
    // the raise time is kept for the record
    assert_eq!(alert.last_triggered, Some(10));
}

#[test]
fn disabled_alert_never_triggers() {
    let mut manager = AlertManager::new();
    manager
        .add_alert(AlertConfig {
            id: "off".to_string(),
            name: "Off".to_string(),
            metric: "cpu".to_string(),
            threshold: 1_000,
            operator: AlertOperator::GreaterThan,
            enabled: false,
            description: None,
        })
        .unwrap();
    let data = vec![MetricSample { name: "cpu".to_string(), value: 99_000 }];
    manager.evaluate_alerts(&data, 5);
    assert!(!manager.get_alert("off").unwrap().triggered);
}

#[test]
fn test_trend_analysis() {
    let snapshots = vec![
        snapshot_with(1000, 4500, 1000, 2000),
        snapshot_with(2000, 5000, 1000, 2000),
        snapshot_with(3000, 5500, 1000, 2000),
    ];

    let cpu_trend = TrendAnalyzer::analyze_cpu_trend(&snapshots);
    assert!(matches!(cpu_trend.trend, Trend::Increasing));

    let memory_trend = TrendAnalyzer::analyze_memory_trend(&snapshots);
    assert!(matches!(memory_trend.trend, Trend::Stable));
}

#[test]
fn test_anomaly_detection() {
    let snapshots = vec![
        snapshot_with(1000, 9500, 1000, 2000), // High CPU
        snapshot_with(2000, 4500, 1900, 2000), // High memory (95% usage)
    ];

    let cpu_anomalies = AnomalyDetector::detect_cpu_anomalies(&snapshots);
    assert_eq!(cpu_anomalies.len(), 1);
    assert_eq!(cpu_anomalies[0].value, 9500);

    let memory_anomalies = AnomalyDetector::detect_memory_anomalies(&snapshots);
    assert_eq!(memory_anomalies.len(), 1);
    assert!(memory_anomalies[0].value > 9000);
}

#[test]
fn short_series_has_unknown_trend() {
    let one = vec![snapshot_with(1000, 5000, 1, 2)];
    let t = TrendAnalyzer::analyze_cpu_trend(&one);
    assert!(matches!(t.trend, Trend::Unknown));
    assert_eq!(t.confidence, 0);
    assert_eq!(t.prediction, None);
}

#[test]
fn trend_prediction_extrapolates_the_last_step() {
    let snapshots = vec![
        snapshot_with(1000, 2000, 1, 2),
        snapshot_with(2000, 3000, 1, 2),
    ];
    let t = TrendAnalyzer::analyze_cpu_trend(&snapshots);
    assert_eq!(t.prediction, Some(4000));
    // two readings: two tenths of full confidence
    assert_eq!(t.confidence, 200);
}

#[test]
fn low_cpu_is_an_anomaly_too() {
    let snapshots = vec![snapshot_with(1000, 100, 1, 2)];
    let anomalies = AnomalyDetector::detect_cpu_anomalies(&snapshots);
    assert_eq!(anomalies.len(), 1);
    assert_eq!(anomalies[0].threshold, 500);
    assert_eq!(anomalies[0].description, "Very low CPU usage detected");
}
