use sysmon::alert::{analyze, disk_usage_centi, ram_usage_centi};
use sysmon::model::{AlertLevel, MetricKind, Metrics, CPU_SCALE};

/// A CPU reading as the agent hands it over: percent times CPU_SCALE.
fn cpu(percent: f32) -> u64 {
    (percent as f64 * CPU_SCALE as f64) as u64
}

fn quiet() -> Metrics {
    Metrics {
        cpu_usage_fixed: cpu(10.0),
        ram_used_mb: 100,
        ram_total_mb: 1000,
        disk_used_bytes: Some(10),
        disk_total_bytes: Some(100),
        network_rx_bps: 0,
        network_tx_bps: 0,
        ping_ms: Some(12),
        uptime_secs: 0,
        timestamp_unix: 0,
    }
}

#[test]
fn healthy_metrics_raise_nothing() {
    assert!(analyze("a1", &quiet()).is_empty());
}

#[test]
fn busy_cpu_warns_then_is_critical() {
    let mut m = quiet();
    m.cpu_usage_fixed = cpu(80.5);
    let alerts = analyze("a1", &m);
    assert_eq!(alerts.len(), 1);
    assert_eq!(alerts[0].agent_id, "a1");
    assert_eq!(alerts[0].kind, MetricKind::Cpu);
    assert_eq!(alerts[0].level, AlertLevel::Warning);
    assert_eq!(alerts[0].message, "Cpu is at 80.5%");
    m.cpu_usage_fixed = cpu(95.0);
    let alerts = analyze("a1", &m);
    assert_eq!(alerts[0].level, AlertLevel::Critical);
    assert_eq!(alerts[0].message, "Cpu is at 95.0%");
}

#[test]
fn ram_share_is_computed_from_megabytes() {
    let mut m = quiet();
    m.ram_used_mb = 910;
    let alerts = analyze("a1", &m);
    assert_eq!(alerts.len(), 1);
    assert_eq!(alerts[0].kind, MetricKind::Ram);
    assert_eq!(alerts[0].level, AlertLevel::Critical);
    assert_eq!(alerts[0].message, "Ram is at 91.0%");
    m.ram_total_mb = 0;
    assert!(analyze("a1", &m).is_empty());
}

#[test]
fn full_disk_and_failed_ping() {
    let mut m = quiet();
    m.disk_used_bytes = Some(87);
    m.ping_ms = None;
    let alerts = analyze("box", &m);
    assert_eq!(alerts.len(), 2);
    assert_eq!(alerts[0].kind, MetricKind::Disk);
    assert_eq!(alerts[0].level, AlertLevel::Warning);
    assert_eq!(alerts[0].message, "Disk space is 87.0% full");
    assert_eq!(alerts[1].kind, MetricKind::Ping);
    assert_eq!(alerts[1].level, AlertLevel::Warning);
    assert_eq!(alerts[1].message, "Ping failed / the system may be unreachable");
}

#[test]
fn unknown_disk_raises_nothing() {
    let mut m = quiet();
    m.disk_used_bytes = None;
    assert!(analyze("a", &m).is_empty());
    m.disk_used_bytes = Some(5);
    m.disk_total_bytes = Some(0);
    assert!(analyze("a", &m).is_empty());
    assert_eq!(disk_usage_centi(&m), None);
}

#[test]
fn everything_at_once_in_order() {
    let m = Metrics {
        cpu_usage_fixed: cpu(99.99),
        ram_used_mb: 3,
        ram_total_mb: 4,
        disk_used_bytes: Some(96),
        disk_total_bytes: Some(100),
        network_rx_bps: 0,
        network_tx_bps: 0,
        ping_ms: None,
        uptime_secs: 0,
        timestamp_unix: 0,
    };
    let kinds: Vec<MetricKind> = analyze("z", &m).iter().map(|a| a.kind).collect();
    assert_eq!(kinds, vec![MetricKind::Cpu, MetricKind::Ram, MetricKind::Disk, MetricKind::Ping]);
    for a in analyze("z", &m) {
        assert_ne!(a.level, AlertLevel::Normal);
        assert_eq!(a.agent_id, "z");
    }
}

#[test]
fn usage_helpers() {
    let m = quiet();
    assert_eq!(ram_usage_centi(&m), 1000);
    assert_eq!(disk_usage_centi(&m), Some(1000));
}

#[test]
fn tie_percentages_round_to_even_in_messages() {
    let mut m = quiet();
    m.cpu_usage_fixed = cpu(80.25);
    assert_eq!(analyze("a", &m)[0].message, "Cpu is at 80.2%");
    let mut m = quiet();
    m.ram_used_mb = 321;
    m.ram_total_mb = 400;
    assert_eq!(analyze("a", &m)[0].message, "Ram is at 80.2%");
    let mut m = quiet();
    m.disk_used_bytes = Some(8625);
    m.disk_total_bytes = Some(10000);
    assert_eq!(analyze("a", &m)[0].message, "Disk space is 86.2% full");
}

#[test]
fn shares_are_rounded_once_from_the_exact_ratio() {
    let mut m = quiet();
    m.ram_used_mb = 80257;
    m.ram_total_mb = 100000;
    assert_eq!(analyze("a", &m)[0].message, "Ram is at 80.3%");
    let mut m = quiet();
    m.disk_used_bytes = Some(85257);
    m.disk_total_bytes = Some(100000);
    assert_eq!(analyze("a", &m)[0].message, "Disk space is 85.3% full");
    let mut m = quiet();
    m.cpu_usage_fixed = cpu(80.257);
    assert_eq!(analyze("a", &m)[0].message, "Cpu is at 80.3%");
}

#[test]
fn cpu_text_matches_one_decimal_formatting_of_the_reading() {
    let mut v: f32 = 75.0;
    while v < 100.0 {
        let mut m = quiet();
        m.cpu_usage_fixed = cpu(v);
        let alerts = analyze("a", &m);
        assert_eq!(alerts[0].message, format!("Cpu is at {:.1}%", v), "at {v}");
        v += 0.0173;
    }
    for v in [80.25f32, 80.35, 80.45, 99.95, 75.05, 89.95] {
        let mut m = quiet();
        m.cpu_usage_fixed = cpu(v);
        assert_eq!(analyze("a", &m)[0].message, format!("Cpu is at {:.1}%", v), "at {v}");
    }
}

#[test]
fn cpu_level_and_percent() {
    let mut m = quiet();
    m.cpu_usage_fixed = cpu(75.0);
    assert_eq!(sysmon::alert::cpu_usage_centi(&m), 7500);
    assert_eq!(analyze("a", &m)[0].level, AlertLevel::Warning);
    m.cpu_usage_fixed = cpu(74.99);
    assert_eq!(sysmon::alert::cpu_usage_centi(&m), 7498);
    assert!(analyze("a", &m).is_empty());
}
