use sysmon::model::{
    alert_level_for, percent_centi, ping_status, AlertLevel, History, MetricKind,
};
use sysmon::text::{push_decimal, push_hex, push_share};

#[test]
fn history_keeps_most_recent_items() {
    let mut h: History<u32> = History::new(3);
    assert!(h.is_empty());
    for i in 1..=5u32 {
        h.push(i);
    }
    assert_eq!(h.len(), 3);
    let items: Vec<u32> = h.iter().into_iter().copied().collect();
    assert_eq!(items, vec![3, 4, 5]);
    assert_eq!(h.latest(), Some(&5));
    assert!(!h.is_empty());
}

#[test]
fn history_below_capacity_keeps_everything() {
    let mut h: History<u32> = History::new(120);
    h.push(7);
    h.push(8);
    let items: Vec<u32> = h.iter().into_iter().copied().collect();
    assert_eq!(items, vec![7, 8]);
    assert_eq!(h.latest(), Some(&8));
}

#[test]
fn history_of_capacity_zero_keeps_latest() {
    let mut h: History<u32> = History::new(0);
    assert_eq!(h.latest(), None);
    h.push(1);
    h.push(2);
    assert_eq!(h.len(), 1);
    assert_eq!(h.latest(), Some(&2));
}

#[test]
fn cpu_and_ram_thresholds() {
    for kind in [MetricKind::Cpu, MetricKind::Ram] {
        assert_eq!(alert_level_for(kind, 0), AlertLevel::Normal);
        assert_eq!(alert_level_for(kind, 7499), AlertLevel::Normal);
        assert_eq!(alert_level_for(kind, 7500), AlertLevel::Warning);
        assert_eq!(alert_level_for(kind, 8999), AlertLevel::Warning);
        assert_eq!(alert_level_for(kind, 9000), AlertLevel::Critical);
        assert_eq!(alert_level_for(kind, 10000), AlertLevel::Critical);
    }
}

#[test]
fn disk_thresholds() {
    assert_eq!(alert_level_for(MetricKind::Disk, 8499), AlertLevel::Normal);
    assert_eq!(alert_level_for(MetricKind::Disk, 8500), AlertLevel::Warning);
    assert_eq!(alert_level_for(MetricKind::Disk, 9499), AlertLevel::Warning);
    assert_eq!(alert_level_for(MetricKind::Disk, 9500), AlertLevel::Critical);
}

#[test]
fn network_and_ping_have_no_percentage_threshold() {
    assert_eq!(alert_level_for(MetricKind::Network, 10000), AlertLevel::Normal);
    assert_eq!(alert_level_for(MetricKind::Ping, u64::MAX), AlertLevel::Normal);
}

#[test]
fn alert_level_is_monotonic_on_samples() {
    for kind in [MetricKind::Cpu, MetricKind::Ram, MetricKind::Disk] {
        let mut last = 0u8;
        for v in (0..=12000u64).step_by(50) {
            let rank = match alert_level_for(kind, v) {
                AlertLevel::Normal => 0,
                AlertLevel::Warning => 1,
                AlertLevel::Critical => 2,
            };
            assert!(rank >= last);
            last = rank;
        }
    }
}

#[test]
fn percentages_in_hundredths() {
    assert_eq!(percent_centi(3, 4), 7500);
    assert_eq!(percent_centi(1, 3), 3333);
    assert_eq!(percent_centi(0, 10), 0);
    assert_eq!(percent_centi(10, 10), 10000);
    assert_eq!(percent_centi(u64::MAX, 1), u64::MAX);
}

#[test]
fn ping_status_levels() {
    assert_eq!(ping_status(None), AlertLevel::Critical);
    assert_eq!(ping_status(Some(0)), AlertLevel::Normal);
    assert_eq!(ping_status(Some(79)), AlertLevel::Normal);
    assert_eq!(ping_status(Some(80)), AlertLevel::Warning);
    assert_eq!(ping_status(Some(199)), AlertLevel::Warning);
    assert_eq!(ping_status(Some(200)), AlertLevel::Critical);
}

#[test]
fn decimal_and_hex_text() {
    let mut s = String::new();
    push_decimal(&mut s, 0);
    assert_eq!(s, "0");
    let mut s = String::from("x=");
    push_decimal(&mut s, 1234567890);
    assert_eq!(s, "x=1234567890");
    let mut s = String::new();
    push_decimal(&mut s, u64::MAX as u128);
    assert_eq!(s, u64::MAX.to_string());
    let mut s = String::new();
    push_decimal(&mut s, u128::MAX);
    assert_eq!(s, u128::MAX.to_string());
    let mut s = String::new();
    push_hex(&mut s, 0xbeef);
    assert_eq!(s, "beef");
    let mut s = String::new();
    push_hex(&mut s, 0);
    assert_eq!(s, "0");
}

#[test]
fn tenths_text_rounds_ties_to_even() {
    let cases = [
        (1234u64, "12.3"),
        (1235, "12.4"),
        (1236, "12.4"),
        (8025, "80.2"),
        (8035, "80.4"),
        (8625, "86.2"),
        (5, "0.0"),
        (15, "0.2"),
        (4, "0.0"),
        (0, "0.0"),
        (9999, "100.0"),
        (9995, "100.0"),
        (7500, "75.0"),
    ];
    for (v, want) in cases {
        let mut s = String::new();
        push_share(&mut s, v as u128, 100);
        assert_eq!(s, want);
    }
}

#[test]
fn tenths_text_matches_one_decimal_float_formatting_on_exact_quarters() {
    for c in (0..20000u64).step_by(25) {
        let mut s = String::new();
        push_share(&mut s, c as u128, 100);
        assert_eq!(s, format!("{:.1}", c as f32 / 100.0), "at {c} hundredths");
    }
}

#[test]
fn share_text_rounds_from_the_exact_ratio() {
    let cases = [
        (80257u128, 1000u128, "80.3"),
        (80250, 1000, "80.2"),
        (80350, 1000, "80.4"),
        (80251, 1000, "80.3"),
        (80249, 1000, "80.2"),
        (100, 3, "33.3"),
        (200, 3, "66.7"),
        (5, 100, "0.0"),
        (0, 7, "0.0"),
    ];
    for (num, den, want) in cases {
        let mut s = String::new();
        push_share(&mut s, num, den);
        assert_eq!(s, want, "{num}/{den}");
    }
}
