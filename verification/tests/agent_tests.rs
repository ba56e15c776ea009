use sysmon::agent::{next_action, AgentAction, SharedState};
use sysmon::collector::{
    bytes_to_mb, checked_total, network_reading, ram_reading, rate_bps, CollectedValue, DiskCollector,
    PingCollector,
};
use sysmon::config::{uuid_like, AgentConfig, ServerConfig};
use sysmon::dashboard::{display_choice, DisplayChoice};
use sysmon::error::MonitorError;
use sysmon::logger::FileLogger;
use sysmon::model::{Metrics, SystemInfo};

#[test]
fn counters_sum_or_overflow() {
    assert_eq!(checked_total(&vec![]), Some(0));
    assert_eq!(checked_total(&vec![1, 2, 3]), Some(6));
    assert_eq!(checked_total(&vec![u64::MAX, 1]), None);
    assert_eq!(checked_total(&vec![u64::MAX, 0]), Some(u64::MAX));
}

#[test]
fn ram_in_mebibytes() {
    assert_eq!(bytes_to_mb(3 * 1024 * 1024 + 5), 3);
    assert_eq!(
        ram_reading(2 * 1048576, 8 * 1048576),
        CollectedValue::Ram { used_mb: 2, total_mb: 8 }
    );
}

#[test]
fn network_rates() {
    assert_eq!(rate_bps(1000, 1000), 8000);
    assert_eq!(rate_bps(1000, 0), 8_000_000);
    assert_eq!(rate_bps(u64::MAX, 1), u64::MAX);
    assert_eq!(
        network_reading(128, 256, 2000),
        CollectedValue::Network { rx_bps: 512, tx_bps: 1024 }
    );
}

#[test]
fn disk_totals_and_reading() {
    assert_eq!(DiskCollector::totals(&vec![(100, 40), (50, 50)]), Some((150, 60)));
    assert_eq!(DiskCollector::totals(&vec![(10, 11)]), None);
    assert_eq!(DiskCollector::totals(&vec![(u64::MAX, 0), (1, 0)]), None);
    assert_eq!(DiskCollector::totals(&vec![]), Some((0, 0)));
    match DiskCollector::reading(0, 0) {
        Err(MonitorError::CollectionFailed(m)) => assert_eq!(m, "No disk found"),
        _ => panic!("expected an error"),
    }
    assert!(matches!(
        DiskCollector::reading(150, 60),
        Ok(CollectedValue::Disk { used_bytes: 60, total_bytes: 150 })
    ));
}

#[test]
fn ping_readings() {
    let p = PingCollector::new("8.8.8.8:53".to_string());
    assert_eq!(p.target(), "8.8.8.8:53");
    assert_eq!(PingCollector::reading(Some(17)), CollectedValue::Ping(Some(17)));
    assert_eq!(PingCollector::reading(None), CollectedValue::Ping(None));
    assert_eq!(PingCollector::reading(Some((1u128 << 32) + 5)), CollectedValue::Ping(Some(5)));
}

#[test]
fn state_keeps_latest_of_each_kind() {
    let mut s = SharedState::new();
    s.apply(CollectedValue::Cpu(1200));
    s.apply(CollectedValue::Ram { used_mb: 1, total_mb: 2 });
    s.apply(CollectedValue::Cpu(3400));
    s.apply(CollectedValue::Disk { used_bytes: 5, total_bytes: 9 });
    s.apply(CollectedValue::Network { rx_bps: 7, tx_bps: 8 });
    s.apply(CollectedValue::Ping(Some(30)));
    let m = s.to_metrics(100, 200);
    assert_eq!(
        m,
        Metrics {
            cpu_usage_fixed: 3400,
            ram_used_mb: 1,
            ram_total_mb: 2,
            disk_used_bytes: Some(5),
            disk_total_bytes: Some(9),
            network_rx_bps: 7,
            network_tx_bps: 8,
            ping_ms: Some(30),
            uptime_secs: 100,
            timestamp_unix: 200,
        }
    );
    let fresh = SharedState::new().to_metrics(0, 0);
    assert_eq!(fresh.disk_used_bytes, None);
    assert_eq!(fresh.ping_ms, None);
}

#[test]
fn agent_decisions_after_report() {
    assert_eq!(next_action(&Ok(true)), AgentAction::Halt);
    assert_eq!(next_action(&Ok(false)), AgentAction::Continue);
    assert_eq!(next_action(&Err(MonitorError::NetworkError("x".into()))), AgentAction::Reconnect);
}

#[test]
fn generated_ids() {
    assert_eq!(uuid_like(0), "0");
    assert_eq!(uuid_like(255), "ff");
    assert_eq!(uuid_like(0xFFFFFF), "0");
    assert_eq!(uuid_like(0x1000000), "1");
    assert_eq!(uuid_like(0xabcdef12), "cdefbd");
}

#[test]
fn default_configs() {
    let c = AgentConfig::with_generated_id(0xbeef);
    assert_eq!(c.agent_id, "agent-beef");
    assert_eq!(c.server_addr, "127.0.0.1:9000");
    assert_eq!(c.interval_secs, 3);
    assert_eq!(c.ping_target, "8.8.8.8:53");
    assert_eq!(c.log_path, "agent.log");
    assert_eq!(c.collection_interval_secs(), 3);
    let zero = AgentConfig { interval_secs: 0, ..c };
    assert_eq!(zero.collection_interval_secs(), 1);
    assert_eq!(ServerConfig::default().listen_addr, "0.0.0.0:9000");
}

#[test]
fn log_records() {
    let l = FileLogger::new("agent.log".to_string());
    assert_eq!(l.path(), "agent.log");
    assert_eq!(FileLogger::record(1700000000, "hello"), "[1700000000] hello\n");
    assert_eq!(FileLogger::record(0, ""), "[0] \n");
}

fn row(id: &str) -> (String, SystemInfo, Option<Metrics>, u64) {
    (
        id.to_string(),
        SystemInfo {
            agent_id: id.to_string(),
            hostname: "h".into(),
            os_name: "o".into(),
            os_version: "v".into(),
            cpu_name: "c".into(),
            cpu_cores: 1,
        },
        None,
        0,
    )
}

#[test]
fn dashboard_choice() {
    assert_eq!(display_choice(&None, &vec![]), DisplayChoice::NoAgents);
    assert_eq!(display_choice(&None, &vec![row("a"), row("b")]), DisplayChoice::Show(0));
    assert_eq!(display_choice(&Some("b".into()), &vec![row("a"), row("b")]), DisplayChoice::Show(1));
    assert_eq!(display_choice(&Some("c".into()), &vec![row("a")]), DisplayChoice::Missing);
    assert_eq!(display_choice(&Some("c".into()), &vec![]), DisplayChoice::Missing);
}

#[test]
fn system_info_from_readings() {
    let s = sysmon::collector::system_info(
        "a1",
        Some("host".to_string()),
        None,
        Some("22.04".to_string()),
        vec!["Ryzen".to_string(), "Ryzen".to_string()],
    );
    assert_eq!(s.agent_id, "a1");
    assert_eq!(s.hostname, "host");
    assert_eq!(s.os_name, "unknown");
    assert_eq!(s.os_version, "22.04");
    assert_eq!(s.cpu_name, "Ryzen");
    assert_eq!(s.cpu_cores, 2);
    let s = sysmon::collector::system_info("a2", None, None, None, vec![]);
    assert_eq!(s.hostname, "unknown");
    assert_eq!(s.cpu_name, "unknown");
    assert_eq!(s.cpu_cores, 0);
}
