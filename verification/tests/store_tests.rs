use sysmon::model::{AgentReport, Metrics, SystemInfo, CPU_SCALE};
use sysmon::protocol::Message;
use sysmon::session::{handle_message, ConnectionStep};
use sysmon::storage::SharedStore;

fn info(id: &str, host: &str) -> SystemInfo {
    SystemInfo {
        agent_id: id.to_string(),
        hostname: host.to_string(),
        os_name: "Linux".to_string(),
        os_version: "6".to_string(),
        cpu_name: "cpu".to_string(),
        cpu_cores: 8,
    }
}

fn metrics(cpu: u64, ts: u64) -> Metrics {
    Metrics {
        cpu_usage_fixed: cpu,
        ram_used_mb: 1,
        ram_total_mb: 10,
        disk_used_bytes: None,
        disk_total_bytes: None,
        network_rx_bps: 0,
        network_tx_bps: 0,
        ping_ms: Some(3),
        uptime_secs: 1,
        timestamp_unix: ts,
    }
}

fn report(id: &str, cpu: u64, ts: u64) -> AgentReport {
    AgentReport { agent_id: id.to_string(), metrics: metrics(cpu, ts) }
}

#[test]
fn register_and_report() {
    let mut store = SharedStore::new();
    assert!(store.snapshot().is_empty());
    store.register_agent(info("a", "alpha"));
    let snap = store.snapshot();
    assert_eq!(snap.len(), 1);
    assert_eq!(snap[0].0, "a");
    assert_eq!(snap[0].1.hostname, "alpha");
    assert_eq!(snap[0].2, None);
    assert_eq!(snap[0].3, 0);
    store.push_report(report("a", 500, 42));
    let snap = store.snapshot();
    assert_eq!(snap[0].2, Some(metrics(500, 42)));
    assert_eq!(snap[0].3, 42);
    assert_eq!(store.history_of("a"), vec![metrics(500, 42)]);
}

#[test]
fn first_registration_wins() {
    let mut store = SharedStore::new();
    store.register_agent(info("a", "alpha"));
    store.push_report(report("a", 1, 1));
    store.register_agent(info("a", "other-name"));
    let snap = store.snapshot();
    assert_eq!(snap.len(), 1);
    assert_eq!(snap[0].1.hostname, "alpha");
    assert_eq!(store.history_of("a").len(), 1);
}

#[test]
fn unknown_agent_reports_are_dropped() {
    let mut store = SharedStore::new();
    store.push_report(report("ghost", 1, 1));
    assert!(store.snapshot().is_empty());
    assert!(store.history_of("ghost").is_empty());
}

#[test]
fn history_is_bounded_at_capacity() {
    let mut store = SharedStore::new();
    store.register_agent(info("a", "alpha"));
    for t in 0..130u64 {
        store.push_report(report("a", t, t));
    }
    let h = store.history_of("a");
    assert_eq!(h.len(), 120);
    assert_eq!(h[0].timestamp_unix, 10);
    assert_eq!(h[119].timestamp_unix, 129);
}

#[test]
fn remove_forgets_only_that_agent() {
    let mut store = SharedStore::new();
    store.register_agent(info("a", "alpha"));
    store.register_agent(info("b", "beta"));
    store.remove_agent("a");
    let snap = store.snapshot();
    assert_eq!(snap.len(), 1);
    assert_eq!(snap[0].0, "b");
    store.remove_agent("nobody");
    assert_eq!(store.snapshot().len(), 1);
}

#[test]
fn stop_request_is_taken_once() {
    let mut store = SharedStore::new();
    assert!(!store.take_stop_request("a"));
    store.request_stop("a");
    store.request_stop("a");
    store.request_stop("b");
    assert!(store.take_stop_request("a"));
    assert!(!store.take_stop_request("a"));
    assert!(store.take_stop_request("b"));
}

#[test]
fn session_register_then_reports_then_stop() {
    let mut store = SharedStore::new();
    let mut agent_id = String::new();
    let (step, alerts) = handle_message(&mut store, &mut agent_id, Message::Register(info("a", "alpha")));
    assert!(matches!(step, ConnectionStep::SendAck));
    assert!(alerts.is_empty());
    assert_eq!(agent_id, "a");

    let (step, alerts) = handle_message(&mut store, &mut agent_id, Message::Report(report("a", 95 * CPU_SCALE, 7)));
    assert!(matches!(step, ConnectionStep::SendAck));
    assert_eq!(alerts.len(), 1);
    assert_eq!(alerts[0].message, "Cpu is at 95.0%");
    assert_eq!(store.snapshot()[0].3, 7);

    store.request_stop("a");
    let (step, _) = handle_message(&mut store, &mut agent_id, Message::Report(report("a", 100, 8)));
    match step {
        ConnectionStep::SendStopAndClose(id) => {
            assert_eq!(id, "a");
            store.remove_agent(&id);
        }
        _ => panic!("expected a stop"),
    }
    assert!(store.snapshot().is_empty());
    assert!(!store.take_stop_request("a"));
}

#[test]
fn session_ignores_acks_from_agents() {
    let mut store = SharedStore::new();
    let mut agent_id = String::from("x");
    let (step, alerts) = handle_message(&mut store, &mut agent_id, Message::Ack);
    assert!(matches!(step, ConnectionStep::Ignore));
    assert!(alerts.is_empty());
    let (step, _) = handle_message(&mut store, &mut agent_id, Message::Stop);
    assert!(matches!(step, ConnectionStep::Ignore));
    assert_eq!(agent_id, "x");
}

#[test]
fn history_keeps_own_reports_when_others_interleave() {
    let mut store = SharedStore::new();
    store.register_agent(info("a", "alpha"));
    store.register_agent(info("b", "beta"));
    for t in 0..200u64 {
        store.push_report(report("a", t, t));
        store.push_report(report("b", t, 1000 + t));
        store.push_report(report("ghost", t, 5000 + t));
    }
    let ha = store.history_of("a");
    let hb = store.history_of("b");
    assert_eq!(ha.len(), 120);
    assert_eq!(hb.len(), 120);
    let want_a: Vec<u64> = (80..200).collect();
    let want_b: Vec<u64> = (1080..1200).collect();
    assert_eq!(ha.iter().map(|m| m.timestamp_unix).collect::<Vec<_>>(), want_a);
    assert_eq!(hb.iter().map(|m| m.timestamp_unix).collect::<Vec<_>>(), want_b);
}
