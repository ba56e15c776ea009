use sysmon::error::MonitorError;
use sysmon::model::{AgentReport, Metrics, SystemInfo};
use sysmon::protocol::{encode_frame, frame_body_len, registration_outcome, report_outcome, Message};

fn metrics() -> Metrics {
    Metrics {
        cpu_usage_fixed: 1000,
        ram_used_mb: 1,
        ram_total_mb: 2,
        disk_used_bytes: None,
        disk_total_bytes: None,
        network_rx_bps: 0,
        network_tx_bps: 0,
        ping_ms: Some(5),
        uptime_secs: 1,
        timestamp_unix: 2,
    }
}

#[test]
fn frame_has_big_endian_length_prefix() {
    assert_eq!(encode_frame(b"abc"), vec![0, 0, 0, 3, b'a', b'b', b'c']);
    assert_eq!(encode_frame(b""), vec![0, 0, 0, 0]);
    let body = vec![7u8; 258];
    let f = encode_frame(&body);
    assert_eq!(&f[..4], &[0, 0, 1, 2]);
    assert_eq!(&f[4..], &body[..]);
}

#[test]
fn frame_header_is_read_back() {
    assert_eq!(frame_body_len(&[0, 0, 1, 2]), 258);
    assert_eq!(frame_body_len(&[1, 0, 0, 0]), 16777216);
    assert_eq!(frame_body_len(&[255, 255, 255, 255]), u32::MAX as usize);
    let body: Vec<u8> = (0..1000u32).map(|i| (i % 251) as u8).collect();
    let f = encode_frame(&body);
    let n = frame_body_len(&f[..4]);
    assert_eq!(n, body.len());
    assert_eq!(&f[4..4 + n], &body[..]);
}

#[test]
fn registration_reply() {
    assert!(registration_outcome(&Message::Ack).is_ok());
    match registration_outcome(&Message::Stop) {
        Err(MonitorError::ProtocolError(s)) => {
            assert_eq!(s, "Unexpected response during registration: Stop")
        }
        _ => panic!("expected a protocol error"),
    }
}

#[test]
fn report_reply() {
    assert!(matches!(report_outcome(&Message::Ack), Ok(false)));
    assert!(matches!(report_outcome(&Message::Stop), Ok(true)));
    let other = Message::Report(AgentReport { agent_id: "a".to_string(), metrics: metrics() });
    match report_outcome(&other) {
        Err(MonitorError::ProtocolError(s)) => {
            assert!(s.starts_with("Unexpected response while sending report: Report("))
        }
        _ => panic!("expected a protocol error"),
    }
    let reg = Message::Register(SystemInfo {
        agent_id: "a".into(),
        hostname: "h".into(),
        os_name: "o".into(),
        os_version: "v".into(),
        cpu_name: "c".into(),
        cpu_cores: 4,
    });
    assert!(matches!(report_outcome(&reg), Err(MonitorError::ProtocolError(_))));
}

#[test]
fn error_descriptions() {
    let cases = [
        (MonitorError::CollectionFailed("x".into()), "Metric collection error: x"),
        (MonitorError::NetworkError("x".into()), "Network error: x"),
        (MonitorError::IoError("x".into()), "File error: x"),
        (MonitorError::SerializationError("x".into()), "Serialization error: x"),
        (MonitorError::ProtocolError("x".into()), "Protocol error: x"),
    ];
    for (e, want) in cases {
        assert_eq!(e.describe(), want);
    }
}

#[test]
fn frames_back_to_back_are_read_one_by_one() {
    let mut wire = encode_frame(b"first");
    wire.extend(encode_frame(b""));
    wire.extend(encode_frame(b"third!"));
    let mut pos = 0;
    let mut bodies: Vec<Vec<u8>> = Vec::new();
    while pos < wire.len() {
        let n = frame_body_len(&wire[pos..pos + 4]);
        bodies.push(wire[pos + 4..pos + 4 + n].to_vec());
        pos += 4 + n;
    }
    assert_eq!(bodies, vec![b"first".to_vec(), Vec::new(), b"third!".to_vec()]);
}

#[test]
fn protocol_error_text() {
    match sysmon::protocol::protocol_error("Unexpected: ", "Ack") {
        MonitorError::ProtocolError(s) => assert_eq!(s, "Unexpected: Ack"),
        _ => panic!("expected a protocol error"),
    }
}
