//! Endpoint parsing, the default fallback, and the agent payload.

use aws_embedded_metrics::{Agent, Endpoint, MetricContext, Unit};

#[test]
fn agent_parses_udp_endpoint() {
    assert_eq!(
        Agent::parse("udp://0.0.0.0:7890"),
        Some(Endpoint::Udp("0.0.0.0".into(), 7890))
    )
}

#[test]
fn agent_parses_tcp_endpoint() {
    assert_eq!(
        Agent::parse("tcp://0.0.0.0:7890"),
        Some(Endpoint::Tcp("0.0.0.0".into(), 7890))
    )
}

#[test]
fn agent_ignores_other_endpoint() {
    assert_eq!(Agent::parse("other://0.0.0.0:7890"), None)
}

#[test]
fn agent_rejects_malformed_endpoints() {
    assert_eq!(Agent::parse("not a url"), None);
    assert_eq!(Agent::parse("tcp://0.0.0.0"), None);
    assert_eq!(Agent::parse(""), None);
}

#[test]
fn create_falls_back_to_default_endpoint() {
    let agent = Agent::create("group".to_string(), None, None);
    assert_eq!(agent.endpoint, Endpoint::Tcp("0.0.0.0".into(), 25888));
    let agent = Agent::create(
        "group".to_string(),
        None,
        Some("ftp://0.0.0.0:7890".to_string()),
    );
    assert_eq!(agent.endpoint, Endpoint::Tcp("0.0.0.0".into(), 25888));
    let agent = Agent::create(
        "group".to_string(),
        None,
        Some("udp://127.0.0.1:1000".to_string()),
    );
    assert_eq!(agent.endpoint, Endpoint::Udp("127.0.0.1".into(), 1000));
}

#[test]
fn agent_payload_injects_delivery_meta() {
    let agent = Agent::create("my-group".to_string(), Some("my-stream".to_string()), None);
    let mut ctx = MetricContext::default();
    ctx.put_metric("foo".to_string(), 1, Unit::Count);
    let payload = agent.payload(ctx);
    assert!(payload.ends_with('\n'));
    let doc: serde_json::Value = serde_json::from_str(payload.trim_end()).unwrap();
    assert_eq!(doc["_aws"]["LogGroupName"], "my-group");
    assert_eq!(doc["_aws"]["LogStreamName"], "my-stream");
    assert_eq!(doc["foo"], 1);
}

#[test]
fn agent_payload_skips_absent_stream_name() {
    let agent = Agent::create("g".to_string(), None, None);
    let payload = agent.payload(MetricContext::default());
    let doc: serde_json::Value = serde_json::from_str(payload.trim_end()).unwrap();
    assert_eq!(doc["_aws"]["LogGroupName"], "g");
    assert!(doc["_aws"].get("LogStreamName").is_none());
}
