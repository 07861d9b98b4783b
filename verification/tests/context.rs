//! The aggregation model: defaults, accumulation, and the one-shot flush.

use aws_embedded_metrics::log::MetricValues;
use aws_embedded_metrics::{
    JsonValue, Log, MetricContext, MetricLogger, Serialize, Unit,
};

#[test]
fn default_namepace() {
    assert_eq!(
        MetricContext::default().namespace().as_str(),
        "aws-embedded-metrics"
    )
}

#[test]
fn default_context_is_empty() {
    let ctx = MetricContext::default();
    assert_eq!(ctx.meta_count(), 0);
    assert_eq!(ctx.property_count(), 0);
    assert_eq!(ctx.dimension_count(), 0);
    assert_eq!(ctx.metric_count(), 0);
}

#[test]
fn set_namespace_replaces() {
    let mut ctx = MetricContext::default();
    ctx.set_namespace("my-app".to_string());
    assert_eq!(ctx.namespace().as_str(), "my-app");
}

#[test]
fn put_metric_same_name_accumulates_with_first_unit() {
    let mut ctx = MetricContext::default();
    ctx.put_metric("latency".to_string(), 100, Unit::Milliseconds);
    ctx.put_metric("latency".to_string(), 250, Unit::Seconds);
    assert_eq!(ctx.metric_count(), 1);
    let payload = Log.serialize(ctx);
    let doc: serde_json::Value = serde_json::from_str(&payload).unwrap();
    assert_eq!(doc["latency"][0], 100);
    assert_eq!(doc["latency"][1], 250);
    assert_eq!(doc["latency"].as_array().unwrap().len(), 2);
    let metrics = &doc["_aws"]["CloudWatchMetrics"][0]["Metrics"];
    assert_eq!(metrics[0]["Name"], "latency");
    assert_eq!(metrics[0]["Unit"], "Milliseconds");
}

#[test]
fn set_property_upserts() {
    let mut ctx = MetricContext::default();
    ctx.set_property("requestId".to_string(), JsonValue::Str("a".to_string()));
    ctx.set_property("requestId".to_string(), JsonValue::Str("b".to_string()));
    assert_eq!(ctx.property_count(), 1);
    let payload = Log.serialize(ctx);
    let doc: serde_json::Value = serde_json::from_str(&payload).unwrap();
    assert_eq!(doc["requestId"], "b");
}

#[test]
fn metric_values_accumulate() {
    let mut mv = MetricValues::new(Unit::Bytes);
    mv.add(1);
    mv.add(2);
    assert_eq!(mv.values().as_slice(), &[1, 2]);
    assert_eq!(mv.unit().as_str(), "Bytes");
}

#[test]
fn logger_flushes_at_most_once() {
    let mut logger = MetricLogger::new();
    logger.put_metric("foo".to_string(), 1, Unit::Count);
    let first = logger.take_for_flush();
    assert!(first.is_some());
    let again = logger.take_for_flush();
    assert!(again.is_none());
    let payload = Log.serialize(first.unwrap());
    let doc: serde_json::Value = serde_json::from_str(&payload).unwrap();
    assert_eq!(doc["foo"], 1);
}

#[test]
fn logger_passes_mutations_through() {
    let mut logger = MetricLogger::default();
    logger.set_namespace("svc".to_string());
    logger.set_property("p".to_string(), JsonValue::Bool(true));
    logger.put_dimensions(vec![("Service".to_string(), "Aggregator".to_string())]);
    logger.put_metric("n".to_string(), 7, Unit::Count);
    let ctx = logger.take_for_flush().unwrap();
    let payload = Log.serialize(ctx);
    let doc: serde_json::Value = serde_json::from_str(&payload).unwrap();
    assert_eq!(doc["_aws"]["CloudWatchMetrics"][0]["Namespace"], "svc");
    assert_eq!(doc["p"], true);
    assert_eq!(doc["Service"], "Aggregator");
    assert_eq!(doc["n"], 7);
}
