//! The serializer's wire format: envelope shape, scalar/array metric
//! values, dimension truncation, and merge order.

use aws_embedded_metrics::{JsonValue, Log, MetricContext, Serialize, Unit};

fn parse(payload: &str) -> serde_json::Value {
    serde_json::from_str(payload).unwrap()
}

#[test]
fn log_serializes_metrics() {
    let mut ctx = MetricContext::default();
    ctx.put_metric("foo".to_string(), 1, Unit::Bytes);
    println!("{}", Log.serialize(ctx));
}

#[test]
fn log_serializes_valid_payload() {
    let mut ctx = MetricContext::default();
    ctx.put_metric("foo".to_string(), 1, Unit::Bytes);
    let payload = Log.serialize(ctx);
    let doc = parse(&payload);

    // The essentials of the published embedded-metrics schema: a top-level
    // object whose `_aws` member holds `CloudWatchMetrics`, an array of
    // objects each carrying a string `Namespace`, an array-of-arrays-of-
    // strings `Dimensions` (at most 9 names per set), and a `Metrics`
    // array of objects with a string `Name`.
    assert!(doc.is_object(), "payload must be a JSON object\n\n{}", payload);
    let aws = doc.get("_aws").expect("reserved metadata key");
    let cwm = aws
        .get("CloudWatchMetrics")
        .expect("metrics directive")
        .as_array()
        .expect("directive array");
    assert_eq!(cwm.len(), 1);
    assert!(cwm[0]["Namespace"].is_string());
    let dims = cwm[0]["Dimensions"].as_array().expect("dimensions array");
    for set in dims {
        let set = set.as_array().expect("dimension set is an array");
        assert!(set.len() <= 9);
        assert!(set.iter().all(|k| k.is_string()));
    }
    let metrics = cwm[0]["Metrics"].as_array().expect("metrics array");
    assert_eq!(metrics.len(), 1);
    assert_eq!(metrics[0]["Name"], "foo");
    assert_eq!(metrics[0]["Unit"], "Bytes");
    assert_eq!(doc["foo"], 1);
}

#[test]
fn single_sample_serializes_as_scalar() {
    let mut ctx = MetricContext::default();
    ctx.put_metric("one".to_string(), 42, Unit::Count);
    let doc = parse(&Log.serialize(ctx));
    assert!(doc["one"].is_number());
    assert_eq!(doc["one"], 42);
}

#[test]
fn multiple_samples_serialize_as_array_in_order() {
    let mut ctx = MetricContext::default();
    ctx.put_metric("many".to_string(), 3, Unit::Count);
    ctx.put_metric("many".to_string(), 1, Unit::Count);
    ctx.put_metric("many".to_string(), 2, Unit::Count);
    let doc = parse(&Log.serialize(ctx));
    let arr = doc["many"].as_array().unwrap();
    assert_eq!(arr.len(), 3);
    assert_eq!(arr[0], 3);
    assert_eq!(arr[1], 1);
    assert_eq!(arr[2], 2);
}

#[test]
fn twelve_keys_truncate_to_nine_but_all_values_flatten() {
    let mut ctx = MetricContext::default();
    let mut set: Vec<(String, String)> = Vec::new();
    for i in 0..12 {
        set.push((format!("k{}", i), format!("v{}", i)));
    }
    ctx.put_dimensions(set);
    let doc = parse(&Log.serialize(ctx));
    let dims = doc["_aws"]["CloudWatchMetrics"][0]["Dimensions"]
        .as_array()
        .unwrap();
    assert_eq!(dims.len(), 1);
    let keys = dims[0].as_array().unwrap();
    assert_eq!(keys.len(), 9);
    for i in 0..9 {
        assert_eq!(keys[i], format!("k{}", i));
    }
    for i in 0..12 {
        assert_eq!(doc[format!("k{}", i)], format!("v{}", i));
    }
}

#[test]
fn two_dimension_sets_stay_independent_and_later_wins() {
    let mut ctx = MetricContext::default();
    ctx.put_dimensions(vec![
        ("shared".to_string(), "first".to_string()),
        ("onlyfirst".to_string(), "a".to_string()),
    ]);
    ctx.put_dimensions(vec![
        ("shared".to_string(), "second".to_string()),
        ("onlysecond".to_string(), "b".to_string()),
    ]);
    let doc = parse(&Log.serialize(ctx));
    let dims = doc["_aws"]["CloudWatchMetrics"][0]["Dimensions"]
        .as_array()
        .unwrap();
    assert_eq!(dims.len(), 2);
    assert_eq!(dims[0].as_array().unwrap().len(), 2);
    assert_eq!(dims[1].as_array().unwrap().len(), 2);
    assert_eq!(doc["shared"], "second");
    assert_eq!(doc["onlyfirst"], "a");
    assert_eq!(doc["onlysecond"], "b");
}

#[test]
fn merge_order_is_dimensions_properties_metrics() {
    let mut ctx = MetricContext::default();
    ctx.put_dimensions(vec![("collide".to_string(), "dim".to_string())]);
    ctx.set_property("collide".to_string(), JsonValue::Str("prop".to_string()));
    let doc = parse(&Log.serialize(ctx));
    assert_eq!(doc["collide"], "prop");

    let mut ctx = MetricContext::default();
    ctx.set_property("collide".to_string(), JsonValue::Str("prop".to_string()));
    ctx.put_metric("collide".to_string(), 5, Unit::Count);
    let doc = parse(&Log.serialize(ctx));
    assert_eq!(doc["collide"], 5);
}

#[test]
fn end_to_end_payload() {
    let mut ctx = MetricContext::default();
    ctx.put_metric("foo".to_string(), 1, Unit::Bytes);
    ctx.put_metric("bar".to_string(), 2, Unit::Seconds);
    ctx.put_dimensions(vec![("foo".to_string(), "1".to_string())]);
    ctx.put_dimensions(vec![
        ("bar".to_string(), "2".to_string()),
        ("baz".to_string(), "3".to_string()),
    ]);
    let payload = Log.serialize(ctx);
    let doc = parse(&payload);
    assert_eq!(doc["foo"], 1);
    assert_eq!(doc["bar"], 2);
    let dims = doc["_aws"]["CloudWatchMetrics"][0]["Dimensions"]
        .as_array()
        .unwrap();
    assert_eq!(dims.len(), 2);
    assert_eq!(dims[0].as_array().unwrap().len(), 1);
    assert_eq!(dims[1].as_array().unwrap().len(), 2);
    assert!(!payload.contains('\n'));
}

#[test]
fn strings_are_escaped() {
    let mut ctx = MetricContext::default();
    ctx.set_property(
        "quoted".to_string(),
        JsonValue::Str("he said \"hi\"\\now".to_string()),
    );
    let doc = parse(&Log.serialize(ctx));
    assert_eq!(doc["quoted"], "he said \"hi\"\\now");
}

#[test]
fn numbers_serialize_in_decimal() {
    let mut ctx = MetricContext::default();
    ctx.put_metric("neg".to_string(), -5, Unit::Count);
    ctx.put_metric("big".to_string(), i64::MAX, Unit::Count);
    ctx.put_metric("small".to_string(), i64::MIN, Unit::Count);
    ctx.put_metric("zero".to_string(), 0, Unit::Count);
    let doc = parse(&Log.serialize(ctx));
    assert_eq!(doc["neg"], -5);
    assert_eq!(doc["big"], i64::MAX);
    assert_eq!(doc["small"], i64::MIN);
    assert_eq!(doc["zero"], 0);
}

#[test]
fn nested_property_values_serialize() {
    let mut ctx = MetricContext::default();
    ctx.set_property(
        "nested".to_string(),
        JsonValue::Obj(vec![
            ("flag".to_string(), JsonValue::Bool(false)),
            ("nothing".to_string(), JsonValue::Null),
            (
                "list".to_string(),
                JsonValue::Arr(vec![JsonValue::Int(1), JsonValue::Str("two".to_string())]),
            ),
        ]),
    );
    let doc = parse(&Log.serialize(ctx));
    assert_eq!(doc["nested"]["flag"], false);
    assert!(doc["nested"]["nothing"].is_null());
    assert_eq!(doc["nested"]["list"][0], 1);
    assert_eq!(doc["nested"]["list"][1], "two");
}

#[test]
fn empty_context_serializes() {
    let doc = parse(&Log.serialize(MetricContext::default()));
    assert_eq!(
        doc["_aws"]["CloudWatchMetrics"][0]["Namespace"],
        "aws-embedded-metrics"
    );
    assert_eq!(
        doc["_aws"]["CloudWatchMetrics"][0]["Dimensions"]
            .as_array()
            .unwrap()
            .len(),
        0
    );
    assert_eq!(
        doc["_aws"]["CloudWatchMetrics"][0]["Metrics"]
            .as_array()
            .unwrap()
            .len(),
        0
    );
}
