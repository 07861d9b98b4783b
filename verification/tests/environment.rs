//! Environment detection order, naming defaults, the memoized probe, and
//! the properties each environment injects.

use aws_embedded_metrics::{
    Config, Ec2Env, Ec2Metadata, Environment, LambdaEnv, Log, MetricContext, ProbeError,
    Serialize, VarsEnv,
};

fn lambda_env(function_name: Option<&str>) -> LambdaEnv {
    LambdaEnv {
        function_name: function_name.map(|s| s.to_string()),
        execution_env: None,
        memory_size: None,
        function_version: None,
        log_stream: None,
    }
}

fn metadata() -> Ec2Metadata {
    Ec2Metadata {
        image_id: "ami-1".to_string(),
        availability_zone: "us-east-1a".to_string(),
        private_ip: "10.0.0.1".to_string(),
        instance_id: "i-123".to_string(),
        instance_type: "t2.micro".to_string(),
    }
}

#[test]
fn default_config_is_empty() {
    let config = Config::default();
    assert!(config.log_group_name.is_none());
    assert!(config.log_stream_name.is_none());
    assert!(config.enable_debug_logging.is_none());
    assert!(config.service_name.is_none());
    assert!(config.service_type.is_none());
    assert!(config.agent_endpoint.is_none());
}

#[test]
fn lambda_wins_detection() {
    let lambda = lambda_env(Some("fn"));
    let mut ec2 = Ec2Env::new(Config::default());
    ec2.record_fetch(Err(ProbeError::Io));
    let env = aws_embedded_metrics::env::detect(lambda, ec2, Config::default());
    assert!(matches!(env, Environment::Lambda(_)));
    assert_eq!(env.name().as_str(), "fn");
    assert_eq!(env.env_type().as_str(), "AWS::Lambda::Function");
    assert_eq!(env.log_group_name().as_str(), "fn");
}

#[test]
fn ec2_detected_when_probe_succeeds() {
    let mut ec2 = Ec2Env::new(Config::default());
    ec2.record_fetch(Ok(metadata()));
    assert!(!ec2.needs_fetch());
    assert!(ec2.probe());
    let env = aws_embedded_metrics::env::detect(lambda_env(None), ec2, Config::default());
    assert!(matches!(env, Environment::Ec2(_)));
    assert_eq!(env.env_type().as_str(), "AWS::EC2::Instance");
    assert_eq!(env.name().as_str(), "Unknown");
    assert_eq!(env.log_group_name().as_str(), "Unknown-metrics");
}

#[test]
fn failed_probe_degrades_to_fallback() {
    for err in [ProbeError::Io, ProbeError::Parse] {
        let mut ec2 = Ec2Env::new(Config::default());
        assert!(ec2.needs_fetch());
        ec2.record_fetch(Err(err));
        assert!(!ec2.probe());
        let env = aws_embedded_metrics::env::detect(lambda_env(None), ec2, Config::default());
        assert!(matches!(env, Environment::Vars(_)));
        assert_eq!(env.name().as_str(), "Unknown");
        assert_eq!(env.env_type().as_str(), "Unknown");
        assert_eq!(env.log_group_name().as_str(), "Unknown-metrics");
    }
}

#[test]
fn fallback_uses_configuration() {
    let config = Config {
        log_group_name: Some("custom-group".to_string()),
        log_stream_name: None,
        enable_debug_logging: None,
        service_name: Some("svc".to_string()),
        service_type: Some("worker".to_string()),
        agent_endpoint: None,
    };
    let vars = VarsEnv { config };
    assert!(vars.probe());
    assert_eq!(vars.name().as_str(), "svc");
    assert_eq!(vars.env_type().as_str(), "worker");
    assert_eq!(vars.log_group_name().as_str(), "custom-group");

    let config = Config {
        service_name: Some("svc".to_string()),
        ..Config::default()
    };
    let vars = VarsEnv { config };
    assert_eq!(vars.log_group_name().as_str(), "svc-metrics");
}

#[test]
fn lambda_configure_injects_present_variables() {
    let lambda = LambdaEnv {
        function_name: Some("fn".to_string()),
        execution_env: Some("AWS_Lambda_rust".to_string()),
        memory_size: Some("128".to_string()),
        function_version: None,
        log_stream: Some("stream-1".to_string()),
    };
    let mut ctx = MetricContext::default();
    lambda.configure(&mut ctx);
    assert_eq!(ctx.property_count(), 3);
    let doc: serde_json::Value = serde_json::from_str(&Log.serialize(ctx)).unwrap();
    assert_eq!(doc["executionEnvironment"], "AWS_Lambda_rust");
    assert_eq!(doc["memorySize"], "128");
    assert_eq!(doc["logStreamId"], "stream-1");
    assert!(doc.get("functionVersion").is_none());
}

#[test]
fn ec2_configure_injects_identity_fields() {
    let mut ec2 = Ec2Env::new(Config::default());
    ec2.record_fetch(Ok(metadata()));
    let mut ctx = MetricContext::default();
    ec2.configure(&mut ctx);
    let doc: serde_json::Value = serde_json::from_str(&Log.serialize(ctx)).unwrap();
    assert_eq!(doc["imageId"], "ami-1");
    assert_eq!(doc["instanceId"], "i-123");
    assert_eq!(doc["instanceType"], "t2.micro");
    assert_eq!(doc["privateIP"], "10.0.0.1");
    assert_eq!(doc["availabilityZone"], "us-east-1a");
}

#[test]
fn ec2_env_type_requires_successful_probe() {
    let mut pending = Ec2Env::new(Config::default());
    assert_eq!(pending.env_type().as_str(), "Unknown");
    pending.record_fetch(Err(ProbeError::Io));
    assert_eq!(pending.env_type().as_str(), "Unknown");
    let mut probed = Ec2Env::new(Config::default());
    probed.record_fetch(Ok(metadata()));
    assert_eq!(probed.env_type().as_str(), "AWS::EC2::Instance");
}

#[test]
fn ec2_configure_after_failed_probe_injects_nothing() {
    let mut ec2 = Ec2Env::new(Config::default());
    ec2.record_fetch(Err(ProbeError::Parse));
    let mut ctx = MetricContext::default();
    ec2.configure(&mut ctx);
    assert_eq!(ctx.property_count(), 0);
}

#[test]
fn metadata_body_skips_header_lines() {
    let mut lines: Vec<String> = Vec::new();
    for i in 0..9 {
        lines.push(format!("header {}", i));
    }
    lines.push("{\"a\":".to_string());
    lines.push("1}".to_string());
    assert_eq!(
        aws_embedded_metrics::env::metadata_body(&lines),
        "{\"a\":1}"
    );

    let short: Vec<String> = vec!["only".to_string(), "headers".to_string()];
    assert_eq!(aws_embedded_metrics::env::metadata_body(&short), "");
}
