//! A process-local metrics instrumentation client: it accumulates structured
//! metric data for one logical scope and renders it in the CloudWatch
//! embedded-metrics wire format for delivery to a local collection agent.

pub mod assoc;
pub mod env;
pub mod json;
pub mod log;
pub mod serialize;
pub mod sink;

pub use env::{Config, Ec2Env, Ec2Metadata, Environment, LambdaEnv, ProbeError, VarsEnv};
pub use json::JsonValue;
pub use log::{MetricContext, MetricLogger, Unit};
pub use serialize::{Log, Serialize};
pub use sink::{Agent, Endpoint};
