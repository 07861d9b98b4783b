//! Delivery-target resolution and the agent-side payload.
//!
//! The network sockets themselves are outside work; this module decides
//! everything about them: which endpoint a configuration string names,
//! the default endpoint when it is missing or malformed, and the exact
//! bytes the agent receives.

use vstd::prelude::*;
use vstd::string::StringExecFns;

use crate::json::JsonValue;
use crate::log::{MetricContext, MetricContextView};
use crate::assoc::assoc_upsert;
use crate::json::JsonVal;
use crate::json::single_line;
use crate::serialize::{spec_serialize, Log, Serialize};

verus! {

/// A resolved delivery target: transport kind, host and port.
#[derive(Debug, PartialEq)]
pub enum Endpoint {
    Tcp(String, u16),
    Udp(String, u16),
}

/// The mathematical shape of an `Endpoint`.
pub enum EndpointModel {
    Tcp(Seq<char>, u16),
    Udp(Seq<char>, u16),
}

impl View for Endpoint {
    type V = EndpointModel;

    open spec fn view(&self) -> EndpointModel {
        match self {
            Endpoint::Tcp(host, port) => EndpointModel::Tcp(host@, *port),
            Endpoint::Udp(host, port) => EndpointModel::Udp(host@, *port),
        }
    }
}

/// The scheme, host and port of the URL that the string parses to, when it
/// parses as an absolute URL with both a host and an explicit port.
pub uninterp spec fn url_host_port_parts(s: Seq<char>) -> Option<(Seq<char>, Seq<char>, u16)>;

/// Relies on `url::Url::parse`, its `scheme`, `host` and `port` accessors,
/// and the host's display rendering: the components of a URL depend on the
/// input string alone.
#[verifier::external_body]
fn parse_url_parts(s: &str) -> (r: Option<(String, String, u16)>)
    ensures
        (r is Some) == (url_host_port_parts(s@) is Some),
        r matches Some(t) ==> url_host_port_parts(s@) == Some((t.0@, t.1@, t.2)),
{
    match url::Url::parse(s) {
        Ok(u) => match (u.host(), u.port()) {
            (Some(host), Some(port)) => Some((u.scheme().to_owned(), host.to_string(), port)),
            _ => None,
        },
        Err(_) => None,
    }
}

/// The endpoint a configuration string names: the URL's host and port,
/// under its scheme's transport; any other scheme, or a string without a
/// parseable host and port, names nothing.
pub open spec fn spec_parse_endpoint(s: Seq<char>) -> Option<EndpointModel> {
    match url_host_port_parts(s) {
        Some(parts) => if parts.0 == "tcp"@ {
            Some(EndpointModel::Tcp(parts.1, parts.2))
        } else if parts.0 == "udp"@ {
            Some(EndpointModel::Udp(parts.1, parts.2))
        } else {
            None
        },
        None => None,
    }
}

/// The endpoint used when configuration names none.
pub open spec fn default_endpoint_model() -> EndpointModel {
    EndpointModel::Tcp("0.0.0.0"@, 25888)
}

/// A malformed or foreign configuration string falls back to the default.
pub open spec fn spec_resolve_endpoint(s: Seq<char>) -> EndpointModel {
    match spec_parse_endpoint(s) {
        Some(e) => e,
        None => default_endpoint_model(),
    }
}

/// The context as the agent sink delivers it: the log group name, and the
/// log stream name when one is configured, merged into the metadata.
pub open spec fn agent_context(
    c: MetricContextView,
    log_group_name: Seq<char>,
    log_stream_name: Option<Seq<char>>,
) -> MetricContextView {
    let with_group = assoc_upsert(c.meta, "LogGroupName"@, JsonVal::Str(log_group_name));
    let with_stream = match log_stream_name {
        Some(s) => assoc_upsert(with_group, "LogStreamName"@, JsonVal::Str(s)),
        None => with_group,
    };
    MetricContextView { meta: with_stream, ..c }
}

/// The agent sink's delivery settings: where payloads go and which log
/// group and stream they are labelled with. The socket itself is the
/// embedding program's; it is opened once from `endpoint` and reused.
pub struct Agent {
    pub log_group_name: String,
    pub log_stream_name: Option<String>,
    pub endpoint: Endpoint,
}

impl Agent {
    /// Reads an endpoint from a `scheme://host:port` configuration string;
    /// a scheme other than `tcp` or `udp`, or an unparseable string, is
    /// rejected.
    pub fn parse(endpoint: &str) -> (r: Option<Endpoint>)
        ensures
            r matches Some(e) ==> spec_parse_endpoint(endpoint@) == Some(e@),
            r is None ==> spec_parse_endpoint(endpoint@) is None,
    {
        match parse_url_parts(endpoint) {
            Some(parts) => {
                let (scheme, host, port) = parts;
                if scheme == String::from_str("tcp") {
                    Some(Endpoint::Tcp(host, port))
                } else if scheme == String::from_str("udp") {
                    Some(Endpoint::Udp(host, port))
                } else {
                    None
                }
            },
            None => None,
        }
    }

    /// The delivery settings for the given configuration: an unset or
    /// unusable endpoint string falls back to the default endpoint.
    pub fn create(
        log_group_name: String,
        log_stream_name: Option<String>,
        config_endpoint: Option<String>,
    ) -> (r: Agent)
        ensures
            r.log_group_name == log_group_name,
            r.log_stream_name == log_stream_name,
            r.endpoint@ == (match config_endpoint {
                Some(s) => spec_resolve_endpoint(s@),
                None => default_endpoint_model(),
            }),
    {
        let endpoint = match &config_endpoint {
            Some(s) => match Agent::parse(s.as_str()) {
                Some(e) => e,
                None => Endpoint::Tcp(String::from_str("0.0.0.0"), 25888),
            },
            None => Endpoint::Tcp(String::from_str("0.0.0.0"), 25888),
        };
        Agent { log_group_name, log_stream_name, endpoint }
    }

    /// The exact bytes one delivery sends: the context with the delivery
    /// metadata merged in, serialized on one line, with the trailing
    /// newline as the only line break.
    pub fn payload(&self, context: MetricContext) -> (r: String)
        ensures
            r@ == spec_serialize(
                agent_context(
                    context@,
                    self.log_group_name@,
                    match self.log_stream_name {
                        Some(s) => Some(s@),
                        None => None,
                    },
                ),
            ) + "\n"@,
            r@.len() > 0,
            r@.last() == '\n',
            single_line(r@.drop_last()),
    {
        let mut ctx = context;
        ctx.set_meta(
            String::from_str("LogGroupName"),
            JsonValue::Str(self.log_group_name.clone()),
        );
        if let Some(stream) = &self.log_stream_name {
            ctx.set_meta(String::from_str("LogStreamName"), JsonValue::Str(stream.clone()));
        }
        let mut out = Log.serialize(ctx);
        let ghost body = out@;
        out.append("\n");
        proof {
            reveal_strlit("\n");
            assert(out@.last() == '\n');
            assert(out@.drop_last() =~= body);
        }
        out
    }
}

} // verus!
