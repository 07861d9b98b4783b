//! Execution-environment detection and the environment-specific metadata
//! each environment contributes to a context.
//!
//! Probing itself (reading process variables, querying the instance
//! metadata endpoint) is outside work; the caller gathers those plain
//! values and this module makes every decision about them: which
//! environment is active, its naming, and which properties it injects.

use vstd::prelude::*;
use vstd::string::StringExecFns;

use crate::assoc::{
    assoc_upsert, assoc_upsert_all, lemma_assoc_upsert_all_concat, lemma_assoc_upsert_all_push,
};
use crate::json::{JsonVal, JsonValue};
use crate::log::{ctx_wf, MetricContext, MetricContextView};

verus! {

/// Process configuration: optional overrides read from the environment by
/// the embedding program and handed in as plain values.
#[derive(Debug, PartialEq)]
pub struct Config {
    pub log_group_name: Option<String>,
    pub log_stream_name: Option<String>,
    pub enable_debug_logging: Option<String>,
    pub service_name: Option<String>,
    pub service_type: Option<String>,
    pub agent_endpoint: Option<String>,
}

impl Default for Config {
    /// A configuration with nothing set.
    fn default() -> (r: Config)
        ensures
            r.log_group_name is None,
            r.log_stream_name is None,
            r.enable_debug_logging is None,
            r.service_name is None,
            r.service_type is None,
            r.agent_endpoint is None,
    {
        Config {
            log_group_name: None,
            log_stream_name: None,
            enable_debug_logging: None,
            service_name: None,
            service_type: None,
            agent_endpoint: None,
        }
    }
}

/// The configured string, or "Unknown" when unset.
pub open spec fn opt_or_unknown(o: Option<String>) -> Seq<char> {
    match o {
        Some(s) => s@,
        None => "Unknown"@,
    }
}

/// Clones the configured string, or supplies "Unknown".
fn clone_or_unknown(o: &Option<String>) -> (r: String)
    ensures
        r@ == opt_or_unknown(*o),
{
    match o {
        Some(s) => s.clone(),
        None => String::from_str("Unknown"),
    }
}

/// A one-entry batch when the value is present, an empty one otherwise.
pub open spec fn opt_entry(k: Seq<char>, v: Option<String>) -> Seq<(Seq<char>, JsonVal)> {
    match v {
        Some(s) => seq![(k, JsonVal::Str(s@))],
        None => Seq::empty(),
    }
}

/// The serverless function environment: the well-known process variables
/// it reads, captured as plain values.
pub struct LambdaEnv {
    pub function_name: Option<String>,
    pub execution_env: Option<String>,
    pub memory_size: Option<String>,
    pub function_version: Option<String>,
    pub log_stream: Option<String>,
}

/// The properties a function environment injects: one entry per captured
/// variable that is present, in this fixed order.
pub open spec fn lambda_prop_entries(l: LambdaEnv) -> Seq<(Seq<char>, JsonVal)> {
    opt_entry("executionEnvironment"@, l.execution_env) + opt_entry("memorySize"@, l.memory_size)
        + opt_entry("functionVersion"@, l.function_version) + opt_entry(
        "logStreamId"@,
        l.log_stream,
    )
}

impl LambdaEnv {
    /// The probe succeeds exactly when the function-name variable is set.
    pub fn probe(&self) -> (r: bool)
        ensures
            r == (self.function_name is Some),
    {
        self.function_name.is_some()
    }

    /// The function name, or "Unknown" when unset.
    pub fn name(&self) -> (r: String)
        ensures
            r@ == opt_or_unknown(self.function_name),
    {
        clone_or_unknown(&self.function_name)
    }

    /// The fixed type tag of this environment.
    pub fn env_type(&self) -> (r: String)
        ensures
            r@ == "AWS::Lambda::Function"@,
    {
        String::from_str("AWS::Lambda::Function")
    }

    /// The log group of a function environment is its name.
    pub fn log_group_name(&self) -> (r: String)
        ensures
            r@ == opt_or_unknown(self.function_name),
    {
        self.name()
    }

    /// Injects each captured variable that is present as a property;
    /// absent variables are skipped, never an error.
    pub fn configure(&self, context: &mut MetricContext)
        ensures
            final(context)@ == (MetricContextView {
                properties: assoc_upsert_all(old(context)@.properties, lambda_prop_entries(*self)),
                ..old(context)@
            }),
            ctx_wf(old(context)@) ==> ctx_wf(final(context)@),
    {
        let ghost p0 = context@.properties;
        let ghost e1 = opt_entry("executionEnvironment"@, self.execution_env);
        let ghost e2 = opt_entry("memorySize"@, self.memory_size);
        let ghost e3 = opt_entry("functionVersion"@, self.function_version);
        let ghost e4 = opt_entry("logStreamId"@, self.log_stream);
        if let Some(value) = &self.execution_env {
            context.set_property(
                String::from_str("executionEnvironment"),
                JsonValue::Str(value.clone()),
            );
        }
        proof {
            lemma_opt_entry_step(p0, "executionEnvironment"@, self.execution_env);
            assert(context@.properties == assoc_upsert_all(p0, e1));
        }
        let ghost p1 = context@.properties;
        if let Some(value) = &self.memory_size {
            context.set_property(String::from_str("memorySize"), JsonValue::Str(value.clone()));
        }
        proof {
            lemma_opt_entry_step(p1, "memorySize"@, self.memory_size);
            lemma_assoc_upsert_all_concat(p0, e1, e2);
            assert(context@.properties == assoc_upsert_all(p0, e1 + e2));
        }
        let ghost p2 = context@.properties;
        if let Some(value) = &self.function_version {
            context.set_property(
                String::from_str("functionVersion"),
                JsonValue::Str(value.clone()),
            );
        }
        proof {
            lemma_opt_entry_step(p2, "functionVersion"@, self.function_version);
            lemma_assoc_upsert_all_concat(p0, e1 + e2, e3);
            assert(context@.properties == assoc_upsert_all(p0, e1 + e2 + e3));
        }
        let ghost p3 = context@.properties;
        if let Some(value) = &self.log_stream {
            context.set_property(String::from_str("logStreamId"), JsonValue::Str(value.clone()));
        }
        proof {
            lemma_opt_entry_step(p3, "logStreamId"@, self.log_stream);
            lemma_assoc_upsert_all_concat(p0, e1 + e2 + e3, e4);
            assert(context@.properties == assoc_upsert_all(p0, e1 + e2 + e3 + e4));
            assert(lambda_prop_entries(*self) == e1 + e2 + e3 + e4);
        }
    }
}

/// Upserting an optional entry is upserting its batch.
proof fn lemma_opt_entry_step<V>(m: Seq<(Seq<char>, V)>, k: Seq<char>, o: Option<String>)
    ensures
        o is None ==> assoc_upsert_all(m, Seq::<(Seq<char>, V)>::empty()) == m,
        forall|v: V|
            assoc_upsert_all(m, seq![(k, v)]) == #[trigger] assoc_upsert(m, k, v),
{
    assert forall|v: V| assoc_upsert_all(m, seq![(k, v)]) == #[trigger] assoc_upsert(
        m,
        k,
        v,
    ) by {
        lemma_assoc_upsert_all_push(m, Seq::<(Seq<char>, V)>::empty(), (k, v));
        assert(Seq::<(Seq<char>, V)>::empty().push((k, v)) =~= seq![(k, v)]);
        assert(assoc_upsert_all(m, Seq::<(Seq<char>, V)>::empty()) == m);
    }
}

/// How many header lines the metadata endpoint's response carries before
/// its JSON body.
pub const METADATA_HEADER_LINES: usize = 9;

/// A list of character sequences, joined with nothing in between.
pub open spec fn spec_join(ls: Seq<Seq<char>>) -> Seq<char>
    decreases ls.len(),
{
    if ls.len() == 0 {
        Seq::empty()
    } else {
        spec_join(ls.drop_last()) + ls.last()
    }
}

/// The body of a metadata response: every line after the header lines,
/// joined; a response too short to carry a body yields nothing.
pub open spec fn spec_metadata_body(ls: Seq<Seq<char>>) -> Seq<char> {
    if ls.len() <= METADATA_HEADER_LINES {
        Seq::empty()
    } else {
        spec_join(ls.skip(METADATA_HEADER_LINES as int))
    }
}

/// Extending a join by one more piece.
proof fn lemma_spec_join_step(ls: Seq<Seq<char>>, i: int)
    requires
        0 <= i < ls.len(),
    ensures
        spec_join(ls.take(i + 1)) == spec_join(ls.take(i)) + ls[i],
{
    let t = ls.take(i + 1);
    assert(t.drop_last() =~= ls.take(i));
    assert(t.last() == ls[i]);
}

/// Joins the lines after the response header into the JSON body.
pub fn metadata_body(lines: &Vec<String>) -> (r: String)
    ensures
        r@ == spec_metadata_body(lines@.map_values(|l: String| l@)),
{
    let ghost all = lines@.map_values(|l: String| l@);
    let mut out = String::new();
    let n = lines.len();
    if n <= METADATA_HEADER_LINES {
        proof {
            assert(out@ =~= spec_metadata_body(all));
        }
        return out;
    }
    let ghost tail = all.skip(METADATA_HEADER_LINES as int);
    proof {
        assert(tail.take(0) =~= Seq::<Seq<char>>::empty());
        assert(out@ =~= spec_join(tail.take(0)));
    }
    let mut i: usize = METADATA_HEADER_LINES;
    while i < n
        invariant
            METADATA_HEADER_LINES <= i <= n,
            n == lines.len(),
            all == lines@.map_values(|l: String| l@),
            all.len() == n,
            n > METADATA_HEADER_LINES,
            tail == all.skip(METADATA_HEADER_LINES as int),
            out@ == spec_join(tail.take(i - METADATA_HEADER_LINES)),
        decreases n - i,
    {
        out.append(lines[i].as_str());
        proof {
            let k = i - METADATA_HEADER_LINES;
            lemma_spec_join_step(tail, k as int);
            assert(tail[k as int] == all[i as int]);
            assert(all[i as int] == lines@[i as int]@);
            assert(out@ =~= spec_join(tail.take(k as int + 1)));
        }
        i = i + 1;
    }
    proof {
        assert(tail.take(n - METADATA_HEADER_LINES) =~= tail);
    }
    out
}

/// One variant of the probe error: the metadata endpoint could not be
/// reached, or its body could not be parsed.
#[derive(Copy, Clone, Debug, PartialEq, Eq, Structural)]
pub enum ProbeError {
    Io,
    Parse,
}

/// The instance identity fields the metadata endpoint returns.
#[derive(Debug, PartialEq)]
pub struct Ec2Metadata {
    pub image_id: String,
    pub availability_zone: String,
    pub private_ip: String,
    pub instance_id: String,
    pub instance_type: String,
}

/// The virtual-machine environment: process configuration plus the
/// memoized outcome of the one metadata probe.
pub struct Ec2Env {
    pub config: Config,
    pub metadata: Option<Result<Ec2Metadata, ProbeError>>,
}

/// The properties an instance environment injects: the five identity
/// fields, in this fixed order, when the probe succeeded; nothing
/// otherwise.
pub open spec fn ec2_prop_entries(e: Ec2Env) -> Seq<(Seq<char>, JsonVal)> {
    match e.metadata {
        Some(Ok(m)) => seq![
            ("imageId"@, JsonVal::Str(m.image_id@)),
            ("instanceId"@, JsonVal::Str(m.instance_id@)),
            ("instanceType"@, JsonVal::Str(m.instance_type@)),
            ("privateIP"@, JsonVal::Str(m.private_ip@)),
            ("availabilityZone"@, JsonVal::Str(m.availability_zone@)),
        ],
        _ => Seq::empty(),
    }
}

impl Ec2Env {
    /// A fresh instance environment whose probe has not run yet.
    pub fn new(config: Config) -> (r: Ec2Env)
        ensures
            r.config == config,
            r.metadata is None,
    {
        Ec2Env { config, metadata: None }
    }

    /// Whether the one-shot probe still has to run.
    pub fn needs_fetch(&self) -> (r: bool)
        ensures
            r == (self.metadata is None),
    {
        self.metadata.is_none()
    }

    /// Memoizes the probe outcome; it is set exactly once.
    pub fn record_fetch(&mut self, result: Result<Ec2Metadata, ProbeError>)
        requires
            old(self).metadata is None,
        ensures
            final(self).config == old(self).config,
            final(self).metadata == Some(result),
    {
        self.metadata = Some(result);
    }

    /// The probe succeeded exactly when the memoized fetch returned the
    /// identity document.
    pub fn probe(&self) -> (r: bool)
        requires
            self.metadata is Some,
        ensures
            r == (self.metadata matches Some(Ok(_))),
    {
        match &self.metadata {
            Some(Ok(_)) => true,
            _ => false,
        }
    }

    /// The configured service name, or "Unknown".
    pub fn name(&self) -> (r: String)
        ensures
            r@ == opt_or_unknown(self.config.service_name),
    {
        clone_or_unknown(&self.config.service_name)
    }

    /// The instance type tag when the memoized probe succeeded; a failed
    /// or pending probe leaves the environment unknown.
    pub fn env_type(&self) -> (r: String)
        ensures
            (self.metadata matches Some(Ok(_))) ==> r@ == "AWS::EC2::Instance"@,
            !(self.metadata matches Some(Ok(_))) ==> r@ == "Unknown"@,
    {
        match &self.metadata {
            Some(Ok(_)) => String::from_str("AWS::EC2::Instance"),
            _ => String::from_str("Unknown"),
        }
    }

    /// The configured service name, or the `<name>-metrics` pattern.
    pub fn log_group_name(&self) -> (r: String)
        ensures
            r@ == (match self.config.service_name {
                Some(s) => s@,
                None => opt_or_unknown(self.config.service_name) + "-metrics"@,
            }),
    {
        match &self.config.service_name {
            Some(s) => s.clone(),
            None => self.name().concat("-metrics"),
        }
    }

    /// Injects the five identity fields as properties when the probe
    /// succeeded; a failed or missing probe injects nothing.
    pub fn configure(&self, context: &mut MetricContext)
        ensures
            final(context)@ == (MetricContextView {
                properties: assoc_upsert_all(old(context)@.properties, ec2_prop_entries(*self)),
                ..old(context)@
            }),
            ctx_wf(old(context)@) ==> ctx_wf(final(context)@),
    {
        let ghost p0 = context@.properties;
        let ghost entries = ec2_prop_entries(*self);
        if let Some(Ok(metadata)) = &self.metadata {
            context.set_property(
                String::from_str("imageId"),
                JsonValue::Str(metadata.image_id.clone()),
            );
            context.set_property(
                String::from_str("instanceId"),
                JsonValue::Str(metadata.instance_id.clone()),
            );
            context.set_property(
                String::from_str("instanceType"),
                JsonValue::Str(metadata.instance_type.clone()),
            );
            context.set_property(
                String::from_str("privateIP"),
                JsonValue::Str(metadata.private_ip.clone()),
            );
            context.set_property(
                String::from_str("availabilityZone"),
                JsonValue::Str(metadata.availability_zone.clone()),
            );
            proof {
                lemma_upsert_five(
                    p0,
                    entries[0],
                    entries[1],
                    entries[2],
                    entries[3],
                    entries[4],
                );
                assert(seq![entries[0], entries[1], entries[2], entries[3], entries[4]]
                    =~= entries);
            }
        } else {
            proof {
                assert(entries =~= Seq::<(Seq<char>, JsonVal)>::empty());
                assert(assoc_upsert_all(p0, entries) == p0);
                assert(final(context)@ =~= (MetricContextView {
                    properties: assoc_upsert_all(old(context)@.properties, entries),
                    ..old(context)@
                }));
            }
        }
    }
}

/// Five upserts in a row are the batch upsert of the five entries.
proof fn lemma_upsert_five<V>(
    m: Seq<(Seq<char>, V)>,
    x0: (Seq<char>, V),
    x1: (Seq<char>, V),
    x2: (Seq<char>, V),
    x3: (Seq<char>, V),
    x4: (Seq<char>, V),
)
    ensures
        assoc_upsert_all(m, seq![x0, x1, x2, x3, x4]) == assoc_upsert(
            assoc_upsert(
                assoc_upsert(
                    assoc_upsert(assoc_upsert(m, x0.0, x0.1), x1.0, x1.1),
                    x2.0,
                    x2.1,
                ),
                x3.0,
                x3.1,
            ),
            x4.0,
            x4.1,
        ),
{
    let s0 = Seq::<(Seq<char>, V)>::empty();
    lemma_assoc_upsert_all_push(m, s0, x0);
    lemma_assoc_upsert_all_push(m, s0.push(x0), x1);
    lemma_assoc_upsert_all_push(m, s0.push(x0).push(x1), x2);
    lemma_assoc_upsert_all_push(m, s0.push(x0).push(x1).push(x2), x3);
    lemma_assoc_upsert_all_push(m, s0.push(x0).push(x1).push(x2).push(x3), x4);
    assert(assoc_upsert_all(m, s0) == m);
    assert(s0.push(x0).push(x1).push(x2).push(x3).push(x4) =~= seq![x0, x1, x2, x3, x4]);
}

/// The fallback environment, shaped by process configuration alone.
pub struct VarsEnv {
    pub config: Config,
}

impl VarsEnv {
    /// The fallback probe always succeeds.
    pub fn probe(&self) -> (r: bool)
        ensures
            r == true,
    {
        true
    }

    /// The configured service name, or "Unknown".
    pub fn name(&self) -> (r: String)
        ensures
            r@ == opt_or_unknown(self.config.service_name),
    {
        clone_or_unknown(&self.config.service_name)
    }

    /// The configured service type, or "Unknown".
    pub fn env_type(&self) -> (r: String)
        ensures
            r@ == opt_or_unknown(self.config.service_type),
    {
        clone_or_unknown(&self.config.service_type)
    }

    /// The configured log group, or the `<name>-metrics` pattern.
    pub fn log_group_name(&self) -> (r: String)
        ensures
            r@ == (match self.config.log_group_name {
                Some(s) => s@,
                None => opt_or_unknown(self.config.service_name) + "-metrics"@,
            }),
    {
        match &self.config.log_group_name {
            Some(s) => s.clone(),
            None => self.name().concat("-metrics"),
        }
    }

    /// The fallback environment injects nothing.
    pub fn configure(&self, context: &mut MetricContext)
        ensures
            final(context)@ == old(context)@,
    {
    }
}

/// The active execution environment, a closed set of variants.
pub enum Environment {
    Lambda(LambdaEnv),
    Ec2(Ec2Env),
    Vars(VarsEnv),
}

/// The properties the active environment injects into a context.
pub open spec fn env_prop_entries(e: Environment) -> Seq<(Seq<char>, JsonVal)> {
    match e {
        Environment::Lambda(l) => lambda_prop_entries(l),
        Environment::Ec2(c) => ec2_prop_entries(c),
        Environment::Vars(_) => Seq::empty(),
    }
}

impl Environment {
    /// The display name of the active environment.
    pub fn name(&self) -> (r: String)
        ensures
            r@ == (match *self {
                Environment::Lambda(l) => opt_or_unknown(l.function_name),
                Environment::Ec2(c) => opt_or_unknown(c.config.service_name),
                Environment::Vars(v) => opt_or_unknown(v.config.service_name),
            }),
    {
        match self {
            Environment::Lambda(l) => l.name(),
            Environment::Ec2(c) => c.name(),
            Environment::Vars(v) => v.name(),
        }
    }

    /// The type tag of the active environment.
    pub fn env_type(&self) -> (r: String)
        ensures
            r@ == (match *self {
                Environment::Lambda(_) => "AWS::Lambda::Function"@,
                Environment::Ec2(c) => if c.metadata matches Some(Ok(_)) {
                    "AWS::EC2::Instance"@
                } else {
                    "Unknown"@
                },
                Environment::Vars(v) => opt_or_unknown(v.config.service_type),
            }),
    {
        match self {
            Environment::Lambda(l) => l.env_type(),
            Environment::Ec2(c) => c.env_type(),
            Environment::Vars(v) => v.env_type(),
        }
    }

    /// The log group the active environment delivers to.
    pub fn log_group_name(&self) -> (r: String)
        ensures
            r@ == (match *self {
                Environment::Lambda(l) => opt_or_unknown(l.function_name),
                Environment::Ec2(c) => match c.config.service_name {
                    Some(s) => s@,
                    None => opt_or_unknown(c.config.service_name) + "-metrics"@,
                },
                Environment::Vars(v) => match v.config.log_group_name {
                    Some(s) => s@,
                    None => opt_or_unknown(v.config.service_name) + "-metrics"@,
                },
            }),
    {
        match self {
            Environment::Lambda(l) => l.log_group_name(),
            Environment::Ec2(c) => c.log_group_name(),
            Environment::Vars(v) => v.log_group_name(),
        }
    }

    /// Lets the active environment annotate the context.
    pub fn configure(&self, context: &mut MetricContext)
        ensures
            final(context)@ == (MetricContextView {
                properties: assoc_upsert_all(old(context)@.properties, env_prop_entries(*self)),
                ..old(context)@
            }),
            ctx_wf(old(context)@) ==> ctx_wf(final(context)@),
    {
        match self {
            Environment::Lambda(l) => l.configure(context),
            Environment::Ec2(c) => c.configure(context),
            Environment::Vars(v) => {
                v.configure(context);
                proof {
                    assert(assoc_upsert_all(
                        old(context)@.properties,
                        Seq::<(Seq<char>, JsonVal)>::empty(),
                    ) == old(context)@.properties);
                    assert(final(context)@ =~= (MetricContextView {
                        properties: assoc_upsert_all(
                            old(context)@.properties,
                            env_prop_entries(*self),
                        ),
                        ..old(context)@
                    }));
                }
            },
        }
    }
}

/// Picks the active environment in the fixed priority order: the function
/// environment when its probe succeeds, then the instance environment when
/// its memoized probe succeeded, and the fallback otherwise.
pub fn detect(lambda: LambdaEnv, ec2: Ec2Env, config: Config) -> (r: Environment)
    requires
        lambda.function_name is None ==> ec2.metadata is Some,
    ensures
        lambda.function_name is Some ==> r == Environment::Lambda(lambda),
        lambda.function_name is None && (ec2.metadata matches Some(Ok(_))) ==> r
            == Environment::Ec2(ec2),
        lambda.function_name is None && !(ec2.metadata matches Some(Ok(_))) ==> r
            == Environment::Vars(VarsEnv { config }),
{
    if lambda.probe() {
        Environment::Lambda(lambda)
    } else if ec2.probe() {
        Environment::Ec2(ec2)
    } else {
        Environment::Vars(VarsEnv { config })
    }
}

} // verus!
