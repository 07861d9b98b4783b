//! The metric aggregation model: units, sample sequences, the metric
//! context collected during one logical scope, and the logger that owns it.

use vstd::prelude::*;
use vstd::string::StringExecFns;

use crate::assoc::{
    assoc_contains_key, assoc_get, assoc_upsert, assoc_upsert_all, entries_view,
    lemma_assoc_get_found, lemma_assoc_get_missing, lemma_assoc_upsert_all_push,
    lemma_assoc_upsert_all_unique, lemma_assoc_upsert_found, lemma_assoc_upsert_get,
    lemma_assoc_upsert_unique, unique_keys, upsert_entry,
};
use crate::json::{single_line, JsonVal, JsonValue};

verus! {

/// The namespace used when the caller never sets one.
pub const DEFAULT_NAMESPACE: &'static str = "aws-embedded-metrics";

/// Metric unit types, serialized exactly under the names given by
/// `unit_text`.
#[derive(Copy, Clone, Debug, PartialEq, Eq, Structural)]
pub enum Unit {
    Seconds,
    Microseconds,
    Milliseconds,
    Bytes,
    Kilobytes,
    Megabytes,
    Gigabytes,
    Terabytes,
    Bits,
    Kilobits,
    Megabits,
    Gigabits,
    Terabits,
    Percent,
    Count,
    BytesPerSecond,
    KilobytesPerSecond,
    MegabytesPerSecond,
    GigabytesPerSecond,
    TerabytesPerSecond,
    BitsPerSecond,
    KilobitsPerSecond,
    MegabitsPerSecond,
    GigabitsPerSecond,
    TerabitsPerSecond,
    CountPerSecond,
    NoUnit,
}

/// The wire-format name of each unit.
pub open spec fn unit_text(u: Unit) -> Seq<char> {
    match u {
        Unit::Seconds => "Seconds"@,
        Unit::Microseconds => "Microseconds"@,
        Unit::Milliseconds => "Milliseconds"@,
        Unit::Bytes => "Bytes"@,
        Unit::Kilobytes => "Kilobytes"@,
        Unit::Megabytes => "Megabytes"@,
        Unit::Gigabytes => "Gigabytes"@,
        Unit::Terabytes => "Terabytes"@,
        Unit::Bits => "Bits"@,
        Unit::Kilobits => "Kilobits"@,
        Unit::Megabits => "Megabits"@,
        Unit::Gigabits => "Gigabits"@,
        Unit::Terabits => "Terabits"@,
        Unit::Percent => "Percent"@,
        Unit::Count => "Count"@,
        Unit::BytesPerSecond => "Bytes/Second"@,
        Unit::KilobytesPerSecond => "Kilobytes/Second"@,
        Unit::MegabytesPerSecond => "Megabytes/Second"@,
        Unit::GigabytesPerSecond => "Gigabytes/Second"@,
        Unit::TerabytesPerSecond => "Terabytes/Second"@,
        Unit::BitsPerSecond => "Bits/Second"@,
        Unit::KilobitsPerSecond => "Kilobits/Second"@,
        Unit::MegabitsPerSecond => "Megabits/Second"@,
        Unit::GigabitsPerSecond => "Gigabits/Second"@,
        Unit::TerabitsPerSecond => "Terabits/Second"@,
        Unit::CountPerSecond => "Count/Second"@,
        Unit::NoUnit => "None"@,
    }
}

impl Unit {
    /// The wire-format name of this unit.
    pub fn as_str(&self) -> (r: &'static str)
        ensures
            r@ == unit_text(*self),
            single_line(r@),
    {
        proof {
            lemma_unit_text_single_line(*self);
        }
        match self {
            Unit::Seconds => "Seconds",
            Unit::Microseconds => "Microseconds",
            Unit::Milliseconds => "Milliseconds",
            Unit::Bytes => "Bytes",
            Unit::Kilobytes => "Kilobytes",
            Unit::Megabytes => "Megabytes",
            Unit::Gigabytes => "Gigabytes",
            Unit::Terabytes => "Terabytes",
            Unit::Bits => "Bits",
            Unit::Kilobits => "Kilobits",
            Unit::Megabits => "Megabits",
            Unit::Gigabits => "Gigabits",
            Unit::Terabits => "Terabits",
            Unit::Percent => "Percent",
            Unit::Count => "Count",
            Unit::BytesPerSecond => "Bytes/Second",
            Unit::KilobytesPerSecond => "Kilobytes/Second",
            Unit::MegabytesPerSecond => "Megabytes/Second",
            Unit::GigabytesPerSecond => "Gigabytes/Second",
            Unit::TerabytesPerSecond => "Terabytes/Second",
            Unit::BitsPerSecond => "Bits/Second",
            Unit::KilobitsPerSecond => "Kilobits/Second",
            Unit::MegabitsPerSecond => "Megabits/Second",
            Unit::GigabitsPerSecond => "Gigabits/Second",
            Unit::TerabitsPerSecond => "Terabits/Second",
            Unit::CountPerSecond => "Count/Second",
            Unit::NoUnit => "None",
        }
    }
}

impl Default for Unit {
    /// The default unit carries the wire-format name "None".
    fn default() -> (r: Unit)
        ensures
            r == Unit::NoUnit,
    {
        Unit::NoUnit
    }
}


/// Every unit's wire-format name stays on one line.
pub proof fn lemma_unit_text_single_line(u: Unit)
    ensures
        single_line(unit_text(u)),
{
    reveal_strlit("Seconds");
    reveal_strlit("Microseconds");
    reveal_strlit("Milliseconds");
    reveal_strlit("Bytes");
    reveal_strlit("Kilobytes");
    reveal_strlit("Megabytes");
    reveal_strlit("Gigabytes");
    reveal_strlit("Terabytes");
    reveal_strlit("Bits");
    reveal_strlit("Kilobits");
    reveal_strlit("Megabits");
    reveal_strlit("Gigabits");
    reveal_strlit("Terabits");
    reveal_strlit("Percent");
    reveal_strlit("Count");
    reveal_strlit("Bytes/Second");
    reveal_strlit("Kilobytes/Second");
    reveal_strlit("Megabytes/Second");
    reveal_strlit("Gigabytes/Second");
    reveal_strlit("Terabytes/Second");
    reveal_strlit("Bits/Second");
    reveal_strlit("Kilobits/Second");
    reveal_strlit("Megabits/Second");
    reveal_strlit("Gigabits/Second");
    reveal_strlit("Terabits/Second");
    reveal_strlit("Count/Second");
    reveal_strlit("None");
    assert(single_line("Seconds"@));
    assert(single_line("Microseconds"@));
    assert(single_line("Milliseconds"@));
    assert(single_line("Bytes"@));
    assert(single_line("Kilobytes"@));
    assert(single_line("Megabytes"@));
    assert(single_line("Gigabytes"@));
    assert(single_line("Terabytes"@));
    assert(single_line("Bits"@));
    assert(single_line("Kilobits"@));
    assert(single_line("Megabits"@));
    assert(single_line("Gigabits"@));
    assert(single_line("Terabits"@));
    assert(single_line("Percent"@));
    assert(single_line("Count"@));
    assert(single_line("Bytes/Second"@));
    assert(single_line("Kilobytes/Second"@));
    assert(single_line("Megabytes/Second"@));
    assert(single_line("Gigabytes/Second"@));
    assert(single_line("Terabytes/Second"@));
    assert(single_line("Bits/Second"@));
    assert(single_line("Kilobits/Second"@));
    assert(single_line("Megabits/Second"@));
    assert(single_line("Gigabits/Second"@));
    assert(single_line("Terabits/Second"@));
    assert(single_line("Count/Second"@));
    assert(single_line("None"@));
}

/// Distinct units never serialize to the same wire-format name, so the
/// enumeration and its string table round-trip.
pub proof fn lemma_unit_text_injective(u1: Unit, u2: Unit)
    requires
        unit_text(u1) == unit_text(u2),
    ensures
        u1 == u2,
{
    reveal_strlit("Seconds");
    reveal_strlit("Microseconds");
    reveal_strlit("Milliseconds");
    reveal_strlit("Bytes");
    reveal_strlit("Kilobytes");
    reveal_strlit("Megabytes");
    reveal_strlit("Gigabytes");
    reveal_strlit("Terabytes");
    reveal_strlit("Bits");
    reveal_strlit("Kilobits");
    reveal_strlit("Megabits");
    reveal_strlit("Gigabits");
    reveal_strlit("Terabits");
    reveal_strlit("Percent");
    reveal_strlit("Count");
    reveal_strlit("Bytes/Second");
    reveal_strlit("Kilobytes/Second");
    reveal_strlit("Megabytes/Second");
    reveal_strlit("Gigabytes/Second");
    reveal_strlit("Terabytes/Second");
    reveal_strlit("Bits/Second");
    reveal_strlit("Kilobits/Second");
    reveal_strlit("Megabits/Second");
    reveal_strlit("Gigabits/Second");
    reveal_strlit("Terabits/Second");
    reveal_strlit("Count/Second");
    reveal_strlit("None");
    assert("Seconds"@.len() == 7);
    assert("Seconds"@[0] == 'S');
    assert("Microseconds"@.len() == 12);
    assert("Microseconds"@[0] == 'M');
    assert("Milliseconds"@.len() == 12);
    assert("Milliseconds"@[0] == 'M');
    assert("Bytes"@.len() == 5);
    assert("Bytes"@[0] == 'B');
    assert("Kilobytes"@.len() == 9);
    assert("Kilobytes"@[0] == 'K');
    assert("Megabytes"@.len() == 9);
    assert("Megabytes"@[0] == 'M');
    assert("Gigabytes"@.len() == 9);
    assert("Gigabytes"@[0] == 'G');
    assert("Terabytes"@.len() == 9);
    assert("Terabytes"@[0] == 'T');
    assert("Bits"@.len() == 4);
    assert("Bits"@[0] == 'B');
    assert("Kilobits"@.len() == 8);
    assert("Kilobits"@[0] == 'K');
    assert("Megabits"@.len() == 8);
    assert("Megabits"@[0] == 'M');
    assert("Gigabits"@.len() == 8);
    assert("Gigabits"@[0] == 'G');
    assert("Terabits"@.len() == 8);
    assert("Terabits"@[0] == 'T');
    assert("Percent"@.len() == 7);
    assert("Percent"@[0] == 'P');
    assert("Count"@.len() == 5);
    assert("Count"@[0] == 'C');
    assert("Bytes/Second"@.len() == 12);
    assert("Bytes/Second"@[0] == 'B');
    assert("Kilobytes/Second"@.len() == 16);
    assert("Kilobytes/Second"@[0] == 'K');
    assert("Megabytes/Second"@.len() == 16);
    assert("Megabytes/Second"@[0] == 'M');
    assert("Gigabytes/Second"@.len() == 16);
    assert("Gigabytes/Second"@[0] == 'G');
    assert("Terabytes/Second"@.len() == 16);
    assert("Terabytes/Second"@[0] == 'T');
    assert("Bits/Second"@.len() == 11);
    assert("Bits/Second"@[0] == 'B');
    assert("Kilobits/Second"@.len() == 15);
    assert("Kilobits/Second"@[0] == 'K');
    assert("Megabits/Second"@.len() == 15);
    assert("Megabits/Second"@[0] == 'M');
    assert("Gigabits/Second"@.len() == 15);
    assert("Gigabits/Second"@[0] == 'G');
    assert("Terabits/Second"@.len() == 15);
    assert("Terabits/Second"@[0] == 'T');
    assert("Count/Second"@.len() == 12);
    assert("Count/Second"@[0] == 'C');
    assert("None"@.len() == 4);
    assert("None"@[0] == 'N');
    assert("Microseconds"@[2] == 'c');
    assert("Milliseconds"@[2] == 'l');
    match u1 {
        Unit::Seconds => {
            assert(u2 == Unit::Seconds);
        },
        Unit::Microseconds => {
            assert(u2 == Unit::Microseconds);
        },
        Unit::Milliseconds => {
            assert(u2 == Unit::Milliseconds);
        },
        Unit::Bytes => {
            assert(u2 == Unit::Bytes);
        },
        Unit::Kilobytes => {
            assert(u2 == Unit::Kilobytes);
        },
        Unit::Megabytes => {
            assert(u2 == Unit::Megabytes);
        },
        Unit::Gigabytes => {
            assert(u2 == Unit::Gigabytes);
        },
        Unit::Terabytes => {
            assert(u2 == Unit::Terabytes);
        },
        Unit::Bits => {
            assert(u2 == Unit::Bits);
        },
        Unit::Kilobits => {
            assert(u2 == Unit::Kilobits);
        },
        Unit::Megabits => {
            assert(u2 == Unit::Megabits);
        },
        Unit::Gigabits => {
            assert(u2 == Unit::Gigabits);
        },
        Unit::Terabits => {
            assert(u2 == Unit::Terabits);
        },
        Unit::Percent => {
            assert(u2 == Unit::Percent);
        },
        Unit::Count => {
            assert(u2 == Unit::Count);
        },
        Unit::BytesPerSecond => {
            assert(u2 == Unit::BytesPerSecond);
        },
        Unit::KilobytesPerSecond => {
            assert(u2 == Unit::KilobytesPerSecond);
        },
        Unit::MegabytesPerSecond => {
            assert(u2 == Unit::MegabytesPerSecond);
        },
        Unit::GigabytesPerSecond => {
            assert(u2 == Unit::GigabytesPerSecond);
        },
        Unit::TerabytesPerSecond => {
            assert(u2 == Unit::TerabytesPerSecond);
        },
        Unit::BitsPerSecond => {
            assert(u2 == Unit::BitsPerSecond);
        },
        Unit::KilobitsPerSecond => {
            assert(u2 == Unit::KilobitsPerSecond);
        },
        Unit::MegabitsPerSecond => {
            assert(u2 == Unit::MegabitsPerSecond);
        },
        Unit::GigabitsPerSecond => {
            assert(u2 == Unit::GigabitsPerSecond);
        },
        Unit::TerabitsPerSecond => {
            assert(u2 == Unit::TerabitsPerSecond);
        },
        Unit::CountPerSecond => {
            assert(u2 == Unit::CountPerSecond);
        },
        Unit::NoUnit => {
            assert(u2 == Unit::NoUnit);
        },
    }
}

/// The ordered samples recorded under one metric name, with the unit fixed
/// when the entry was created.
pub struct MetricValues {
    values: Vec<i64>,
    unit: Unit,
}

/// The mathematical shape of a `MetricValues`.
pub ghost struct MetricValuesView {
    pub values: Seq<int>,
    pub unit: Unit,
}

impl View for MetricValues {
    type V = MetricValuesView;

    closed spec fn view(&self) -> MetricValuesView {
        MetricValuesView { values: self.values@.map_values(|v: i64| v as int), unit: self.unit }
    }
}

impl MetricValues {
    /// A fresh entry with no samples and the given unit.
    pub fn new(unit: Unit) -> (r: MetricValues)
        ensures
            r@.values == Seq::<int>::empty(),
            r@.unit == unit,
    {
        let r = MetricValues { values: Vec::new(), unit };
        proof {
            assert(r@.values =~= Seq::<int>::empty());
        }
        r
    }

    /// Appends one sample; the unit never changes.
    pub fn add(&mut self, value: i64)
        ensures
            final(self)@.values == old(self)@.values.push(value as int),
            final(self)@.unit == old(self)@.unit,
    {
        self.values.push(value);
        proof {
            assert(self@.values =~= old(self)@.values.push(value as int));
        }
    }

    /// The recorded samples, in insertion order.
    pub fn values(&self) -> (r: &Vec<i64>)
        ensures
            r@.map_values(|v: i64| v as int) == self@.values,
    {
        &self.values
    }

    /// The unit fixed at creation of this entry.
    pub fn unit(&self) -> (r: Unit)
        ensures
            r == self@.unit,
    {
        self.unit
    }
}

/// The mutable aggregation model for one logical scope: a namespace,
/// system metadata, caller properties, dimension sets and metric samples.
pub struct MetricContext {
    namespace: String,
    meta: Vec<(String, JsonValue)>,
    properties: Vec<(String, JsonValue)>,
    dimensions: Vec<Vec<(String, String)>>,
    metrics: Vec<(String, MetricValues)>,
}

/// The mathematical shape of a `MetricContext`.
pub ghost struct MetricContextView {
    pub namespace: Seq<char>,
    pub meta: Seq<(Seq<char>, JsonVal)>,
    pub properties: Seq<(Seq<char>, JsonVal)>,
    pub dimensions: Seq<Seq<(Seq<char>, Seq<char>)>>,
    pub metrics: Seq<(Seq<char>, MetricValuesView)>,
}

impl View for MetricContext {
    type V = MetricContextView;

    closed spec fn view(&self) -> MetricContextView {
        MetricContextView {
            namespace: self.namespace@,
            meta: entries_view(self.meta@),
            properties: entries_view(self.properties@),
            dimensions: self.dimensions@.map_values(|s: Vec<(String, String)>| entries_view(s@)),
            metrics: entries_view(self.metrics@),
        }
    }
}

/// Every key-value collection of the context has unique keys.
pub open spec fn ctx_wf(c: MetricContextView) -> bool {
    &&& unique_keys(c.meta)
    &&& unique_keys(c.properties)
    &&& unique_keys(c.metrics)
    &&& forall|i: int| 0 <= i < c.dimensions.len() ==> unique_keys(#[trigger] c.dimensions[i])
}

/// The metric table after recording one sample: a new name gets a fresh
/// entry holding the given unit; an existing name keeps its position and
/// unit and has the sample appended.
pub open spec fn spec_put_metric(
    ms: Seq<(Seq<char>, MetricValuesView)>,
    name: Seq<char>,
    value: int,
    unit: Unit,
) -> Seq<(Seq<char>, MetricValuesView)> {
    match assoc_get(ms, name) {
        Some(mv) => assoc_upsert(
            ms,
            name,
            MetricValuesView { values: mv.values.push(value), unit: mv.unit },
        ),
        None => ms.push((name, MetricValuesView { values: seq![value], unit })),
    }
}

impl MetricContext {
    /// A fresh context: the default namespace and empty collections.
    pub fn new() -> (r: MetricContext)
        ensures
            r@.namespace == DEFAULT_NAMESPACE@,
            r@.meta == Seq::<(Seq<char>, JsonVal)>::empty(),
            r@.properties == Seq::<(Seq<char>, JsonVal)>::empty(),
            r@.dimensions == Seq::<Seq<(Seq<char>, Seq<char>)>>::empty(),
            r@.metrics == Seq::<(Seq<char>, MetricValuesView)>::empty(),
            ctx_wf(r@),
    {
        let r = MetricContext {
            namespace: String::from_str(DEFAULT_NAMESPACE),
            meta: Vec::new(),
            properties: Vec::new(),
            dimensions: Vec::new(),
            metrics: Vec::new(),
        };
        proof {
            assert(r@.meta =~= Seq::<(Seq<char>, JsonVal)>::empty());
            assert(r@.properties =~= Seq::<(Seq<char>, JsonVal)>::empty());
            assert(r@.dimensions =~= Seq::<Seq<(Seq<char>, Seq<char>)>>::empty());
            assert(r@.metrics =~= Seq::<(Seq<char>, MetricValuesView)>::empty());
        }
        r
    }

    /// Replaces the namespace unconditionally.
    pub fn set_namespace(&mut self, namespace: String)
        ensures
            final(self)@ == (MetricContextView { namespace: namespace@, ..old(self)@ }),
    {
        self.namespace = namespace;
    }

    /// Upserts a caller property: a new key is appended, an existing key
    /// keeps its position and takes the new value.
    pub fn set_property(&mut self, name: String, value: JsonValue)
        ensures
            final(self)@ == (MetricContextView {
                properties: assoc_upsert(old(self)@.properties, name@, value@),
                ..old(self)@
            }),
            ctx_wf(old(self)@) ==> ctx_wf(final(self)@),
    {
        proof {
            lemma_assoc_upsert_unique_conditional(entries_view(self.properties@), name@, value@);
        }
        upsert_entry(&mut self.properties, name, value);
    }

    /// Upserts a system metadata entry (a timestamp, a log-group name).
    pub fn set_meta(&mut self, name: String, value: JsonValue)
        ensures
            final(self)@ == (MetricContextView {
                meta: assoc_upsert(old(self)@.meta, name@, value@),
                ..old(self)@
            }),
            ctx_wf(old(self)@) ==> ctx_wf(final(self)@),
    {
        proof {
            lemma_assoc_upsert_unique_conditional(entries_view(self.meta@), name@, value@);
        }
        upsert_entry(&mut self.meta, name, value);
    }

    /// Appends one more dimension set. The pairs are collapsed into a
    /// mapping first: a repeated key keeps its first position and takes its
    /// last value, as inserting them one by one into a map would.
    pub fn put_dimensions(&mut self, dims: Vec<(String, String)>)
        ensures
            final(self)@ == (MetricContextView {
                dimensions: old(self)@.dimensions.push(
                    assoc_upsert_all(
                        Seq::<(Seq<char>, Seq<char>)>::empty(),
                        entries_view(dims@),
                    ),
                ),
                ..old(self)@
            }),
            ctx_wf(old(self)@) ==> ctx_wf(final(self)@),
    {
        let ghost all = entries_view(dims@);
        let mut set: Vec<(String, String)> = Vec::new();
        proof {
            assert(entries_view(set@) =~= Seq::<(Seq<char>, Seq<char>)>::empty());
            assert(all.take(0) =~= Seq::<(Seq<char>, Seq<char>)>::empty());
        }
        let n = dims.len();
        let mut i: usize = 0;
        while i < n
            invariant
                0 <= i <= n,
                n == dims.len(),
                all == entries_view(dims@),
                all.len() == n,
                entries_view(set@) == assoc_upsert_all(
                    Seq::<(Seq<char>, Seq<char>)>::empty(),
                    all.take(i as int),
                ),
            decreases n - i,
        {
            let k = dims[i].0.clone();
            let v = dims[i].1.clone();
            proof {
                assert(all[i as int] == (dims@[i as int].0@, dims@[i as int].1@));
            }
            let ghost before = entries_view(set@);
            upsert_entry(&mut set, k, v);
            proof {
                lemma_assoc_upsert_all_push(
                    Seq::<(Seq<char>, Seq<char>)>::empty(),
                    all.take(i as int),
                    all[i as int],
                );
                assert(all.take(i as int).push(all[i as int]) =~= all.take(i as int + 1));
            }
            i = i + 1;
        }
        proof {
            assert(all.take(n as int) =~= all);
            lemma_assoc_upsert_all_unique(Seq::<(Seq<char>, Seq<char>)>::empty(), all);
        }
        let ghost old_dims = self@.dimensions;
        self.dimensions.push(set);
        proof {
            assert(self@.dimensions =~= old_dims.push(
                assoc_upsert_all(Seq::<(Seq<char>, Seq<char>)>::empty(), all),
            ));
            assert(final(self)@ =~= (MetricContextView {
                dimensions: old(self)@.dimensions.push(
                    assoc_upsert_all(Seq::<(Seq<char>, Seq<char>)>::empty(), all),
                ),
                ..old(self)@
            }));
        }
    }

    /// Records one sample. A new name creates an entry with the given unit
    /// and a one-element sample sequence; an existing name has the sample
    /// appended and the unit argument ignored (the first unit wins).
    pub fn put_metric(&mut self, name: String, value: i64, unit: Unit)
        ensures
            final(self)@ == (MetricContextView {
                metrics: spec_put_metric(old(self)@.metrics, name@, value as int, unit),
                ..old(self)@
            }),
            ctx_wf(old(self)@) ==> ctx_wf(final(self)@),
    {
        let ghost orig = entries_view(self.metrics@);
        let n = self.metrics.len();
        let mut i: usize = 0;
        while i < n
            invariant
                0 <= i <= n,
                n == self.metrics.len(),
                *self == *old(self),
                orig == entries_view(old(self).metrics@),
                orig.len() == n,
                forall|j: int| 0 <= j < i ==> orig[j].0 != name@,
            decreases n - i,
        {
            if self.metrics[i].0 == name {
                proof {
                    assert(orig[i as int] == (self.metrics@[i as int].0@, self.metrics@[i as int].1@));
                    lemma_assoc_get_found(orig, name@, i as int);
                }
                let mut entry = self.metrics.remove(i);
                let ghost mv = entry.1@;
                entry.1.add(value);
                self.metrics.insert(i, entry);
                proof {
                    let newmv = MetricValuesView { values: mv.values.push(value as int), unit: mv.unit };
                    lemma_assoc_upsert_found(orig, name@, newmv, i as int);
                    assert(self.metrics@ =~= old(self).metrics@.update(
                        i as int,
                        self.metrics@[i as int],
                    ));
                    assert(entries_view(self.metrics@) =~= orig.update(i as int, (name@, newmv)));
                    lemma_assoc_upsert_unique_conditional(orig, name@, newmv);
                    assert(final(self)@ =~= (MetricContextView {
                        metrics: spec_put_metric(old(self)@.metrics, name@, value as int, unit),
                        ..old(self)@
                    }));
                }
                return;
            }
            proof {
                assert(orig[i as int].0 == self.metrics@[i as int].0@);
            }
            i = i + 1;
        }
        let mut entry = MetricValues::new(unit);
        entry.add(value);
        self.metrics.push((name, entry));
        proof {
            lemma_assoc_get_missing(orig, name@);
            assert(entry@.values =~= seq![value as int]);
            assert(entries_view(self.metrics@) =~= orig.push((name@, entry@)));
            assert(final(self)@ =~= (MetricContextView {
                metrics: spec_put_metric(old(self)@.metrics, name@, value as int, unit),
                ..old(self)@
            }));
        }
    }

    /// The current namespace.
    pub fn namespace(&self) -> (r: &String)
        ensures
            r@ == self@.namespace,
    {
        &self.namespace
    }

    /// How many dimension sets have been recorded.
    pub fn dimension_count(&self) -> (r: usize)
        ensures
            r == self@.dimensions.len(),
    {
        self.dimensions.len()
    }

    /// How many distinct metric names have been recorded.
    pub fn metric_count(&self) -> (r: usize)
        ensures
            r == self@.metrics.len(),
    {
        self.metrics.len()
    }

    /// How many properties have been recorded.
    pub fn property_count(&self) -> (r: usize)
        ensures
            r == self@.properties.len(),
    {
        self.properties.len()
    }

    /// How many metadata entries have been recorded.
    pub fn meta_count(&self) -> (r: usize)
        ensures
            r == self@.meta.len(),
    {
        self.meta.len()
    }

    /// Takes the context apart for serialization.
    pub fn into_parts(self) -> (r: (
        String,
        Vec<(String, JsonValue)>,
        Vec<(String, JsonValue)>,
        Vec<Vec<(String, String)>>,
        Vec<(String, MetricValues)>,
    ))
        ensures
            r.0@ == self@.namespace,
            entries_view(r.1@) == self@.meta,
            entries_view(r.2@) == self@.properties,
            r.3@.map_values(|s: Vec<(String, String)>| entries_view(s@)) == self@.dimensions,
            entries_view(r.4@) == self@.metrics,
    {
        let MetricContext { namespace, meta, properties, dimensions, metrics } = self;
        (namespace, meta, properties, dimensions, metrics)
    }
}

impl Default for MetricContext {
    /// Same as `MetricContext::new`.
    fn default() -> (r: MetricContext)
        ensures
            r@.namespace == DEFAULT_NAMESPACE@,
            r@.meta == Seq::<(Seq<char>, JsonVal)>::empty(),
            r@.properties == Seq::<(Seq<char>, JsonVal)>::empty(),
            r@.dimensions == Seq::<Seq<(Seq<char>, Seq<char>)>>::empty(),
            r@.metrics == Seq::<(Seq<char>, MetricValuesView)>::empty(),
            ctx_wf(r@),
    {
        MetricContext::new()
    }
}

/// An upsert into a collection with unique keys keeps the keys unique;
/// stated conditionally so callers need not establish uniqueness first.
proof fn lemma_assoc_upsert_unique_conditional<V>(m: Seq<(Seq<char>, V)>, k: Seq<char>, v: V)
    ensures
        unique_keys(m) ==> unique_keys(assoc_upsert(m, k, v)),
{
    if unique_keys(m) {
        lemma_assoc_upsert_unique(m, k, v);
    }
}

/// Accumulates metric data for one scope and hands its context over for
/// exactly one flush.
pub struct MetricLogger {
    context: MetricContext,
    flushed: bool,
}

/// The mathematical shape of a `MetricLogger`.
pub ghost struct MetricLoggerView {
    pub context: MetricContextView,
    pub flushed: bool,
}

impl View for MetricLogger {
    type V = MetricLoggerView;

    closed spec fn view(&self) -> MetricLoggerView {
        MetricLoggerView { context: self.context@, flushed: self.flushed }
    }
}

impl MetricLogger {
    /// A fresh logger around a fresh context, not yet flushed.
    pub fn new() -> (r: MetricLogger)
        ensures
            r@.context.namespace == DEFAULT_NAMESPACE@,
            r@.context.meta == Seq::<(Seq<char>, JsonVal)>::empty(),
            r@.context.properties == Seq::<(Seq<char>, JsonVal)>::empty(),
            r@.context.dimensions == Seq::<Seq<(Seq<char>, Seq<char>)>>::empty(),
            r@.context.metrics == Seq::<(Seq<char>, MetricValuesView)>::empty(),
            ctx_wf(r@.context),
            !r@.flushed,
    {
        MetricLogger { context: MetricContext::new(), flushed: false }
    }

    /// Replaces the namespace of the owned context.
    pub fn set_namespace(&mut self, ns: String)
        ensures
            final(self)@ == (MetricLoggerView {
                context: (MetricContextView { namespace: ns@, ..old(self)@.context }),
                ..old(self)@
            }),
    {
        self.context.set_namespace(ns);
    }

    /// Upserts a property on the owned context.
    pub fn set_property(&mut self, name: String, value: JsonValue)
        ensures
            final(self)@ == (MetricLoggerView {
                context: (MetricContextView {
                    properties: assoc_upsert(old(self)@.context.properties, name@, value@),
                    ..old(self)@.context
                }),
                ..old(self)@
            }),
            ctx_wf(old(self)@.context) ==> ctx_wf(final(self)@.context),
    {
        self.context.set_property(name, value);
    }

    /// Appends a dimension set to the owned context.
    pub fn put_dimensions(&mut self, dims: Vec<(String, String)>)
        ensures
            final(self)@ == (MetricLoggerView {
                context: (MetricContextView {
                    dimensions: old(self)@.context.dimensions.push(
                        assoc_upsert_all(
                            Seq::<(Seq<char>, Seq<char>)>::empty(),
                            entries_view(dims@),
                        ),
                    ),
                    ..old(self)@.context
                }),
                ..old(self)@
            }),
            ctx_wf(old(self)@.context) ==> ctx_wf(final(self)@.context),
    {
        self.context.put_dimensions(dims);
    }

    /// Records one sample on the owned context.
    pub fn put_metric(&mut self, name: String, value: i64, unit: Unit)
        ensures
            final(self)@ == (MetricLoggerView {
                context: (MetricContextView {
                    metrics: spec_put_metric(
                        old(self)@.context.metrics,
                        name@,
                        value as int,
                        unit,
                    ),
                    ..old(self)@.context
                }),
                ..old(self)@
            }),
            ctx_wf(old(self)@.context) ==> ctx_wf(final(self)@.context),
    {
        self.context.put_metric(name, value, unit);
    }

    /// Hands the context over for delivery, exactly once: the first call
    /// returns it and marks the logger flushed; later calls return nothing,
    /// so a scope-exit flush after an explicit flush cannot double-deliver.
    pub fn take_for_flush(&mut self) -> (r: Option<MetricContext>)
        ensures
            old(self)@.flushed ==> r is None && final(self)@ == old(self)@,
            !old(self)@.flushed ==> final(self)@.flushed && (r matches Some(c) && c@ == old(
                self,
            )@.context),
    {
        if self.flushed {
            None
        } else {
            self.flushed = true;
            let mut taken = MetricContext::new();
            std::mem::swap(&mut taken, &mut self.context);
            Some(taken)
        }
    }
}

impl Default for MetricLogger {
    /// Same as `MetricLogger::new`.
    fn default() -> (r: MetricLogger)
        ensures
            r@.context.namespace == DEFAULT_NAMESPACE@,
            r@.context.meta == Seq::<(Seq<char>, JsonVal)>::empty(),
            r@.context.properties == Seq::<(Seq<char>, JsonVal)>::empty(),
            r@.context.dimensions == Seq::<Seq<(Seq<char>, Seq<char>)>>::empty(),
            r@.context.metrics == Seq::<(Seq<char>, MetricValuesView)>::empty(),
            ctx_wf(r@.context),
            !r@.flushed,
    {
        MetricLogger::new()
    }
}

/// Recording twice under one fresh name accumulates both samples, in
/// order, under that name, and the unit of the first call wins.
pub proof fn lemma_put_metric_twice(
    ms: Seq<(Seq<char>, MetricValuesView)>,
    name: Seq<char>,
    v1: int,
    u1: Unit,
    v2: int,
    u2: Unit,
)
    requires
        !assoc_contains_key(ms, name),
    ensures
        assoc_get(spec_put_metric(spec_put_metric(ms, name, v1, u1), name, v2, u2), name)
            == Some(MetricValuesView { values: seq![v1, v2], unit: u1 }),
{
    assert(forall|j: int| 0 <= j < ms.len() ==> ms[j].0 != name);
    lemma_assoc_get_missing(ms, name);
    let once = ms.push((name, MetricValuesView { values: seq![v1], unit: u1 }));
    assert(spec_put_metric(ms, name, v1, u1) == once);
    lemma_assoc_get_found(once, name, ms.len() as int);
    assert(assoc_get(once, name) == Some(MetricValuesView { values: seq![v1], unit: u1 }));
    let newmv = MetricValuesView { values: seq![v1].push(v2), unit: u1 };
    assert(spec_put_metric(once, name, v2, u2) == assoc_upsert(once, name, newmv));
    lemma_assoc_upsert_get(once, name, newmv, name);
    assert(seq![v1].push(v2) =~= seq![v1, v2]);
}

} // verus!
