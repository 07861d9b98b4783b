//! The deterministic serializer: renders a completed metric context as one
//! single-line JSON document in the embedded-metrics wire format.
//!
//! The reserved `_aws` key holds the metrics definition (namespace, the key
//! lists of the dimension sets, and one name/unit descriptor per metric)
//! together with the flattened metadata entries. Every dimension value,
//! property and metric value is flattened into sibling top-level keys, in
//! that merge order, so a later contributor wins a key collision.

use vstd::prelude::*;
use vstd::string::StringExecFns;

use crate::assoc::{
    assoc_contains_key, assoc_get, assoc_get_last, assoc_upsert_all, entries_view,
    lemma_assoc_get_last_at, lemma_assoc_get_last_missing, lemma_assoc_upsert_all_contains,
    lemma_assoc_upsert_all_get, lemma_assoc_upsert_all_push, unique_keys,
};
use crate::json::{
    json_quote, json_string_lit, lemma_json_literals_single_line, lemma_single_line_concat,
    render_json, single_line, spec_json, JsonVal, JsonValue,
};
use crate::log::{
    lemma_unit_text_single_line, unit_text, MetricContext, MetricContextView, MetricValues,
    MetricValuesView, Unit,
};

verus! {

broadcast use lemma_single_line_concat;

/// Each dimension set lists at most this many dimension names.
pub const MAX_DIMENSIONS: usize = 9;

/// The key list that a dimension set contributes to the `Dimensions`
/// array: its first nine keys, in stored order.
pub open spec fn dim_set_keys(set: Seq<(Seq<char>, Seq<char>)>) -> Seq<Seq<char>> {
    if set.len() <= MAX_DIMENSIONS {
        set.map_values(|p: (Seq<char>, Seq<char>)| p.0)
    } else {
        set.take(MAX_DIMENSIONS as int).map_values(|p: (Seq<char>, Seq<char>)| p.0)
    }
}

/// Comma-joined JSON string literals.
pub open spec fn keys_json(keys: Seq<Seq<char>>) -> Seq<char>
    decreases keys.len(),
{
    if keys.len() == 0 {
        Seq::empty()
    } else if keys.len() == 1 {
        json_string_lit(keys[0])
    } else {
        keys_json(keys.drop_last()) + ","@ + json_string_lit(keys.last())
    }
}

/// One dimension set's entry in the `Dimensions` array.
pub open spec fn dim_set_json(set: Seq<(Seq<char>, Seq<char>)>) -> Seq<char> {
    "["@ + keys_json(dim_set_keys(set)) + "]"@
}

/// The comma-joined entries of the `Dimensions` array.
pub open spec fn dim_sets_json(sets: Seq<Seq<(Seq<char>, Seq<char>)>>) -> Seq<char>
    decreases sets.len(),
{
    if sets.len() == 0 {
        Seq::empty()
    } else if sets.len() == 1 {
        dim_set_json(sets[0])
    } else {
        dim_sets_json(sets.drop_last()) + ","@ + dim_set_json(sets.last())
    }
}

/// One metric's name/unit descriptor in the `Metrics` array.
pub open spec fn metric_def_json(name: Seq<char>, unit: Unit) -> Seq<char> {
    "{\"Name\":"@ + json_string_lit(name) + ",\"Unit\":\""@ + unit_text(unit) + "\"}"@
}

/// The comma-joined descriptors of the `Metrics` array.
pub open spec fn metric_defs_json(ms: Seq<(Seq<char>, MetricValuesView)>) -> Seq<char>
    decreases ms.len(),
{
    if ms.len() == 0 {
        Seq::empty()
    } else if ms.len() == 1 {
        metric_def_json(ms[0].0, ms[0].1.unit)
    } else {
        metric_defs_json(ms.drop_last()) + ","@ + metric_def_json(ms.last().0, ms.last().1.unit)
    }
}

/// The `,"key":value` renderings of a list of entries, each with its
/// leading comma (something always precedes them in the enclosing object).
pub open spec fn entries_json_tail(m: Seq<(Seq<char>, JsonVal)>) -> Seq<char>
    decreases m.len(),
{
    if m.len() == 0 {
        Seq::empty()
    } else {
        entries_json_tail(m.drop_last()) + ","@ + json_string_lit(m.last().0) + ":"@ + spec_json(
            m.last().1,
        )
    }
}

/// A dimension set's pairs as target-value entries.
pub open spec fn dim_entries(set: Seq<(Seq<char>, Seq<char>)>) -> Seq<(Seq<char>, JsonVal)> {
    set.map_values(|p: (Seq<char>, Seq<char>)| (p.0, JsonVal::Str(p.1)))
}

/// All dimension sets flattened into one target-value list, set by set, so
/// a later set wins a key collision.
pub open spec fn flatten_dim_sets(sets: Seq<Seq<(Seq<char>, Seq<char>)>>) -> Seq<
    (Seq<char>, JsonVal),
>
    decreases sets.len(),
{
    if sets.len() == 0 {
        Seq::empty()
    } else {
        assoc_upsert_all(flatten_dim_sets(sets.drop_last()), dim_entries(sets.last()))
    }
}

/// A metric's target value: a single sample is written as a bare scalar,
/// anything else as the ordered array of samples.
pub open spec fn metric_target_val(values: Seq<int>) -> JsonVal {
    if values.len() == 1 {
        JsonVal::Int(values[0])
    } else {
        JsonVal::Arr(values.map_values(|v: int| JsonVal::Int(v)))
    }
}

/// The metric table as target-value entries.
pub open spec fn metric_entries(ms: Seq<(Seq<char>, MetricValuesView)>) -> Seq<
    (Seq<char>, JsonVal),
> {
    ms.map_values(|p: (Seq<char>, MetricValuesView)| (p.0, metric_target_val(p.1.values)))
}

/// The flat target-value list of a context: dimension values first, then
/// properties, then metric values, each contributor overriding the last on
/// a key collision.
pub open spec fn spec_targets(c: MetricContextView) -> Seq<(Seq<char>, JsonVal)> {
    assoc_upsert_all(
        assoc_upsert_all(flatten_dim_sets(c.dimensions), c.properties),
        metric_entries(c.metrics),
    )
}

/// The complete wire-format document for a context.
pub open spec fn spec_serialize(c: MetricContextView) -> Seq<char> {
    "{\"_aws\":{\"CloudWatchMetrics\":[{\"Namespace\":"@ + json_string_lit(c.namespace)
        + ",\"Dimensions\":["@ + dim_sets_json(c.dimensions) + "],\"Metrics\":["@
        + metric_defs_json(c.metrics) + "]}]"@ + entries_json_tail(c.meta) + "}"@
        + entries_json_tail(spec_targets(c)) + "}"@
}

/// Extending a comma-joined key list by one more key.
proof fn lemma_keys_json_step(keys: Seq<Seq<char>>, i: int)
    requires
        0 <= i < keys.len(),
    ensures
        i == 0 ==> keys_json(keys.take(1)) == json_string_lit(keys[0]),
        i > 0 ==> keys_json(keys.take(i + 1)) == keys_json(keys.take(i)) + ","@
            + json_string_lit(keys[i]),
{
    let t = keys.take(i + 1);
    if i == 0 {
        assert(t[0] == keys[0]);
    } else {
        assert(t.drop_last() =~= keys.take(i));
        assert(t.last() == keys[i]);
    }
}

/// Extending the joined `Dimensions` array by one more set.
proof fn lemma_dim_sets_json_step(sets: Seq<Seq<(Seq<char>, Seq<char>)>>, i: int)
    requires
        0 <= i < sets.len(),
    ensures
        i == 0 ==> dim_sets_json(sets.take(1)) == dim_set_json(sets[0]),
        i > 0 ==> dim_sets_json(sets.take(i + 1)) == dim_sets_json(sets.take(i)) + ","@
            + dim_set_json(sets[i]),
{
    let t = sets.take(i + 1);
    if i == 0 {
        assert(t[0] == sets[0]);
    } else {
        assert(t.drop_last() =~= sets.take(i));
        assert(t.last() == sets[i]);
    }
}

/// Extending the joined `Metrics` array by one more descriptor.
proof fn lemma_metric_defs_json_step(ms: Seq<(Seq<char>, MetricValuesView)>, i: int)
    requires
        0 <= i < ms.len(),
    ensures
        i == 0 ==> metric_defs_json(ms.take(1)) == metric_def_json(ms[0].0, ms[0].1.unit),
        i > 0 ==> metric_defs_json(ms.take(i + 1)) == metric_defs_json(ms.take(i)) + ","@
            + metric_def_json(ms[i].0, ms[i].1.unit),
{
    let t = ms.take(i + 1);
    if i == 0 {
        assert(t[0] == ms[0]);
    } else {
        assert(t.drop_last() =~= ms.take(i));
        assert(t.last() == ms[i]);
    }
}

/// Extending a rendered entry tail by one more entry.
proof fn lemma_entries_json_tail_step(m: Seq<(Seq<char>, JsonVal)>, i: int)
    requires
        0 <= i < m.len(),
    ensures
        entries_json_tail(m.take(i + 1)) == entries_json_tail(m.take(i)) + ","@
            + json_string_lit(m[i].0) + ":"@ + spec_json(m[i].1),
{
    let t = m.take(i + 1);
    assert(t.drop_last() =~= m.take(i));
    assert(t.last() == m[i]);
}

/// Extending the flattened dimension values by one more set.
proof fn lemma_flatten_dim_sets_step(sets: Seq<Seq<(Seq<char>, Seq<char>)>>, i: int)
    requires
        0 <= i < sets.len(),
    ensures
        flatten_dim_sets(sets.take(i + 1)) == assoc_upsert_all(
            flatten_dim_sets(sets.take(i)),
            dim_entries(sets[i]),
        ),
{
    let t = sets.take(i + 1);
    assert(t.drop_last() =~= sets.take(i));
    assert(t.last() == sets[i]);
}

/// A metric's samples land in the target values under the metric's own
/// name: one sample as the bare scalar, two or more as the ordered array.
/// Metrics are the last contributor, so nothing overrides them.
pub proof fn lemma_metric_value_in_targets(c: MetricContextView, i: int)
    requires
        unique_keys(c.metrics),
        0 <= i < c.metrics.len(),
    ensures
        assoc_get(spec_targets(c), c.metrics[i].0) == Some(
            metric_target_val(c.metrics[i].1.values),
        ),
        c.metrics[i].1.values.len() == 1 ==> assoc_get(spec_targets(c), c.metrics[i].0) == Some(
            JsonVal::Int(c.metrics[i].1.values[0]),
        ),
        c.metrics[i].1.values.len() != 1 ==> assoc_get(spec_targets(c), c.metrics[i].0) == Some(
            JsonVal::Arr(c.metrics[i].1.values.map_values(|v: int| JsonVal::Int(v))),
        ),
{
    let key = c.metrics[i].0;
    let mviews = metric_entries(c.metrics);
    assert(mviews[i] == (key, metric_target_val(c.metrics[i].1.values)));
    assert forall|p: int, q: int| 0 <= p < q < mviews.len() implies mviews[p].0 != mviews[q].0 by {
        assert(mviews[p].0 == c.metrics[p].0);
        assert(mviews[q].0 == c.metrics[q].0);
    }
    lemma_assoc_get_last_at(mviews, i);
    lemma_assoc_upsert_all_get(
        assoc_upsert_all(flatten_dim_sets(c.dimensions), c.properties),
        mviews,
        key,
    );
}

/// A dimension set's `Dimensions` entry lists only its first nine keys, in
/// stored order, while all of its key-value pairs land in the flattened
/// target values.
pub proof fn lemma_dimension_set_truncation(set: Seq<(Seq<char>, Seq<char>)>, j: int)
    requires
        unique_keys(set),
        0 <= j < set.len(),
    ensures
        dim_set_keys(set).len() == (if set.len() <= MAX_DIMENSIONS {
            set.len()
        } else {
            MAX_DIMENSIONS as nat
        }),
        forall|p: int| 0 <= p < dim_set_keys(set).len() ==> #[trigger] dim_set_keys(set)[p]
            == set[p].0,
        assoc_get(flatten_dim_sets(seq![set]), set[j].0) == Some(JsonVal::Str(set[j].1)),
{
    assert(seq![set].drop_last() =~= Seq::<Seq<(Seq<char>, Seq<char>)>>::empty());
    assert(flatten_dim_sets(seq![set]) == assoc_upsert_all(
        flatten_dim_sets(Seq::empty()),
        dim_entries(seq![set].last()),
    ));
    assert(seq![set].last() == set);
    lemma_dim_entries_lookup(set, j);
    lemma_assoc_upsert_all_get(Seq::empty(), dim_entries(set), set[j].0);
}

/// In a dimension set with unique keys, each pair's key looks up exactly
/// its value among the set's target-value entries.
proof fn lemma_dim_entries_lookup(set: Seq<(Seq<char>, Seq<char>)>, j: int)
    requires
        unique_keys(set),
        0 <= j < set.len(),
    ensures
        assoc_get_last(dim_entries(set), set[j].0) == Some(JsonVal::Str(set[j].1)),
{
    let entries = dim_entries(set);
    assert(entries[j] == (set[j].0, JsonVal::Str(set[j].1)));
    assert forall|p: int, q: int| 0 <= p < q < entries.len() implies entries[p].0
        != entries[q].0 by {
        assert(entries[p].0 == set[p].0);
        assert(entries[q].0 == set[q].0);
    }
    lemma_assoc_get_last_at(entries, j);
}

/// Among the flattened dimension values, a key that no later set mentions
/// keeps the value its own set gave it; in particular the later of two
/// sets wins a key collision.
pub proof fn lemma_flatten_dim_sets_get(sets: Seq<Seq<(Seq<char>, Seq<char>)>>, i: int, j: int)
    requires
        0 <= i < sets.len(),
        unique_keys(sets[i]),
        0 <= j < sets[i].len(),
        forall|q: int, p: int|
            i < q < sets.len() && 0 <= p < sets[q].len() ==> (#[trigger] sets[q][p]).0
                != sets[i][j].0,
    ensures
        assoc_get(flatten_dim_sets(sets), sets[i][j].0) == Some(JsonVal::Str(sets[i][j].1)),
    decreases sets.len(),
{
    let key = sets[i][j].0;
    let front = sets.drop_last();
    let last = sets.last();
    if i == sets.len() - 1 {
        lemma_dim_entries_lookup(last, j);
        lemma_assoc_upsert_all_get(flatten_dim_sets(front), dim_entries(last), key);
    } else {
        assert forall|p: int| 0 <= p < dim_entries(last).len() implies dim_entries(last)[p].0
            != key by {
            assert(dim_entries(last)[p].0 == last[p].0);
            assert(sets[sets.len() - 1][p].0 != key);
        }
        lemma_assoc_get_last_missing(dim_entries(last), key);
        lemma_assoc_upsert_all_get(flatten_dim_sets(front), dim_entries(last), key);
        assert(front[i] == sets[i]);
        assert forall|q: int, p: int|
            i < q < front.len() && 0 <= p < front[q].len() implies (#[trigger] front[q][p]).0
            != key by {
            assert(front[q] == sets[q]);
        }
        lemma_flatten_dim_sets_get(front, i, j);
    }
}

/// A dimension value whose key no later dimension set, property or metric
/// mentions survives the whole merge into the target values.
pub proof fn lemma_dimension_value_in_targets(c: MetricContextView, i: int, j: int)
    requires
        0 <= i < c.dimensions.len(),
        unique_keys(c.dimensions[i]),
        0 <= j < c.dimensions[i].len(),
        forall|q: int, p: int|
            i < q < c.dimensions.len() && 0 <= p < c.dimensions[q].len() ==> (#[trigger] c
                .dimensions[q][p]).0 != c.dimensions[i][j].0,
        forall|p: int| 0 <= p < c.properties.len() ==> (#[trigger] c.properties[p]).0 != c
            .dimensions[i][j].0,
        forall|p: int| 0 <= p < c.metrics.len() ==> (#[trigger] c.metrics[p]).0 != c
            .dimensions[i][j].0,
    ensures
        assoc_get(spec_targets(c), c.dimensions[i][j].0) == Some(
            JsonVal::Str(c.dimensions[i][j].1),
        ),
{
    let key = c.dimensions[i][j].0;
    lemma_flatten_dim_sets_get(c.dimensions, i, j);
    lemma_assoc_get_last_missing(c.properties, key);
    lemma_assoc_upsert_all_get(flatten_dim_sets(c.dimensions), c.properties, key);
    let mviews = metric_entries(c.metrics);
    assert forall|p: int| 0 <= p < mviews.len() implies mviews[p].0 != key by {
        assert(mviews[p].0 == c.metrics[p].0);
    }
    lemma_assoc_get_last_missing(mviews, key);
    lemma_assoc_upsert_all_get(
        assoc_upsert_all(flatten_dim_sets(c.dimensions), c.properties),
        mviews,
        key,
    );
}

/// Every key of every dimension set appears among the flattened dimension
/// values.
proof fn lemma_flatten_dim_sets_contains(sets: Seq<Seq<(Seq<char>, Seq<char>)>>, i: int, j: int)
    requires
        0 <= i < sets.len(),
        0 <= j < sets[i].len(),
    ensures
        assoc_contains_key(flatten_dim_sets(sets), sets[i][j].0),
    decreases sets.len(),
{
    let key = sets[i][j].0;
    let front = sets.drop_last();
    let last = sets.last();
    lemma_assoc_upsert_all_contains(flatten_dim_sets(front), dim_entries(last), key);
    if i == sets.len() - 1 {
        assert(dim_entries(last)[j].0 == key);
        assert(assoc_contains_key(dim_entries(last), key));
    } else {
        assert(front[i] == sets[i]);
        lemma_flatten_dim_sets_contains(front, i, j);
    }
}

/// Every key referenced in a dimension set appears as a target-value key
/// after serialization, so the backend can resolve it.
pub proof fn lemma_dimension_keys_in_targets(c: MetricContextView, i: int, j: int)
    requires
        0 <= i < c.dimensions.len(),
        0 <= j < c.dimensions[i].len(),
    ensures
        assoc_contains_key(spec_targets(c), c.dimensions[i][j].0),
{
    let key = c.dimensions[i][j].0;
    lemma_flatten_dim_sets_contains(c.dimensions, i, j);
    lemma_assoc_upsert_all_contains(flatten_dim_sets(c.dimensions), c.properties, key);
    lemma_assoc_upsert_all_contains(
        assoc_upsert_all(flatten_dim_sets(c.dimensions), c.properties),
        metric_entries(c.metrics),
        key,
    );
}

/// The fixed envelope fragments all stay on one line.
proof fn lemma_envelope_literals_single_line()
    ensures
        single_line("{\"_aws\":{\"CloudWatchMetrics\":[{\"Namespace\":"@),
        single_line(",\"Dimensions\":["@),
        single_line("],\"Metrics\":["@),
        single_line("]}]"@),
        single_line("{\"Name\":"@),
        single_line(",\"Unit\":\""@),
        single_line("\"}"@),
{
    reveal_strlit("{\"_aws\":{\"CloudWatchMetrics\":[{\"Namespace\":");
    reveal_strlit(",\"Dimensions\":[");
    reveal_strlit("],\"Metrics\":[");
    reveal_strlit("]}]");
    reveal_strlit("{\"Name\":");
    reveal_strlit(",\"Unit\":\"");
    reveal_strlit("\"}");
}

/// Renders one dimension set's key list.
fn render_dim_set(set: &Vec<(String, String)>) -> (r: String)
    ensures
        r@ == dim_set_json(entries_view(set@)),
        single_line(r@),
{
    proof {
        lemma_json_literals_single_line();
    }
    let ghost keys = dim_set_keys(entries_view(set@));
    let mut out = String::from_str("[");
    let n = if set.len() <= MAX_DIMENSIONS {
        set.len()
    } else {
        MAX_DIMENSIONS
    };
    proof {
        assert(keys.len() == n);
        assert(out@ =~= "["@ + keys_json(keys.take(0)));
    }
    let mut i: usize = 0;
    while i < n
        invariant
            0 <= i <= n,
            n <= set.len(),
            keys == dim_set_keys(entries_view(set@)),
            keys.len() == n,
            forall|j: int| 0 <= j < n ==> keys[j] == set@[j].0@,
            out@ == "["@ + keys_json(keys.take(i as int)),
            single_line(out@),
        decreases n - i,
    {
        proof {
            lemma_json_literals_single_line();
        }
        if i > 0 {
            out.append(",");
        }
        let key = json_quote(set[i].0.as_str());
        out.append(key.as_str());
        proof {
            lemma_keys_json_step(keys, i as int);
            assert(out@ =~= "["@ + keys_json(keys.take(i as int + 1)));
        }
        i = i + 1;
    }
    out.append("]");
    proof {
        assert(keys.take(n as int) =~= keys);
        assert(out@ =~= dim_set_json(entries_view(set@)));
    }
    out
}

/// Renders the `Dimensions` array's comma-joined entries.
fn render_dim_sets(sets: &Vec<Vec<(String, String)>>) -> (r: String)
    ensures
        r@ == dim_sets_json(sets@.map_values(|s: Vec<(String, String)>| entries_view(s@))),
        single_line(r@),
{
    let ghost views = sets@.map_values(|s: Vec<(String, String)>| entries_view(s@));
    let mut out = String::new();
    proof {
        assert(out@ =~= keys_json(Seq::empty()));
        assert(views.take(0) =~= Seq::<Seq<(Seq<char>, Seq<char>)>>::empty());
        assert(out@ =~= dim_sets_json(views.take(0)));
    }
    let n = sets.len();
    let mut i: usize = 0;
    while i < n
        invariant
            0 <= i <= n,
            n == sets.len(),
            views == sets@.map_values(|s: Vec<(String, String)>| entries_view(s@)),
            views.len() == n,
            out@ == dim_sets_json(views.take(i as int)),
            single_line(out@),
        decreases n - i,
    {
        proof {
            lemma_json_literals_single_line();
        }
        if i > 0 {
            out.append(",");
        }
        let piece = render_dim_set(&sets[i]);
        out.append(piece.as_str());
        proof {
            assert(views[i as int] == entries_view(sets@[i as int]@));
            lemma_dim_sets_json_step(views, i as int);
            assert(out@ =~= dim_sets_json(views.take(i as int + 1)));
        }
        i = i + 1;
    }
    proof {
        assert(views.take(n as int) =~= views);
    }
    out
}

/// Renders the `Metrics` array's comma-joined name/unit descriptors.
fn render_metric_defs(ms: &Vec<(String, MetricValues)>) -> (r: String)
    ensures
        r@ == metric_defs_json(entries_view(ms@)),
        single_line(r@),
{
    let ghost views = entries_view(ms@);
    let mut out = String::new();
    proof {
        assert(views.take(0) =~= Seq::<(Seq<char>, MetricValuesView)>::empty());
        assert(out@ =~= metric_defs_json(views.take(0)));
    }
    let n = ms.len();
    let mut i: usize = 0;
    while i < n
        invariant
            0 <= i <= n,
            n == ms.len(),
            views == entries_view(ms@),
            views.len() == n,
            out@ == metric_defs_json(views.take(i as int)),
            single_line(out@),
        decreases n - i,
    {
        proof {
            lemma_json_literals_single_line();
            lemma_envelope_literals_single_line();
        }
        if i > 0 {
            out.append(",");
        }
        out.append("{\"Name\":");
        let name = json_quote(ms[i].0.as_str());
        out.append(name.as_str());
        out.append(",\"Unit\":\"");
        let unit = ms[i].1.unit();
        out.append(unit.as_str());
        out.append("\"}");
        proof {
            assert(views[i as int] == (ms@[i as int].0@, ms@[i as int].1@));
            lemma_metric_defs_json_step(views, i as int);
            assert(out@ =~= metric_defs_json(views.take(i as int + 1)));
        }
        i = i + 1;
    }
    proof {
        assert(views.take(n as int) =~= views);
    }
    out
}

/// Renders each entry as `,"key":value` and appends it to `out`.
fn render_entries_tail(entries: Vec<(String, JsonValue)>, out: &mut String)
    ensures
        final(out)@ == old(out)@ + entries_json_tail(entries_view(entries@)),
        single_line(old(out)@) ==> single_line(final(out)@),
{
    let ghost all = entries_view(entries@);
    let ghost base = out@;
    proof {
        assert(all.take(0) =~= Seq::<(Seq<char>, JsonVal)>::empty());
        assert(base =~= base + entries_json_tail(all.take(0)));
    }
    let mut rest = entries;
    let n = rest.len();
    let mut i: usize = 0;
    while i < n
        invariant
            0 <= i <= n,
            rest@.len() == n - i,
            all.len() == n,
            entries_view(rest@) == all.skip(i as int),
            out@ == base + entries_json_tail(all.take(i as int)),
            single_line(base) ==> single_line(out@),
        decreases n - i,
    {
        proof {
            lemma_json_literals_single_line();
        }
        let ghost rest_before = entries_view(rest@);
        let ghost rest_exec_before = rest@;
        let entry = rest.remove(0);
        proof {
            assert(entries_view(rest@) =~= rest_before.drop_first());
            assert(rest_before.drop_first() =~= all.skip(i as int + 1));
            assert(rest_before[0] == (rest_exec_before[0].0@, rest_exec_before[0].1@));
            assert(rest_before[0] == all.skip(i as int)[0]);
            assert((entry.0@, entry.1@) == all[i as int]);
        }
        out.append(",");
        let key = json_quote(entry.0.as_str());
        out.append(key.as_str());
        out.append(":");
        let piece = render_json(&entry.1);
        out.append(piece.as_str());
        proof {
            lemma_entries_json_tail_step(all, i as int);
            assert(out@ =~= base + entries_json_tail(all.take(i as int + 1)));
        }
        i = i + 1;
    }
    proof {
        assert(all.take(n as int) =~= all);
    }
}

/// Builds one metric's target value from its samples.
fn metric_value_json(values: &Vec<i64>) -> (r: JsonValue)
    ensures
        r@ == metric_target_val(values@.map_values(|v: i64| v as int)),
{
    let ghost vals = values@.map_values(|v: i64| v as int);
    if values.len() == 1 {
        JsonValue::Int(values[0])
    } else {
        let mut items: Vec<JsonValue> = Vec::new();
        let n = values.len();
        let mut i: usize = 0;
        while i < n
            invariant
                0 <= i <= n,
                n == values.len(),
                items@.len() == i,
                forall|j: int| 0 <= j < i ==> items@[j] == JsonValue::Int(values@[j]),
            decreases n - i,
        {
            items.push(JsonValue::Int(values[i]));
            i = i + 1;
        }
        let r = JsonValue::Arr(items);
        proof {
            assert(crate::json::arr_view(items@) =~= vals.map_values(|v: int| JsonVal::Int(v)));
        }
        r
    }
}

/// Flattens dimension values, properties and metric values into the shared
/// target-value list, in that merge order.
fn build_targets(
    dimensions: &Vec<Vec<(String, String)>>,
    properties: Vec<(String, JsonValue)>,
    metrics: &Vec<(String, MetricValues)>,
) -> (r: Vec<(String, JsonValue)>)
    ensures
        entries_view(r@) == assoc_upsert_all(
            assoc_upsert_all(
                flatten_dim_sets(dimensions@.map_values(|s: Vec<(String, String)>| entries_view(s@))),
                entries_view(properties@),
            ),
            metric_entries(entries_view(metrics@)),
        ),
{
    let ghost dim_views = dimensions@.map_values(|s: Vec<(String, String)>| entries_view(s@));
    let mut targets: Vec<(String, JsonValue)> = Vec::new();
    proof {
        assert(entries_view(targets@) =~= Seq::<(Seq<char>, JsonVal)>::empty());
        assert(dim_views.take(0) =~= Seq::<Seq<(Seq<char>, Seq<char>)>>::empty());
        assert(entries_view(targets@) =~= flatten_dim_sets(dim_views.take(0)));
    }
    let nsets = dimensions.len();
    let mut i: usize = 0;
    while i < nsets
        invariant
            0 <= i <= nsets,
            nsets == dimensions.len(),
            dim_views == dimensions@.map_values(|s: Vec<(String, String)>| entries_view(s@)),
            dim_views.len() == nsets,
            entries_view(targets@) == flatten_dim_sets(dim_views.take(i as int)),
        decreases nsets - i,
    {
        let set = &dimensions[i];
        let ghost set_view = entries_view(set@);
        let ghost before = entries_view(targets@);
        proof {
            assert(dim_views[i as int] == set_view);
            assert(dim_entries(set_view).take(0) =~= Seq::<(Seq<char>, JsonVal)>::empty());
        }
        let npairs = set.len();
        let mut j: usize = 0;
        while j < npairs
            invariant
                0 <= j <= npairs,
                npairs == set@.len(),
                set_view == entries_view(set@),
                entries_view(targets@) == assoc_upsert_all(
                    before,
                    dim_entries(set_view).take(j as int),
                ),
            decreases npairs - j,
        {
            let k = set[j].0.clone();
            let v = set[j].1.clone();
            proof {
                assert(dim_entries(set_view)[j as int] == (set@[j as int].0@, JsonVal::Str(
                    set@[j as int].1@,
                )));
            }
            upsert_entry_json(&mut targets, k, JsonValue::Str(v));
            proof {
                lemma_assoc_upsert_all_push(
                    before,
                    dim_entries(set_view).take(j as int),
                    dim_entries(set_view)[j as int],
                );
                assert(dim_entries(set_view).take(j as int).push(dim_entries(set_view)[j as int])
                    =~= dim_entries(set_view).take(j as int + 1));
            }
            j = j + 1;
        }
        proof {
            assert(dim_entries(set_view).take(npairs as int) =~= dim_entries(set_view));
            lemma_flatten_dim_sets_step(dim_views, i as int);
            assert(entries_view(targets@) == flatten_dim_sets(dim_views.take(i as int + 1)));
        }
        i = i + 1;
    }
    proof {
        assert(dim_views.take(nsets as int) =~= dim_views);
    }
    let ghost after_dims = entries_view(targets@);
    let ghost prop_views = entries_view(properties@);
    proof {
        assert(prop_views.take(0) =~= Seq::<(Seq<char>, JsonVal)>::empty());
        assert(entries_view(targets@) =~= assoc_upsert_all(after_dims, prop_views.take(0)));
    }
    let mut props = properties;
    let nprops = props.len();
    let mut p: usize = 0;
    while p < nprops
        invariant
            0 <= p <= nprops,
            props@.len() == nprops - p,
            prop_views.len() == nprops,
            entries_view(props@) == prop_views.skip(p as int),
            entries_view(targets@) == assoc_upsert_all(after_dims, prop_views.take(p as int)),
        decreases nprops - p,
    {
        let ghost rest_before = entries_view(props@);
        let ghost rest_exec_before = props@;
        let entry = props.remove(0);
        proof {
            assert(entries_view(props@) =~= rest_before.drop_first());
            assert(rest_before.drop_first() =~= prop_views.skip(p as int + 1));
            assert(rest_before[0] == (rest_exec_before[0].0@, rest_exec_before[0].1@));
            assert(rest_before[0] == prop_views.skip(p as int)[0]);
            assert((entry.0@, entry.1@) == prop_views[p as int]);
        }
        upsert_entry_json(&mut targets, entry.0, entry.1);
        proof {
            lemma_assoc_upsert_all_push(after_dims, prop_views.take(p as int), prop_views[p as int]);
            assert(prop_views.take(p as int).push(prop_views[p as int]) =~= prop_views.take(
                p as int + 1,
            ));
        }
        p = p + 1;
    }
    proof {
        assert(prop_views.take(nprops as int) =~= prop_views);
    }
    let ghost after_props = entries_view(targets@);
    let ghost mviews = metric_entries(entries_view(metrics@));
    proof {
        assert(mviews.take(0) =~= Seq::<(Seq<char>, JsonVal)>::empty());
        assert(entries_view(targets@) =~= assoc_upsert_all(after_props, mviews.take(0)));
    }
    let nmetrics = metrics.len();
    let mut q: usize = 0;
    while q < nmetrics
        invariant
            0 <= q <= nmetrics,
            nmetrics == metrics.len(),
            mviews == metric_entries(entries_view(metrics@)),
            mviews.len() == nmetrics,
            entries_view(targets@) == assoc_upsert_all(after_props, mviews.take(q as int)),
        decreases nmetrics - q,
    {
        let name = metrics[q].0.clone();
        let value = metric_value_json(metrics[q].1.values());
        proof {
            assert(entries_view(metrics@)[q as int] == (metrics@[q as int].0@, metrics@[q as int].1@));
            assert(mviews[q as int] == (metrics@[q as int].0@, metric_target_val(
                metrics@[q as int].1@.values,
            )));
        }
        upsert_entry_json(&mut targets, name, value);
        proof {
            lemma_assoc_upsert_all_push(after_props, mviews.take(q as int), mviews[q as int]);
            assert(mviews.take(q as int).push(mviews[q as int]) =~= mviews.take(q as int + 1));
        }
        q = q + 1;
    }
    proof {
        assert(mviews.take(nmetrics as int) =~= mviews);
    }
    targets
}

/// Upserts one target-value entry (a monomorphic front for the shared
/// upsert, so callers here need no type annotations).
fn upsert_entry_json(m: &mut Vec<(String, JsonValue)>, k: String, v: JsonValue)
    ensures
        entries_view(final(m)@) == crate::assoc::assoc_upsert(entries_view(old(m)@), k@, v@),
{
    crate::assoc::upsert_entry(m, k, v);
}

/// A serializer turns a completed context into its wire-format document.
pub trait Serialize {
    /// Renders the context; the output is exactly `spec_serialize` of it,
    /// on one line.
    fn serialize(&self, context: MetricContext) -> (r: String)
        ensures
            r@ == spec_serialize(context@),
            single_line(r@),
    ;
}

/// The embedded-metrics wire format serializer.
pub struct Log;

impl Serialize for Log {
    fn serialize(&self, context: MetricContext) -> (r: String) {
        proof {
            lemma_json_literals_single_line();
            lemma_envelope_literals_single_line();
        }
        let ghost cv = context@;
        let (namespace, meta, properties, dimensions, metrics) = context.into_parts();
        let mut out = String::from_str("{\"_aws\":{\"CloudWatchMetrics\":[{\"Namespace\":");
        let ns = json_quote(namespace.as_str());
        out.append(ns.as_str());
        out.append(",\"Dimensions\":[");
        let dims = render_dim_sets(&dimensions);
        out.append(dims.as_str());
        out.append("],\"Metrics\":[");
        let defs = render_metric_defs(&metrics);
        out.append(defs.as_str());
        out.append("]}]");
        render_entries_tail(meta, &mut out);
        out.append("}");
        let targets = build_targets(&dimensions, properties, &metrics);
        proof {
            assert(entries_view(targets@) == spec_targets(cv));
        }
        render_entries_tail(targets, &mut out);
        out.append("}");
        proof {
            assert(out@ =~= spec_serialize(cv));
        }
        out
    }
}

} // verus!
