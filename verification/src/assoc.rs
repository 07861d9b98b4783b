//! Ordered association lists keyed by strings.
//!
//! The context's metadata, properties, metric table and dimension sets are
//! all key-value collections whose iteration order must be deterministic, so
//! they are kept as vectors of pairs with unique keys, in insertion order.
//! An upsert keeps the position of an existing key and replaces its value,
//! as a hash map's insert would.

use vstd::prelude::*;
use vstd::pervasive::VecAdditionalExecFns;

verus! {

/// Whether some entry of `m` has the key `k`.
pub open spec fn assoc_contains_key<V>(m: Seq<(Seq<char>, V)>, k: Seq<char>) -> bool {
    exists|i: int| 0 <= i < m.len() && m[i].0 == k
}

/// The value of the first entry of `m` with key `k`, if any.
pub open spec fn assoc_get<V>(m: Seq<(Seq<char>, V)>, k: Seq<char>) -> Option<V>
    decreases m.len(),
{
    if m.len() == 0 {
        None
    } else if m[0].0 == k {
        Some(m[0].1)
    } else {
        assoc_get(m.drop_first(), k)
    }
}

/// `m` with the value for `k` set to `v`: the first entry with key `k` is
/// replaced in place, or a new entry is appended when the key is absent.
pub open spec fn assoc_upsert<V>(m: Seq<(Seq<char>, V)>, k: Seq<char>, v: V) -> Seq<
    (Seq<char>, V),
>
    decreases m.len(),
{
    if m.len() == 0 {
        seq![(k, v)]
    } else if m[0].0 == k {
        seq![(k, v)] + m.drop_first()
    } else {
        seq![m[0]] + assoc_upsert(m.drop_first(), k, v)
    }
}

/// `m` after upserting every entry of `add`, in order.
pub open spec fn assoc_upsert_all<V>(m: Seq<(Seq<char>, V)>, add: Seq<(Seq<char>, V)>) -> Seq<
    (Seq<char>, V),
>
    decreases add.len(),
{
    if add.len() == 0 {
        m
    } else {
        assoc_upsert_all(assoc_upsert(m, add[0].0, add[0].1), add.drop_first())
    }
}

/// No two entries of `m` share a key.
pub open spec fn unique_keys<V>(m: Seq<(Seq<char>, V)>) -> bool {
    forall|i: int, j: int| 0 <= i < j < m.len() ==> m[i].0 != m[j].0
}

/// The value of the last entry of `m` with key `k`, if any.
pub open spec fn assoc_get_last<V>(m: Seq<(Seq<char>, V)>, k: Seq<char>) -> Option<V>
    decreases m.len(),
{
    if m.len() == 0 {
        None
    } else if m.last().0 == k {
        Some(m.last().1)
    } else {
        assoc_get_last(m.drop_last(), k)
    }
}

/// An upsert sets `k` to `v` and leaves every other key's value alone.
pub proof fn lemma_assoc_upsert_get<V>(m: Seq<(Seq<char>, V)>, k: Seq<char>, v: V, k2: Seq<char>)
    ensures
        assoc_get(assoc_upsert(m, k, v), k2) == if k2 == k {
            Some(v)
        } else {
            assoc_get(m, k2)
        },
    decreases m.len(),
{
    let r = assoc_upsert(m, k, v);
    if m.len() == 0 {
        assert(r[0] == (k, v));
        assert(r.drop_first() =~= Seq::<(Seq<char>, V)>::empty());
        if k2 == k {
            assert(assoc_get(r, k2) == Some(v));
        } else {
            assert(assoc_get(r, k2) == assoc_get(r.drop_first(), k2));
            assert(assoc_get(r, k2) is None);
        }
    } else if m[0].0 == k {
        assert(r[0] == (k, v));
        assert(r.drop_first() =~= m.drop_first());
        if k2 == k {
            assert(assoc_get(r, k2) == Some(v));
        } else {
            assert(assoc_get(r, k2) == assoc_get(m.drop_first(), k2));
            assert(assoc_get(m, k2) == assoc_get(m.drop_first(), k2));
        }
    } else {
        assert(r[0] == m[0]);
        assert(r.drop_first() =~= assoc_upsert(m.drop_first(), k, v));
        lemma_assoc_upsert_get(m.drop_first(), k, v, k2);
        if m[0].0 == k2 {
            assert(assoc_get(r, k2) == Some(m[0].1));
            assert(assoc_get(m, k2) == Some(m[0].1));
        } else {
            assert(assoc_get(r, k2) == assoc_get(assoc_upsert(m.drop_first(), k, v), k2));
            assert(assoc_get(m, k2) == assoc_get(m.drop_first(), k2));
        }
    }
}

/// An upsert keeps the key of every entry, adding `k` at the end only when
/// it was absent.
pub proof fn lemma_assoc_upsert_keys<V>(m: Seq<(Seq<char>, V)>, k: Seq<char>, v: V)
    ensures
        assoc_contains_key(m, k) ==> assoc_upsert(m, k, v).len() == m.len(),
        !assoc_contains_key(m, k) ==> assoc_upsert(m, k, v) =~= m.push((k, v)),
        forall|i: int|
            0 <= i < assoc_upsert(m, k, v).len() ==> #[trigger] assoc_upsert(m, k, v)[i].0 == (
            if i < m.len() {
                m[i].0
            } else {
                k
            }),
    decreases m.len(),
{
    let r = assoc_upsert(m, k, v);
    if m.len() == 0 {
    } else if m[0].0 == k {
        assert(r =~= seq![(k, v)] + m.drop_first());
    } else {
        lemma_assoc_upsert_keys(m.drop_first(), k, v);
        assert(r =~= seq![m[0]] + assoc_upsert(m.drop_first(), k, v));
        if assoc_contains_key(m, k) {
            let i = choose|i: int| 0 <= i < m.len() && m[i].0 == k;
            assert(m.drop_first()[i - 1].0 == k);
            assert(assoc_contains_key(m.drop_first(), k));
        } else {
            assert forall|i: int| 0 <= i < m.drop_first().len() implies m.drop_first()[i].0
                != k by {
                assert(m.drop_first()[i] == m[i + 1]);
            }
            assert(!assoc_contains_key(m.drop_first(), k));
            assert(r =~= m.push((k, v)));
        }
    }
}

/// An upsert preserves key uniqueness.
pub proof fn lemma_assoc_upsert_unique<V>(m: Seq<(Seq<char>, V)>, k: Seq<char>, v: V)
    requires
        unique_keys(m),
    ensures
        unique_keys(assoc_upsert(m, k, v)),
{
    lemma_assoc_upsert_keys(m, k, v);
    let r = assoc_upsert(m, k, v);
    if assoc_contains_key(m, k) {
        assert forall|i: int, j: int| 0 <= i < j < r.len() implies r[i].0 != r[j].0 by {
            assert(r[i].0 == m[i].0);
            assert(r[j].0 == m[j].0);
        }
    } else {
        assert forall|i: int, j: int| 0 <= i < j < r.len() implies r[i].0 != r[j].0 by {
            assert(r[i].0 == m[i].0);
            if j < m.len() {
                assert(r[j].0 == m[j].0);
            } else {
                assert(r[j].0 == k);
                assert(!(exists|q: int| 0 <= q < m.len() && m[q].0 == k));
            }
        }
    }
}

/// Upserting the entries of `add` and then one more entry `x` is the same
/// as upserting the entries of `add.push(x)`.
pub proof fn lemma_assoc_upsert_all_push<V>(
    m: Seq<(Seq<char>, V)>,
    add: Seq<(Seq<char>, V)>,
    x: (Seq<char>, V),
)
    ensures
        assoc_upsert_all(m, add.push(x)) == assoc_upsert(assoc_upsert_all(m, add), x.0, x.1),
    decreases add.len(),
{
    reveal_with_fuel(assoc_upsert_all, 2);
    if add.len() == 0 {
        assert(add.push(x)[0] == x);
        assert(add.push(x).drop_first() =~= Seq::<(Seq<char>, V)>::empty());
        assert(assoc_upsert_all(m, add.push(x)) == assoc_upsert_all(
            assoc_upsert(m, x.0, x.1),
            add.push(x).drop_first(),
        ));
    } else {
        assert(add.push(x)[0] == add[0]);
        assert(add.push(x).drop_first() =~= add.drop_first().push(x));
        lemma_assoc_upsert_all_push(assoc_upsert(m, add[0].0, add[0].1), add.drop_first(), x);
    }
}

/// After upserting all of `add`, a key's value comes from the last entry of
/// `add` with that key, or is unchanged when `add` never mentions it.
pub proof fn lemma_assoc_upsert_all_get<V>(
    m: Seq<(Seq<char>, V)>,
    add: Seq<(Seq<char>, V)>,
    k: Seq<char>,
)
    ensures
        assoc_get(assoc_upsert_all(m, add), k) == match assoc_get_last(add, k) {
            Some(v) => Some(v),
            None => assoc_get(m, k),
        },
    decreases add.len(),
{
    if add.len() == 0 {
    } else {
        let front = add.drop_last();
        let x = add.last();
        assert(add =~= front.push(x));
        lemma_assoc_upsert_all_push(m, front, x);
        lemma_assoc_upsert_all_get(m, front, k);
        lemma_assoc_upsert_get(assoc_upsert_all(m, front), x.0, x.1, k);
    }
}

/// An upsert adds the key `k` and removes no key.
pub proof fn lemma_assoc_upsert_contains<V>(
    m: Seq<(Seq<char>, V)>,
    k: Seq<char>,
    v: V,
    k2: Seq<char>,
)
    ensures
        assoc_contains_key(assoc_upsert(m, k, v), k2) == (k2 == k || assoc_contains_key(m, k2)),
{
    lemma_assoc_upsert_keys(m, k, v);
    let r = assoc_upsert(m, k, v);
    if k2 == k {
        if assoc_contains_key(m, k) {
            let i = choose|i: int| 0 <= i < m.len() && m[i].0 == k;
            assert(r[i].0 == k);
        } else {
            assert(r[m.len() as int].0 == k);
        }
        assert(assoc_contains_key(r, k2));
    } else {
        if assoc_contains_key(m, k2) {
            let i = choose|i: int| 0 <= i < m.len() && m[i].0 == k2;
            assert(r[i].0 == k2);
            assert(assoc_contains_key(r, k2));
        }
        if assoc_contains_key(r, k2) {
            let i = choose|i: int| 0 <= i < r.len() && r[i].0 == k2;
            assert(i < m.len());
            assert(m[i].0 == k2);
            assert(assoc_contains_key(m, k2));
        }
    }
}

/// Upserting a batch adds exactly the batch's keys.
pub proof fn lemma_assoc_upsert_all_contains<V>(
    m: Seq<(Seq<char>, V)>,
    add: Seq<(Seq<char>, V)>,
    k2: Seq<char>,
)
    ensures
        assoc_contains_key(assoc_upsert_all(m, add), k2) == (assoc_contains_key(m, k2)
            || assoc_contains_key(add, k2)),
    decreases add.len(),
{
    if add.len() == 0 {
        assert(!assoc_contains_key(add, k2));
    } else {
        let front = add.drop_last();
        let x = add.last();
        assert(add =~= front.push(x));
        lemma_assoc_upsert_all_push(m, front, x);
        lemma_assoc_upsert_all_contains(m, front, k2);
        lemma_assoc_upsert_contains(assoc_upsert_all(m, front), x.0, x.1, k2);
        if assoc_contains_key(add, k2) {
            let i = choose|i: int| 0 <= i < add.len() && add[i].0 == k2;
            if i < add.len() - 1 {
                assert(front[i].0 == k2);
                assert(assoc_contains_key(front, k2));
            } else {
                assert(x.0 == k2);
            }
        }
        if assoc_contains_key(front, k2) {
            let i = choose|i: int| 0 <= i < front.len() && front[i].0 == k2;
            assert(add[i].0 == k2);
            assert(assoc_contains_key(add, k2));
        }
        if x.0 == k2 {
            assert(add.last().0 == k2);
            assert(assoc_contains_key(add, k2));
        }
    }
}

/// Upserting two batches one after the other is the same as upserting
/// their concatenation.
pub proof fn lemma_assoc_upsert_all_concat<V>(
    m: Seq<(Seq<char>, V)>,
    a: Seq<(Seq<char>, V)>,
    b: Seq<(Seq<char>, V)>,
)
    ensures
        assoc_upsert_all(m, a + b) == assoc_upsert_all(assoc_upsert_all(m, a), b),
    decreases b.len(),
{
    if b.len() == 0 {
        assert(a + b =~= a);
    } else {
        let front = b.drop_last();
        let x = b.last();
        assert(b =~= front.push(x));
        assert(a + b =~= (a + front).push(x));
        lemma_assoc_upsert_all_push(m, a + front, x);
        lemma_assoc_upsert_all_concat(m, a, front);
        lemma_assoc_upsert_all_push(assoc_upsert_all(m, a), front, x);
    }
}

/// In a collection with unique keys, the last entry holding a key is the
/// only one, so a backwards lookup returns its value.
pub proof fn lemma_assoc_get_last_at<V>(m: Seq<(Seq<char>, V)>, i: int)
    requires
        unique_keys(m),
        0 <= i < m.len(),
    ensures
        assoc_get_last(m, m[i].0) == Some(m[i].1),
    decreases m.len(),
{
    if i == m.len() - 1 {
    } else {
        assert(m.last().0 != m[i].0);
        assert(m.drop_last()[i] == m[i]);
        assert forall|p: int, q: int| 0 <= p < q < m.drop_last().len() implies m.drop_last()[p].0
            != m.drop_last()[q].0 by {
            assert(m.drop_last()[p] == m[p]);
            assert(m.drop_last()[q] == m[q]);
        }
        lemma_assoc_get_last_at(m.drop_last(), i);
    }
}

/// When no entry has key `k`, a backwards lookup finds nothing either.
pub proof fn lemma_assoc_get_last_missing<V>(m: Seq<(Seq<char>, V)>, k: Seq<char>)
    requires
        forall|j: int| 0 <= j < m.len() ==> m[j].0 != k,
    ensures
        assoc_get_last(m, k) is None,
    decreases m.len(),
{
    if m.len() == 0 {
    } else {
        assert forall|j: int| 0 <= j < m.drop_last().len() implies m.drop_last()[j].0 != k by {
            assert(m.drop_last()[j] == m[j]);
        }
        lemma_assoc_get_last_missing(m.drop_last(), k);
    }
}

/// Upserting preserves key uniqueness across a whole batch.
pub proof fn lemma_assoc_upsert_all_unique<V>(m: Seq<(Seq<char>, V)>, add: Seq<(Seq<char>, V)>)
    requires
        unique_keys(m),
    ensures
        unique_keys(assoc_upsert_all(m, add)),
    decreases add.len(),
{
    if add.len() == 0 {
    } else {
        let front = add.drop_last();
        let x = add.last();
        assert(add =~= front.push(x));
        lemma_assoc_upsert_all_push(m, front, x);
        lemma_assoc_upsert_all_unique(m, front);
        lemma_assoc_upsert_unique(assoc_upsert_all(m, front), x.0, x.1);
    }
}

/// The view of a vector of owned entries as an association list over
/// character sequences.
pub open spec fn entries_view<T: View>(m: Seq<(String, T)>) -> Seq<(Seq<char>, T::V)> {
    m.map_values(|p: (String, T)| (p.0@, p.1@))
}

/// Upserts `(k, v)` into the entry vector `m`: replaces the value of the
/// first entry whose key equals `k`, or appends a new entry.
pub fn upsert_entry<T: View>(m: &mut Vec<(String, T)>, k: String, v: T)
    ensures
        entries_view(final(m)@) == assoc_upsert(entries_view(old(m)@), k@, v@),
{
    let ghost orig = entries_view(old(m)@);
    proof {
        assert(orig.len() == old(m)@.len());
    }
    let n = m.len();
    let mut i: usize = 0;
    while i < n
        invariant
            0 <= i <= n,
            n == m.len(),
            m@ == old(m)@,
            orig == entries_view(old(m)@),
            orig.len() == n,
            forall|j: int| 0 <= j < i ==> orig[j].0 != k@,
        decreases n - i,
    {
        if m[i].0 == k {
            m.set(i, (k, v));
            proof {
                assert(orig[i as int].0 == k@);
                lemma_assoc_upsert_found(orig, k@, v@, i as int);
                assert(entries_view(m@) =~= orig.update(i as int, (k@, v@)));
            }
            return;
        }
        proof {
            assert(orig[i as int].0 == m@[i as int].0@);
        }
        i = i + 1;
    }
    m.push((k, v));
    proof {
        assert(forall|j: int| 0 <= j < orig.len() ==> orig[j].0 != k@);
        lemma_assoc_upsert_missing(orig, k@, v@);
        assert(entries_view(m@) =~= orig.push((k@, v@)));
    }
}

/// When the first entry with key `k` sits at index `i`, an upsert replaces
/// exactly that entry.
pub proof fn lemma_assoc_upsert_found<V>(m: Seq<(Seq<char>, V)>, k: Seq<char>, v: V, i: int)
    requires
        0 <= i < m.len(),
        m[i].0 == k,
        forall|j: int| 0 <= j < i ==> m[j].0 != k,
    ensures
        assoc_upsert(m, k, v) =~= m.update(i, (k, v)),
    decreases i,
{
    if i == 0 {
        assert(assoc_upsert(m, k, v) =~= seq![(k, v)] + m.drop_first());
    } else {
        assert(m[0].0 != k);
        assert forall|j: int| 0 <= j < i - 1 implies m.drop_first()[j].0 != k by {
            assert(m.drop_first()[j] == m[j + 1]);
        }
        assert(m.drop_first()[i - 1].0 == k);
        lemma_assoc_upsert_found(m.drop_first(), k, v, i - 1);
    }
}

/// When the first entry with key `k` sits at index `i`, a lookup returns
/// exactly that entry's value.
pub proof fn lemma_assoc_get_found<V>(m: Seq<(Seq<char>, V)>, k: Seq<char>, i: int)
    requires
        0 <= i < m.len(),
        m[i].0 == k,
        forall|j: int| 0 <= j < i ==> m[j].0 != k,
    ensures
        assoc_get(m, k) == Some(m[i].1),
    decreases i,
{
    if i == 0 {
    } else {
        assert(m[0].0 != k);
        assert forall|j: int| 0 <= j < i - 1 implies m.drop_first()[j].0 != k by {
            assert(m.drop_first()[j] == m[j + 1]);
        }
        assert(m.drop_first()[i - 1] == m[i]);
        lemma_assoc_get_found(m.drop_first(), k, i - 1);
    }
}

/// When no entry has key `k`, a lookup finds nothing.
pub proof fn lemma_assoc_get_missing<V>(m: Seq<(Seq<char>, V)>, k: Seq<char>)
    requires
        forall|j: int| 0 <= j < m.len() ==> m[j].0 != k,
    ensures
        assoc_get(m, k) is None,
    decreases m.len(),
{
    if m.len() == 0 {
    } else {
        assert forall|j: int| 0 <= j < m.drop_first().len() implies m.drop_first()[j].0 != k by {
            assert(m.drop_first()[j] == m[j + 1]);
        }
        lemma_assoc_get_missing(m.drop_first(), k);
    }
}

/// When no entry has key `k`, an upsert appends a new entry.
pub proof fn lemma_assoc_upsert_missing<V>(m: Seq<(Seq<char>, V)>, k: Seq<char>, v: V)
    requires
        forall|j: int| 0 <= j < m.len() ==> m[j].0 != k,
    ensures
        assoc_upsert(m, k, v) =~= m.push((k, v)),
    decreases m.len(),
{
    if m.len() == 0 {
    } else {
        assert forall|j: int| 0 <= j < m.drop_first().len() implies m.drop_first()[j].0 != k by {
            assert(m.drop_first()[j] == m[j + 1]);
        }
        lemma_assoc_upsert_missing(m.drop_first(), k, v);
    }
}

} // verus!
