//! A model of JSON-representable values and a verified renderer for them.
//!
//! Property and metadata values carried by a metric context are arbitrary
//! JSON-representable structures; this module gives them a concrete type,
//! a mathematical view, and a renderer whose output is pinned down exactly
//! by the spec functions below.

use vstd::prelude::*;
use vstd::string::StringExecFns;

verus! {

broadcast use vstd::std_specs::vec::group_vec_axioms;

/// A JSON-representable value: scalars, strings, arrays and objects.
/// Numbers are 64-bit signed integers.
pub enum JsonValue {
    Null,
    Bool(bool),
    Int(i64),
    Str(String),
    Arr(Vec<JsonValue>),
    Obj(Vec<(String, JsonValue)>),
}

/// The mathematical shape of a `JsonValue`.
pub enum JsonVal {
    Null,
    Bool(bool),
    Int(int),
    Str(Seq<char>),
    Arr(Seq<JsonVal>),
    Obj(Seq<(Seq<char>, JsonVal)>),
}

impl View for JsonValue {
    type V = JsonVal;

    open spec fn view(&self) -> JsonVal
        decreases self,
    {
        match self {
            JsonValue::Null => JsonVal::Null,
            JsonValue::Bool(b) => JsonVal::Bool(*b),
            JsonValue::Int(i) => JsonVal::Int(*i as int),
            JsonValue::Str(s) => JsonVal::Str(s@),
            JsonValue::Arr(items) => JsonVal::Arr(arr_view(items@)),
            JsonValue::Obj(entries) => JsonVal::Obj(obj_view(entries@)),
        }
    }
}

/// The element-wise view of an array's items.
pub open spec fn arr_view(items: Seq<JsonValue>) -> Seq<JsonVal>
    decreases items,
{
    Seq::new(
        items.len(),
        |i: int|
            if 0 <= i < items.len() {
                items[i]@
            } else {
                JsonVal::Null
            },
    )
}

/// The pair-wise view of an object's entries.
pub open spec fn obj_view(entries: Seq<(String, JsonValue)>) -> Seq<(Seq<char>, JsonVal)>
    decreases entries,
{
    Seq::new(
        entries.len(),
        |i: int|
            if 0 <= i < entries.len() {
                (entries[i].0@, entries[i].1@)
            } else {
                (Seq::<char>::empty(), JsonVal::Null)
            },
    )
}

/// The decimal digit character for `d` (0 through 9).
pub open spec fn dec_digit(d: int) -> char {
    if d == 0 {
        '0'
    } else if d == 1 {
        '1'
    } else if d == 2 {
        '2'
    } else if d == 3 {
        '3'
    } else if d == 4 {
        '4'
    } else if d == 5 {
        '5'
    } else if d == 6 {
        '6'
    } else if d == 7 {
        '7'
    } else if d == 8 {
        '8'
    } else {
        '9'
    }
}

/// The decimal rendering of a natural number, most significant digit first.
pub open spec fn dec_nat(n: nat) -> Seq<char>
    decreases n,
{
    if n < 10 {
        seq![dec_digit(n as int)]
    } else {
        dec_nat(n / 10).push(dec_digit((n % 10) as int))
    }
}

/// The decimal rendering of an integer: a leading `-` for negative values.
pub open spec fn dec_int(i: int) -> Seq<char> {
    if i < 0 {
        seq!['-'] + dec_nat((-i) as nat)
    } else {
        dec_nat(i as nat)
    }
}

fn dec_digit_str(d: u64) -> (r: &'static str)
    requires
        d < 10,
    ensures
        r@ == seq![dec_digit(d as int)],
{
    proof {
        reveal_strlit("0");
        reveal_strlit("1");
        reveal_strlit("2");
        reveal_strlit("3");
        reveal_strlit("4");
        reveal_strlit("5");
        reveal_strlit("6");
        reveal_strlit("7");
        reveal_strlit("8");
        reveal_strlit("9");
    }
    let r = match d {
        0 => "0",
        1 => "1",
        2 => "2",
        3 => "3",
        4 => "4",
        5 => "5",
        6 => "6",
        7 => "7",
        8 => "8",
        _ => "9",
    };
    proof {
        assert(r@ =~= seq![dec_digit(d as int)]);
    }
    r
}

/// Renders an unsigned number in decimal.
pub fn dec_u64(n: u64) -> (r: String)
    ensures
        r@ == dec_nat(n as nat),
    decreases n,
{
    if n < 10 {
        String::from_str(dec_digit_str(n))
    } else {
        let mut s = dec_u64(n / 10);
        s.append(dec_digit_str(n % 10));
        proof {
            assert(s@ =~= dec_nat(n as nat));
        }
        s
    }
}

/// The JSON string literal (opening quote, escaped characters, closing
/// quote) that renders the character sequence `s`.
pub uninterp spec fn json_string_lit(s: Seq<char>) -> Seq<char>;

/// Holds when no raw line break appears in `s`.
pub open spec fn single_line(s: Seq<char>) -> bool {
    forall|i: int| 0 <= i < s.len() ==> s[i] != '\n'
}

/// Two pieces join into a single line exactly when each is one.
pub broadcast proof fn lemma_single_line_concat(a: Seq<char>, b: Seq<char>)
    ensures
        #[trigger] single_line(a + b) == (single_line(a) && single_line(b)),
{
    if single_line(a) && single_line(b) {
        assert forall|i: int| 0 <= i < (a + b).len() implies (a + b)[i] != '\n' by {
            if i < a.len() {
                assert((a + b)[i] == a[i]);
            } else {
                assert((a + b)[i] == b[i - a.len()]);
            }
        }
    }
    if single_line(a + b) {
        assert forall|i: int| 0 <= i < a.len() implies a[i] != '\n' by {
            assert((a + b)[i] == a[i]);
        }
        assert forall|i: int| 0 <= i < b.len() implies b[i] != '\n' by {
            assert((a + b)[a.len() + i] == b[i]);
        }
    }
}

/// Relies on `serde_json::to_string` on a string slice: the rendered JSON
/// string literal depends on the characters alone, serializing a string
/// slice never fails, and the escape table replaces every control
/// character (a line feed included), so the literal stays on one line.
#[verifier::external_body]
pub(crate) fn json_quote(s: &str) -> (r: String)
    ensures
        r@ == json_string_lit(s@),
        single_line(r@),
{
    serde_json::to_string(s).unwrap()
}

/// A decimal rendering holds only digits, so it stays on one line.
proof fn lemma_dec_nat_single_line(n: nat)
    ensures
        single_line(dec_nat(n)),
    decreases n,
{
    if n < 10 {
        assert(dec_digit(n as int) != '\n');
        assert forall|i: int| 0 <= i < dec_nat(n).len() implies dec_nat(n)[i] != '\n' by {
            assert(dec_nat(n)[0] == dec_digit(n as int));
        }
    } else {
        lemma_dec_nat_single_line(n / 10);
        let a = dec_nat(n / 10);
        let d = dec_digit((n % 10) as int);
        assert(d != '\n');
        assert forall|i: int| 0 <= i < a.push(d).len() implies a.push(d)[i] != '\n' by {
            if i < a.len() {
                assert(a.push(d)[i] == a[i]);
            } else {
                assert(a.push(d)[i] == d);
            }
        }
    }
}

/// A signed decimal rendering stays on one line.
pub proof fn lemma_dec_int_single_line(i: int)
    ensures
        single_line(dec_int(i)),
{
    broadcast use lemma_single_line_concat;

    if i < 0 {
        lemma_dec_nat_single_line((-i) as nat);
        assert(single_line(seq!['-'])) by {
            assert(seq!['-'][0] == '-');
        }
    } else {
        lemma_dec_nat_single_line(i as nat);
    }
}

/// The single-line JSON rendering of a value. String contents go through
/// `json_string_lit`; arrays and objects are comma-separated without
/// whitespace, and object keys keep their stored order.
pub open spec fn spec_json(v: JsonVal) -> Seq<char>
    decreases v,
{
    match v {
        JsonVal::Null => "null"@,
        JsonVal::Bool(b) => if b {
            "true"@
        } else {
            "false"@
        },
        JsonVal::Int(i) => dec_int(i),
        JsonVal::Str(s) => json_string_lit(s),
        JsonVal::Arr(items) => "["@ + spec_json_items(items) + "]"@,
        JsonVal::Obj(entries) => "{"@ + spec_json_entries(entries) + "}"@,
    }
}

/// The comma-separated renderings of a sequence of values.
pub open spec fn spec_json_items(items: Seq<JsonVal>) -> Seq<char>
    decreases items,
{
    if items.len() <= 0 {
        Seq::empty()
    } else if items.len() == 1 {
        spec_json(items[0])
    } else {
        spec_json_items(items.drop_last()) + ","@ + spec_json(items.last())
    }
}

/// The comma-separated `"key":value` renderings of a sequence of entries.
pub open spec fn spec_json_entries(entries: Seq<(Seq<char>, JsonVal)>) -> Seq<char>
    decreases entries,
{
    if entries.len() <= 0 {
        Seq::empty()
    } else if entries.len() == 1 {
        json_string_lit(entries[0].0) + ":"@ + spec_json(entries[0].1)
    } else {
        spec_json_entries(entries.drop_last()) + ","@ + json_string_lit(entries.last().0)
            + ":"@ + spec_json(entries.last().1)
    }
}

/// Extending a rendered item list by one more item.
proof fn lemma_json_items_step(s: Seq<JsonVal>, i: int)
    requires
        0 <= i < s.len(),
    ensures
        i == 0 ==> spec_json_items(s.take(1)) == spec_json(s[0]),
        i > 0 ==> spec_json_items(s.take(i + 1)) == spec_json_items(s.take(i)) + ","@
            + spec_json(s[i]),
{
    let t = s.take(i + 1);
    assert(t.len() == i + 1);
    if i == 0 {
        assert(t[0] == s[0]);
    } else {
        assert(t.drop_last() =~= s.take(i));
        assert(t.last() == s[i]);
    }
}

/// Extending a rendered entry list by one more entry.
proof fn lemma_json_entries_step(s: Seq<(Seq<char>, JsonVal)>, i: int)
    requires
        0 <= i < s.len(),
    ensures
        i == 0 ==> spec_json_entries(s.take(1)) == json_string_lit(s[0].0) + ":"@
            + spec_json(s[0].1),
        i > 0 ==> spec_json_entries(s.take(i + 1)) == spec_json_entries(s.take(i)) + ","@
            + json_string_lit(s[i].0) + ":"@ + spec_json(s[i].1),
{
    let t = s.take(i + 1);
    assert(t.len() == i + 1);
    if i == 0 {
        assert(t[0] == s[0]);
    } else {
        assert(t.drop_last() =~= s.take(i));
        assert(t.last() == s[i]);
    }
}

/// The fixed keyword and punctuation literals all stay on one line.
pub(crate) proof fn lemma_json_literals_single_line()
    ensures
        single_line("null"@),
        single_line("true"@),
        single_line("false"@),
        single_line("["@),
        single_line("]"@),
        single_line("{"@),
        single_line("}"@),
        single_line(":"@),
        single_line(","@),
{
    reveal_strlit("null");
    reveal_strlit("true");
    reveal_strlit("false");
    reveal_strlit("[");
    reveal_strlit("]");
    reveal_strlit("{");
    reveal_strlit("}");
    reveal_strlit(":");
    reveal_strlit(",");
}

/// Renders a value as single-line JSON.
pub fn render_json(v: &JsonValue) -> (r: String)
    ensures
        r@ == spec_json(v@),
        single_line(r@),
    decreases v,
{
    broadcast use lemma_single_line_concat;

    proof {
        lemma_json_literals_single_line();
    }
    match v {
        JsonValue::Null => String::from_str("null"),
        JsonValue::Bool(b) => if *b {
            String::from_str("true")
        } else {
            String::from_str("false")
        },
        JsonValue::Int(i) => {
            proof {
                lemma_dec_int_single_line(*i as int);
            }
            dec_i64(*i)
        },
        JsonValue::Str(s) => json_quote(s.as_str()),
        JsonValue::Arr(items) => {
            let ghost ivals = arr_view(items@);
            let mut out = String::from_str("[");
            proof {
                assert(out@ =~= "["@ + spec_json_items(ivals.take(0)));
            }
            let n = items.len();
            for idx in 0..n
                invariant
                    n == items.len(),
                    *v == JsonValue::Arr(*items),
                    ivals == arr_view(items@),
                    out@ == "["@ + spec_json_items(ivals.take(idx as int)),
                    single_line(out@),
                decreases n - idx,
            {
                proof {
                    lemma_json_literals_single_line();
                }
                if idx > 0 {
                    out.append(",");
                }
                proof {
                    assert(decreases_to!(*v => (*v)->Arr_0));
                    assert(decreases_to!(*items => items@));
                    assert(decreases_to!(items@ => items@[idx as int]));
                    assert(decreases_to!(*v => items@[idx as int]));
                }
                let piece = render_json(&items[idx]);
                out.append(piece.as_str());
                proof {
                    lemma_json_items_step(ivals, idx as int);
                    assert(ivals[idx as int] == items@[idx as int]@);
                    assert(out@ =~= "["@ + spec_json_items(ivals.take(idx as int + 1)));
                }
            }
            out.append("]");
            proof {
                assert(ivals.take(n as int) =~= ivals);
                assert(out@ =~= "["@ + spec_json_items(ivals) + "]"@);
            }
            out
        },
        JsonValue::Obj(entries) => {
            let ghost evals = obj_view(entries@);
            let mut out = String::from_str("{");
            proof {
                assert(out@ =~= "{"@ + spec_json_entries(evals.take(0)));
            }
            let n = entries.len();
            for idx in 0..n
                invariant
                    n == entries.len(),
                    *v == JsonValue::Obj(*entries),
                    evals == obj_view(entries@),
                    out@ == "{"@ + spec_json_entries(evals.take(idx as int)),
                    single_line(out@),
                decreases n - idx,
            {
                proof {
                    lemma_json_literals_single_line();
                }
                if idx > 0 {
                    out.append(",");
                }
                let entry = &entries[idx];
                let key = json_quote(entry.0.as_str());
                out.append(key.as_str());
                out.append(":");
                proof {
                    assert(decreases_to!(*v => (*v)->Obj_0));
                    assert(decreases_to!(*entries => entries@));
                    assert(decreases_to!(entries@ => entries@[idx as int]));
                    assert(decreases_to!(entries@[idx as int] => entries@[idx as int].1));
                    assert(decreases_to!(*v => entries@[idx as int].1));
                }
                let piece = render_json(&entry.1);
                out.append(piece.as_str());
                proof {
                    lemma_json_entries_step(evals, idx as int);
                    assert(evals[idx as int] == (entries@[idx as int].0@, entries@[idx as int].1@));
                    assert(out@ =~= "{"@ + spec_json_entries(evals.take(idx as int + 1)));
                }
            }
            out.append("}");
            proof {
                assert(evals.take(n as int) =~= evals);
                assert(out@ =~= "{"@ + spec_json_entries(evals) + "}"@);
            }
            out
        },
    }
}

/// Renders a signed number in decimal.
pub fn dec_i64(n: i64) -> (r: String)
    ensures
        r@ == dec_int(n as int),
{
    if n >= 0 {
        dec_u64(n as u64)
    } else {
        let mag: u64 = if n == i64::MIN {
            9223372036854775808u64
        } else {
            (-n) as u64
        };
        let mut s = String::from_str("-");
        let digits = dec_u64(mag);
        s.append(digits.as_str());
        proof {
            reveal_strlit("-");
            assert(s@ =~= dec_int(n as int));
        }
        s
    }
}

} // verus!
