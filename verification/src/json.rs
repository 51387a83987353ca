//! JSON values as the settings and the platforms' responses hold them. An object
//! keeps its entries in key order, as serde_json's map does; a float is held by
//! the text serde_json writes for it.

use vstd::prelude::*;

use serde_json::Value;

use crate::text::{chars_eq, hex_digit, push_decimal, push_str_chars, spec_decimal, str_chars};

verus! {

/// A JSON number: a non-negative integer, a negative integer, or a float given
/// by the shortest text that reads back as it (serde_json's own rendering).
#[derive(Clone, Debug)]
pub enum JsonNumber {
    PosInt(u64),
    NegInt(i64),
    Float(String),
}

/// A JSON number as a value.
pub enum NumberView {
    PosInt(u64),
    NegInt(i64),
    Float(Seq<char>),
}

/// A JSON value.
#[derive(Debug)]
pub enum JsonValue {
    Null,
    Bool(bool),
    Number(JsonNumber),
    String(String),
    Array(Vec<JsonValue>),
    Object(Vec<(String, JsonValue)>),
}

/// A JSON value as a mathematical value; two values are equal exactly when
/// serde_json compares them equal.
pub enum JsonView {
    Null,
    Bool(bool),
    Number(NumberView),
    String(Seq<char>),
    Array(Seq<JsonView>),
    Object(Seq<(Seq<char>, JsonView)>),
}

/// A number as compared: `-0.0` counts as `0.0`; two other floats are equal
/// exactly when their shortest texts are.
pub open spec fn number_view(n: JsonNumber) -> NumberView {
    match n {
        JsonNumber::PosInt(v) => NumberView::PosInt(v),
        JsonNumber::NegInt(v) => NumberView::NegInt(v),
        JsonNumber::Float(t) => if t@ == "-0.0"@ {
            NumberView::Float("0.0"@)
        } else {
            NumberView::Float(t@)
        },
    }
}

/// The value of a JSON value.
pub open spec fn json_view(j: JsonValue) -> JsonView
    decreases j,
{
    match j {
        JsonValue::Null => JsonView::Null,
        JsonValue::Bool(b) => JsonView::Bool(b),
        JsonValue::Number(n) => JsonView::Number(number_view(n)),
        JsonValue::String(s) => JsonView::String(s@),
        JsonValue::Array(v) => JsonView::Array(array_view(v@)),
        JsonValue::Object(v) => JsonView::Object(entries_view(v@)),
    }
}

/// The values of the items of an array.
pub open spec fn array_view(s: Seq<JsonValue>) -> Seq<JsonView>
    decreases s,
{
    Seq::new(
        s.len(),
        |i: int|
            if 0 <= i < s.len() {
                json_view(s[i])
            } else {
                JsonView::Null
            },
    )
}

/// The keys and values of the entries of an object.
pub open spec fn entries_view(s: Seq<(String, JsonValue)>) -> Seq<(Seq<char>, JsonView)>
    decreases s,
{
    Seq::new(
        s.len(),
        |i: int|
            if 0 <= i < s.len() {
                (s[i].0@, json_view(s[i].1))
            } else {
                (Seq::empty(), JsonView::Null)
            },
    )
}

/// The index of the first entry with the key at or after `i`.
pub open spec fn spec_entry_index_from(es: Seq<(Seq<char>, JsonView)>, key: Seq<char>, i: int) -> Option<int>
    decreases es.len() - i,
{
    if i < 0 || i >= es.len() {
        None
    } else if es[i].0 == key {
        Some(i)
    } else {
        spec_entry_index_from(es, key, i + 1)
    }
}

/// The index of the entry with the key.
pub open spec fn spec_entry_index(es: Seq<(Seq<char>, JsonView)>, key: Seq<char>) -> Option<int> {
    spec_entry_index_from(es, key, 0)
}

/// The value under a key of an object's entries.
pub open spec fn spec_obj_get(es: Seq<(Seq<char>, JsonView)>, key: Seq<char>) -> Option<JsonView> {
    match spec_entry_index(es, key) {
        Some(i) => Some(es[i].1),
        None => None,
    }
}

/// The value under a key, or `null` (`get(..).unwrap_or(&Value::Null)`).
pub open spec fn spec_obj_get_or_null(es: Seq<(Seq<char>, JsonView)>, key: Seq<char>) -> JsonView {
    match spec_obj_get(es, key) {
        Some(v) => v,
        None => JsonView::Null,
    }
}

/// Whether key `a` sorts before key `b` (byte order of UTF-8, which is the order
/// of code points).
pub open spec fn spec_key_lt(a: Seq<char>, b: Seq<char>) -> bool
    decreases a.len(),
{
    if a.len() == 0 {
        b.len() > 0
    } else if b.len() == 0 {
        false
    } else if a[0] != b[0] {
        (a[0] as u32) < (b[0] as u32)
    } else {
        spec_key_lt(a.drop_first(), b.drop_first())
    }
}

/// Where a new key goes among the entries from `i` on: before the first entry
/// whose key does not sort before it.
pub open spec fn spec_insert_index_from(es: Seq<(Seq<char>, JsonView)>, key: Seq<char>, i: int) -> int
    decreases es.len() - i,
{
    if i < 0 || i >= es.len() {
        es.len() as int
    } else if !spec_key_lt(es[i].0, key) {
        i
    } else {
        spec_insert_index_from(es, key, i + 1)
    }
}

/// The entries with the key set to the value: replaced in place, or added in
/// key order (`Map::insert`).
pub open spec fn spec_obj_insert(es: Seq<(Seq<char>, JsonView)>, key: Seq<char>, v: JsonView) -> Seq<
    (Seq<char>, JsonView),
> {
    match spec_entry_index(es, key) {
        Some(i) => es.update(i, (key, v)),
        None => es.insert(spec_insert_index_from(es, key, 0), (key, v)),
    }
}

/// The entries without the key (`Map::remove`).
pub open spec fn spec_obj_remove(es: Seq<(Seq<char>, JsonView)>, key: Seq<char>) -> Seq<(Seq<char>, JsonView)> {
    match spec_entry_index(es, key) {
        Some(i) => es.remove(i),
        None => es,
    }
}

/// The text of a string value (`Value::as_str`).
pub open spec fn spec_as_str(v: JsonView) -> Option<Seq<char>> {
    match v {
        JsonView::String(s) => Some(s),
        _ => None,
    }
}

/// The flag of a boolean value (`Value::as_bool`).
pub open spec fn spec_as_bool(v: JsonView) -> Option<bool> {
    match v {
        JsonView::Bool(b) => Some(b),
        _ => None,
    }
}

/// A non-negative integer value (`Value::as_u64`).
pub open spec fn spec_as_u64(v: JsonView) -> Option<u64> {
    match v {
        JsonView::Number(NumberView::PosInt(n)) => Some(n),
        _ => None,
    }
}

/// An integer value that fits in an `i64` (`Value::as_i64`).
pub open spec fn spec_as_i64(v: JsonView) -> Option<i64> {
    match v {
        JsonView::Number(NumberView::PosInt(n)) => if n <= i64::MAX {
            Some(n as i64)
        } else {
            None
        },
        JsonView::Number(NumberView::NegInt(n)) => Some(n),
        _ => None,
    }
}

/// The value under a key, or `null` when there is none or the value is not an
/// object (`value[key]`).
pub open spec fn spec_index(v: JsonView, key: Seq<char>) -> JsonView {
    match spec_get(v, key) {
        Some(x) => x,
        None => JsonView::Null,
    }
}

/// The entries of an object value (`Value::as_object`).
pub open spec fn spec_as_object(v: JsonView) -> Option<Seq<(Seq<char>, JsonView)>> {
    match v {
        JsonView::Object(es) => Some(es),
        _ => None,
    }
}

/// The items of an array value (`Value::as_array`).
pub open spec fn spec_as_array(v: JsonView) -> Option<Seq<JsonView>> {
    match v {
        JsonView::Array(items) => Some(items),
        _ => None,
    }
}

/// The value under a key of an object value; `None` for any other value
/// (`Value::get` with a key).
pub open spec fn spec_get(v: JsonView, key: Seq<char>) -> Option<JsonView> {
    match v {
        JsonView::Object(es) => spec_obj_get(es, key),
        _ => None,
    }
}

/// The index of an entry of an object's entries is that of its key.
pub proof fn lemma_entry_index_from(es: Seq<(Seq<char>, JsonView)>, key: Seq<char>, from: int)
    requires
        0 <= from,
    ensures
        match spec_entry_index_from(es, key, from) {
            Some(i) => from <= i < es.len() && es[i].0 == key && forall|k: int|
                from <= k < i ==> (#[trigger] es[k]).0 != key,
            None => forall|k: int| from <= k < es.len() ==> (#[trigger] es[k]).0 != key,
        },
    decreases es.len() - from,
{
    if from < es.len() && es[from].0 != key {
        lemma_entry_index_from(es, key, from + 1);
    }
}

/// Where a new key goes lies within the entries.
pub proof fn lemma_insert_index_bounds(es: Seq<(Seq<char>, JsonView)>, key: Seq<char>, from: int)
    requires
        0 <= from <= es.len(),
    ensures
        from <= spec_insert_index_from(es, key, from) <= es.len(),
    decreases es.len() - from,
{
    if from < es.len() && spec_key_lt(es[from].0, key) {
        lemma_insert_index_bounds(es, key, from + 1);
    }
}

/// Whether no key occurs twice among the entries, as in serde_json's map.
pub open spec fn keys_unique(es: Seq<(Seq<char>, JsonView)>) -> bool {
    forall|i: int, j: int| 0 <= i < j < es.len() ==> (#[trigger] es[i]).0 != (#[trigger] es[j]).0
}

/// The first entry with the key is the one found.
pub proof fn lemma_entry_index_is_first(es: Seq<(Seq<char>, JsonView)>, key: Seq<char>, i: int, from: int)
    requires
        0 <= from <= i < es.len(),
        es[i].0 == key,
        forall|k: int| from <= k < i ==> (#[trigger] es[k]).0 != key,
    ensures
        spec_entry_index_from(es, key, from) == Some(i),
    decreases i - from,
{
    if from < i {
        lemma_entry_index_is_first(es, key, i, from + 1);
    }
}

/// No entry has the key, so none is found.
pub proof fn lemma_entry_index_absent(es: Seq<(Seq<char>, JsonView)>, key: Seq<char>, from: int)
    requires
        0 <= from,
        forall|k: int| from <= k < es.len() ==> (#[trigger] es[k]).0 != key,
    ensures
        spec_entry_index_from(es, key, from) is None,
    decreases es.len() - from,
{
    if from < es.len() {
        lemma_entry_index_absent(es, key, from + 1);
    }
}

/// A value set under a key is found under it.
pub proof fn lemma_get_after_insert(es: Seq<(Seq<char>, JsonView)>, key: Seq<char>, v: JsonView)
    ensures
        spec_obj_get(spec_obj_insert(es, key, v), key) == Some(v),
{
    lemma_entry_index_from(es, key, 0);
    let es2 = spec_obj_insert(es, key, v);
    match spec_entry_index(es, key) {
        Some(i) => {
            lemma_entry_index_is_first(es2, key, i, 0);
        },
        None => {
            let p = spec_insert_index_from(es, key, 0);
            lemma_insert_index_bounds(es, key, 0);
            assert forall|k: int| 0 <= k < p implies (#[trigger] es2[k]).0 != key by {
                assert(es2[k] == es[k]);
            }
            lemma_entry_index_is_first(es2, key, p, 0);
        },
    }
}

/// Setting one key leaves the value under another key alone.
pub proof fn lemma_get_after_insert_other(es: Seq<(Seq<char>, JsonView)>, key: Seq<char>, v: JsonView, other: Seq<char>)
    requires
        other != key,
    ensures
        spec_obj_get(spec_obj_insert(es, key, v), other) == spec_obj_get(es, other),
{
    lemma_entry_index_from(es, key, 0);
    lemma_entry_index_from(es, other, 0);
    let es2 = spec_obj_insert(es, key, v);
    match spec_entry_index(es, key) {
        Some(i) => {
            match spec_entry_index(es, other) {
                Some(j) => {
                    assert forall|k: int| 0 <= k < j implies (#[trigger] es2[k]).0 != other by {
                        if k != i {
                            assert(es2[k] == es[k]);
                        }
                    }
                    lemma_entry_index_is_first(es2, other, j, 0);
                },
                None => {
                    assert forall|k: int| 0 <= k < es2.len() implies (#[trigger] es2[k]).0 != other by {
                        if k != i {
                            assert(es2[k] == es[k]);
                        }
                    }
                    lemma_entry_index_absent(es2, other, 0);
                },
            }
        },
        None => {
            let p = spec_insert_index_from(es, key, 0);
            lemma_insert_index_bounds(es, key, 0);
            match spec_entry_index(es, other) {
                Some(j) => {
                    let j2 = if j < p { j } else { j + 1 };
                    assert(es2[j2] == es[j]);
                    assert forall|k: int| 0 <= k < j2 implies (#[trigger] es2[k]).0 != other by {
                        if k < p {
                            assert(es2[k] == es[k]);
                        } else if k > p {
                            assert(es2[k] == es[k - 1]);
                        }
                    }
                    lemma_entry_index_is_first(es2, other, j2, 0);
                },
                None => {
                    assert forall|k: int| 0 <= k < es2.len() implies (#[trigger] es2[k]).0 != other by {
                        if k < p {
                            assert(es2[k] == es[k]);
                        } else if k > p {
                            assert(es2[k] == es[k - 1]);
                        }
                    }
                    lemma_entry_index_absent(es2, other, 0);
                },
            }
        },
    }
}

/// Removing one key leaves the value under another key alone.
pub proof fn lemma_get_after_remove_other(es: Seq<(Seq<char>, JsonView)>, key: Seq<char>, other: Seq<char>)
    requires
        other != key,
    ensures
        spec_obj_get(spec_obj_remove(es, key), other) == spec_obj_get(es, other),
{
    lemma_entry_index_from(es, key, 0);
    lemma_entry_index_from(es, other, 0);
    let es2 = spec_obj_remove(es, key);
    match spec_entry_index(es, key) {
        Some(i) => {
            match spec_entry_index(es, other) {
                Some(j) => {
                    let j2 = if j < i { j } else { j - 1 };
                    assert(es2[j2] == es[j]);
                    assert forall|k: int| 0 <= k < j2 implies (#[trigger] es2[k]).0 != other by {
                        if k < i {
                            assert(es2[k] == es[k]);
                        } else {
                            assert(es2[k] == es[k + 1]);
                        }
                    }
                    lemma_entry_index_is_first(es2, other, j2, 0);
                },
                None => {
                    assert forall|k: int| 0 <= k < es2.len() implies (#[trigger] es2[k]).0 != other by {
                        if k < i {
                            assert(es2[k] == es[k]);
                        } else {
                            assert(es2[k] == es[k + 1]);
                        }
                    }
                    lemma_entry_index_absent(es2, other, 0);
                },
            }
        },
        None => {},
    }
}

/// Removing a key of entries with unique keys leaves no value under it, and the
/// keys stay unique.
pub proof fn lemma_get_after_remove(es: Seq<(Seq<char>, JsonView)>, key: Seq<char>)
    requires
        keys_unique(es),
    ensures
        spec_obj_get(spec_obj_remove(es, key), key) is None,
        keys_unique(spec_obj_remove(es, key)),
{
    lemma_entry_index_from(es, key, 0);
    let es2 = spec_obj_remove(es, key);
    match spec_entry_index(es, key) {
        Some(i) => {
            assert forall|k: int| 0 <= k < es2.len() implies (#[trigger] es2[k]).0 != key by {
                if k < i {
                    assert(es2[k] == es[k]);
                } else {
                    assert(es2[k] == es[k + 1]);
                }
            }
            lemma_entry_index_absent(es2, key, 0);
            assert forall|a: int, b: int| 0 <= a < b < es2.len() implies (#[trigger] es2[a]).0 != (#[trigger] es2[b]).0 by {
                let a0 = if a < i { a } else { a + 1 };
                let b0 = if b < i { b } else { b + 1 };
                assert(es2[a] == es[a0]);
                assert(es2[b] == es[b0]);
            }
        },
        None => {
            lemma_entry_index_absent(es2, key, 0);
        },
    }
}

/// The text of a float as compared: `-0.0` counts as `0.0`.
fn normalized_float(t: &String) -> (r: Vec<char>)
    ensures
        r@ == (if t@ == "-0.0"@ {
            "0.0"@
        } else {
            t@
        }),
{
    let chars = str_chars(t.as_str());
    let neg_zero = str_chars("-0.0");
    if chars_eq(chars.as_slice(), neg_zero.as_slice()) {
        str_chars("0.0")
    } else {
        chars
    }
}

/// Whether two numbers are equal as serde_json compares them.
fn number_eq(a: &JsonNumber, b: &JsonNumber) -> (r: bool)
    ensures
        r == (number_view(*a) == number_view(*b)),
{
    match (a, b) {
        (JsonNumber::PosInt(x), JsonNumber::PosInt(y)) => *x == *y,
        (JsonNumber::NegInt(x), JsonNumber::NegInt(y)) => *x == *y,
        (JsonNumber::Float(x), JsonNumber::Float(y)) => {
            let xs = normalized_float(x);
            let ys = normalized_float(y);
            chars_eq(xs.as_slice(), ys.as_slice())
        },
        _ => false,
    }
}

/// A copy of a number.
pub fn copy_number(n: &JsonNumber) -> (r: JsonNumber)
    ensures
        number_view(r) == number_view(*n),
        r is Float ==> n is Float && r->Float_0@ == n->Float_0@,
        r !is Float ==> r == *n,
{
    match n {
        JsonNumber::PosInt(v) => JsonNumber::PosInt(*v),
        JsonNumber::NegInt(v) => JsonNumber::NegInt(*v),
        JsonNumber::Float(t) => JsonNumber::Float(t.clone()),
    }
}

/// Whether two JSON values are equal as serde_json compares them.
pub fn json_eq(a: &JsonValue, b: &JsonValue) -> (r: bool)
    ensures
        r == (json_view(*a) == json_view(*b)),
    decreases a,
{
    match (a, b) {
        (JsonValue::Null, JsonValue::Null) => true,
        (JsonValue::Bool(x), JsonValue::Bool(y)) => *x == *y,
        (JsonValue::Number(x), JsonValue::Number(y)) => number_eq(x, y),
        (JsonValue::String(x), JsonValue::String(y)) => {
            let xs = str_chars(x.as_str());
            let ys = str_chars(y.as_str());
            chars_eq(xs.as_slice(), ys.as_slice())
        },
        (JsonValue::Array(x), JsonValue::Array(y)) => {
            if x.len() != y.len() {
                assert(array_view(x@).len() != array_view(y@).len());
                return false;
            }
            let mut i: usize = 0;
            while i < x.len()
                invariant
                    i <= x.len(),
                    x.len() == y.len(),
                    *a == JsonValue::Array(*x),
                    *b == JsonValue::Array(*y),
                    forall|k: int| 0 <= k < i ==> json_view(#[trigger] x@[k]) == json_view(y@[k]),
                decreases x.len() - i,
            {
                proof {
                    assert(decreases_to!(*a => (*a)->Array_0));
                    assert(decreases_to!(*x => x[i as int]));
                    assert(decreases_to!(*a => x[i as int]));
                }
                if !json_eq(&x[i], &y[i]) {
                    assert(array_view(x@)[i as int] != array_view(y@)[i as int]);
                    return false;
                }
                i = i + 1;
            }
            assert(array_view(x@) =~= array_view(y@));
            true
        },
        (JsonValue::Object(x), JsonValue::Object(y)) => {
            if x.len() != y.len() {
                assert(entries_view(x@).len() != entries_view(y@).len());
                return false;
            }
            let mut i: usize = 0;
            while i < x.len()
                invariant
                    i <= x.len(),
                    x.len() == y.len(),
                    *a == JsonValue::Object(*x),
                    *b == JsonValue::Object(*y),
                    forall|k: int|
                        0 <= k < i ==> (#[trigger] x@[k]).0@ == y@[k].0@ && json_view(x@[k].1) == json_view(
                            y@[k].1,
                        ),
                decreases x.len() - i,
            {
                proof {
                    assert(decreases_to!(*a => (*a)->Object_0));
                    assert(decreases_to!(*x => x[i as int]));
                    assert(decreases_to!(x[i as int] => x[i as int].1));
                    assert(decreases_to!(*a => x[i as int].1));
                }
                let xk = str_chars(x[i].0.as_str());
                let yk = str_chars(y[i].0.as_str());
                if !chars_eq(xk.as_slice(), yk.as_slice()) {
                    assert(entries_view(x@)[i as int] != entries_view(y@)[i as int]);
                    return false;
                }
                if !json_eq(&x[i].1, &y[i].1) {
                    assert(entries_view(x@)[i as int] != entries_view(y@)[i as int]);
                    return false;
                }
                i = i + 1;
            }
            assert(entries_view(x@) =~= entries_view(y@));
            true
        },
        _ => false,
    }
}

/// A copy of a JSON value.
pub fn copy_json(j: &JsonValue) -> (r: JsonValue)
    ensures
        json_view(r) == json_view(*j),
    decreases j,
{
    match j {
        JsonValue::Null => JsonValue::Null,
        JsonValue::Bool(b) => JsonValue::Bool(*b),
        JsonValue::Number(n) => JsonValue::Number(copy_number(n)),
        JsonValue::String(s) => JsonValue::String(s.clone()),
        JsonValue::Array(v) => {
            let mut out: Vec<JsonValue> = Vec::new();
            let mut i: usize = 0;
            while i < v.len()
                invariant
                    i <= v.len(),
                    out@.len() == i,
                    *j == JsonValue::Array(*v),
                    forall|k: int| 0 <= k < i ==> json_view(#[trigger] out@[k]) == json_view(v@[k]),
                decreases v.len() - i,
            {
                proof {
                    assert(decreases_to!(*j => (*j)->Array_0));
                    assert(decreases_to!(*v => v[i as int]));
                    assert(decreases_to!(*j => v[i as int]));
                }
                let c = copy_json(&v[i]);
                out.push(c);
                i = i + 1;
            }
            assert(array_view(out@) =~= array_view(v@));
            JsonValue::Array(out)
        },
        JsonValue::Object(v) => {
            let out = copy_entries(v);
            JsonValue::Object(out)
        },
    }
}

/// A copy of an object's entries.
pub fn copy_entries(v: &Vec<(String, JsonValue)>) -> (r: Vec<(String, JsonValue)>)
    ensures
        entries_view(r@) == entries_view(v@),
    decreases v,
{
    let mut out: Vec<(String, JsonValue)> = Vec::new();
    let mut i: usize = 0;
    while i < v.len()
        invariant
            i <= v.len(),
            out@.len() == i,
            forall|k: int|
                0 <= k < i ==> (#[trigger] out@[k]).0@ == v@[k].0@ && json_view(out@[k].1) == json_view(
                    v@[k].1,
                ),
        decreases v.len() - i,
    {
        proof {
            assert(decreases_to!(*v => v[i as int]));
            assert(decreases_to!(v[i as int] => v[i as int].1));
            assert(decreases_to!(*v => v[i as int].1));
        }
        let c = copy_json(&v[i].1);
        out.push((v[i].0.clone(), c));
        i = i + 1;
    }
    assert(entries_view(out@) =~= entries_view(v@));
    out
}

/// The index of the entry with the key.
pub fn entry_index(es: &Vec<(String, JsonValue)>, key: &str) -> (r: Option<usize>)
    ensures
        match spec_entry_index(entries_view(es@), key@) {
            Some(i) => r is Some && r->0 == i && 0 <= i < es@.len(),
            None => r is None,
        },
{
    proof {
        lemma_entry_index_from(entries_view(es@), key@, 0);
    }
    let k = str_chars(key);
    let mut i: usize = 0;
    while i < es.len()
        invariant
            i <= es.len(),
            k@ == key@,
            spec_entry_index(entries_view(es@), key@) == spec_entry_index_from(entries_view(es@), key@, i as int),
        decreases es.len() - i,
    {
        let ek = str_chars(es[i].0.as_str());
        if chars_eq(ek.as_slice(), k.as_slice()) {
            return Some(i);
        }
        i = i + 1;
    }
    None
}

/// The value under a key of an object's entries (`Map::get`).
pub fn obj_get<'a>(es: &'a Vec<(String, JsonValue)>, key: &str) -> (r: Option<&'a JsonValue>)
    ensures
        match spec_obj_get(entries_view(es@), key@) {
            Some(v) => r is Some && json_view(*r->0) == v,
            None => r is None,
        },
{
    match entry_index(es, key) {
        Some(i) => Some(&es[i].1),
        None => None,
    }
}

/// Whether key `a` sorts before key `b`.
fn key_lt(a: &[char], b: &[char]) -> (r: bool)
    ensures
        r == spec_key_lt(a@, b@),
{
    let mut i: usize = 0;
    assert(a@.skip(0) =~= a@);
    assert(b@.skip(0) =~= b@);
    while i < a.len() && i < b.len() && a[i] == b[i]
        invariant
            i <= a.len(),
            i <= b.len(),
            spec_key_lt(a@, b@) == spec_key_lt(a@.skip(i as int), b@.skip(i as int)),
        decreases a.len() - i,
    {
        assert(a@.skip(i as int).drop_first() =~= a@.skip(i + 1));
        assert(b@.skip(i as int).drop_first() =~= b@.skip(i + 1));
        i = i + 1;
    }
    if i == a.len() {
        i < b.len()
    } else if i == b.len() {
        false
    } else {
        (a[i] as u32) < (b[i] as u32)
    }
}

/// Sets the value under a key: replaced in place, or added in key order
/// (`Map::insert`).
pub fn obj_insert(es: &mut Vec<(String, JsonValue)>, key: String, v: JsonValue)
    ensures
        entries_view(final(es)@) == spec_obj_insert(entries_view(old(es)@), key@, json_view(v)),
{
    let ghost before = es@;
    let ghost ev = entries_view(before);
    match entry_index(es, key.as_str()) {
        Some(i) => {
            es.set(i, (key, v));
            assert(entries_view(es@) =~= ev.update(i as int, (key@, json_view(v))));
        },
        None => {
            let k = str_chars(key.as_str());
            let mut i: usize = 0;
            while i < es.len()
                invariant
                    i <= es.len(),
                    es@ == before,
                    ev == entries_view(before),
                    k@ == key@,
                    spec_insert_index_from(ev, key@, 0) == spec_insert_index_from(ev, key@, i as int),
                ensures
                    i <= es.len(),
                    es@ == before,
                    spec_insert_index_from(ev, key@, 0) == i,
                decreases es.len() - i,
            {
                let ek = str_chars(es[i].0.as_str());
                if !key_lt(ek.as_slice(), k.as_slice()) {
                    break;
                }
                i = i + 1;
            }
            proof {
                lemma_insert_index_bounds(ev, key@, 0);
            }
            es.insert(i, (key, v));
            assert(entries_view(es@) =~= ev.insert(i as int, (key@, json_view(v))));
        },
    }
}

/// Removes the entry with the key, returning its value (`Map::remove`).
pub fn obj_remove(es: &mut Vec<(String, JsonValue)>, key: &str) -> (r: Option<JsonValue>)
    ensures
        entries_view(final(es)@) == spec_obj_remove(entries_view(old(es)@), key@),
        match spec_obj_get(entries_view(old(es)@), key@) {
            Some(v) => r is Some && json_view(r->0) == v,
            None => r is None,
        },
{
    let ghost before = es@;
    match entry_index(es, key) {
        Some(i) => {
            let (_, value) = es.remove(i);
            assert(entries_view(es@) =~= entries_view(before).remove(i as int));
            Some(value)
        },
        None => None,
    }
}

impl JsonValue {
    /// The text of a string value.
    pub fn as_str(&self) -> (r: Option<&str>)
        ensures
            match spec_as_str(json_view(*self)) {
                Some(s) => r is Some && r->0@ == s,
                None => r is None,
            },
    {
        match self {
            JsonValue::String(s) => Some(s.as_str()),
            _ => None,
        }
    }

    /// The flag of a boolean value.
    pub fn as_bool(&self) -> (r: Option<bool>)
        ensures
            r == spec_as_bool(json_view(*self)),
    {
        match self {
            JsonValue::Bool(b) => Some(*b),
            _ => None,
        }
    }

    /// A non-negative integer value.
    pub fn as_u64(&self) -> (r: Option<u64>)
        ensures
            r == spec_as_u64(json_view(*self)),
    {
        match self {
            JsonValue::Number(JsonNumber::PosInt(n)) => Some(*n),
            _ => None,
        }
    }

    /// An integer value that fits in an `i64`.
    pub fn as_i64(&self) -> (r: Option<i64>)
        ensures
            r == spec_as_i64(json_view(*self)),
    {
        match self {
            JsonValue::Number(JsonNumber::PosInt(n)) => if *n <= i64::MAX as u64 {
                Some(*n as i64)
            } else {
                None
            },
            JsonValue::Number(JsonNumber::NegInt(n)) => Some(*n),
            _ => None,
        }
    }

    /// Whether the value is a boolean.
    pub fn is_boolean(&self) -> (r: bool)
        ensures
            r == json_view(*self) is Bool,
    {
        match self {
            JsonValue::Bool(_) => true,
            _ => false,
        }
    }

    /// Whether the value is a string.
    pub fn is_string(&self) -> (r: bool)
        ensures
            r == json_view(*self) is String,
    {
        match self {
            JsonValue::String(_) => true,
            _ => false,
        }
    }

    /// The items of an array value.
    pub fn as_array(&self) -> (r: Option<&Vec<JsonValue>>)
        ensures
            match spec_as_array(json_view(*self)) {
                Some(items) => r is Some && array_view(r->0@) == items,
                None => r is None,
            },
    {
        match self {
            JsonValue::Array(v) => Some(v),
            _ => None,
        }
    }

    /// The entries of an object value.
    pub fn as_object(&self) -> (r: Option<&Vec<(String, JsonValue)>>)
        ensures
            match spec_as_object(json_view(*self)) {
                Some(es) => r is Some && entries_view(r->0@) == es,
                None => r is None,
            },
    {
        match self {
            JsonValue::Object(v) => Some(v),
            _ => None,
        }
    }

    /// The value under a key of an object value.
    pub fn get(&self, key: &str) -> (r: Option<&JsonValue>)
        ensures
            match spec_get(json_view(*self), key@) {
                Some(v) => r is Some && json_view(*r->0) == v,
                None => r is None,
            },
    {
        match self {
            JsonValue::Object(es) => obj_get(es, key),
            _ => None,
        }
    }
}

/// A number exactly as stored, with no two floats identified.
pub open spec fn number_exact_view(n: JsonNumber) -> NumberView {
    match n {
        JsonNumber::PosInt(v) => NumberView::PosInt(v),
        JsonNumber::NegInt(v) => NumberView::NegInt(v),
        JsonNumber::Float(t) => NumberView::Float(t@),
    }
}

/// A value exactly as stored: as `json_view`, but `-0.0` stays apart from
/// `0.0`, since serde_json writes them differently.
pub open spec fn json_exact_view(j: JsonValue) -> JsonView
    decreases j,
{
    match j {
        JsonValue::Null => JsonView::Null,
        JsonValue::Bool(b) => JsonView::Bool(b),
        JsonValue::Number(n) => JsonView::Number(number_exact_view(n)),
        JsonValue::String(s) => JsonView::String(s@),
        JsonValue::Array(v) => JsonView::Array(
            Seq::new(v@.len(), |i: int| if 0 <= i < v@.len() { json_exact_view(v@[i]) } else { JsonView::Null }),
        ),
        JsonValue::Object(v) => JsonView::Object(
            Seq::new(
                v@.len(),
                |i: int| if 0 <= i < v@.len() { (v@[i].0@, json_exact_view(v@[i].1)) } else { (Seq::empty(), JsonView::Null) },
            ),
        ),
    }
}

/// What serde_json's `Display` writes for a value held exactly as given.
pub uninterp spec fn serde_json_text(v: JsonView) -> Seq<char>;

/// A value in compact JSON, as serde_json's `Display` writes it.
pub open spec fn json_text(j: JsonValue) -> Seq<char> {
    serde_json_text(json_exact_view(j))
}

/// The library's value held as serde_json's value, item for item; a float is
/// read back from its text.
#[verifier::external_body]
fn json_to_serde(j: &JsonValue) -> (r: Value) {
    match j {
        JsonValue::Null => Value::Null,
        JsonValue::Bool(b) => Value::Bool(*b),
        JsonValue::Number(JsonNumber::PosInt(u)) => Value::from(*u),
        JsonValue::Number(JsonNumber::NegInt(i)) => Value::from(*i),
        JsonValue::Number(JsonNumber::Float(t)) => serde_json::from_str(t).unwrap_or(Value::Null),
        JsonValue::String(t) => Value::String(t.clone()),
        JsonValue::Array(a) => Value::Array(a.iter().map(json_to_serde).collect()),
        JsonValue::Object(es) => Value::Object(es.iter().map(|e| (e.0.clone(), json_to_serde(&e.1))).collect()),
    }
}

/// Writes a value in compact JSON with serde_json's `Display`. The contract
/// claims that the text is the named result for the value as stored.
#[verifier::external_body]
pub(crate) fn json_to_text(j: &JsonValue) -> (r: String)
    ensures
        r@ == serde_json_text(json_exact_view(*j)),
{
    json_to_serde(j).to_string()
}

/// The value under a key of an object value, as it is stored.
pub open spec fn spec_value_get(j: JsonValue, key: Seq<char>) -> Option<JsonValue> {
    match j {
        JsonValue::Object(v) => match spec_entry_index(entries_view(v@), key) {
            Some(i) => Some(v@[i].1),
            None => None,
        },
        _ => None,
    }
}

/// The value under a key (`value[key]`), `None` standing for `null`.
pub open spec fn spec_value_index(o: Option<JsonValue>, key: Seq<char>) -> Option<JsonValue> {
    match o {
        Some(j) => spec_value_get(j, key),
        None => None,
    }
}

/// The value behind an optional reference.
pub open spec fn opt_deref(o: Option<&JsonValue>) -> Option<JsonValue> {
    match o {
        Some(x) => Some(*x),
        None => None,
    }
}

/// The value of an optional value, `null` for `None`.
pub open spec fn opt_view(o: Option<JsonValue>) -> JsonView {
    match o {
        Some(x) => json_view(x),
        None => JsonView::Null,
    }
}

/// The value under a key of an object value, as it is stored.
pub fn value_get<'a>(j: &'a JsonValue, key: &str) -> (r: Option<&'a JsonValue>)
    ensures
        opt_deref(r) == spec_value_get(*j, key@),
        opt_view(opt_deref(r)) == spec_index(json_view(*j), key@),
{
    match j {
        JsonValue::Object(es) => match entry_index(es, key) {
            Some(i) => Some(&es[i].1),
            None => None,
        },
        _ => None,
    }
}

/// The value under a key (`value[key]`), `None` standing for `null`.
pub fn index_opt<'a>(v: Option<&'a JsonValue>, key: &str) -> (r: Option<&'a JsonValue>)
    ensures
        opt_deref(r) == spec_value_index(opt_deref(v), key@),
        opt_view(opt_deref(r)) == spec_index(opt_view(opt_deref(v)), key@),
{
    match v {
        Some(x) => value_get(x, key),
        None => None,
    }
}

/// The text of an optional string value.
pub fn opt_as_str<'a>(v: Option<&'a JsonValue>) -> (r: Option<&'a str>)
    ensures
        match spec_as_str(opt_view(opt_deref(v))) {
            Some(s) => r is Some && r->0@ == s,
            None => r is None,
        },
{
    match v {
        Some(x) => x.as_str(),
        None => None,
    }
}

/// An optional non-negative integer value.
pub fn opt_as_u64(v: Option<&JsonValue>) -> (r: Option<u64>)
    ensures
        r == spec_as_u64(opt_view(opt_deref(v))),
{
    match v {
        Some(x) => x.as_u64(),
        None => None,
    }
}

/// An optional integer value that fits in an `i64`.
pub fn opt_as_i64(v: Option<&JsonValue>) -> (r: Option<i64>)
    ensures
        r == spec_as_i64(opt_view(opt_deref(v))),
{
    match v {
        Some(x) => x.as_i64(),
        None => None,
    }
}

/// The items of an optional array value, as they are stored.
pub fn opt_as_array<'a>(v: Option<&'a JsonValue>) -> (r: Option<&'a Vec<JsonValue>>)
    ensures
        match opt_deref(v) {
            Some(JsonValue::Array(items)) => r is Some && r->0@ == items@,
            _ => r is None,
        },
{
    match v {
        Some(JsonValue::Array(items)) => Some(items),
        _ => None,
    }
}

/// The compact JSON text of an optional value, `null` for `None`.
pub fn opt_json_to_text(v: Option<&JsonValue>) -> (r: String)
    ensures
        r@ == (match opt_deref(v) {
            Some(x) => json_text(x),
            None => "null"@,
        }),
{
    match v {
        Some(x) => json_to_text(x),
        None => String::from_str("null"),
    }
}

/// The entries of an object built by setting the pairs in order, as the `json!`
/// macro builds one.
pub open spec fn spec_object_of(pairs: Seq<(Seq<char>, JsonView)>) -> Seq<(Seq<char>, JsonView)>
    decreases pairs.len(),
{
    if pairs.len() == 0 {
        Seq::empty()
    } else {
        spec_obj_insert(spec_object_of(pairs.drop_last()), pairs.last().0, pairs.last().1)
    }
}

/// Sets one more pair of an object being built.
pub fn insert_pair(
    es: &mut Vec<(String, JsonValue)>,
    pairs: Ghost<Seq<(Seq<char>, JsonView)>>,
    key: &str,
    value: JsonValue,
)
    requires
        entries_view(old(es)@) == spec_object_of(pairs@),
    ensures
        entries_view(final(es)@) == spec_object_of(pairs@.push((key@, json_view(value)))),
{
    let ghost v = json_view(value);
    obj_insert(es, String::from_str(key), value);
    assert(pairs@.push((key@, v)).drop_last() =~= pairs@);
}

/// A string value holding the text.
pub fn json_string(s: &str) -> (r: JsonValue)
    ensures
        json_view(r) == JsonView::String(s@),
{
    JsonValue::String(String::from_str(s))
}

/// serde_json's value type, carried through the parse below.
#[verifier::external_type_specification]
#[verifier::external_body]
pub struct ExSerdeJsonValue(serde_json::Value);

/// What `serde_json::from_str::<serde_json::Value>` gives for a text: the value
/// read, or the text of its error.
pub uninterp spec fn parsed_json(text: Seq<char>) -> Result<JsonView, Seq<char>>;

/// serde_json's value held as the library's value, item for item; a float
/// keeps the text serde_json writes for it.
#[verifier::external_body]
fn json_from_serde(value: &serde_json::Value) -> (r: JsonValue) {
    match value {
        Value::Null => JsonValue::Null,
        Value::Bool(b) => JsonValue::Bool(*b),
        Value::Number(n) => JsonValue::Number(match (n.as_u64(), n.as_i64()) {
            (Some(u), _) => JsonNumber::PosInt(u),
            (_, Some(i)) => JsonNumber::NegInt(i),
            _ => JsonNumber::Float(n.to_string()),
        }),
        Value::String(t) => JsonValue::String(t.clone()),
        Value::Array(a) => JsonValue::Array(a.iter().map(json_from_serde).collect()),
        Value::Object(m) => JsonValue::Object(m.iter().map(|e| (e.0.clone(), json_from_serde(e.1))).collect()),
    }
}

/// Parses JSON text with `serde_json::from_str` into serde_json's value and
/// holds it as the library's value. The contract claims that the result is the
/// named parse of the text: its value when the text is JSON, else serde_json's
/// error text.
#[verifier::external_body]
pub(crate) fn parse_json_text(text: &str) -> (r: Result<JsonValue, String>)
    ensures
        match parsed_json(text@) {
            Ok(v) => r is Ok && json_view(r->Ok_0) == v,
            Err(e) => r is Err && r->Err_0@ == e,
        },
{
    match serde_json::from_str::<serde_json::Value>(text) {
        Ok(value) => Ok(json_from_serde(&value)),
        Err(error) => Err(error.to_string()),
    }
}

/// The message for a response body that is not JSON.
pub open spec fn response_parse_message(error: Seq<char>) -> Seq<char> {
    "解析响应失败: "@ + error
}

/// Reads a platform's response body as JSON; a body that is not JSON gives
/// `解析响应失败: ` and serde_json's error.
pub fn parse_response_json(body: &str) -> (r: Result<JsonValue, String>)
    ensures
        match parsed_json(body@) {
            Ok(v) => r is Ok && json_view(r->Ok_0) == v,
            Err(e) => r is Err && r->Err_0@ == response_parse_message(e),
        },
{
    match parse_json_text(body) {
        Ok(v) => Ok(v),
        Err(e) => {
            let mut m = String::from_str("解析响应失败: ");
            m.append(e.as_str());
            proof {
                reveal_strlit("解析响应失败: ");
            }
            Err(m)
        },
    }
}

} // verus!
