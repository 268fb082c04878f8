//! JSON values as the planners read them.
//!
//! A value is held as plain data: numbers keep their JSON text (and, when
//! they are integers that fit, their value), arrays and objects keep their
//! items in order together with their compact JSON text. The caller that
//! parses JSON fills these in; the library only reads them.
use vstd::prelude::*;

use crate::text::{owned, str_eq, trim, trim_str};

verus! {

/// One JSON value.
#[derive(Debug)]
pub enum Json {
    Null,
    Bool(bool),
    /// A number: its JSON text; its value when it is a whole number within
    /// `i64`; and its value cast to `i64` as Rust's `as` does (truncating
    /// toward zero, saturating at the bounds).
    Number { text: String, whole: Option<i64>, trunc: i64 },
    Str(String),
    /// An array: its items and its compact JSON text.
    Array { items: Vec<Json>, text: String },
    /// An object: its entries (keys distinct, in order) and its compact
    /// JSON text.
    Object { entries: Vec<(String, Json)>, text: String },
}

/// The value stored under `k` (the first entry with that key).
pub open spec fn entries_get(es: Seq<(String, Json)>, k: Seq<char>) -> Option<Json>
    decreases es.len(),
{
    if es.len() == 0 {
        None
    } else if es[0].0@ == k {
        Some(es[0].1)
    } else {
        entries_get(es.drop_first(), k)
    }
}

/// `value.get(k)`: only objects have members.
pub open spec fn json_get(j: Json, k: Seq<char>) -> Option<Json> {
    match j {
        Json::Object { entries, .. } => entries_get(entries@, k),
        _ => None,
    }
}

/// `value.get(k)` on an optional value.
pub open spec fn opt_get(j: Option<Json>, k: Seq<char>) -> Option<Json> {
    match j {
        Some(v) => json_get(v, k),
        None => None,
    }
}

/// Truthiness: null, false, zero and empty strings, arrays and objects are
/// false.
pub open spec fn truthy(v: Option<Json>) -> bool {
    match v {
        None => false,
        Some(Json::Null) => false,
        Some(Json::Bool(b)) => b,
        Some(Json::Number { whole, .. }) => whole != Some(0i64),
        Some(Json::Str(s)) => s@.len() > 0,
        Some(Json::Array { items, .. }) => items@.len() > 0,
        Some(Json::Object { entries, .. }) => entries@.len() > 0,
    }
}

/// The JSON text of a value that is not a string.
pub open spec fn json_text(v: Json) -> Seq<char> {
    match v {
        Json::Null => "null"@,
        Json::Bool(b) => if b {
            "true"@
        } else {
            "false"@
        },
        Json::Number { text, .. } => text@,
        Json::Str(s) => s@,
        Json::Array { text, .. } => text@,
        Json::Object { text, .. } => text@,
    }
}

/// A parameter as text: missing or null is empty, a string is trimmed, any
/// other value is its trimmed JSON text.
pub open spec fn str_of(v: Option<Json>) -> Seq<char> {
    match v {
        None => Seq::empty(),
        Some(Json::Null) => Seq::empty(),
        Some(j) => trim(json_text(j)),
    }
}

/// A parameter rendered for an argument list: strings verbatim, booleans
/// as `True`/`False`, anything else as its JSON text.
pub open spec fn num_str(v: Json) -> Seq<char> {
    match v {
        Json::Bool(b) => if b {
            "True"@
        } else {
            "False"@
        },
        _ => json_text(v),
    }
}

impl Json {
    /// `self.get(key)`.
    pub fn get(&self, key: &str) -> (r: Option<&Json>)
        ensures
            match r {
                Some(v) => json_get(*self, key@) == Some(*v),
                None => json_get(*self, key@) is None,
            },
    {
        match self {
            Json::Object { entries, .. } => {
                let mut i: usize = 0;
                assert(entries@.skip(0) =~= entries@);
                while i < entries.len()
                    invariant
                        i <= entries.len(),
                        json_get(*self, key@) == entries_get(entries@, key@),
                        entries_get(entries@, key@) == entries_get(entries@.skip(i as int), key@),
                    decreases entries.len() - i,
                {
                    let ghost rest = entries@.skip(i as int);
                    assert(rest[0] == entries@[i as int]);
                    if str_eq(entries[i].0.as_str(), key) {
                        assert(entries_get(rest, key@) == Some(rest[0].1));
                        return Some(&entries[i].1);
                    }
                    assert(rest.drop_first() =~= entries@.skip(i + 1));
                    i += 1;
                }
                None
            },
            _ => None,
        }
    }

    pub fn is_object(&self) -> (r: bool)
        ensures
            r == (*self is Object),
    {
        match self {
            Json::Object { .. } => true,
            _ => false,
        }
    }

    pub fn is_null(&self) -> (r: bool)
        ensures
            r == (*self is Null),
    {
        match self {
            Json::Null => true,
            _ => false,
        }
    }

    /// The JSON text of a value that is not a string (a string gives itself).
    pub fn text(&self) -> (r: String)
        ensures
            r@ == json_text(*self),
    {
        match self {
            Json::Null => owned("null"),
            Json::Bool(b) => if *b {
                owned("true")
            } else {
                owned("false")
            },
            Json::Number { text, .. } => text.clone(),
            Json::Str(s) => s.clone(),
            Json::Array { text, .. } => text.clone(),
            Json::Object { text, .. } => text.clone(),
        }
    }
}

/// Truthiness of an optional value.
pub fn is_truthy(v: Option<&Json>) -> (r: bool)
    ensures
        r == truthy(match v {
            Some(j) => Some(*j),
            None => None,
        }),
{
    match v {
        None => false,
        Some(Json::Null) => false,
        Some(Json::Bool(b)) => *b,
        Some(Json::Number { whole, .. }) => match whole {
            Some(n) => *n != 0,
            None => true,
        },
        Some(Json::Str(s)) => !s.as_str().is_empty(),
        Some(Json::Array { items, .. }) => items.len() > 0,
        Some(Json::Object { entries, .. }) => entries.len() > 0,
    }
}

pub open spec fn opt_ref(v: Option<&Json>) -> Option<Json> {
    match v {
        Some(j) => Some(*j),
        None => None,
    }
}

/// A parameter as text (see [`str_of`]).
pub fn str_of_exec(v: Option<&Json>) -> (r: String)
    ensures
        r@ == str_of(opt_ref(v)),
{
    match v {
        None => String::new(),
        Some(Json::Null) => String::new(),
        Some(j) => {
            let t = j.text();
            trim_str(t.as_str())
        },
    }
}

/// A parameter rendered for an argument list (see [`num_str`]).
pub fn num_str_exec(v: &Json) -> (r: String)
    ensures
        r@ == num_str(*v),
{
    match v {
        Json::Bool(b) => if *b {
            owned("True")
        } else {
            owned("False")
        },
        _ => v.text(),
    }
}

/// A member found by key is one of the object's entries.
pub proof fn lemma_entries_get_index(es: Seq<(String, Json)>, k: Seq<char>) -> (j: int)
    requires
        entries_get(es, k) is Some,
    ensures
        0 <= j < es.len(),
        es[j].1 == entries_get(es, k).unwrap(),
    decreases es.len(),
{
    if es[0].0@ == k {
        0
    } else {
        let j = lemma_entries_get_index(es.drop_first(), k);
        j + 1
    }
}

/// Two values hold the same JSON: the same variant, texts and items.
pub open spec fn json_eq(a: Json, b: Json) -> bool
    decreases a, 1int,
{
    match a {
        Json::Null => b is Null,
        Json::Bool(x) => b matches Json::Bool(y) && x == y,
        Json::Number { text, whole, trunc } => b matches Json::Number { text: t2, whole: w2, trunc: r2 }
            && text@ == t2@ && whole == w2 && trunc == r2,
        Json::Str(s) => b matches Json::Str(s2) && s@ == s2@,
        Json::Array { items, text } => match b {
            Json::Array { items: i2, text: t2 } => text@ == t2@ && items_eq(items@, i2@),
            _ => false,
        },
        Json::Object { entries, text } => match b {
            Json::Object { entries: e2, text: t2 } => text@ == t2@ && entries_eq(entries@, e2@),
            _ => false,
        },
    }
}

pub open spec fn items_eq(s: Seq<Json>, t: Seq<Json>) -> bool
    decreases s, 0int,
{
    if s.len() == 0 {
        t.len() == 0
    } else {
        t.len() == s.len() && items_eq(s.drop_last(), t.drop_last()) && json_eq(s.last(), t.last())
    }
}

pub open spec fn entries_eq(s: Seq<(String, Json)>, t: Seq<(String, Json)>) -> bool
    decreases s, 0int,
{
    if s.len() == 0 {
        t.len() == 0
    } else {
        t.len() == s.len() && entries_eq(s.drop_last(), t.drop_last()) && s.last().0@ == t.last().0@
            && json_eq(s.last().1, t.last().1)
    }
}

/// A copy of a value.
#[verifier::loop_isolation(false)]
pub fn copy_json(v: &Json) -> (r: Json)
    ensures
        json_eq(*v, r),
    decreases v,
{
    match v {
        Json::Null => Json::Null,
        Json::Bool(b) => Json::Bool(*b),
        Json::Number { text, whole, trunc } => Json::Number { text: text.clone(), whole: *whole, trunc: *trunc },
        Json::Str(s) => Json::Str(s.clone()),
        Json::Array { items, text } => {
            let mut out: Vec<Json> = Vec::new();
            let mut i: usize = 0;
            while i < items.len()
                invariant
                    i <= items.len(),
                    out.len() == i,
                    items_eq(items@.take(i as int), out@),
                decreases items.len() - i,
            {
                assert(items@.take(i + 1).drop_last() =~= items@.take(i as int));
                let c = copy_json(&items[i]);
                let ghost o0 = out@;
                out.push(c);
                assert(out@.drop_last() =~= o0);
                i += 1;
            }
            assert(items@.take(items.len() as int) =~= items@);
            Json::Array { items: out, text: text.clone() }
        },
        Json::Object { entries, text } => {
            let mut out: Vec<(String, Json)> = Vec::new();
            let mut i: usize = 0;
            while i < entries.len()
                invariant
                    i <= entries.len(),
                    out.len() == i,
                    entries_eq(entries@.take(i as int), out@),
                decreases entries.len() - i,
            {
                assert(entries@.take(i + 1).drop_last() =~= entries@.take(i as int));
                let c = copy_json(&entries[i].1);
                let ghost o0 = out@;
                out.push((entries[i].0.clone(), c));
                assert(out@.drop_last() =~= o0);
                i += 1;
            }
            assert(entries@.take(entries.len() as int) =~= entries@);
            Json::Object { entries: out, text: text.clone() }
        },
    }
}

} // verus!
