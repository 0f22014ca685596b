//! JSON documents: parsing with `serde_json`, and the library's own plain
//! representation of a parsed document, which the verified readers walk.
use vstd::prelude::*;
use crate::text::str_eq;

verus! {

#[verifier::external_type_specification]
#[verifier::external_body]
pub struct ExJsonValue(serde_json::Value);

#[verifier::external_type_specification]
#[verifier::external_body]
pub struct ExJsonError(serde_json::Error);

/// Bytes that `serde_json::from_slice::<Value>` accepts as one JSON document.
pub uninterp spec fn json_accepts(b: Seq<u8>) -> bool;

/// The document that `serde_json::from_slice::<Value>` reads from bytes it
/// accepts.
pub uninterp spec fn json_value_of(b: Seq<u8>) -> serde_json::Value;

/// `serde_json::from_slice::<serde_json::Value>`: `Ok` exactly on the bytes
/// named by [`json_accepts`], holding the document named by
/// [`json_value_of`] (a function of the bytes alone).
#[verifier::external_body]
pub(crate) fn parse_json(b: &[u8]) -> (r: Result<serde_json::Value, serde_json::Error>)
    ensures
        r is Ok <==> json_accepts(b@),
        r matches Ok(v) ==> v == json_value_of(b@),
{
    serde_json::from_slice(b)
}

/// A JSON document as plain values. A number is kept as the `u64` it
/// denotes, if it denotes one (what `Value::as_u64` gives); an object keeps
/// its members in the order of the parsed map.
#[derive(Debug)]
pub enum Json {
    Null,
    Bool(bool),
    Number(Option<u64>),
    Str(String),
    Array(Vec<Json>),
    Object(Vec<(String, Json)>),
}

/// The plain form of a parsed `serde_json::Value` (variant for variant).
pub uninterp spec fn json_view(v: serde_json::Value) -> Json;

/// Converts a `serde_json::Value` variant for variant: `Null`, `Bool`,
/// `Number` (kept as `as_u64`), `String`, `Array` and `Object` (its members
/// in map order), recursively.
#[verifier::external_body]
pub(crate) fn json_from_value(v: &serde_json::Value) -> (r: Json)
    ensures
        r == json_view(*v),
{
    match v {
        serde_json::Value::Null => Json::Null,
        serde_json::Value::Bool(b) => Json::Bool(*b),
        serde_json::Value::Number(n) => Json::Number(n.as_u64()),
        serde_json::Value::String(s) => Json::Str(s.clone()),
        serde_json::Value::Array(a) => Json::Array(a.iter().map(json_from_value).collect()),
        serde_json::Value::Object(m) => Json::Object(
            m.iter().map(|(k, x)| (k.clone(), json_from_value(x))).collect(),
        ),
    }
}

/// Index of the first member named `k`, if any.
pub open spec fn member_index(fs: Seq<(String, Json)>, k: Seq<char>) -> Option<int>
    decreases fs.len(),
{
    if fs.len() == 0 {
        None
    } else if fs[0].0@ == k {
        Some(0)
    } else {
        match member_index(fs.drop_first(), k) {
            Some(i) => Some(i + 1),
            None => None,
        }
    }
}

/// `member_index` finds the first member of that name, and none exists when
/// it finds nothing.
pub proof fn lemma_member_index(fs: Seq<(String, Json)>, k: Seq<char>)
    ensures
        match member_index(fs, k) {
            Some(i) => 0 <= i < fs.len() && fs[i].0@ == k && forall|j: int|
                0 <= j < i ==> #[trigger] fs[j].0@ != k,
            None => forall|j: int| 0 <= j < fs.len() ==> #[trigger] fs[j].0@ != k,
        },
    decreases fs.len(),
{
    if fs.len() > 0 && fs[0].0@ != k {
        lemma_member_index(fs.drop_first(), k);
        let t = fs.drop_first();
        match member_index(t, k) {
            Some(i) => {
                assert forall|j: int| 0 <= j < i + 1 implies #[trigger] fs[j].0@ != k by {
                    if j > 0 {
                        assert(fs[j] == t[j - 1]);
                    }
                }
            },
            None => {
                assert forall|j: int| 0 <= j < fs.len() implies #[trigger] fs[j].0@ != k by {
                    if j > 0 {
                        assert(fs[j] == t[j - 1]);
                    }
                }
            },
        }
    }
}

/// `Value::get(k)`: the member `k` of an object (the first one of that
/// name), nothing for any other value.
pub open spec fn json_get(j: Json, k: Seq<char>) -> Option<Json> {
    match j {
        Json::Object(fs) => match member_index(fs@, k) {
            Some(i) => Some(fs@[i].1),
            None => None,
        },
        _ => None,
    }
}

/// `as_str` of an optional value.
pub open spec fn str_of(j: Option<Json>) -> Option<Seq<char>> {
    match j {
        Some(Json::Str(s)) => Some(s@),
        _ => None,
    }
}

/// `as_u64` of an optional value.
pub open spec fn u64_of(j: Option<Json>) -> Option<u64> {
    match j {
        Some(Json::Number(n)) => n,
        _ => None,
    }
}

/// `as_array` of an optional value.
pub open spec fn array_of(j: Option<Json>) -> Option<Seq<Json>> {
    match j {
        Some(Json::Array(a)) => Some(a@),
        _ => None,
    }
}

/// `json_get` applied only to a present value.
pub open spec fn get_in(j: Option<Json>, k: Seq<char>) -> Option<Json> {
    match j {
        Some(x) => json_get(x, k),
        None => None,
    }
}

proof fn lemma_first_member(fs: Seq<(String, Json)>, k: Seq<char>, i: int)
    requires
        0 <= i < fs.len(),
        fs[i].0@ == k,
        forall|j: int| 0 <= j < i ==> #[trigger] fs[j].0@ != k,
    ensures
        member_index(fs, k) == Some(i),
{
    lemma_member_index(fs, k);
    match member_index(fs, k) {
        Some(c) => {
            if c < i {
                assert(fs[c].0@ != k);
            } else if c > i {
                assert(fs[i].0@ != k);
            }
        },
        None => {
            assert(fs[i].0@ != k);
        },
    }
}

/// Index of the first member named `k` of a member list.
pub fn find_member(fs: &Vec<(String, Json)>, k: &str) -> (r: Option<usize>)
    ensures
        match r {
            Some(i) => member_index(fs@, k@) == Some(i as int) && i < fs@.len(),
            None => member_index(fs@, k@) is None,
        },
{
    let n = fs.len();
    let mut i: usize = 0;
    while i < n
        invariant
            n == fs@.len(),
            i <= n,
            forall|j: int| 0 <= j < i ==> #[trigger] fs@[j].0@ != k@,
        decreases n - i,
    {
        if str_eq(fs[i].0.as_str(), k) {
            proof {
                lemma_first_member(fs@, k@, i as int);
            }
            return Some(i);
        }
        i += 1;
    }
    proof {
        lemma_member_index(fs@, k@);
        if let Some(c) = member_index(fs@, k@) {
            assert(fs@[c].0@ != k@);
        }
    }
    None
}

/// `Value::get(k)`.
pub fn get<'a>(j: &'a Json, k: &str) -> (r: Option<&'a Json>)
    ensures
        match r {
            Some(x) => json_get(*j, k@) == Some(*x),
            None => json_get(*j, k@) is None,
        },
{
    match j {
        Json::Object(fs) => match find_member(fs, k) {
            Some(i) => Some(&fs[i].1),
            None => None,
        },
        _ => None,
    }
}

/// `as_str` of an optional value.
pub fn as_str<'a>(j: Option<&'a Json>) -> (r: Option<&'a str>)
    ensures
        match r {
            Some(s) => str_of(match j {
                Some(x) => Some(*x),
                None => None,
            }) == Some(s@),
            None => str_of(match j {
                Some(x) => Some(*x),
                None => None,
            }) is None,
        },
{
    match j {
        Some(Json::Str(s)) => Some(s.as_str()),
        _ => None,
    }
}

/// `as_u64` of an optional value.
pub fn as_u64(j: Option<&Json>) -> (r: Option<u64>)
    ensures
        r == u64_of(match j {
            Some(x) => Some(*x),
            None => None,
        }),
{
    match j {
        Some(Json::Number(n)) => *n,
        _ => None,
    }
}

/// `get` on an optional value.
pub fn get_opt<'a>(j: Option<&'a Json>, k: &str) -> (r: Option<&'a Json>)
    ensures
        match r {
            Some(x) => get_in(match j {
                Some(x) => Some(*x),
                None => None,
            }, k@) == Some(*x),
            None => get_in(match j {
                Some(x) => Some(*x),
                None => None,
            }, k@) is None,
        },
{
    match j {
        Some(x) => get(x, k),
        None => None,
    }
}

} // verus!
