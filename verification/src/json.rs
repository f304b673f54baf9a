//! A small JSON document model.  The outside JSON reader produces a value of
//! this type; the schema validators in `messages` then work on it with full
//! proofs, field by field.
use vstd::prelude::*;
use vstd::string::StrSliceExecFns;

verus! {

/// One JSON value.  Numbers that fit an unsigned 64-bit integer are kept
/// exactly; every other number (negative, fractional, or too large) is
/// `NumOther`, which no schema field accepts.  Object fields keep the order
/// in which the reader handed them over.
pub enum Json {
    Null,
    Bool(bool),
    Num(u64),
    NumOther,
    Str(String),
    Arr(Vec<Json>),
    Obj(Vec<(String, Json)>),
}

/// The value of the first field named `k`, if any.
pub open spec fn lookup(fs: Seq<(String, Json)>, k: Seq<char>) -> Option<Json>
    decreases fs.len(),
{
    if fs.len() == 0 {
        None
    } else if fs[0].0@ == k {
        Some(fs[0].1)
    } else {
        lookup(fs.drop_first(), k)
    }
}

/// Character-for-character string equality.
pub fn str_eq(a: &str, b: &str) -> (r: bool)
    ensures
        r == (a@ == b@),
{
    let an = a.unicode_len();
    let bn = b.unicode_len();
    if an != bn {
        return false;
    }
    let mut i: usize = 0;
    while i < an
        invariant
            i <= an,
            an == a@.len(),
            an == b@.len(),
            forall|j: int| 0 <= j < i ==> a@[j] == b@[j],
        decreases an - i,
    {
        if a.get_char(i) != b.get_char(i) {
            return false;
        }
        i += 1;
    }
    proof {
        assert(a@ =~= b@);
    }
    true
}

/// The first field of `fs` named `k`, searched front to back.
pub fn obj_lookup<'a>(fs: &'a Vec<(String, Json)>, k: &str) -> (r: Option<&'a Json>)
    ensures
        match r {
            Some(j) => lookup(fs@, k@) == Some(*j),
            None => lookup(fs@, k@) is None,
        },
{
    let n = fs.len();
    let mut i: usize = 0;
    proof {
        assert(fs@.skip(0) =~= fs@);
    }
    while i < n
        invariant
            i <= n,
            n == fs@.len(),
            lookup(fs@, k@) == lookup(fs@.skip(i as int), k@),
        decreases n - i,
    {
        if str_eq(fs[i].0.as_str(), k) {
            proof {
                assert(fs@.skip(i as int)[0] == fs@[i as int]);
            }
            return Some(&fs[i].1);
        }
        proof {
            assert(fs@.skip(i as int).drop_first() =~= fs@.skip(i as int + 1));
        }
        i += 1;
    }
    proof {
        assert(fs@.skip(n as int).len() == 0);
    }
    None
}

#[verifier::external_type_specification]
#[verifier::external_body]
pub struct ExValue(serde_json::Value);

/// The JSON document that a piece of text denotes, or nothing where the text
/// is not well-formed JSON.  What this is on given text is stated nowhere:
/// the outside reader alone computes it.
pub uninterp spec fn json_of(s: Seq<char>) -> Option<Json>;

/// Relies on serde_json::from_str: reads one JSON document from text, or
/// fails on malformed input.  The result depends on the text alone.
#[verifier::external_body]
pub(crate) fn parse_json(s: &str) -> (r: Option<Json>)
    ensures
        r == json_of(s@),
{
    serde_json::from_str::<serde_json::Value>(s).ok().map(value_to_json)
}

/// Helper of `parse_json`.  Relies on serde_json::Value: each variant of the
/// reader's tree maps to the corresponding `Json` constructor, one arm per
/// variant, fields moved as they stand.
#[verifier::external_body]
fn value_to_json(v: serde_json::Value) -> Json {
    match v {
        serde_json::Value::Null => Json::Null,
        serde_json::Value::Bool(b) => Json::Bool(b),
        serde_json::Value::Number(n) => match n.as_u64() {
            Some(u) => Json::Num(u),
            None => Json::NumOther,
        },
        serde_json::Value::String(s) => Json::Str(s),
        serde_json::Value::Array(a) => Json::Arr(a.into_iter().map(value_to_json).collect()),
        serde_json::Value::Object(m) => Json::Obj(
            m.into_iter().map(|(k, x)| (k, value_to_json(x))).collect(),
        ),
    }
}

} // verus!
