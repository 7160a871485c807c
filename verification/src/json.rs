//! JSON values as trees.
//!
//! `serde_json` does the reading and writing of text and holds the values. The
//! contracts below say, over the tree that a value stands for, what its methods
//! hand out.

use crate::kdl_tree::{printable, printable_char};
use crate::number::Real;
use crate::number::double_text;
use crate::text::signed_decimal;
use vstd::prelude::*;

verus! {

#[verifier::external_type_specification]
#[verifier::external_body]
pub struct ExValue(serde_json::Value);

/// A JSON number: a whole number, split by sign as `serde_json` keeps it, or a
/// fractional one by its shortest decimal text.
pub enum Num {
    Pos(u64),
    Neg(i64),
    Float(Seq<char>),
}

/// A JSON value. The members of an object stand in the order in which
/// `serde_json` walks them, and no key occurs twice.
pub enum Json {
    Null,
    Bool(bool),
    Number(Num),
    Str(Seq<char>),
    Array(Seq<Json>),
    Object(Seq<(Seq<char>, Json)>),
}

/// The tree that a `serde_json::Value` holds.
pub uninterp spec fn json_tree(v: serde_json::Value) -> Json;

/// A clone of a `serde_json::Value` holds the same tree.
pub assume_specification[ <serde_json::Value as Clone>::clone ](v: &serde_json::Value) -> (r:
    serde_json::Value)
    ensures
        json_tree(r) == json_tree(*v),
;

/// What `serde_json::from_str` makes of a text: the tree, or the text of the
/// error.
pub uninterp spec fn json_decoded(text: Seq<char>) -> Result<Json, Seq<char>>;

/// What `serde_json::to_string` writes for a tree.
pub uninterp spec fn json_text(tree: Json) -> Seq<char>;

/// The value of the first member called `key`.
pub open spec fn member(members: Seq<(Seq<char>, Json)>, key: Seq<char>) -> Option<Json>
    decreases members.len(),
{
    if members.len() == 0 {
        None
    } else if members[0].0 == key {
        Some(members[0].1)
    } else {
        member(members.drop_first(), key)
    }
}

/// The number as a double-precision number, by its shortest decimal text.
pub open spec fn num_real(n: Num) -> Option<Seq<char>> {
    match n {
        Num::Pos(u) => double_text(signed_decimal(u as int)),
        Num::Neg(i) => double_text(signed_decimal(i as int)),
        Num::Float(t) => Some(t),
    }
}

/// Does the text of the tree read back as the same tree? All numbers, texts and
/// nesting up to the depth that the reader follows do.
pub open spec fn rereads(tree: Json, depth: nat) -> bool
    decreases depth,
{
    match tree {
        Json::Null => true,
        Json::Bool(_) => true,
        Json::Number(n) => n matches Num::Float(t) ==> !not_finite(t),
        Json::Str(_) => true,
        Json::Array(items) => depth > 0 && (forall|i: int|
            0 <= i < items.len() ==> rereads(#[trigger] items[i], (depth - 1) as nat)),
        Json::Object(members) => depth > 0 && (forall|i: int|
            0 <= i < members.len() ==> rereads((#[trigger] members[i]).1, (depth - 1) as nat)),
    }
}

/// Can the text be printed once its control characters are escaped?
pub open spec fn escaped_printable(s: Seq<char>) -> bool {
    forall|i: int| 0 <= i < s.len() ==> (#[trigger] s[i] < ' ' || printable_char(s[i]))
}

/// Can all texts and keys in the tree be printed once their control characters
/// are escaped?
pub open spec fn texts_printable(tree: Json) -> bool
    decreases tree,
{
    match tree {
        Json::Str(s) => escaped_printable(s),
        Json::Array(items) => forall|i: int|
            0 <= i < items.len() ==> texts_printable(#[trigger] items[i]),
        Json::Object(members) => forall|i: int|
            0 <= i < members.len() ==> escaped_printable((#[trigger] members[i]).0)
                && texts_printable(members[i].1),
        _ => true,
    }
}

/// Do arrays and objects nest no deeper than `depth`?
pub open spec fn nests_within(tree: Json, depth: nat) -> bool
    decreases depth,
{
    match tree {
        Json::Array(items) => depth > 0 && (forall|i: int|
            0 <= i < items.len() ==> nests_within(#[trigger] items[i], (depth - 1) as nat)),
        Json::Object(members) => depth > 0 && (forall|i: int|
            0 <= i < members.len() ==> nests_within((#[trigger] members[i]).1, (depth - 1) as nat)),
        _ => true,
    }
}

/// How deep arrays and objects may nest for the reader to follow them.
pub const MAX_DEPTH: usize = 127;

/// Does `text` read as `tree`?
pub open spec fn decodes_to(text: Seq<char>, tree: Json) -> bool {
    json_decoded(text) == Ok::<Json, Seq<char>>(tree)
}

/// Calls `serde_json::from_str`, and `to_string` on its error. The reader refuses
/// a text in which arrays and objects nest deeper than [`MAX_DEPTH`].
#[verifier::external_body]
pub(crate) fn decode(text: &str) -> (r: Result<serde_json::Value, String>)
    ensures
        match r {
            Ok(v) => json_decoded(text@) matches Ok(t) && t == json_tree(v) && nests_within(
                json_tree(v),
                MAX_DEPTH as nat,
            ),
            Err(e) => json_decoded(text@) matches Err(t) && t == e@,
        },
{
    serde_json::from_str(text).map_err(|e| e.to_string())
}

/// Calls `serde_json::to_string`, which never fails on a value. What it writes
/// for a tree nested no deeper than the reader follows, `from_str` reads back as
/// that tree: fractional numbers are written by their shortest text and read to
/// the full precision. A list starts with a bracket, an object with a brace, and
/// all else in them is of plain ASCII, but for the characters of texts and keys:
/// control characters below the space, quotes and backslashes are escaped, others
/// go out as they are.
#[verifier::external_body]
pub(crate) fn encode(v: &serde_json::Value) -> (r: String)
    ensures
        r@ == json_text(json_tree(*v)),
        rereads(json_tree(*v), MAX_DEPTH as nat) ==> decodes_to(r@, json_tree(*v)),
        (json_tree(*v) is Array || json_tree(*v) is Object) && texts_printable(json_tree(*v))
            ==> printable(r@),
{
    serde_json::to_string(v).unwrap_or_default()
}

/// A value with its outermost layer laid open.
pub enum Shape<'a> {
    Null,
    Bool(bool),
    Number,
    Str(&'a str),
    Array(&'a Vec<serde_json::Value>),
    Object,
}

/// The trees of a list of values.
pub open spec fn trees(items: Seq<serde_json::Value>) -> Seq<Json> {
    items.map_values(|v: serde_json::Value| json_tree(v))
}

/// Tells the variants of `serde_json::Value` apart.
#[verifier::external_body]
pub(crate) fn shape(v: &serde_json::Value) -> (r: Shape<'_>)
    ensures
        match json_tree(*v) {
            Json::Null => r is Null,
            Json::Bool(b) => r == Shape::Bool(b),
            Json::Number(_) => r is Number,
            Json::Str(s) => r matches Shape::Str(t) && t@ == s,
            Json::Array(a) => r matches Shape::Array(items) && trees(items@) == a,
            Json::Object(_) => r is Object,
        },
{
    match v {
        serde_json::Value::Null => Shape::Null,
        serde_json::Value::Bool(b) => Shape::Bool(*b),
        serde_json::Value::Number(_) => Shape::Number,
        serde_json::Value::String(s) => Shape::Str(s),
        serde_json::Value::Array(a) => Shape::Array(a),
        serde_json::Value::Object(_) => Shape::Object,
    }
}

/// Calls `serde_json::Value::get` with a key: the member of that name of an
/// object, nothing for any other value.
#[verifier::external_body]
pub(crate) fn get<'a>(v: &'a serde_json::Value, key: &str) -> (r: Option<&'a serde_json::Value>)
    ensures
        match json_tree(*v) {
            Json::Object(members) => match member(members, key@) {
                Some(t) => r matches Some(found) && json_tree(*found) == t,
                None => r is None,
            },
            _ => r is None,
        },
{
    v.get(key)
}

/// What a list of named values stands for.
pub open spec fn member_trees(members: Seq<(&str, &serde_json::Value)>) -> Seq<(Seq<char>, Json)> {
    members.map_values(|m: (&str, &serde_json::Value)| (m.0@, json_tree(*m.1)))
}

/// Calls `serde_json::Map::iter` on the members of an object; there are none in
/// any other value.
#[verifier::external_body]
pub(crate) fn members<'a>(v: &'a serde_json::Value) -> (r: Vec<(&'a str, &'a serde_json::Value)>)
    ensures
        match json_tree(*v) {
            Json::Object(m) => member_trees(r@) == m,
            _ => r@.len() == 0,
        },
{
    match v.as_object() {
        Some(m) => m.iter().map(|(k, v)| (k.as_str(), v)).collect(),
        None => Vec::new(),
    }
}

/// Calls `serde_json::Value::as_i64`.
#[verifier::external_body]
pub(crate) fn as_i64(v: &serde_json::Value) -> (r: Option<i64>)
    ensures
        match json_tree(*v) {
            Json::Number(Num::Pos(u)) => r == (if u <= i64::MAX {
                Some(u as i64)
            } else {
                None::<i64>
            }),
            Json::Number(Num::Neg(i)) => r == Some(i),
            _ => r is None,
        },
{
    v.as_i64()
}

/// Calls `serde_json::Value::as_u64`.
#[verifier::external_body]
pub(crate) fn as_u64(v: &serde_json::Value) -> (r: Option<u64>)
    ensures
        match json_tree(*v) {
            Json::Number(Num::Pos(u)) => r == Some(u),
            _ => r is None,
        },
{
    v.as_u64()
}

/// Calls `serde_json::Value::as_f64`, and `to_string` on the number: every JSON
/// number has a double-precision reading, nothing else has one.
#[verifier::external_body]
fn as_double(v: &serde_json::Value) -> (r: Option<String>)
    ensures
        match json_tree(*v) {
            Json::Number(n) => r matches Some(t) && num_real(n) == Some(t@) && double_text(t@)
                == Some(t@),
            _ => r is None,
        },
{
    v.as_f64().map(|d| d.to_string())
}

pub fn as_real(v: &serde_json::Value) -> (r: Option<Real>)
    ensures
        match json_tree(*v) {
            Json::Number(n) => r matches Some(t) && num_real(n) == Some(t@),
            _ => r is None,
        },
{
    match as_double(v) {
        Some(t) => Some(Real::from_shortest(t)),
        None => None,
    }
}

/// Calls `serde_json::Value::from` on a whole number.
#[verifier::external_body]
pub(crate) fn of_i64(i: i64) -> (r: serde_json::Value)
    ensures
        json_tree(r) == whole_json(i),
{
    serde_json::Value::from(i)
}

/// Calls `serde_json::Value::from` on a whole number without a sign.
#[verifier::external_body]
pub(crate) fn of_u64(u: u64) -> (r: serde_json::Value)
    ensures
        json_tree(r) == Json::Number(Num::Pos(u)),
{
    serde_json::Value::from(u)
}

/// Builds `serde_json::Value::Bool`.
#[verifier::external_body]
pub(crate) fn of_bool(b: bool) -> (r: serde_json::Value)
    ensures
        json_tree(r) == Json::Bool(b),
{
    serde_json::Value::Bool(b)
}

/// Builds `serde_json::Value::Null`.
#[verifier::external_body]
pub(crate) fn of_null() -> (r: serde_json::Value)
    ensures
        json_tree(r) == Json::Null,
{
    serde_json::Value::Null
}

/// Builds `serde_json::Value::String`.
#[verifier::external_body]
pub(crate) fn of_string(s: String) -> (r: serde_json::Value)
    ensures
        json_tree(r) == Json::Str(s@),
{
    serde_json::Value::String(s)
}

/// Builds a `serde_json::Value::Object` with a single member.
#[verifier::external_body]
pub(crate) fn of_member(key: &str, value: serde_json::Value) -> (r: serde_json::Value)
    ensures
        json_tree(r) == Json::Object(seq![(key@, json_tree(value))]),
{
    let mut members = serde_json::Map::new();
    members.insert(key.to_string(), value);
    serde_json::Value::Object(members)
}

/// Is this the text of a double-precision number that is no finite number?
pub open spec fn not_finite(text: Seq<char>) -> bool {
    text == "NaN"@ || text == "inf"@ || text == "-inf"@
}

/// Calls `serde_json::Number::from_f64` on the number that `text` denotes: JSON
/// has every finite number, and no other.
#[verifier::external_body]
fn of_double(text: &str) -> (r: Option<serde_json::Value>)
    requires
        double_text(text@) == Some(text@),
    ensures
        match r {
            Some(v) => !not_finite(text@) && json_tree(v) == Json::Number(Num::Float(text@)),
            None => not_finite(text@),
        },
{
    serde_json::Number::from_f64(text.parse().unwrap_or_default()).map(serde_json::Value::Number)
}

/// The JSON value for a fractional number: null where JSON has no such number.
pub open spec fn real_json(text: Seq<char>) -> Json {
    if not_finite(text) {
        Json::Null
    } else {
        Json::Number(Num::Float(text))
    }
}

pub fn of_real(v: &Real) -> (r: serde_json::Value)
    ensures
        json_tree(r) == real_json(v@),
{
    match of_double(v.text()) {
        Some(n) => n,
        None => of_null(),
    }
}

/// The JSON number for a whole number.
pub open spec fn whole_json(i: i64) -> Json {
    Json::Number(
        if i < 0 {
            Num::Neg(i)
        } else {
            Num::Pos(i as u64)
        },
    )
}

} // verus!
