//! JSON values read from text and written as text, by `serde_json`.
use vstd::prelude::*;

use serde_json::Value;

use crate::json::{keys_differ, Json, JsonView, Number, NumberView};
use crate::text::{decimal, signed_decimal};

verus! {

#[verifier::external_type_specification]
#[verifier::external_body]
pub struct ExValue(serde_json::Value);

#[verifier::external_type_specification]
#[verifier::external_body]
pub struct ExError(serde_json::Error);

/// What `serde_json::from_str` reads from a text, where the text is one JSON value.
pub uninterp spec fn parsed(text: Seq<char>) -> Option<JsonView>;

/// What `serde_json::to_string` writes for a value.
pub uninterp spec fn compact(v: JsonView) -> Seq<char>;

/// What `serde_json::to_string_pretty` writes for a value.
pub uninterp spec fn pretty(v: JsonView) -> Seq<char>;

/// A value that its text tells in full: no fractions, negative numbers below zero, no key twice in
/// an object, and no more than `depth` arrays and objects in one another.
pub open spec fn is_plain(v: JsonView, depth: nat) -> bool
    decreases v,
{
    match v {
        JsonView::Number(NumberView::Unsigned(_)) => true,
        JsonView::Number(NumberView::Negative(n)) => n < 0,
        JsonView::Number(NumberView::Fraction(_)) => false,
        JsonView::Array(items) => depth > 0 && forall|i: int|
            0 <= i < items.len() ==> is_plain(#[trigger] items[i], (depth - 1) as nat),
        JsonView::Object(o) => depth > 0 && keys_differ(o) && forall|i: int|
            0 <= i < o.len() ==> is_plain((#[trigger] o[i]).1, (depth - 1) as nat),
        _ => true,
    }
}

/// How deep arrays and objects may stand in one another in a text that is read.
pub open spec fn depth_read() -> nat {
    127
}

pub proof fn lemma_plain_deeper(v: JsonView, depth: nat, more: nat)
    requires
        is_plain(v, depth),
        depth <= more,
    ensures
        is_plain(v, more),
    decreases v,
{
    match v {
        JsonView::Array(items) => {
            assert forall|i: int| 0 <= i < items.len() implies is_plain(
                #[trigger] items[i],
                (more - 1) as nat,
            ) by {
                lemma_plain_deeper(items[i], (depth - 1) as nat, (more - 1) as nat);
            }
        },
        JsonView::Object(o) => {
            assert forall|i: int| 0 <= i < o.len() implies is_plain(
                (#[trigger] o[i]).1,
                (more - 1) as nat,
            ) by {
                lemma_plain_deeper(o[i].1, (depth - 1) as nat, (more - 1) as nat);
            }
        },
        _ => {},
    }
}

/// Takes a `serde_json::Value` over, variant by variant. A number that is neither
/// a `u64` nor an `i64` keeps the digits it is printed with.
#[verifier::external_body]
fn taken_over(value: Value) -> (r: Json) {
    match value {
        Value::Null => Json::Null,
        Value::Bool(b) => Json::Bool(b),
        Value::Number(n) => match (n.as_u64(), n.as_i64()) {
            (Some(k), _) => Json::Number(Number::Unsigned(k)),
            (None, Some(k)) => Json::Number(Number::Negative(k)),
            (None, None) => Json::Number(Number::Fraction(n.to_string())),
        },
        Value::String(s) => Json::Text(s),
        Value::Array(a) => Json::Array(a.into_iter().map(taken_over).collect()),
        Value::Object(o) => Json::Object(
            o.into_iter().map(|(k, v)| (k, taken_over(v))).collect(),
        ),
    }
}

/// Hands a number over to `serde_json`, variant by variant; an error where its digits
/// are none.
#[verifier::external_body]
fn number_handed_over(n: &Number) -> (r: Result<Value, serde_json::Error>) {
    Ok(match n {
        Number::Unsigned(n) => Value::from(*n),
        Number::Negative(n) => Value::from(*n),
        Number::Fraction(t) => Value::Number(t.parse()?),
    })
}

/// Hands a value over to `serde_json`, variant by variant; an error where the digits
/// of a number are none.
#[verifier::external_body]
fn handed_over(j: &Json) -> (r: Result<Value, serde_json::Error>) {
    Ok(match j {
        Json::Null => Value::Null,
        Json::Bool(b) => Value::Bool(*b),
        Json::Number(n) => number_handed_over(n)?,
        Json::Text(t) => Value::String(t.clone()),
        Json::Array(a) => Value::Array(
            a.iter().map(handed_over).collect::<Result<_, _>>()?,
        ),
        Json::Object(o) => Value::Object(
            o.iter().map(|(k, v)| Ok((k.clone(), handed_over(v)?))).collect::<Result<_, _>>()?,
        ),
    })
}

/// `serde_json::from_str` into a `serde_json::Value`: `None` where it reports an
/// error, and else the value it read, in which no object holds a key twice.
#[verifier::external_body]
pub(crate) fn parse(text: &str) -> (r: Option<Json>)
    ensures
        r.is_some() == parsed(text@).is_some(),
        r matches Some(j) ==> j@ == parsed(text@)->0 && j@.wf(),
{
    serde_json::from_str::<Value>(text).ok().map(taken_over)
}

/// `serde_json::to_string`, the empty text where it reports an error. Integers
/// come out as their decimal digits.
#[verifier::external_body]
pub(crate) fn print(j: &Json) -> (r: String)
    ensures
        r@ == compact(j@),
        j@ matches JsonView::Number(NumberView::Unsigned(n)) ==> r@ == decimal(n as nat),
        j@ matches JsonView::Number(NumberView::Negative(n)) ==> r@ == signed_decimal(n as int),
{
    handed_over(j).and_then(|v| serde_json::to_string(&v)).unwrap_or_default()
}

/// `serde_json::to_string_pretty`, the empty text where it reports an error. What it writes for
/// a plain value `serde_json::from_str` reads as that value, also with a line break behind it.
#[verifier::external_body]
pub(crate) fn print_pretty(j: &Json) -> (r: String)
    ensures
        r@ == pretty(j@),
        is_plain(j@, depth_read()) ==> parsed(r@) == Some(j@),
        is_plain(j@, depth_read()) ==> parsed(r@.push('\n')) == Some(j@),
{
    handed_over(j).and_then(|v| serde_json::to_string_pretty(&v)).unwrap_or_default()
}

} // verus!
