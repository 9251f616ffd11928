//! JSON that the gateway receives or passes on.

use vstd::prelude::*;

verus! {

/// A JSON value of the `serde_json` crate.
#[verifier::external_type_specification]
#[verifier::external_body]
pub struct ExJsonValue(serde_json::Value);

/// The members of a JSON object whose values are texts. Any other value has none.
pub uninterp spec fn text_members(value: serde_json::Value) -> Map<Seq<char>, Seq<char>>;

/// The members of a JSON object whose values are truth values. Any other value has none.
pub uninterp spec fn bool_members(value: serde_json::Value) -> Map<Seq<char>, bool>;

/// `serde_json::Value::get` with a key, and `as_str` of what it finds.
#[verifier::external_body]
pub(crate) fn text_member(value: &serde_json::Value, key: &str) -> (r: Option<String>)
    ensures
        r is Some <==> text_members(*value).contains_key(key@),
        r matches Some(s) ==> s@ == text_members(*value)[key@],
{
    value.get(key).and_then(|member| member.as_str()).map(|s| s.to_string())
}

/// `serde_json::Value::get` with a key, and `as_bool` of what it finds.
#[verifier::external_body]
pub(crate) fn bool_member(value: &serde_json::Value, key: &str) -> (r: Option<bool>)
    ensures
        r is Some <==> bool_members(*value).contains_key(key@),
        r matches Some(b) ==> b == bool_members(*value)[key@],
{
    value.get(key).and_then(|member| member.as_bool())
}

} // verus!
