//! What the library takes from outside without proof.
use vstd::prelude::*;

verus! {

/// The lower-case form of a text, as `str::to_lowercase` gives it.
pub uninterp spec fn lowercase(text: Seq<char>) -> Seq<char>;

/// `str::to_lowercase`: maps a text to lower case by Unicode's tables, as a
/// function of the text alone. Which text comes out is named, not stated.
pub assume_specification[ str::to_lowercase ](text: &str) -> (r: String)
    ensures
        r@ == lowercase(text@),
;

/// The character of a hexadecimal digit, in lower case.
pub open spec fn hex_digit(d: int) -> char {
    if d < 10 {
        (48 + d) as char
    } else {
        (87 + d) as char
    }
}

/// The `i`-th of the 32 hexadecimal digits of `id`, the most significant one first.
pub open spec fn hex_digit_at(id: u128, i: int) -> char {
    hex_digit((id as int / vstd::arithmetic::power::pow(16, (31 - i) as nat)) % 16)
}

/// A UUID in its usual notation: 32 hexadecimal digits in groups of 8, 4, 4, 4 and
/// 12, with hyphens in between.
pub open spec fn hyphenated(id: u128) -> Seq<char> {
    Seq::new(
        36,
        |i: int|
            if i == 8 || i == 13 || i == 18 || i == 23 {
                '-'
            } else if i < 8 {
                hex_digit_at(id, i)
            } else if i < 13 {
                hex_digit_at(id, i - 1)
            } else if i < 18 {
                hex_digit_at(id, i - 2)
            } else if i < 23 {
                hex_digit_at(id, i - 3)
            } else {
                hex_digit_at(id, i - 4)
            },
    )
}

/// `uuid::Uuid::from_u128` and the `Display` of `uuid::Uuid`: write a UUID, given
/// as a number whose most significant byte comes first, in its hyphenated
/// lower-case notation.
#[verifier::external_body]
pub(crate) fn uuid_text(id: u128) -> (r: String)
    ensures
        r@ == hyphenated(id),
{
    uuid::Uuid::from_u128(id).to_string()
}

/// A JSON value, opaque to the proofs but for the names below.
#[verifier::external_type_specification]
#[verifier::external_body]
pub struct ExValue(serde_json::Value);

/// The members of a JSON object, by their keys; a value of another kind has none.
pub uninterp spec fn json_members(value: serde_json::Value) -> Map<Seq<char>, serde_json::Value>;

/// The truth value that a JSON value is, if it is one.
pub uninterp spec fn json_bool(value: serde_json::Value) -> Option<bool>;

/// The text that a JSON value is, if it is one.
pub uninterp spec fn json_text(value: serde_json::Value) -> Option<Seq<char>>;

/// `serde_json::Value::get` with a string: the member of that key, and none where
/// there is no such member or the value is no object.
#[verifier::external_body]
pub(crate) fn json_get<'a>(value: &'a serde_json::Value, key: &str) -> (r: Option<
    &'a serde_json::Value,
>)
    ensures
        match r {
            Some(member) => json_members(*value).contains_key(key@) && *member == json_members(
                *value,
            )[key@],
            None => !json_members(*value).contains_key(key@),
        },
{
    value.get(key)
}

/// `serde_json::Value::as_bool`: the value's truth value, if it is one.
pub assume_specification[ serde_json::Value::as_bool ](value: &serde_json::Value) -> (r: Option<
    bool,
>)
    ensures
        r == json_bool(*value),
;

/// `serde_json::Value::as_str`: the value's text, if it is one.
pub assume_specification[ serde_json::Value::as_str ](value: &serde_json::Value) -> (r: Option<
    &str,
>)
    ensures
        match r {
            Some(text) => json_text(*value) == Some(text@),
            None => json_text(*value) is None,
        },
;

} // verus!
