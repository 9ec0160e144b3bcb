//! Reading the JSON values that come back from the outside.
use crate::outside::{json_bool, json_get, json_members, json_text};
use crate::text::UNKNOWN_ERROR;
use vstd::prelude::*;

verus! {

/// The truth value of the member `key` of a JSON object, if it has such a member
/// and that is one.
pub open spec fn member_bool(value: serde_json::Value, key: Seq<char>) -> Option<bool> {
    if json_members(value).contains_key(key) {
        json_bool(json_members(value)[key])
    } else {
        None
    }
}

/// The text of the member `key` of a JSON object, if it has such a member and that
/// is one.
pub open spec fn member_text(value: serde_json::Value, key: Seq<char>) -> Option<Seq<char>> {
    if json_members(value).contains_key(key) {
        json_text(json_members(value)[key])
    } else {
        None
    }
}

/// What a failed switch gives as its reason.
pub open spec fn stated_error(error: Option<Seq<char>>) -> Seq<char> {
    match error {
        Some(text) => text,
        None => UNKNOWN_ERROR@,
    }
}

/// Judges a switch by the two members of its reply that matter: it succeeded if
/// `success` is there and true, and else failed for the reason in `error`.
pub fn judge_switch(success: Option<bool>, error: Option<&str>) -> (r: Result<(), String>)
    ensures
        r is Ok <==> success == Some(true),
        r matches Err(reason) ==> reason@ == stated_error(
            match error {
                Some(text) => Some(text@),
                None => None,
            },
        ),
{
    let succeeded: bool = match success {
        Some(b) => b,
        None => false,
    };
    if succeeded {
        return Ok(());
    }
    match error {
        Some(text) => Err(text.to_owned()),
        None => Err(UNKNOWN_ERROR.to_owned()),
    }
}

/// Judges a switch by its reply: it succeeded if the member `success` is true, and
/// else failed for the reason in the member `error`.
pub fn read_switch_reply(reply: &serde_json::Value) -> (r: Result<(), String>)
    ensures
        r is Ok <==> member_bool(*reply, "success"@) == Some(true),
        r matches Err(reason) ==> reason@ == stated_error(member_text(*reply, "error"@)),
{
    let success: Option<bool> = match json_get(reply, "success") {
        Some(member) => member.as_bool(),
        None => None,
    };
    let error: Option<&str> = match json_get(reply, "error") {
        Some(member) => member.as_str(),
        None => None,
    };
    judge_switch(success, error)
}

/// The part of a quota answer that describes the plan: its member `plan_status`,
/// or all of it where it has none.
pub open spec fn plan_status_of(answer: serde_json::Value) -> serde_json::Value {
    if json_members(answer).contains_key("plan_status"@) {
        json_members(answer)["plan_status"@]
    } else {
        answer
    }
}

/// Gives the part of a quota answer that describes the plan.
pub fn plan_status_node(answer: &serde_json::Value) -> (r: &serde_json::Value)
    ensures
        *r == plan_status_of(*answer),
{
    match json_get(answer, "plan_status") {
        Some(member) => member,
        None => answer,
    }
}

} // verus!
