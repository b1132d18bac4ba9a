//! The smart plug that powers the heater.
//!
//! The plug reports its status as a JSON document in which the member
//! `switch:0` is an object whose member `output` tells whether the plug
//! is on. The document is read by `serde_json`; what is made of it is
//! decided here.

use vstd::prelude::*;

verus! {

/// Why the plug could not be queried or switched.
#[derive(Clone, Copy, Debug, PartialEq, Eq, Structural)]
pub enum ActuatorError {
    /// The plug could not be reached.
    Unreachable,
    /// The plug answered, but not with the status that was asked for.
    MalformedResponse,
}

#[verifier::external_type_specification]
#[verifier::external_body]
pub struct ExValue(serde_json::Value);

#[verifier::external_type_specification]
#[verifier::external_body]
pub struct ExJsonError(serde_json::Error);

/// The JSON value that `serde_json::from_slice` reads from a text, or `None`
/// where it rejects the text.
pub uninterp spec fn json_document(text: Seq<u8>) -> Option<serde_json::Value>;

/// The member that `serde_json::Value::get` finds under a key: `None` where
/// the value is no object or has no such member.
pub uninterp spec fn json_member(value: serde_json::Value, key: Seq<char>) -> Option<
    serde_json::Value,
>;

/// The boolean that `serde_json::Value::as_bool` sees in a value: `None`
/// where the value is no boolean.
pub uninterp spec fn json_bool(value: serde_json::Value) -> Option<bool>;

/// Calls `serde_json::from_slice` for a `serde_json::Value`. The result is
/// taken to depend on the bytes alone; nothing is claimed about which texts
/// are accepted.
#[verifier::external_body]
fn parse_document(text: &[u8]) -> (r: Result<serde_json::Value, serde_json::Error>)
    ensures
        match r {
            Ok(value) => json_document(text@) == Some(value),
            Err(_) => json_document(text@) is None,
        },
{
    serde_json::from_slice(text)
}

/// Calls `serde_json::Value::get` with a string key. The result is taken to
/// depend on the value and the key alone.
#[verifier::external_body]
fn member<'a>(value: &'a serde_json::Value, key: &str) -> (r: Option<&'a serde_json::Value>)
    ensures
        match r {
            Some(found) => json_member(*value, key@) == Some(*found),
            None => json_member(*value, key@) is None,
        },
{
    value.get(key)
}

/// Calls `serde_json::Value::as_bool`. The result is taken to depend on the
/// value alone.
#[verifier::external_body]
fn boolean(value: &serde_json::Value) -> (r: Option<bool>)
    ensures
        r == json_bool(*value),
{
    value.as_bool()
}

/// The member of the status document that describes the plug's switch.
pub open spec fn switch_key() -> Seq<char> {
    "switch:0"@
}

/// The member of the switch's description that tells whether it is on.
pub open spec fn output_key() -> Seq<char> {
    "output"@
}

/// Whether the plug is on according to a status document. The document is
/// malformed where the switch, its output, or the output's boolean is
/// missing.
pub open spec fn power_in(document: serde_json::Value) -> Result<bool, ActuatorError> {
    match json_member(document, switch_key()) {
        None => Err(ActuatorError::MalformedResponse),
        Some(switch) => match json_member(switch, output_key()) {
            None => Err(ActuatorError::MalformedResponse),
            Some(output) => match json_bool(output) {
                None => Err(ActuatorError::MalformedResponse),
                Some(on) => Ok(on),
            },
        },
    }
}

/// Whether the plug is on according to its status response: the body that
/// came back, or `None` where the request failed. A plug that did not answer
/// is unreachable; a body that is no JSON document is malformed.
pub open spec fn power_of_status(response: Option<Seq<u8>>) -> Result<bool, ActuatorError> {
    match response {
        None => Err(ActuatorError::Unreachable),
        Some(body) => match json_document(body) {
            None => Err(ActuatorError::MalformedResponse),
            Some(document) => power_in(document),
        },
    }
}

/// What a switching request came to. The plug is not asked to confirm: the
/// request succeeded if it was delivered.
pub open spec fn switch_result(delivered: bool) -> Result<(), ActuatorError> {
    if delivered {
        Ok(())
    } else {
        Err(ActuatorError::Unreachable)
    }
}

/// Reads from a status document whether the plug is on.
pub fn output_of(document: &serde_json::Value) -> (on: Result<bool, ActuatorError>)
    ensures
        on == power_in(*document),
{
    match member(document, "switch:0") {
        None => Err(ActuatorError::MalformedResponse),
        Some(switch) => match member(switch, "output") {
            None => Err(ActuatorError::MalformedResponse),
            Some(output) => match boolean(output) {
                None => Err(ActuatorError::MalformedResponse),
                Some(on) => Ok(on),
            },
        },
    }
}

/// Reads from the plug's status response whether the heater is on.
/// `response` is the body that came back, or `None` where the request
/// failed.
pub fn is_on(response: Option<&[u8]>) -> (on: Result<bool, ActuatorError>)
    ensures
        on == power_of_status(
            match response {
                Some(body) => Some(body@),
                None => None,
            },
        ),
{
    match response {
        None => Err(ActuatorError::Unreachable),
        Some(body) => match parse_document(body) {
            Err(_) => Err(ActuatorError::MalformedResponse),
            Ok(document) => output_of(&document),
        },
    }
}

/// The query with which the plug is switched: its switch has the id 0.
pub open spec fn switch_query(on: bool) -> Seq<char> {
    if on {
        "?id=0&on=true"@
    } else {
        "?id=0&on=false"@
    }
}

/// The query string of the request that switches the heater on or off. The
/// plug does not confirm; the next status query shows what became of it.
pub fn switch(on: bool) -> (query: &'static str)
    ensures
        query@ == switch_query(on),
{
    if on {
        "?id=0&on=true"
    } else {
        "?id=0&on=false"
    }
}

/// The result of a switching request, given whether it was delivered.
pub fn switched(delivered: bool) -> (result: Result<(), ActuatorError>)
    ensures
        result == switch_result(delivered),
{
    if delivered {
        Ok(())
    } else {
        Err(ActuatorError::Unreachable)
    }
}

} // verus!
