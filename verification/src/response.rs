//! The response envelope: the two JSON shapes an endpoint answers with,
//! and the decoding of a body into a typed payload or an error.
//!
//! A body whose top level is a JSON object with a string member named
//! `error` is an error response, whatever else it holds; any other body is
//! tried as the success payload. A body that fits neither shape is a
//! transport-level decode failure, never an API-level error.

use crate::error::ShodanError;
use vstd::prelude::*;
use vstd::string::StringExecFns;

verus! {

/// The member named `error` of the JSON object a body denotes: `Some`
/// exactly when the body is well-formed JSON whose top level is an object
/// holding a string under the key `error`, and then that string. A
/// function of the body text alone.
pub uninterp spec fn json_error_field(body: Seq<char>) -> Option<Seq<char>>;

/// Whether the body parses as JSON at all, as `serde_json::from_str` has
/// it, its nesting-depth limit included. A function of the body text
/// alone.
pub uninterp spec fn json_wf(body: Seq<char>) -> bool;

/// An error-shaped response body: a JSON object with an `error` member.
pub struct ShodanErrorResponse {
    pub error: String,
}

/// The two shapes a response body can decode into.
pub enum ShodanClientResponse<T> {
    Error(ShodanErrorResponse),
    Response(T),
}

/// Relies on `serde_json::from_str::<serde_json::Value>` and
/// `serde_json::Map::get` (serde_json 1.0.151): parses the body and looks
/// up the top-level `error` member. Both are pure functions of the body
/// text, so the probe is one as well.
#[verifier::external_body]
fn probe_error_field(body: &str) -> (r: Option<String>)
    ensures
        r matches Some(m) ==> json_error_field(body@) == Some(m@) && json_wf(body@),
        r is None ==> json_error_field(body@) is None,
{
    match serde_json::from_str::<serde_json::Value>(body) {
        Ok(serde_json::Value::Object(members)) => match members.get("error") {
            Some(serde_json::Value::String(message)) => Some(message.clone()),
            _ => None,
        },
        _ => None,
    }
}

/// Relies on `serde_json::from_str::<T>` (serde_json 1.0.151): decodes the
/// body into `T`. A body that is not well-formed JSON fails for every `T`;
/// the error is handed back rendered as text.
#[verifier::external_body]
fn parse_success<T: serde::de::DeserializeOwned>(body: &str) -> (r: Result<T, String>)
    ensures
        !json_wf(body@) ==> r is Err,
{
    match serde_json::from_str::<T>(body) {
        Ok(value) => Ok(value),
        Err(cause) => Err(cause.to_string()),
    }
}

/// Decode a response body as the envelope: the error shape wins when the
/// body carries one; otherwise the success payload is tried, and a body
/// fitting neither shape is a decode failure carrying its cause.
pub fn decode_envelope<T: serde::de::DeserializeOwned>(body: &str) -> (r: Result<
    ShodanClientResponse<T>,
    String,
>)
    ensures
        json_error_field(body@) matches Some(m) ==> (r matches Ok(
            ShodanClientResponse::Error(e),
        ) && e.error@ == m),
        json_error_field(body@) is None ==> !(r matches Ok(ShodanClientResponse::Error(_))),
        !json_wf(body@) ==> r is Err,
{
    match probe_error_field(body) {
        Some(message) => Ok(ShodanClientResponse::Error(ShodanErrorResponse { error: message })),
        None => match parse_success::<T>(body) {
            Ok(payload) => Ok(ShodanClientResponse::Response(payload)),
            Err(cause) => Err(cause),
        },
    }
}

/// Unwrap a decoded envelope: a success payload is handed through; an
/// error response becomes a client error whose message is
/// `Error response: ` followed by the upstream text verbatim.
pub fn response_to_result<T>(response: ShodanClientResponse<T>) -> (r: Result<T, ShodanError>)
    ensures
        response matches ShodanClientResponse::Error(e) ==> (r matches Err(
            ShodanError::ShodanClientError(m),
        ) && m@ == "Error response: "@ + e.error@),
        response matches ShodanClientResponse::Response(t) ==> r == Ok::<T, ShodanError>(t),
{
    match response {
        ShodanClientResponse::Error(e) => {
            let mut m = String::from_str("Error response: ");
            m.append(e.error.as_str());
            Err(ShodanError::ShodanClientError(m))
        },
        ShodanClientResponse::Response(t) => Ok(t),
    }
}

/// Decode a response body straight to the caller's outcome: the typed
/// payload on a success-shaped body, a client error on an error-shaped
/// one, a transport error on a body that fits neither shape.
pub fn decode_body<T: serde::de::DeserializeOwned>(body: &str) -> (r: Result<T, ShodanError>)
    ensures
        json_error_field(body@) matches Some(m) ==> (r matches Err(
            ShodanError::ShodanClientError(msg),
        ) && msg@ == "Error response: "@ + m),
        json_error_field(body@) is None ==> !(r matches Err(ShodanError::ShodanClientError(_))),
        !json_wf(body@) ==> (r matches Err(ShodanError::ReqwestError(_))),
{
    match decode_envelope::<T>(body) {
        Ok(envelope) => response_to_result(envelope),
        Err(cause) => Err(ShodanError::ReqwestError(cause)),
    }
}

} // verus!
