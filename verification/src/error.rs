//! The error taxonomy: API-level client errors kept apart from
//! transport-level failures.

use vstd::prelude::*;
use vstd::string::StringExecFns;

verus! {

/// The outcome of a failed API call.
///
/// `ShodanClientError` carries the message the upstream service reported
/// in an error-shaped response body. `ReqwestError` carries the rendered
/// cause of a transport-level failure: a network or HTTP error, or a
/// response body that could not be decoded.
#[derive(Debug)]
pub enum ShodanError {
    ShodanClientError(String),
    ReqwestError(String),
}

impl ShodanError {
    /// One readable line saying what went wrong.
    pub fn message(&self) -> (r: String)
        ensures
            self matches ShodanError::ShodanClientError(e) ==> r@ == "Shodan client error: "@
                + e@,
            self matches ShodanError::ReqwestError(e) ==> r@ == "Reqwest error: "@ + e@,
    {
        match self {
            ShodanError::ShodanClientError(e) => {
                let mut r = String::from_str("Shodan client error: ");
                r.append(e.as_str());
                r
            },
            ShodanError::ReqwestError(e) => {
                let mut r = String::from_str("Reqwest error: ");
                r.append(e.as_str());
                r
            },
        }
    }
}

} // verus!
