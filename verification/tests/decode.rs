//! Decoding response bodies: the envelope's two shapes, the error-message
//! prefix, and the treatment of malformed bodies.

use shodan_client::error::ShodanError;
use shodan_client::response::{decode_body, decode_envelope, response_to_result};
use shodan_client::response::{ShodanClientResponse, ShodanErrorResponse};

#[test]
fn decoding_an_error_body_yields_a_client_error() {
    let r = decode_body::<serde_json::Value>("{\"error\": \"invalid API key\"}");
    match r {
        Err(ShodanError::ShodanClientError(m)) => {
            assert_eq!(m, "Error response: invalid API key");
        }
        _ => panic!("expected a client error"),
    }
}

#[test]
fn success_round_trip_is_lossless() {
    let mut members = serde_json::Map::new();
    members.insert(
        String::from("field"),
        serde_json::Value::String(String::from("value")),
    );
    members.insert(
        String::from("count"),
        serde_json::Value::from(3u64),
    );
    let original = serde_json::Value::Object(members);
    let body = serde_json::to_string(&original).unwrap();
    let decoded = decode_body::<serde_json::Value>(&body).unwrap();
    assert_eq!(decoded, original);
    assert_eq!(decoded.get("field").unwrap().as_str(), Some("value"));
}

#[test]
fn malformed_bodies_yield_transport_errors_never_client_errors() {
    let bodies = ["not json", "{\"error\": \"trunca", "", "{]"];
    for body in bodies {
        match decode_body::<serde_json::Value>(body) {
            Err(ShodanError::ReqwestError(cause)) => {
                assert!(!cause.is_empty());
            }
            Err(ShodanError::ShodanClientError(_)) => {
                panic!("a malformed body must not become a client error");
            }
            Ok(_) => panic!("a malformed body must not decode"),
        }
    }
}

#[test]
fn a_body_matching_neither_shape_is_a_transport_error() {
    let r = decode_body::<u32>("{\"field\": \"value\"}");
    assert!(matches!(r, Err(ShodanError::ReqwestError(_))));
}

#[test]
fn the_error_shape_wins_over_the_success_shape() {
    let r = decode_body::<serde_json::Value>("{\"error\": \"quota exceeded\", \"matches\": []}");
    match r {
        Err(ShodanError::ShodanClientError(m)) => {
            assert_eq!(m, "Error response: quota exceeded");
        }
        _ => panic!("an error-shaped body must decode as the error variant"),
    }
}

#[test]
fn a_non_string_error_member_is_not_an_error_response() {
    let r = decode_body::<serde_json::Value>("{\"error\": 5}");
    let v = r.unwrap();
    assert_eq!(v.get("error").unwrap().as_u64(), Some(5));
}

#[test]
fn envelope_decoding_selects_the_variant_by_shape() {
    match decode_envelope::<serde_json::Value>("{\"error\": \"down\"}") {
        Ok(ShodanClientResponse::Error(e)) => assert_eq!(e.error, "down"),
        _ => panic!("expected the error variant"),
    }
    match decode_envelope::<serde_json::Value>("[1, 2, 3]") {
        Ok(ShodanClientResponse::Response(v)) => {
            assert_eq!(v.as_array().unwrap().len(), 3);
        }
        _ => panic!("expected the success variant"),
    }
    assert!(decode_envelope::<serde_json::Value>("no").is_err());
}

#[test]
fn unwrapping_an_envelope_prefixes_the_upstream_message() {
    let envelope = ShodanClientResponse::<u32>::Error(ShodanErrorResponse {
        error: String::from("invalid API key"),
    });
    match response_to_result(envelope) {
        Err(ShodanError::ShodanClientError(m)) => {
            assert_eq!(m, "Error response: invalid API key");
        }
        _ => panic!("expected a client error"),
    }
    let ok = response_to_result(ShodanClientResponse::<u32>::Response(9));
    assert_eq!(ok.unwrap(), 9);
}

#[test]
fn error_messages_name_their_layer() {
    let client = ShodanError::ShodanClientError(String::from("Error response: bad query"));
    assert_eq!(
        client.message(),
        "Shodan client error: Error response: bad query"
    );
    let transport = ShodanError::ReqwestError(String::from("connection refused"));
    assert_eq!(transport.message(), "Reqwest error: connection refused");
}
