//! What the provider response bodies say, as serde_json reads them.
//! Parsing is a deterministic function of the body text alone, so each
//! extracted field is carried by a named result that the verified response
//! judges speak of.
use vstd::prelude::*;

verus! {

/// The boolean `status` field of the body, when the body is valid JSON
/// carrying one.
pub uninterp spec fn json_status_of(s: Seq<char>) -> Option<bool>;

/// The string `message` field of the body, when the body is valid JSON
/// carrying one.
pub uninterp spec fn json_message_of(s: Seq<char>) -> Option<Seq<char>>;

/// The string `code` field of the body, when the body is valid JSON
/// carrying one.
pub uninterp spec fn json_code_of(s: Seq<char>) -> Option<Seq<char>>;

/// The numeric `data.key` field of the body, when the body is valid JSON
/// carrying one.
pub uninterp spec fn json_data_key_of(s: Seq<char>) -> Option<u64>;

/// The string `data.links.url` field of the body, when the body is valid
/// JSON carrying one.
pub uninterp spec fn json_data_url_of(s: Seq<char>) -> Option<Seq<char>>;

/// Relies on `serde_json::from_str` and `serde_json::Value::get`: whether
/// the body parses as JSON with a boolean `status` field, and its value.
#[verifier::external_body]
pub fn json_status_field(body: &str) -> (r: Option<bool>)
    ensures
        r == json_status_of(body@),
{
    match serde_json::from_str::<serde_json::Value>(body) {
        Ok(v) => match v.get("status") {
            Some(serde_json::Value::Bool(b)) => Some(*b),
            _ => None,
        },
        Err(_) => None,
    }
}

/// Relies on `serde_json::from_str` and `serde_json::Value::get`: the
/// string `message` field of the body.
#[verifier::external_body]
pub fn json_message_field(body: &str) -> (r: Option<String>)
    ensures
        (r matches Some(m) ==> json_message_of(body@) == Some(m@)),
        r.is_some() == json_message_of(body@).is_some(),
{
    let v: serde_json::Value = match serde_json::from_str(body) {
        Ok(v) => v,
        Err(_) => return None,
    };
    match v.get("message") {
        Some(serde_json::Value::String(m)) => Some(m.clone()),
        _ => None,
    }
}

/// Relies on `serde_json::from_str` and `serde_json::Value::get`: the
/// string `code` field of the body.
#[verifier::external_body]
pub fn json_code_field(body: &str) -> (r: Option<String>)
    ensures
        (r matches Some(c) ==> json_code_of(body@) == Some(c@)),
        r.is_some() == json_code_of(body@).is_some(),
{
    let v: serde_json::Value = match serde_json::from_str(body) {
        Ok(v) => v,
        Err(_) => return None,
    };
    match v.get("code") {
        Some(serde_json::Value::String(c)) => Some(c.clone()),
        _ => None,
    }
}

/// Relies on `serde_json::from_str`, `serde_json::Value::get` and
/// `serde_json::Value::as_u64`: the numeric `data.key` field of the body.
#[verifier::external_body]
pub fn json_data_key_field(body: &str) -> (r: Option<u64>)
    ensures
        r == json_data_key_of(body@),
{
    let v: serde_json::Value = match serde_json::from_str(body) {
        Ok(v) => v,
        Err(_) => return None,
    };
    match v.get("data") {
        Some(d) => match d.get("key") {
            Some(k) => k.as_u64(),
            None => None,
        },
        None => None,
    }
}

/// Relies on `serde_json::from_str` and `serde_json::Value::get`: the
/// string `data.links.url` field of the body.
#[verifier::external_body]
pub fn json_data_url_field(body: &str) -> (r: Option<String>)
    ensures
        (r matches Some(u) ==> json_data_url_of(body@) == Some(u@)),
        r.is_some() == json_data_url_of(body@).is_some(),
{
    let v: serde_json::Value = match serde_json::from_str(body) {
        Ok(v) => v,
        Err(_) => return None,
    };
    match v.get("data").and_then(|d| d.get("links")).and_then(|l| l.get("url")) {
        Some(serde_json::Value::String(u)) => Some(u.clone()),
        _ => None,
    }
}

} // verus!
