//! Trusted wrappers around the outside crates (serde_json, chrono, uuid) and
//! around the two std text functions that vstd gives no specification.
//!
//! Every function here is `external_body`: Verus believes its contract and
//! never reads its body. Results that would take pages to state (what parses
//! as JSON, Unicode case folding) are given uninterpreted names; a result
//! that depends on the clock or on randomness gets no contract at all, and
//! the verified callers are proved for every value it may return.

use vstd::prelude::*;
use vstd::string::*;
use crate::textutil::views_of;

verus! {

// ---- std text ----

/// What `str::to_lowercase` returns for a given character sequence.
pub uninterp spec fn lower_of(s: Seq<char>) -> Seq<char>;

/// Relies on `str::to_lowercase`: the case folding depends on the characters
/// alone, and an empty string folds to an empty string.
#[verifier::external_body]
pub fn to_lowercase(s: &str) -> (r: String)
    ensures
        r@ == lower_of(s@),
        s@.len() == 0 ==> r@.len() == 0,
{
    s.to_lowercase()
}

/// What `str::trim` returns for a given character sequence.
pub uninterp spec fn trim_of(s: Seq<char>) -> Seq<char>;

/// Relies on `str::trim`: removing leading and trailing whitespace depends on
/// the characters alone.
#[verifier::external_body]
pub fn trim(s: &str) -> (r: String)
    ensures
        r@ == trim_of(s@),
{
    s.trim().to_string()
}

// ---- serde_json ----

/// Whether `s` parses as one JSON document under `serde_json::from_str`.
pub uninterp spec fn json_parses(s: Seq<char>) -> bool;

/// Relies on `serde_json::from_str::<Value>`: success is a function of the
/// input text alone.
#[verifier::external_body]
pub fn json_is_doc(s: &str) -> (r: bool)
    ensures
        r == json_parses(s@),
{
    serde_json::from_str::<serde_json::Value>(s).is_ok()
}

/// The string value under `key` when `s` parses to a JSON document carrying a
/// string there; `None` when `s` does not parse, the key is absent, or the
/// value is not a string.
pub uninterp spec fn json_str_field_of(s: Seq<char>, key: Seq<char>) -> Option<Seq<char>>;

/// Relies on serde_json's `from_str`, `Value::get` and `Value::as_str`.
#[verifier::external_body]
pub fn json_str_field(s: &str, key: &str) -> (r: Option<String>)
    ensures
        match r {
            Some(v) => json_str_field_of(s@, key@) == Some(v@),
            None => json_str_field_of(s@, key@) is None,
        },
        r is Some ==> json_parses(s@),
{
    match serde_json::from_str::<serde_json::Value>(s) {
        Ok(doc) => doc.get(key).and_then(|f| f.as_str()).map(|t| t.to_string()),
        Err(_) => None,
    }
}

/// The value under `key`, rendered back to compact JSON text; `None` when `s`
/// does not parse or the key is absent.
pub uninterp spec fn json_field_text_of(s: Seq<char>, key: Seq<char>) -> Option<Seq<char>>;

/// Relies on serde_json's `from_str`, `Value::get` and `Value`'s `Display`
/// (which prints compact JSON).
#[verifier::external_body]
pub fn json_field_text(s: &str, key: &str) -> (r: Option<String>)
    ensures
        match r {
            Some(v) => json_field_text_of(s@, key@) == Some(v@),
            None => json_field_text_of(s@, key@) is None,
        },
{
    match serde_json::from_str::<serde_json::Value>(s) {
        Ok(doc) => doc.get(key).map(|f| f.to_string()),
        Err(_) => None,
    }
}

/// The unsigned value under `key` when `s` parses to a document carrying a
/// number representable as `u64` there.
pub uninterp spec fn json_u64_field_of(s: Seq<char>, key: Seq<char>) -> Option<u64>;

/// Relies on serde_json's `from_str`, `Value::get` and `Value::as_u64`.
#[verifier::external_body]
pub fn json_u64_field(s: &str, key: &str) -> (r: Option<u64>)
    ensures
        r == json_u64_field_of(s@, key@),
{
    match serde_json::from_str::<serde_json::Value>(s) {
        Ok(doc) => doc.get(key).and_then(|f| f.as_u64()),
        Err(_) => None,
    }
}

/// The elements of `s` read as a JSON array, each rendered back to compact
/// JSON text; `None` when `s` does not parse as an array of JSON values.
pub uninterp spec fn json_array_items_of(s: Seq<char>) -> Option<Seq<Seq<char>>>;

/// Relies on `serde_json::from_str::<Vec<Value>>` and `Value`'s `Display`.
#[verifier::external_body]
pub fn json_array_items(s: &str) -> (r: Option<Vec<String>>)
    ensures
        match r {
            Some(v) => json_array_items_of(s@) == Some(views_of(v@)),
            None => json_array_items_of(s@) is None,
        },
{
    match serde_json::from_str::<Vec<serde_json::Value>>(s) {
        Ok(items) => Some(items.iter().map(|v| v.to_string()).collect()),
        Err(_) => None,
    }
}

/// `s` re-rendered as indented JSON when it parses; defined by serde_json's
/// deterministic pretty printer.
pub uninterp spec fn json_pretty_of(s: Seq<char>) -> Seq<char>;

/// Relies on serde_json's `from_str` and `to_string_pretty`.
#[verifier::external_body]
pub fn json_pretty(s: &str) -> (r: Option<String>)
    ensures
        match r {
            Some(v) => json_parses(s@) && v@ == json_pretty_of(s@),
            None => !json_parses(s@),
        },
{
    match serde_json::from_str::<serde_json::Value>(s) {
        Ok(doc) => Some(serde_json::to_string_pretty(&doc).unwrap_or_else(|_| doc.to_string())),
        Err(_) => None,
    }
}

// ---- chrono ----

/// The canonical `YYYY-MM-DD` rendering of `s` when chrono accepts `s` as a
/// calendar date in that format; `None` when it does not.
pub uninterp spec fn canon_date_of(s: Seq<char>) -> Option<Seq<char>>;

/// Relies on `chrono::NaiveDate::parse_from_str` with format `%Y-%m-%d` and
/// on `NaiveDate`'s `format`. The `Err` text is the chrono parse error's
/// rendering, of which nothing is stated.
#[verifier::external_body]
pub fn canon_date(s: &str) -> (r: Result<String, String>)
    ensures
        match r {
            Ok(d) => canon_date_of(s@) == Some(d@),
            Err(_) => canon_date_of(s@) is None,
        },
{
    match chrono::NaiveDate::parse_from_str(s, "%Y-%m-%d") {
        Ok(d) => Ok(d.format("%Y-%m-%d").to_string()),
        Err(e) => Err(e.to_string()),
    }
}

/// Relies on chrono's `Utc::now`, `date_naive` and `format`: the current day,
/// clock-dependent, so nothing is stated of the value.
#[verifier::external_body]
pub fn today_ymd() -> (r: String) {
    chrono::Utc::now().date_naive().format("%Y-%m-%d").to_string()
}

/// Relies on chrono's `Utc::now` and `to_rfc3339`: the current instant,
/// clock-dependent, so nothing is stated of the value.
#[verifier::external_body]
pub fn now_rfc3339() -> (r: String) {
    chrono::Utc::now().to_rfc3339()
}

/// The `HH:MM` rendering of an RFC 3339 timestamp, in UTC, when chrono
/// accepts it; `None` stands for rejection.
pub uninterp spec fn rfc3339_hhmm_of(s: Seq<char>) -> Option<Seq<char>>;

/// Relies on chrono's `DateTime::parse_from_rfc3339` and `format("%H:%M")`.
/// On a timestamp chrono rejects, the current time is substituted, so nothing
/// is stated of that outcome.
#[verifier::external_body]
pub fn rfc3339_hhmm(s: &str) -> (r: String)
    ensures
        rfc3339_hhmm_of(s@) is Some ==> Some(r@) == rfc3339_hhmm_of(s@),
{
    match chrono::DateTime::parse_from_rfc3339(s) {
        Ok(t) => t.with_timezone(&chrono::Utc).format("%H:%M").to_string(),
        Err(_) => chrono::Utc::now().format("%H:%M").to_string(),
    }
}

/// The `YYYY-MM-DD HH:MM` rendering of an RFC 3339 timestamp, in UTC, when
/// chrono accepts it.
pub uninterp spec fn rfc3339_ymdhm_of(s: Seq<char>) -> Option<Seq<char>>;

/// Relies on chrono's `DateTime::parse_from_rfc3339` and
/// `format("%Y-%m-%d %H:%M")`. On a timestamp chrono rejects, the current
/// time is substituted, so nothing is stated of that outcome.
#[verifier::external_body]
pub fn rfc3339_ymdhm(s: &str) -> (r: String)
    ensures
        rfc3339_ymdhm_of(s@) is Some ==> Some(r@) == rfc3339_ymdhm_of(s@),
{
    match chrono::DateTime::parse_from_rfc3339(s) {
        Ok(t) => t.with_timezone(&chrono::Utc).format("%Y-%m-%d %H:%M").to_string(),
        Err(_) => chrono::Utc::now().format("%Y-%m-%d %H:%M").to_string(),
    }
}

// ---- uuid ----

/// Relies on `uuid::Uuid::new_v4` and its hyphenated `Display`: a fresh
/// random identifier, so nothing is stated of the value.
#[verifier::external_body]
pub fn new_call_id() -> (r: String) {
    uuid::Uuid::new_v4().to_string()
}

} // verus!
