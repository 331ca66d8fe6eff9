//! The calls that the feed makes into code that is not verified here.
//!
//! Each function below is believed, not proved: its contract states what the
//! function it calls is documented to do.

use vstd::prelude::*;
use vstd::string::StringSliceAdditionalSpecFns;
use vstd::utf8::valid_utf8;

verus! {

/// The list of ids that `serde_json::from_str::<Vec<u64>>` reads from a JSON
/// text, or `None` where it reports an error.
pub uninterp spec fn json_id_list(text: Seq<char>) -> Option<Seq<u64>>;

/// The error type of `serde_json`. Nothing is read from it.
#[verifier::external_type_specification]
#[verifier::external_body]
pub struct ExJsonError(serde_json::Error);

/// Calls `serde_json::from_str::<Vec<u64>>` on `text`.
///
/// Believed: the outcome depends on `text` alone, so it is `json_id_list` of
/// the characters of `text`, with `Err` standing for `None`.
#[verifier::external_body]
pub(crate) fn parse_id_list(text: &str) -> (r: Result<Vec<u64>, serde_json::Error>)
    ensures
        match r {
            Ok(ids) => json_id_list(text@) == Some(ids@),
            Err(_) => json_id_list(text@) is None,
        },
{
    serde_json::from_str::<Vec<u64>>(text)
}

/// Calls `std::str::from_utf8` on `bytes`.
///
/// Believed: the call succeeds exactly on well-formed UTF-8, and the string
/// that it returns is made of the bytes it was given.
#[verifier::external_body]
pub(crate) fn utf8_text(bytes: &[u8]) -> (r: Option<&str>)
    ensures
        r is Some <==> valid_utf8(bytes@),
        r matches Some(text) ==> text.spec_bytes() == bytes@,
{
    match std::str::from_utf8(bytes) {
        Ok(text) => Some(text),
        Err(_) => None,
    }
}

/// Calls `time::get_time` and returns the seconds of its reading: the time of
/// the system clock in whole seconds since the Unix epoch.
///
/// Nothing is believed of the value: the clock may give any reading.
#[verifier::external_body]
pub(crate) fn now_utc_seconds() -> i64 {
    time::get_time().sec
}

} // verus!
