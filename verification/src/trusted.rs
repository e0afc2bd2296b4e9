//! The trusted boundary to outside crates. Each item here makes exactly one
//! outside call; its contract is believed, not verified. Everything that
//! depends on these results is verified against the contracts below.

use vstd::prelude::*;

verus! {

/// The JSON array text that serde_json produces for a given list of strings.
pub uninterp spec fn encoded_string_list(items: Seq<Seq<char>>) -> Seq<char>;

/// The list of strings that serde_json recovers from a given text, if any.
pub uninterp spec fn parsed_string_list(s: Seq<char>) -> Option<Seq<Seq<char>>>;

/// Relies on serde_json::to_string over a Vec<String>: the produced JSON
/// array text is a function of the strings alone. Serializing strings cannot
/// fail, so the error arm is unreachable.
#[verifier::external_body]
pub fn encode_string_list(items: &Vec<String>) -> (r: String)
    ensures
        r@ == encoded_string_list(items.deep_view()),
{
    match serde_json::to_string(items) {
        Ok(s) => s,
        Err(_) => String::new(),
    }
}

/// Relies on serde_json::from_str::<Vec<String>>: whether the text parses,
/// and to which strings, is a function of the text alone.
#[verifier::external_body]
pub fn parse_string_list(s: &str) -> (r: Option<Vec<String>>)
    ensures
        match r {
            Some(v) => parsed_string_list(s@) == Some(v.deep_view()),
            None => parsed_string_list(s@) is None,
        },
{
    serde_json::from_str::<Vec<String>>(s).ok()
}

/// Relies on uuid::Uuid::new_v4 and its hyphenated Display form, which is
/// documented as 36 characters. The value is random: nothing else is promised.
#[verifier::external_body]
pub fn gen_uuid() -> (r: String)
    ensures
        r@.len() == 36,
{
    uuid::Uuid::new_v4().to_string()
}

/// Relies on chrono::Utc::now().timestamp(): seconds since the Unix epoch at
/// the wall clock. The value depends on the clock: nothing is promised of it.
/// chrono panics inside Utc::now on a system clock set before the epoch; no
/// input of this function reaches that branch, the environment alone does.
#[verifier::external_body]
pub fn now_timestamp() -> (r: i64) {
    chrono::Utc::now().timestamp()
}

} // verus!
