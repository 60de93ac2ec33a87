//! The saved front-end configuration: whether a stored file holds JSON,
//! and the text written when one is saved.

use vstd::prelude::*;

use serde_json::Value;

verus! {

#[verifier::external_type_specification]
#[verifier::external_body]
pub struct ExJsonValue(serde_json::Value);

/// Names whether `serde_json::from_str::<serde_json::Value>` accepts a text.
pub uninterp spec fn json_accepts(text: Seq<char>) -> bool;

/// Names the value that `serde_json::from_str::<serde_json::Value>` gives
/// for a text it accepts.
pub uninterp spec fn json_value(text: Seq<char>) -> Value;

/// Calls `serde_json::from_str::<Value>`; claims that it gives a value
/// exactly where the named acceptance holds of the text, and that the
/// value is the one named for that text.
#[verifier::external_body]
fn parse_json(text: &str) -> (r: Option<Value>)
    ensures
        r is Some <==> json_accepts(text@),
        r matches Some(v) ==> v == json_value(text@),
{
    serde_json::from_str::<Value>(text).ok()
}

/// Names the text that `serde_json::to_string_pretty` writes for a value.
pub uninterp spec fn json_pretty(value: Value) -> Seq<char>;

/// Calls `serde_json::to_string_pretty` on a value; claims that it
/// succeeds and that its text is the one named for the value. Its
/// documentation names two causes of failure, a `Serialize` impl that fails
/// and a map with keys that are not strings; `Value`'s impl does not fail
/// and its maps are keyed by `String`, and the output goes to a `Vec<u8>`,
/// whose writes do not fail.
#[verifier::external_body]
fn pretty_json(value: &Value) -> (r: Option<String>)
    ensures
        r is Some,
        r matches Some(t) ==> t@ == json_pretty(*value),
{
    serde_json::to_string_pretty(value).ok()
}

/// The state of the stored configuration.
#[derive(Debug, PartialEq)]
pub enum ConfigStatus {
    /// The file holds this JSON value.
    Configured { config: Value },
    /// There is no file, it cannot be read, or it is not JSON.
    Unconfigured,
}

/// The status for the outcome of parsing the stored file.
pub fn config_status(parsed: Option<Value>) -> (r: ConfigStatus)
    ensures
        match parsed {
            Some(v) => r == ConfigStatus::Configured { config: v },
            None => r is Unconfigured,
        },
{
    match parsed {
        Some(v) => ConfigStatus::Configured { config: v },
        None => ConfigStatus::Unconfigured,
    }
}

/// The status for the stored file's content (`None`: missing or
/// unreadable).
pub fn get_config(content: Option<&str>) -> (r: ConfigStatus)
    ensures
        r is Configured <==> match content {
            Some(text) => json_accepts(text@),
            None => false,
        },
        r matches ConfigStatus::Configured { config } ==> content matches Some(text)
            && config == json_value(text@),
{
    match content {
        Some(text) => config_status(parse_json(text)),
        None => ConfigStatus::Unconfigured,
    }
}

/// The text to store for a configuration payload: pretty-printed JSON,
/// which a JSON value always has.
pub fn serialize_config(payload: &Value) -> (r: Option<String>)
    ensures
        r is Some,
        r matches Some(t) ==> t@ == json_pretty(*payload),
{
    pretty_json(payload)
}

} // verus!
