//! The text answers of the C boundary: JSON error objects, the batch request
//! (a JSON array of target strings), and the payload of a returned C string.

use vstd::prelude::*;

use crate::text::{contains_char, string_views};

verus! {

/// What `serde_json::to_string` makes of a string: the JSON string literal
/// for it (quoted, with `"`, `\` and control characters escaped).
pub uninterp spec fn json_text_of_str(s: Seq<char>) -> Seq<char>;

/// What `serde_json::from_str::<Vec<String>>` makes of a text: the strings
/// of a JSON array of strings, or the text of the parse error.
pub uninterp spec fn json_string_list(text: Seq<char>) -> Result<Seq<Seq<char>>, Seq<char>>;

/// Calls `serde_json::to_string` on a string slice. Claimed: the result is
/// `json_text_of_str` of the argument. Serialising a `str` into a `Vec`
/// writer has no failing path in serde_json, so the empty fallback is never
/// taken; nothing is claimed about the exact escaping, which serde_json
/// decides.
#[verifier::external_body]
fn json_string_literal(s: &str) -> (res: String)
    ensures
        res@ == json_text_of_str(s@),
{
    serde_json::to_string(s).unwrap_or_default()
}

/// Calls `serde_json::from_str::<Vec<String>>` and, on failure, the error's
/// `Display` text. Claimed: the outcome (strings, or error text) is
/// `json_string_list` of the argument; nothing is claimed about which texts
/// parse.
#[verifier::external_body]
fn parse_json_string_list(text: &str) -> (res: Result<Vec<String>, String>)
    ensures
        match res {
            Ok(v) => json_string_list(text@) == Ok::<Seq<Seq<char>>, Seq<char>>(string_views(v@)),
            Err(e) => json_string_list(text@) == Err::<Seq<Seq<char>>, Seq<char>>(e@),
        },
{
    match serde_json::from_str::<Vec<String>>(text) {
        Ok(v) => Ok(v),
        Err(e) => Err(e.to_string()),
    }
}

/// The JSON object `{"error":<message>}`.
pub open spec fn error_json(message: Seq<char>) -> Seq<char> {
    "{\"error\":"@ + json_text_of_str(message) + "}"@
}

/// The JSON object `{"error":<message>,"success":false}` (keys in the order
/// serde_json's default map writes them).
pub open spec fn launch_error_json(message: Seq<char>) -> Seq<char> {
    "{\"error\":"@ + json_text_of_str(message) + ",\"success\":false}"@
}

/// The error answer for a failed call.
pub fn error_response(message: &str) -> (res: String)
    ensures
        res@ == error_json(message@),
{
    let mut res = String::new();
    res.append("{\"error\":");
    let quoted = json_string_literal(message);
    res.append(quoted.as_str());
    res.append("}");
    res
}

/// The error answer for a launch that could not be attempted.
pub fn launch_error_response(message: &str) -> (res: String)
    ensures
        res@ == launch_error_json(message@),
{
    let mut res = String::new();
    res.append("{\"error\":");
    let quoted = json_string_literal(message);
    res.append(quoted.as_str());
    res.append(",\"success\":false}");
    res
}

/// The answer when the address argument is a null pointer.
pub fn null_ip_response() -> (res: String)
    ensures
        res@ == error_json("IP is null"@),
{
    error_response("IP is null")
}

/// The answer when the batch argument is a null pointer.
pub fn null_targets_response() -> (res: String)
    ensures
        res@ == error_json("Targets null"@),
{
    error_response("Targets null")
}

/// The answer when the launch configuration is a null pointer.
pub fn null_config_response() -> (res: String)
    ensures
        res@ == launch_error_json("Config is null"@),
{
    launch_error_response("Config is null")
}

/// The answer when a panic was caught at the boundary.
pub fn panic_response() -> (res: String)
    ensures
        res@ == error_json("Rust panic caught at FFI boundary"@),
{
    error_response("Rust panic caught at FFI boundary")
}

/// The targets of a batch request (a JSON array of strings), or the error
/// answer when the text is not one.
pub fn batch_targets(request: &str) -> (res: Result<Vec<String>, String>)
    ensures
        match json_string_list(request@) {
            Ok(targets) => res matches Ok(v) && string_views(v@) == targets,
            Err(message) => res matches Err(answer) && answer@ == error_json(message),
        },
{
    match parse_json_string_list(request) {
        Ok(v) => Ok(v),
        Err(e) => Err(error_response(e.as_str())),
    }
}

/// The text handed out as a C string: unchanged, or empty when it holds a
/// NUL character (which a C string cannot carry).
pub fn c_string_payload(s: String) -> (res: String)
    ensures
        s@.contains('\0') ==> res@ == Seq::<char>::empty(),
        !s@.contains('\0') ==> res == s,
{
    if contains_char(s.as_str(), '\0') {
        String::new()
    } else {
        s
    }
}

} // verus!
