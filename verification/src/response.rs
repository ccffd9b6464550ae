use vstd::prelude::*;

use crate::error::SummarizeError;

verus! {

/// What strict JSON parsing makes of `text` when asked for the string member
/// `key`: the member's characters when `text` is one valid JSON object whose
/// `key` member is a string, nothing otherwise. A pure function of the two
/// texts.
pub uninterp spec fn json_string_field(text: Seq<char>, key: Seq<char>) -> Option<Seq<char>>;

/// The summary carried by a model response: the response must be one valid
/// JSON object and its `summary` member must be a string.
pub open spec fn summary_field(text: Seq<char>) -> Option<Seq<char>> {
    json_string_field(text, "summary"@)
}

/// Relies on `serde_json::from_str::<Value>` and `serde_json::Value::get`:
/// parsing is strict (the whole text must be one valid JSON document), its
/// result depends on the text alone, and `get` looks a key up in a JSON
/// object, returning nothing for any other document. `Ok(None)` means the
/// document parsed but holds no string member under `key`; `Err` carries the
/// JSON parser's own description of why the document did not parse, of which
/// nothing is claimed.
#[verifier::external_body]
fn parse_string_field(text: &str, key: &str) -> (r: Result<Option<String>, String>)
    ensures
        (r matches Ok(f) && f is Some) <==> json_string_field(text@, key@) is Some,
        r matches Ok(f) && f matches Some(s) ==> json_string_field(text@, key@) == Some(s@),
{
    match serde_json::from_str::<serde_json::Value>(text) {
        Ok(doc) => match doc.get(key) {
            Some(serde_json::Value::String(s)) => Ok(Some(s.clone())),
            _ => Ok(None),
        },
        Err(e) => Err(format!("{}", e)),
    }
}

/// Validates a raw model response against the `{ "summary": string }` schema
/// and extracts the summary. A response that is not one valid JSON object
/// with a string `summary` member is rejected; the raw text is kept in the
/// error verbatim, beside a description of the parse failure.
pub fn parse_summary(raw: &str) -> (r: Result<String, SummarizeError>)
    ensures
        ({
            match r {
                Ok(s) => summary_field(raw@) == Some(s@),
                Err(e) => summary_field(raw@) is None && (e matches
                    SummarizeError::InvalidResponse { raw: kept, .. } && kept@ == raw@),
            }
        }),
{
    match parse_string_field(raw, "summary") {
        Ok(Some(s)) => Ok(s),
        Ok(None) => Err(
            SummarizeError::InvalidResponse {
                raw: raw.to_owned(),
                parse_error: "the document holds no string member named \"summary\"".to_owned(),
            },
        ),
        Err(detail) => Err(
            SummarizeError::InvalidResponse { raw: raw.to_owned(), parse_error: detail },
        ),
    }
}

} // verus!
