//! Extraction of the routing fields of a `SEND` payload, which the
//! wire protocol carries as a JSON object.

use vstd::prelude::*;

verus! {

/// The `header` and `message` string fields of `s` read as a JSON
/// document: nothing when `s` does not parse as JSON; otherwise each
/// field's text when the field is present with a string value.  A
/// function of the payload text alone; JSON's full grammar is left to
/// the parser and not restated here.
pub uninterp spec fn send_fields_of(s: Seq<char>) -> Option<
    (Option<Seq<char>>, Option<Seq<char>>),
>;

/// The text an optional string holds.
pub open spec fn opt_text(o: Option<String>) -> Option<Seq<char>> {
    match o {
        Some(t) => Some(t@),
        None => None,
    }
}

/// Parses a `SEND` payload and pulls out its `header` and `message`
/// fields.
///
/// Relies on `serde_json::from_str::<Value>` to decide whether the
/// payload is JSON, and on `Value::get` and `Value::as_str` to read
/// the two fields: all three depend on the payload text alone.
#[verifier::external_body]
pub(crate) fn extract_send_fields(s: &str) -> (r: Option<(Option<String>, Option<String>)>)
    ensures
        match (r, send_fields_of(s@)) {
            (Some(p), Some(q)) => opt_text(p.0) == q.0 && opt_text(p.1) == q.1,
            (None, None) => true,
            _ => false,
        },
{
    match serde_json::from_str::<serde_json::Value>(s) {
        Err(_) => None,
        Ok(v) => {
            let header = v.get("header").and_then(|x| x.as_str()).map(|x| x.to_string());
            let message = v.get("message").and_then(|x| x.as_str()).map(|x| x.to_string());
            Some((header, message))
        }
    }
}

} // verus!
