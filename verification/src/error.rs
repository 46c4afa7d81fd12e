//! The error of every operation that refuses its input.

use vstd::prelude::*;
use crate::json::{Json, JsonValue};

verus! {

/// Why an operation refused its input.
#[derive(Debug, Clone)]
pub struct SegmentError {
    /// What is wrong, for the reader of a log or of a response.
    pub message: String,
}

/// The error with the given message.
pub fn refuse(message: &str) -> (e: SegmentError)
    ensures
        e.message@ == message@,
{
    SegmentError { message: message.to_owned() }
}

/// Whether a result is the text, or the error message, that `s` says.
pub open spec fn text_agrees(
    r: Result<String, SegmentError>,
    s: Result<Seq<char>, Seq<char>>,
) -> bool {
    match (r, s) {
        (Ok(v), Ok(t)) => v@ == t,
        (Err(e), Err(m)) => e.message@ == m,
        _ => false,
    }
}

/// Whether a result is the JSON value, or the error message, that `s` says.
pub open spec fn json_agrees(
    r: Result<JsonValue, SegmentError>,
    s: Result<Json, Seq<char>>,
) -> bool {
    match (r, s) {
        (Ok(v), Ok(j)) => v@ == j,
        (Err(e), Err(m)) => e.message@ == m,
        _ => false,
    }
}

/// The characters of a text that may be absent.
pub open spec fn opt_text(t: Option<String>) -> Option<Seq<char>> {
    match t {
        Some(s) => Some(s@),
        None => None,
    }
}

} // verus!
