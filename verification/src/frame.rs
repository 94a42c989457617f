//! The Server-Sent Events envelope, and what a broken frame is.
//!
//! Each event is an `event:` line naming it and a `data:` line carrying a JSON
//! object whose `event_type` repeats the name, so the `data:` payload alone is
//! enough to decode. The stream ends with `event: done` / `data: [DONE]`, a
//! sentinel the reference does not list (measured 2026-09-24).

use vstd::prelude::*;

use crate::text::{strip_prefix, trim_end_line_breaks, trim_line_breaks};

verus! {

/// Whether `s` starts with `p`.
pub open spec fn starts_with(s: Seq<char>, p: Seq<char>) -> bool {
    p.len() <= s.len() && s.take(p.len() as int) == p
}

/// The payload of a `data:` line: after `data:` and at most one space,
/// without trailing line breaks. `None` for any other line.
pub open spec fn payload_of(line: Seq<char>) -> Option<Seq<char>> {
    if starts_with(line, "data:"@) {
        let rest = line.skip("data:"@.len() as int);
        let rest = if starts_with(rest, " "@) {
            rest.skip(" "@.len() as int)
        } else {
            rest
        };
        Some(trim_line_breaks(rest))
    } else {
        None
    }
}

/// The payload of a `data:` line, or `None` for any other line.
///
/// Whatever the HTTP client yields, feed it here line by line.
pub fn data_payload(line: &str) -> (r: Option<&str>)
    ensures
        match r {
            Some(p) => payload_of(line@) == Some(p@),
            None => payload_of(line@) is None,
        },
{
    let rest = match strip_prefix(line, "data:") {
        Some(rest) => rest,
        None => return None,
    };
    let rest = match strip_prefix(rest, " ") {
        Some(after) => after,
        None => rest,
    };
    Some(trim_end_line_breaks(rest))
}

/// The payload of the stream's closing sentinel.
pub const DONE: &'static str = "[DONE]";

/// A frame that contradicts the schema.
#[derive(Debug, Clone, PartialEq, Eq)]
pub enum FrameError {
    /// The payload is not JSON.
    NotJson(String),
    /// The payload is JSON but not an object.
    NotObject,
    /// The object has no string `event_type`.
    NoEventType,
    /// A known event whose fields have the wrong shape.
    Malformed {
        /// Which event.
        event_type: String,
        /// What was wrong.
        detail: String,
    },
}

} // verus!
