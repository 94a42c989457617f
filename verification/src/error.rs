//! An error the API reports, in a response body or in a stream.

use vstd::prelude::*;

use crate::frame::{data_payload, payload_of};
use crate::json::{
    field_of, get_member, group_json_view, json_reading, read_json, Json, JsonV,
};
use crate::text::{lines, split_lines};
use crate::values::{ErrorCode, ErrorCodeV};

verus! {

broadcast use group_json_view;

/// What the API said went wrong.
#[derive(Debug, Clone, PartialEq, Eq)]
pub struct ApiError {
    /// The kind of failure.
    pub code: ErrorCode,
    /// A human-readable explanation, verbatim.
    pub message: String,
}

/// The mathematical form of an [`ApiError`].
pub struct ApiErrorV {
    pub code: ErrorCodeV,
    pub message: Seq<char>,
}

impl View for ApiError {
    type V = ApiErrorV;

    open spec fn view(&self) -> ApiErrorV {
        ApiErrorV { code: self.code@, message: self.message@ }
    }
}

/// A non-success body that does not hold an error object.
#[derive(Debug, Clone, PartialEq, Eq)]
pub struct NotAnErrorBody(pub String);

/// What an error object says: its `code`, and its `message`, empty when
/// absent. `None` when either has the wrong shape.
pub open spec fn api_error_of(j: JsonV) -> Option<ApiErrorV> {
    match j {
        JsonV::Object(m) => match (field_of(m, "code"@), field_of(m, "message"@)) {
            (Some(JsonV::Str(code)), None) => Some(ApiErrorV { code: ErrorCode::decode(code), message: Seq::empty() }),
            (Some(JsonV::Str(code)), Some(JsonV::Str(message))) => Some(
                ApiErrorV { code: ErrorCode::decode(code), message },
            ),
            _ => None,
        },
        _ => None,
    }
}

/// The error a body's `{"error": …}` object holds.
pub open spec fn envelope_of(j: JsonV) -> Option<ApiErrorV> {
    match j {
        JsonV::Object(m) => match field_of(m, "error"@) {
            Some(e) => api_error_of(e),
            None => None,
        },
        _ => None,
    }
}

/// The payload of the first `data:` line among `lines`.
pub open spec fn first_payload(lines: Seq<Seq<char>>) -> Option<Seq<char>>
    decreases lines.len(),
{
    if lines.len() == 0 {
        None
    } else {
        match payload_of(lines[0]) {
            Some(p) => Some(p),
            None => first_payload(lines.drop_first()),
        }
    }
}

/// The JSON text of an error body: the payload of its first `data:` line when
/// it is framed as an event, the body itself otherwise.
pub open spec fn error_body_json(body: Seq<char>) -> Seq<char> {
    match first_payload(split_lines(body)) {
        Some(p) => p,
        None => body,
    }
}

/// The error a body holds, when it reads as JSON and holds one.
pub open spec fn body_error(body: Seq<char>) -> Option<ApiErrorV> {
    match json_reading(error_body_json(body)) {
        Ok(j) => envelope_of(j),
        Err(_) => None,
    }
}

impl ApiError {
    /// Decodes an error object.
    pub fn from_json(j: &Json) -> (r: Result<ApiError, String>)
        ensures
            match r {
                Ok(e) => api_error_of(j@) == Some(e@),
                Err(_) => api_error_of(j@) is None,
            },
    {
        let m = match j {
            Json::Object(m) => m,
            _ => return Err("an error is not an object".to_owned()),
        };
        let code = match get_member(m, "code") {
            Some(Json::Str(c)) => ErrorCode::from_string(c.clone()),
            _ => return Err("an error has no string `code`".to_owned()),
        };
        let message = match get_member(m, "message") {
            None => String::new(),
            Some(Json::Str(s)) => s.clone(),
            _ => return Err("an error's `message` is not a string".to_owned()),
        };
        Ok(ApiError { code, message })
    }

    /// Decode the body of a non-success response.
    ///
    /// Two shapes arrive. A buffered request gets `{"error": {…}}`. A streamed
    /// request that fails before its first event gets the same object framed as
    /// one SSE `error` event, under a `Content-Type: application/json` header
    /// (measured 2026-09-24 on 429 and 503). Both decode here.
    pub fn from_body(body: &str) -> (r: Result<Self, NotAnErrorBody>)
        ensures
            match r {
                Ok(e) => body_error(body@) == Some(e@),
                Err(_) => body_error(body@) is None,
            },
    {
        let all = lines(body);
        let mut json = body;
        let mut i: usize = 0;
        assert(split_lines(body@).skip(0) == split_lines(body@));
        while i < all.len()
            invariant_except_break
                json@ == body@,
            invariant
                i <= all@.len(),
                all@.len() == split_lines(body@).len(),
                forall|k: int| 0 <= k < all@.len() ==> #[trigger] all@[k]@ == split_lines(body@)[k],
                first_payload(split_lines(body@)) == first_payload(split_lines(body@).skip(i as int)),
            ensures
                json@ == error_body_json(body@),
            decreases all.len() - i,
        {
            proof {
                assert(split_lines(body@).skip(i as int).drop_first() == split_lines(body@).skip(i as int + 1));
                assert(split_lines(body@).skip(i as int)[0] == all@[i as int]@);
            }
            if let Some(p) = data_payload(all[i]) {
                json = p;
                break;
            }
            i = i + 1;
        }

        match read_json(json) {
            Ok(parsed) => ApiError::from_envelope(&parsed),
            Err(e) => Err(NotAnErrorBody(e)),
        }
    }

    /// Decodes the `{"error": …}` envelope of a non-success body.
    pub fn from_envelope(j: &Json) -> (r: Result<Self, NotAnErrorBody>)
        ensures
            match r {
                Ok(e) => envelope_of(j@) == Some(e@),
                Err(_) => envelope_of(j@) is None,
            },
    {
        let inner = match j {
            Json::Object(m) => get_member(m, "error"),
            _ => None,
        };
        match inner {
            Some(e) => match ApiError::from_json(e) {
                Ok(error) => Ok(error),
                Err(detail) => Err(NotAnErrorBody(detail)),
            },
            None => Err(NotAnErrorBody("the body holds no `error` object".to_owned())),
        }
    }
}

} // verus!
