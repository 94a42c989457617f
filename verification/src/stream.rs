//! One streamed frame becomes one typed event.
//!
//! A stream is a timeline of steps: each step opens with `step.start`, grows
//! by `step.delta`, and closes with `step.stop`, and the interaction as a whole
//! is bracketed by `interaction.created` and `interaction.completed`. The
//! twenty-odd documented delta kinds are fewer shapes than names (most
//! server-tool deltas carry the finished payload of their step), so the
//! variants of [`Delta`] are the shapes.
//!
//! Google may add events and delta kinds; an unknown one decodes as
//! `Unrecognized` rather than failing the frame.

use vstd::prelude::*;

use crate::content::media_kind;
use crate::error::{api_error_of, ApiError, ApiErrorV};
use crate::frame::{FrameError, DONE};
use crate::json::{
    field_of, find, find_key, get_member, lemma_find_key_at, get_str, get_string, group_json_view, items_view, json_reading,
    lemma_find_view, members_view, optional_string, read_json, read_optional_string, take_member, Json, JsonV,
    Member, MemberV, Number, NumberV,
};
use crate::text::{same_text, trim, trim_end_white, trim_start_white};
use crate::usage::{usage_of, Usage, UsageV};
use crate::values::{Status, StatusV};

verus! {

broadcast use group_json_view;

/// The interaction as a lifecycle event reports it.
#[derive(Debug, Clone, PartialEq)]
pub struct Snapshot {
    /// Where it stands.
    pub status: Status,
    /// Usage so far, on `interaction.completed`.
    pub usage: Option<Usage>,
    /// The model id, verbatim.
    pub model: Option<String>,
    /// The tier that served it, verbatim.
    pub service_tier: Option<String>,
    /// Its id; empty for unstored interactions.
    pub id: Option<String>,
}

/// The mathematical form of a [`Snapshot`].
pub struct SnapshotV {
    pub status: StatusV,
    pub usage: Option<UsageV>,
    pub model: Option<Seq<char>>,
    pub service_tier: Option<Seq<char>>,
    pub id: Option<Seq<char>>,
}

/// An optional string as optional text.
pub open spec fn opt_text(s: Option<String>) -> Option<Seq<char>> {
    match s {
        Some(t) => Some(t@),
        None => None,
    }
}

/// An optional usage as its optional form.
pub open spec fn opt_usage(u: Option<Usage>) -> Option<UsageV> {
    match u {
        Some(u) => Some(u@),
        None => None,
    }
}

impl View for Snapshot {
    type V = SnapshotV;

    open spec fn view(&self) -> SnapshotV {
        SnapshotV {
            status: self.status@,
            usage: opt_usage(self.usage),
            model: opt_text(self.model),
            service_tier: opt_text(self.service_tier),
            id: opt_text(self.id),
        }
    }
}

/// An optional usage member: absent and `null` are none. `None` when it is
/// present and not a usage object.
pub open spec fn usage_member(m: Seq<MemberV>, key: Seq<char>) -> Option<Option<UsageV>> {
    match field_of(m, key) {
        None => Some(None),
        Some(JsonV::Null) => Some(None),
        Some(v) => match usage_of(v) {
            Some(u) => Some(Some(u)),
            None => None,
        },
    }
}

/// What an interaction object says: its `status`, and its optional `usage`,
/// `model`, `service_tier` and `id`. `None` when a field has the wrong shape.
pub open spec fn snapshot_of(j: JsonV) -> Option<SnapshotV> {
    match j {
        JsonV::Object(m) => match (
            field_of(m, "status"@),
            usage_member(m, "usage"@),
            optional_string(field_of(m, "model"@)),
            optional_string(field_of(m, "service_tier"@)),
            optional_string(field_of(m, "id"@)),
        ) {
            (Some(JsonV::Str(status)), Some(usage), Some(model), Some(service_tier), Some(id)) => Some(
                SnapshotV { status: Status::decode(status), usage, model, service_tier, id },
            ),
            _ => None,
        },
        _ => None,
    }
}

/// The optional usage member `key`.
pub(crate) fn read_usage_member(m: &Vec<Member>, key: &str) -> (r: Option<Option<Usage>>)
    ensures
        match r {
            Some(u) => usage_member(members_view(m@), key@) == Some(opt_usage(u)),
            None => usage_member(members_view(m@), key@) is None,
        },
{
    match get_member(m, key) {
        None => Some(None),
        Some(Json::Null) => Some(None),
        Some(v) => match Usage::from_json(v) {
            Ok(u) => Some(Some(u)),
            Err(_) => None,
        },
    }
}

impl Snapshot {
    /// Decodes an interaction object.
    pub fn from_json(j: &Json) -> (r: Option<Snapshot>)
        ensures
            match r {
                Some(s) => snapshot_of(j@) == Some(s@),
                None => snapshot_of(j@) is None,
            },
    {
        let m = match j {
            Json::Object(m) => m,
            _ => return None,
        };
        let status = match get_member(m, "status") {
            Some(Json::Str(s)) => Status::from_string(s.clone()),
            _ => return None,
        };
        match (
            read_usage_member(m, "usage"),
            read_optional_string(m, "model"),
            read_optional_string(m, "service_tier"),
            read_optional_string(m, "id"),
        ) {
            (Some(usage), Some(model), Some(service_tier), Some(id)) => Some(
                Snapshot { status, usage, model, service_tier, id },
            ),
            _ => None,
        }
    }
}

/// How one step grows.
#[derive(Debug, Clone, PartialEq)]
pub enum Delta {
    /// More model text, appended to the step's last text block.
    Text(String),
    /// Citations for the step's last text block.
    TextAnnotations(Vec<Json>),
    /// A thought's signature.
    ThoughtSignature(String),
    /// A new block of a thought's summary.
    ThoughtSummary(Json),
    /// More of a function call's arguments, as JSON text.
    Arguments(String),
    /// A whole media block (image, audio, document or video) of model output.
    Media(Json),
    /// The payload of a server-side tool step, merged into it field by field.
    Payload(Vec<Member>),
    /// A delta kind newer than this crate, verbatim.
    Unrecognized(Json),
}

/// The mathematical form of a [`Delta`].
pub enum DeltaV {
    Text(Seq<char>),
    TextAnnotations(Seq<JsonV>),
    ThoughtSignature(Seq<char>),
    ThoughtSummary(JsonV),
    Arguments(Seq<char>),
    Media(JsonV),
    Payload(Seq<MemberV>),
    Unrecognized(JsonV),
}

impl View for Delta {
    type V = DeltaV;

    open spec fn view(&self) -> DeltaV {
        match self {
            Delta::Text(t) => DeltaV::Text(t@),
            Delta::TextAnnotations(items) => DeltaV::TextAnnotations(items_view(items@)),
            Delta::ThoughtSignature(s) => DeltaV::ThoughtSignature(s@),
            Delta::ThoughtSummary(v) => DeltaV::ThoughtSummary(v@),
            Delta::Arguments(t) => DeltaV::Arguments(t@),
            Delta::Media(v) => DeltaV::Media(v@),
            Delta::Payload(m) => DeltaV::Payload(members_view(m@)),
            Delta::Unrecognized(v) => DeltaV::Unrecognized(v@),
        }
    }
}

/// The delta kinds whose payload completes a server-side tool step.
pub open spec fn is_payload_kind(kind: Seq<char>) -> bool {
    ||| kind == "code_execution_call"@
    ||| kind == "code_execution_result"@
    ||| kind == "file_search_call"@
    ||| kind == "file_search_result"@
    ||| kind == "function_result"@
    ||| kind == "google_maps_call"@
    ||| kind == "google_maps_result"@
    ||| kind == "google_search_call"@
    ||| kind == "google_search_result"@
    ||| kind == "mcp_server_tool_call"@
    ||| kind == "mcp_server_tool_result"@
    ||| kind == "processing_call"@
    ||| kind == "processing_result"@
    ||| kind == "url_context_call"@
    ||| kind == "url_context_result"@
}

/// The members without the first one with this key.
pub open spec fn without_key(m: Seq<MemberV>, key: Seq<char>) -> Seq<MemberV> {
    match find_key(m, key) {
        Some(i) => m.remove(i),
        None => m,
    }
}

/// A string member as a delta's text.
pub open spec fn str_member(m: Seq<MemberV>, key: Seq<char>) -> Option<Seq<char>> {
    match field_of(m, key) {
        Some(JsonV::Str(s)) => Some(s),
        _ => None,
    }
}

/// What a delta object says, by its `type`: text, a signature or argument
/// text from their string member, annotations from their array (absent or
/// `null` is none), a summary block from `content`, a media block whole, a
/// server step's payload without its `type`, or any other kind verbatim.
/// `None` when the object has no string `type` or a known kind lacks its member.
pub open spec fn delta_of(j: JsonV) -> Option<DeltaV> {
    match j {
        JsonV::Object(m) => match get_str(m, "type"@) {
            None => None,
            Some(kind) => if kind == "text"@ {
                match str_member(m, "text"@) {
                    Some(t) => Some(DeltaV::Text(t)),
                    None => None,
                }
            } else if kind == "thought_signature"@ {
                match str_member(m, "signature"@) {
                    Some(t) => Some(DeltaV::ThoughtSignature(t)),
                    None => None,
                }
            } else if kind == "arguments_delta"@ {
                match str_member(m, "arguments"@) {
                    Some(t) => Some(DeltaV::Arguments(t)),
                    None => None,
                }
            } else if kind == "text_annotation_delta"@ {
                match field_of(m, "annotations"@) {
                    Some(JsonV::Array(items)) => Some(DeltaV::TextAnnotations(items)),
                    None => Some(DeltaV::TextAnnotations(Seq::empty())),
                    Some(JsonV::Null) => Some(DeltaV::TextAnnotations(Seq::empty())),
                    _ => None,
                }
            } else if kind == "thought_summary"@ {
                match field_of(m, "content"@) {
                    Some(v) => Some(DeltaV::ThoughtSummary(v)),
                    None => None,
                }
            } else if media_kind(kind) is Some {
                Some(DeltaV::Media(j))
            } else if is_payload_kind(kind) {
                Some(DeltaV::Payload(without_key(m, "type"@)))
            } else {
                Some(DeltaV::Unrecognized(j))
            },
        },
        _ => None,
    }
}

/// Every server-tool delta kind decodes to a payload: the delta object's
/// members, in order, without its `type`.
pub proof fn lemma_server_tool_deltas(m: Seq<MemberV>, i: int, kind: Seq<char>)
    requires
        0 <= i < m.len(),
        m[i].key == "type"@,
        m[i].value == JsonV::Str(kind),
        forall|j: int| 0 <= j < i ==> #[trigger] m[j].key != "type"@,
        (kind == "code_execution_call"@
            || kind == "code_execution_result"@
            || kind == "file_search_call"@
            || kind == "file_search_result"@
            || kind == "function_result"@
            || kind == "google_maps_call"@
            || kind == "google_maps_result"@
            || kind == "google_search_call"@
            || kind == "google_search_result"@
            || kind == "mcp_server_tool_call"@
            || kind == "mcp_server_tool_result"@
            || kind == "processing_call"@
            || kind == "processing_result"@
            || kind == "url_context_call"@
            || kind == "url_context_result"@),
    ensures
        delta_of(JsonV::Object(m)) == Some(DeltaV::Payload(m.remove(i))),
{
    lemma_find_key_at(m, "type"@, i);
    reveal_strlit("code_execution_call");
    reveal_strlit("code_execution_result");
    reveal_strlit("file_search_call");
    reveal_strlit("file_search_result");
    reveal_strlit("function_result");
    reveal_strlit("google_maps_call");
    reveal_strlit("google_maps_result");
    reveal_strlit("google_search_call");
    reveal_strlit("google_search_result");
    reveal_strlit("mcp_server_tool_call");
    reveal_strlit("mcp_server_tool_result");
    reveal_strlit("processing_call");
    reveal_strlit("processing_result");
    reveal_strlit("url_context_call");
    reveal_strlit("url_context_result");
    reveal_strlit("text");
    reveal_strlit("thought_signature");
    reveal_strlit("arguments_delta");
    reveal_strlit("text_annotation_delta");
    reveal_strlit("thought_summary");
    reveal_strlit("image");
    reveal_strlit("audio");
    reveal_strlit("document");
    reveal_strlit("video");
    if kind == "code_execution_call"@ {
        assert("code_execution_call"@.len() != "text"@.len());
        assert("code_execution_call"@.len() != "thought_signature"@.len());
        assert("code_execution_call"@.len() != "arguments_delta"@.len());
        assert("code_execution_call"@.len() != "text_annotation_delta"@.len());
        assert("code_execution_call"@.len() != "thought_summary"@.len());
        assert("code_execution_call"@.len() != "image"@.len());
        assert("code_execution_call"@.len() != "audio"@.len());
        assert("code_execution_call"@.len() != "document"@.len());
        assert("code_execution_call"@.len() != "video"@.len());
    } else if kind == "code_execution_result"@ {
        assert("code_execution_result"@.len() != "text"@.len());
        assert("code_execution_result"@.len() != "thought_signature"@.len());
        assert("code_execution_result"@.len() != "arguments_delta"@.len());
        assert("code_execution_result"@[0] != "text_annotation_delta"@[0]);
        assert("code_execution_result"@.len() != "thought_summary"@.len());
        assert("code_execution_result"@.len() != "image"@.len());
        assert("code_execution_result"@.len() != "audio"@.len());
        assert("code_execution_result"@.len() != "document"@.len());
        assert("code_execution_result"@.len() != "video"@.len());
    } else if kind == "file_search_call"@ {
        assert("file_search_call"@.len() != "text"@.len());
        assert("file_search_call"@.len() != "thought_signature"@.len());
        assert("file_search_call"@.len() != "arguments_delta"@.len());
        assert("file_search_call"@.len() != "text_annotation_delta"@.len());
        assert("file_search_call"@.len() != "thought_summary"@.len());
        assert("file_search_call"@.len() != "image"@.len());
        assert("file_search_call"@.len() != "audio"@.len());
        assert("file_search_call"@.len() != "document"@.len());
        assert("file_search_call"@.len() != "video"@.len());
    } else if kind == "file_search_result"@ {
        assert("file_search_result"@.len() != "text"@.len());
        assert("file_search_result"@.len() != "thought_signature"@.len());
        assert("file_search_result"@.len() != "arguments_delta"@.len());
        assert("file_search_result"@.len() != "text_annotation_delta"@.len());
        assert("file_search_result"@.len() != "thought_summary"@.len());
        assert("file_search_result"@.len() != "image"@.len());
        assert("file_search_result"@.len() != "audio"@.len());
        assert("file_search_result"@.len() != "document"@.len());
        assert("file_search_result"@.len() != "video"@.len());
    } else if kind == "function_result"@ {
        assert("function_result"@.len() != "text"@.len());
        assert("function_result"@.len() != "thought_signature"@.len());
        assert("function_result"@[0] != "arguments_delta"@[0]);
        assert("function_result"@.len() != "text_annotation_delta"@.len());
        assert("function_result"@[0] != "thought_summary"@[0]);
        assert("function_result"@.len() != "image"@.len());
        assert("function_result"@.len() != "audio"@.len());
        assert("function_result"@.len() != "document"@.len());
        assert("function_result"@.len() != "video"@.len());
    } else if kind == "google_maps_call"@ {
        assert("google_maps_call"@.len() != "text"@.len());
        assert("google_maps_call"@.len() != "thought_signature"@.len());
        assert("google_maps_call"@.len() != "arguments_delta"@.len());
        assert("google_maps_call"@.len() != "text_annotation_delta"@.len());
        assert("google_maps_call"@.len() != "thought_summary"@.len());
        assert("google_maps_call"@.len() != "image"@.len());
        assert("google_maps_call"@.len() != "audio"@.len());
        assert("google_maps_call"@.len() != "document"@.len());
        assert("google_maps_call"@.len() != "video"@.len());
    } else if kind == "google_maps_result"@ {
        assert("google_maps_result"@.len() != "text"@.len());
        assert("google_maps_result"@.len() != "thought_signature"@.len());
        assert("google_maps_result"@.len() != "arguments_delta"@.len());
        assert("google_maps_result"@.len() != "text_annotation_delta"@.len());
        assert("google_maps_result"@.len() != "thought_summary"@.len());
        assert("google_maps_result"@.len() != "image"@.len());
        assert("google_maps_result"@.len() != "audio"@.len());
        assert("google_maps_result"@.len() != "document"@.len());
        assert("google_maps_result"@.len() != "video"@.len());
    } else if kind == "google_search_call"@ {
        assert("google_search_call"@.len() != "text"@.len());
        assert("google_search_call"@.len() != "thought_signature"@.len());
        assert("google_search_call"@.len() != "arguments_delta"@.len());
        assert("google_search_call"@.len() != "text_annotation_delta"@.len());
        assert("google_search_call"@.len() != "thought_summary"@.len());
        assert("google_search_call"@.len() != "image"@.len());
        assert("google_search_call"@.len() != "audio"@.len());
        assert("google_search_call"@.len() != "document"@.len());
        assert("google_search_call"@.len() != "video"@.len());
    } else if kind == "google_search_result"@ {
        assert("google_search_result"@.len() != "text"@.len());
        assert("google_search_result"@.len() != "thought_signature"@.len());
        assert("google_search_result"@.len() != "arguments_delta"@.len());
        assert("google_search_result"@.len() != "text_annotation_delta"@.len());
        assert("google_search_result"@.len() != "thought_summary"@.len());
        assert("google_search_result"@.len() != "image"@.len());
        assert("google_search_result"@.len() != "audio"@.len());
        assert("google_search_result"@.len() != "document"@.len());
        assert("google_search_result"@.len() != "video"@.len());
    } else if kind == "mcp_server_tool_call"@ {
        assert("mcp_server_tool_call"@.len() != "text"@.len());
        assert("mcp_server_tool_call"@.len() != "thought_signature"@.len());
        assert("mcp_server_tool_call"@.len() != "arguments_delta"@.len());
        assert("mcp_server_tool_call"@.len() != "text_annotation_delta"@.len());
        assert("mcp_server_tool_call"@.len() != "thought_summary"@.len());
        assert("mcp_server_tool_call"@.len() != "image"@.len());
        assert("mcp_server_tool_call"@.len() != "audio"@.len());
        assert("mcp_server_tool_call"@.len() != "document"@.len());
        assert("mcp_server_tool_call"@.len() != "video"@.len());
    } else if kind == "mcp_server_tool_result"@ {
        assert("mcp_server_tool_result"@.len() != "text"@.len());
        assert("mcp_server_tool_result"@.len() != "thought_signature"@.len());
        assert("mcp_server_tool_result"@.len() != "arguments_delta"@.len());
        assert("mcp_server_tool_result"@.len() != "text_annotation_delta"@.len());
        assert("mcp_server_tool_result"@.len() != "thought_summary"@.len());
        assert("mcp_server_tool_result"@.len() != "image"@.len());
        assert("mcp_server_tool_result"@.len() != "audio"@.len());
        assert("mcp_server_tool_result"@.len() != "document"@.len());
        assert("mcp_server_tool_result"@.len() != "video"@.len());
    } else if kind == "processing_call"@ {
        assert("processing_call"@.len() != "text"@.len());
        assert("processing_call"@.len() != "thought_signature"@.len());
        assert("processing_call"@[0] != "arguments_delta"@[0]);
        assert("processing_call"@.len() != "text_annotation_delta"@.len());
        assert("processing_call"@[0] != "thought_summary"@[0]);
        assert("processing_call"@.len() != "image"@.len());
        assert("processing_call"@.len() != "audio"@.len());
        assert("processing_call"@.len() != "document"@.len());
        assert("processing_call"@.len() != "video"@.len());
    } else if kind == "processing_result"@ {
        assert("processing_result"@.len() != "text"@.len());
        assert("processing_result"@[0] != "thought_signature"@[0]);
        assert("processing_result"@.len() != "arguments_delta"@.len());
        assert("processing_result"@.len() != "text_annotation_delta"@.len());
        assert("processing_result"@.len() != "thought_summary"@.len());
        assert("processing_result"@.len() != "image"@.len());
        assert("processing_result"@.len() != "audio"@.len());
        assert("processing_result"@.len() != "document"@.len());
        assert("processing_result"@.len() != "video"@.len());
    } else if kind == "url_context_call"@ {
        assert("url_context_call"@.len() != "text"@.len());
        assert("url_context_call"@.len() != "thought_signature"@.len());
        assert("url_context_call"@.len() != "arguments_delta"@.len());
        assert("url_context_call"@.len() != "text_annotation_delta"@.len());
        assert("url_context_call"@.len() != "thought_summary"@.len());
        assert("url_context_call"@.len() != "image"@.len());
        assert("url_context_call"@.len() != "audio"@.len());
        assert("url_context_call"@.len() != "document"@.len());
        assert("url_context_call"@.len() != "video"@.len());
    } else if kind == "url_context_result"@ {
        assert("url_context_result"@.len() != "text"@.len());
        assert("url_context_result"@.len() != "thought_signature"@.len());
        assert("url_context_result"@.len() != "arguments_delta"@.len());
        assert("url_context_result"@.len() != "text_annotation_delta"@.len());
        assert("url_context_result"@.len() != "thought_summary"@.len());
        assert("url_context_result"@.len() != "image"@.len());
        assert("url_context_result"@.len() != "audio"@.len());
        assert("url_context_result"@.len() != "document"@.len());
        assert("url_context_result"@.len() != "video"@.len());
    }
}

/// Whether `kind` is one of the server-step payload kinds.
fn payload_kind(kind: &str) -> (r: bool)
    ensures
        r == is_payload_kind(kind@),
{
    same_text(kind, "code_execution_call") || same_text(kind, "code_execution_result") || same_text(
        kind,
        "file_search_call",
    ) || same_text(kind, "file_search_result") || same_text(kind, "function_result") || same_text(
        kind,
        "google_maps_call",
    ) || same_text(kind, "google_maps_result") || same_text(kind, "google_search_call") || same_text(
        kind,
        "google_search_result",
    ) || same_text(kind, "mcp_server_tool_call") || same_text(kind, "mcp_server_tool_result") || same_text(
        kind,
        "processing_call",
    ) || same_text(kind, "processing_result") || same_text(kind, "url_context_call") || same_text(
        kind,
        "url_context_result",
    )
}

/// The string member `key`, copied.
fn read_str_member(m: &Vec<Member>, key: &str) -> (r: Option<String>)
    ensures
        match r {
            Some(s) => str_member(members_view(m@), key@) == Some(s@),
            None => str_member(members_view(m@), key@) is None,
        },
{
    match get_member(m, key) {
        Some(Json::Str(s)) => Some(s.clone()),
        _ => None,
    }
}

impl Delta {
    /// Decodes a delta object.
    pub fn from_value(value: Json) -> (r: Result<Self, String>)
        ensures
            match r {
                Ok(d) => delta_of(value@) == Some(d@),
                Err(_) => delta_of(value@) is None,
            },
    {
        let ghost whole = value@;
        let mut map = match value {
            Json::Object(map) => map,
            _ => return Err("delta is not an object".to_owned()),
        };
        assert(whole == JsonV::Object(members_view(map@)));
        let kind = match get_string(&map, "type") {
            Some(k) => k.to_owned(),
            None => return Err("delta has no `type`".to_owned()),
        };
        let kind = kind.as_str();
        if same_text(kind, "text") {
            match read_str_member(&map, "text") {
                Some(t) => Ok(Delta::Text(t)),
                None => Err("`text` delta has no string `text`".to_owned()),
            }
        } else if same_text(kind, "thought_signature") {
            match read_str_member(&map, "signature") {
                Some(t) => Ok(Delta::ThoughtSignature(t)),
                None => Err("`thought_signature` delta has no string `signature`".to_owned()),
            }
        } else if same_text(kind, "arguments_delta") {
            match read_str_member(&map, "arguments") {
                Some(t) => Ok(Delta::Arguments(t)),
                None => Err("`arguments_delta` delta has no string `arguments`".to_owned()),
            }
        } else if same_text(kind, "text_annotation_delta") {
            match take_member(&mut map, "annotations") {
                Some(Json::Array(items)) => Ok(Delta::TextAnnotations(items)),
                None => Ok(Delta::TextAnnotations(Vec::new())),
                Some(Json::Null) => Ok(Delta::TextAnnotations(Vec::new())),
                _ => Err("`annotations` is not an array".to_owned()),
            }
        } else if same_text(kind, "thought_summary") {
            match take_member(&mut map, "content") {
                Some(v) => Ok(Delta::ThoughtSummary(v)),
                None => Err("no `content`".to_owned()),
            }
        } else if same_text(kind, "image") || same_text(kind, "audio") || same_text(kind, "document")
            || same_text(kind, "video") {
            Ok(Delta::Media(Json::Object(map)))
        } else if payload_kind(kind) {
            let ghost before = map@;
            proof {
                lemma_find_view(before, "type"@);
                crate::json::lemma_find(before, "type"@);
                match find(before, "type"@) {
                    Some(i) => crate::json::lemma_members_view_remove(before, i),
                    None => {},
                }
            }
            take_member(&mut map, "type");
            assert(members_view(map@) == without_key(members_view(before), "type"@));
            Ok(Delta::Payload(map))
        } else {
            Ok(Delta::Unrecognized(Json::Object(map)))
        }
    }
}

/// One frame of a stream.
#[derive(Debug, Clone, PartialEq)]
pub enum StreamEvent {
    /// The interaction exists.
    Created(Snapshot),
    /// The interaction's status changed.
    StatusUpdate(Status),
    /// A step begins; the object is its opening form.
    StepStart {
        /// Its position in the turn.
        index: u32,
        /// Its opening fields, at least `type`.
        step: Vec<Member>,
    },
    /// A step grows.
    StepDelta {
        /// Which step.
        index: u32,
        /// How.
        delta: Delta,
        /// Cumulative usage, when the frame carries it.
        usage: Option<Usage>,
    },
    /// A step is complete.
    StepStop {
        /// Which step.
        index: u32,
        /// Cumulative usage, when the frame carries it.
        usage: Option<Usage>,
    },
    /// The interaction reached a final status. Not the end of the bytes: the
    /// [`Done`](StreamEvent::Done) sentinel may follow.
    Completed(Snapshot),
    /// The API failed the interaction mid-stream.
    Error(ApiError),
    /// The closing `[DONE]` sentinel.
    Done,
    /// An event newer than this crate.
    Unrecognized {
        /// Its `event_type`.
        event_type: String,
    },
}

/// The mathematical form of a [`StreamEvent`].
pub enum StreamEventV {
    Created(SnapshotV),
    StatusUpdate(StatusV),
    StepStart { index: u32, step: Seq<MemberV> },
    StepDelta { index: u32, delta: DeltaV, usage: Option<UsageV> },
    StepStop { index: u32, usage: Option<UsageV> },
    Completed(SnapshotV),
    Error(ApiErrorV),
    Done,
    Unrecognized { event_type: Seq<char> },
}

impl View for StreamEvent {
    type V = StreamEventV;

    open spec fn view(&self) -> StreamEventV {
        match self {
            StreamEvent::Created(s) => StreamEventV::Created(s@),
            StreamEvent::StatusUpdate(s) => StreamEventV::StatusUpdate(s@),
            StreamEvent::StepStart { index, step } => StreamEventV::StepStart {
                index: *index,
                step: members_view(step@),
            },
            StreamEvent::StepDelta { index, delta, usage } => StreamEventV::StepDelta {
                index: *index,
                delta: delta@,
                usage: opt_usage(*usage),
            },
            StreamEvent::StepStop { index, usage } => StreamEventV::StepStop {
                index: *index,
                usage: opt_usage(*usage),
            },
            StreamEvent::Completed(s) => StreamEventV::Completed(s@),
            StreamEvent::Error(e) => StreamEventV::Error(e@),
            StreamEvent::Done => StreamEventV::Done,
            StreamEvent::Unrecognized { event_type } => StreamEventV::Unrecognized { event_type: event_type@ },
        }
    }
}

/// Why a frame is refused, without the free-text detail.
pub enum FrameFailure {
    NotJson(Seq<char>),
    NotObject,
    NoEventType,
    Malformed(Seq<char>),
}

/// Whether a frame error is this refusal.
pub open spec fn frame_error_is(e: FrameError, f: FrameFailure) -> bool {
    match (e, f) {
        (FrameError::NotJson(a), FrameFailure::NotJson(b)) => a@ == b,
        (FrameError::NotObject, FrameFailure::NotObject) => true,
        (FrameError::NoEventType, FrameFailure::NoEventType) => true,
        (FrameError::Malformed { event_type, .. }, FrameFailure::Malformed(b)) => event_type@ == b,
        _ => false,
    }
}

/// A step index: a non-negative integer that fits 32 bits.
pub open spec fn index_of(m: Seq<MemberV>) -> Option<u32> {
    match field_of(m, "index"@) {
        Some(JsonV::Number(NumberV::PosInt(n))) => if n <= u32::MAX {
            Some(n as u32)
        } else {
            None
        },
        _ => None,
    }
}

/// The interaction object of a lifecycle event.
pub open spec fn snapshot_member(m: Seq<MemberV>) -> Option<SnapshotV> {
    match field_of(m, "interaction"@) {
        Some(v) => snapshot_of(v),
        None => None,
    }
}

/// What a frame object says, by its `event_type`; an unknown one is
/// `Unrecognized`. A known event whose fields have the wrong shape is
/// `Malformed` with its event type.
pub open spec fn event_of(j: JsonV) -> Result<StreamEventV, FrameFailure> {
    match j {
        JsonV::Object(m) => match get_str(m, "event_type"@) {
            None => Err(FrameFailure::NoEventType),
            Some(et) => if et == "interaction.created"@ {
                match snapshot_member(m) {
                    Some(s) => Ok(StreamEventV::Created(s)),
                    None => Err(FrameFailure::Malformed(et)),
                }
            } else if et == "interaction.completed"@ {
                match snapshot_member(m) {
                    Some(s) => Ok(StreamEventV::Completed(s)),
                    None => Err(FrameFailure::Malformed(et)),
                }
            } else if et == "interaction.status_update"@ {
                match field_of(m, "status"@) {
                    Some(JsonV::Str(s)) => Ok(StreamEventV::StatusUpdate(Status::decode(s))),
                    _ => Err(FrameFailure::Malformed(et)),
                }
            } else if et == "step.start"@ {
                match (index_of(m), field_of(m, "step"@)) {
                    (Some(index), Some(JsonV::Object(step))) => if get_str(step, "type"@) is Some {
                        Ok(StreamEventV::StepStart { index, step })
                    } else {
                        Err(FrameFailure::Malformed(et))
                    },
                    _ => Err(FrameFailure::Malformed(et)),
                }
            } else if et == "step.delta"@ {
                match (index_of(m), field_of(m, "delta"@)) {
                    (Some(index), Some(d)) => match delta_of(d) {
                        Some(delta) => match field_of(m, "metadata"@) {
                            Some(JsonV::Object(md)) => match usage_member(md, "total_usage"@) {
                                Some(usage) => Ok(StreamEventV::StepDelta { index, delta, usage }),
                                None => Err(FrameFailure::Malformed(et)),
                            },
                            _ => Ok(StreamEventV::StepDelta { index, delta, usage: None }),
                        },
                        None => Err(FrameFailure::Malformed(et)),
                    },
                    _ => Err(FrameFailure::Malformed(et)),
                }
            } else if et == "step.stop"@ {
                match (index_of(m), usage_member(m, "usage"@)) {
                    (Some(index), Some(usage)) => Ok(StreamEventV::StepStop { index, usage }),
                    _ => Err(FrameFailure::Malformed(et)),
                }
            } else if et == "error"@ {
                match field_of(m, "error"@) {
                    Some(e) => match api_error_of(e) {
                        Some(a) => Ok(StreamEventV::Error(a)),
                        None => Err(FrameFailure::Malformed(et)),
                    },
                    None => Err(FrameFailure::Malformed(et)),
                }
            } else {
                Ok(StreamEventV::Unrecognized { event_type: et })
            },
        },
        _ => Err(FrameFailure::NotObject),
    }
}

/// What the payload of a `data:` line says: the `[DONE]` sentinel, with any
/// surrounding white space, or else the frame object its JSON text holds.
pub open spec fn payload_event(payload: Seq<char>) -> Result<StreamEventV, FrameFailure> {
    if trim_start_white(trim_end_white(payload)) == "[DONE]"@ {
        Ok(StreamEventV::Done)
    } else {
        match json_reading(payload) {
            Ok(j) => event_of(j),
            Err(e) => Err(FrameFailure::NotJson(e)),
        }
    }
}

/// A refusal of a known event whose fields have the wrong shape.
fn malformed(event_type: &str, detail: &str) -> (r: FrameError)
    ensures
        r matches FrameError::Malformed { event_type: et, .. } && et@ == event_type@,
{
    FrameError::Malformed { event_type: event_type.to_owned(), detail: detail.to_owned() }
}

/// The step index member.
fn read_index(m: &Vec<Member>) -> (r: Option<u32>)
    ensures
        r == index_of(members_view(m@)),
{
    match get_member(m, "index") {
        Some(Json::Number(Number::PosInt(n))) => if *n <= 0xffff_ffffu64 {
            Some(*n as u32)
        } else {
            None
        },
        _ => None,
    }
}

/// The interaction object of a lifecycle event.
fn read_snapshot(m: &Vec<Member>) -> (r: Option<Snapshot>)
    ensures
        match r {
            Some(s) => snapshot_member(members_view(m@)) == Some(s@),
            None => snapshot_member(members_view(m@)) is None,
        },
{
    match get_member(m, "interaction") {
        Some(v) => Snapshot::from_json(v),
        None => None,
    }
}

impl StreamEvent {
    /// Decode the payload of one `data:` line.
    pub fn decode(payload: &str) -> (r: Result<Self, FrameError>)
        ensures
            match (r, payload_event(payload@)) {
                (Ok(e), Ok(v)) => e@ == v,
                (Err(e), Err(f)) => frame_error_is(e, f),
                _ => false,
            },
    {
        if same_text(trim(payload), DONE) {
            proof {
                reveal_strlit("[DONE]");
            }
            return Ok(StreamEvent::Done);
        }
        proof {
            reveal_strlit("[DONE]");
        }
        match read_json(payload) {
            Ok(j) => StreamEvent::from_value(j),
            Err(e) => Err(FrameError::NotJson(e)),
        }
    }

    /// Decode one frame an SSE parser has already read as JSON.
    pub fn from_value(value: Json) -> (r: Result<Self, FrameError>)
        ensures
            match (r, event_of(value@)) {
                (Ok(e), Ok(v)) => e@ == v,
                (Err(e), Err(f)) => frame_error_is(e, f),
                _ => false,
            },
    {
        let m = match &value {
            Json::Object(m) => m,
            _ => return Err(FrameError::NotObject),
        };
        let et = match get_string(m, "event_type") {
            Some(et) => et,
            None => return Err(FrameError::NoEventType),
        };
        if same_text(et, "interaction.created") {
            match read_snapshot(m) {
                Some(s) => Ok(StreamEvent::Created(s)),
                None => Err(malformed(et, "no `interaction` object")),
            }
        } else if same_text(et, "interaction.completed") {
            match read_snapshot(m) {
                Some(s) => Ok(StreamEvent::Completed(s)),
                None => Err(malformed(et, "no `interaction` object")),
            }
        } else if same_text(et, "interaction.status_update") {
            match get_member(m, "status") {
                Some(Json::Str(s)) => Ok(StreamEvent::StatusUpdate(Status::from_string(s.clone()))),
                _ => Err(malformed(et, "no string `status`")),
            }
        } else if same_text(et, "step.start") {
            let index = match read_index(m) {
                Some(i) => i,
                None => return Err(malformed(et, "no integer `index`")),
            };
            match get_member(m, "step") {
                Some(Json::Object(step)) => {
                    if get_string(step, "type").is_some() {
                        let copy = Json::Object(clone_members(step));
                        match copy {
                            Json::Object(step) => Ok(StreamEvent::StepStart { index, step }),
                            _ => Err(malformed(et, "no `step` object with a `type`")),
                        }
                    } else {
                        Err(malformed(et, "no `step` object with a `type`"))
                    }
                },
                _ => Err(malformed(et, "no `step` object with a `type`")),
            }
        } else if same_text(et, "step.delta") {
            let index = match read_index(m) {
                Some(i) => i,
                None => return Err(malformed(et, "no integer `index`")),
            };
            let delta = match get_member(m, "delta") {
                Some(d) => match Delta::from_value(d.clone()) {
                    Ok(delta) => delta,
                    Err(e) => return Err(malformed(et, e.as_str())),
                },
                None => return Err(malformed(et, "no `delta`")),
            };
            let usage = match get_member(m, "metadata") {
                Some(Json::Object(md)) => match read_usage_member(md, "total_usage") {
                    Some(u) => u,
                    None => return Err(malformed(et, "`total_usage` is not a usage object")),
                },
                _ => None,
            };
            Ok(StreamEvent::StepDelta { index, delta, usage })
        } else if same_text(et, "step.stop") {
            let index = match read_index(m) {
                Some(i) => i,
                None => return Err(malformed(et, "no integer `index`")),
            };
            match read_usage_member(m, "usage") {
                Some(usage) => Ok(StreamEvent::StepStop { index, usage }),
                None => Err(malformed(et, "`usage` is not a usage object")),
            }
        } else if same_text(et, "error") {
            match get_member(m, "error") {
                Some(e) => match ApiError::from_json(e) {
                    Ok(a) => Ok(StreamEvent::Error(a)),
                    Err(detail) => Err(malformed(et, detail.as_str())),
                },
                None => Err(malformed(et, "no `error`")),
            }
        } else {
            Ok(StreamEvent::Unrecognized { event_type: et.to_owned() })
        }
    }
}

/// A copy of an object's members.
pub fn clone_members(m: &Vec<Member>) -> (r: Vec<Member>)
    ensures
        members_view(r@) == members_view(m@),
{
    let mut out: Vec<Member> = Vec::new();
    let mut i: usize = 0;
    while i < m.len()
        invariant
            i <= m@.len(),
            out@.len() == i,
            forall|k: int| 0 <= k < i ==> #[trigger] out@[k]@ == m@[k]@,
        decreases m.len() - i,
    {
        out.push(m[i].clone());
        i = i + 1;
    }
    proof {
        crate::json::lemma_members_view_ext(out@, m@);
    }
    out
}

} // verus!
