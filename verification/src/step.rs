//! Steps: the history an interaction is made of.
//!
//! A stateless conversation is its steps, sent back in full every turn. Two
//! kinds of step go into it and they obey different rules:
//!
//! * A step the **caller** writes, [`UserInput`] or a [`FunctionResult`], is
//!   a value the crate serializes from typed fields.
//! * A step the **model** wrote (thoughts, function calls, output, server-side
//!   tool calls and their results) must be sent back exactly as received.
//!   Dropping a thought step is answered with a 400 (measured 2026-09-24), and
//!   its signature is opaque, so the crate cannot rebuild one. A [`ModelStep`]
//!   therefore keeps the JSON object it arrived as and serializes *that*; its
//!   typed [`StepView`] is for reading only. A model step is only ever
//!   *decoded*, by [`crate::settle`], by [`crate::response`], or by
//!   [`ModelStep::from_wire`] from a copy the caller stored, and it has no
//!   setter, so what was received is what is sent.

use vstd::prelude::*;

use crate::content::{
    function_output_json, input_content_json, output_contents_of, FunctionOutput, InputContent, OutputContent,
    OutputContentV,
};
use crate::json::{
    field, field_of, get_member, get_str, get_string, group_json_view, items_view, lemma_members_view_ext, members_view,
    optional_string, push_field, push_str, read_optional_string, str_field, Json, JsonV, Member, MemberV,
};
use crate::text::same_text;

verus! {

broadcast use group_json_view;

// ── Caller-authored steps ────────────────────────────────────────────────────

/// What the user says: one `user_input` step.
#[derive(Debug, Clone, PartialEq, Eq)]
pub struct UserInput {
    /// The blocks, in order.
    pub content: Vec<InputContent>,
}

/// The object a user input is written as: `type`, then its blocks as `content`.
pub open spec fn user_input_json(u: UserInput) -> JsonV {
    JsonV::Object(
        seq![
            str_field("type"@, "user_input"@),
            field("content"@, JsonV::Array(Seq::new(u.content@.len(), |i: int| input_content_json(u.content@[i])))),
        ],
    )
}

/// The entries of an object's `content` array, when it has one.
pub open spec fn content_entries(j: JsonV) -> Option<Seq<JsonV>> {
    match j {
        JsonV::Object(m) => match field_of(m, "content"@) {
            Some(JsonV::Array(items)) => Some(items),
            _ => None,
        },
        _ => None,
    }
}

/// A user input is written as a `user_input` object whose `content` holds
/// one entry per block, in order: the i-th entry is the i-th block's object.
pub proof fn lemma_user_input_blocks(u: UserInput)
    ensures
        user_input_json(u) is Object,
        get_str(user_input_json(u)->Object_0, "type"@) == Some("user_input"@),
        content_entries(user_input_json(u)) is Some,
        content_entries(user_input_json(u))->Some_0.len() == u.content@.len(),
        forall|i: int|
            0 <= i < u.content@.len() ==> #[trigger] content_entries(user_input_json(u))->Some_0[i]
                == input_content_json(u.content@[i]),
{
    reveal_strlit("type");
    reveal_strlit("content");
    let m = user_input_json(u)->Object_0;
    assert(m[0].key == "type"@);
    assert("type"@.len() != "content"@.len());
    crate::json::lemma_find_key_at(m, "type"@, 0);
    crate::json::lemma_find_key_at(m, "content"@, 1);
}

impl UserInput {
    /// The object this step is written as.
    pub fn to_json(&self) -> (r: Json)
        ensures
            r@ == user_input_json(*self),
    {
        let mut items: Vec<Json> = Vec::new();
        let mut i: usize = 0;
        while i < self.content.len()
            invariant
                i <= self.content@.len(),
                items@.len() == i,
                forall|k: int| 0 <= k < i ==> #[trigger] items@[k]@ == input_content_json(self.content@[k]),
            decreases self.content.len() - i,
        {
            items.push(self.content[i].to_json());
            i = i + 1;
        }
        proof {
            assert(items_view(items@) =~= Seq::new(
                self.content@.len(),
                |i: int| input_content_json(self.content@[i]),
            ));
        }
        let mut m: Vec<Member> = Vec::new();
        push_str(&mut m, "type", "user_input");
        push_field(&mut m, "content", Json::Array(items));
        proof {
            assert(members_view(m@) =~= user_input_json(*self)->Object_0);
        }
        Json::Object(m)
    }
}

/// The result of running one function the model called.
///
/// Built by [`crate::conversation::Conversation::push_function_result`], which
/// takes `call_id` and `name` from the call it answers, so the two cannot
/// disagree with the call.
#[derive(Debug, Clone, PartialEq)]
pub struct FunctionResult {
    call_id: String,
    name: String,
    /// What the function returned.
    pub output: FunctionOutput,
    /// Whether the function failed; the model reads `output` as an error message.
    pub is_error: bool,
}

/// The object a function result is written as.
pub open spec fn function_result_json(r: FunctionResult) -> JsonV {
    JsonV::Object(
        seq![
            str_field("type"@, "function_result"@),
            str_field("call_id"@, r.answered_id()),
            str_field("name"@, r.answered_name()),
            field("result"@, function_output_json(r.returned())),
            field("is_error"@, JsonV::Bool(r.failed())),
        ],
    )
}

impl FunctionResult {
    /// The id of the call it answers.
    pub closed spec fn answered_id(&self) -> Seq<char> {
        self.call_id@
    }

    /// The name of the function that ran.
    pub closed spec fn answered_name(&self) -> Seq<char> {
        self.name@
    }

    /// What the function returned.
    pub closed spec fn returned(&self) -> FunctionOutput {
        self.output
    }

    /// Whether the function failed.
    pub closed spec fn failed(&self) -> bool {
        self.is_error
    }

    /// The result answering `call`, with its id and name.
    pub(crate) fn new(call: &FunctionCall, output: FunctionOutput, is_error: bool) -> (r: Self)
        ensures
            r.answered_id() == call.id@,
            r.answered_name() == call.name@,
            r.returned() == output,
            r.failed() == is_error,
    {
        FunctionResult { call_id: call.id.clone(), name: call.name.clone(), output, is_error }
    }

    /// The id of the call this answers.
    pub fn call_id(&self) -> (r: &str)
        ensures
            r@ == self.answered_id(),
    {
        self.call_id.as_str()
    }

    /// The name of the function that ran.
    pub fn name(&self) -> (r: &str)
        ensures
            r@ == self.answered_name(),
    {
        self.name.as_str()
    }

    /// The object this step is written as.
    pub fn to_json(&self) -> (r: Json)
        ensures
            r@ == function_result_json(*self),
    {
        let mut m: Vec<Member> = Vec::new();
        push_str(&mut m, "type", "function_result");
        push_str(&mut m, "call_id", self.call_id.as_str());
        push_str(&mut m, "name", self.name.as_str());
        push_field(&mut m, "result", self.output.to_json());
        push_field(&mut m, "is_error", Json::Bool(self.is_error));
        proof {
            assert(members_view(m@) =~= function_result_json(*self)->Object_0);
        }
        Json::Object(m)
    }
}

// ── Model-authored steps ─────────────────────────────────────────────────────

/// A function call the model made and the caller must answer.
#[derive(Debug, PartialEq)]
pub struct FunctionCall {
    /// The id a [`FunctionResult`] answers with.
    pub id: String,
    /// Which declared function.
    pub name: String,
    /// The arguments, as a JSON object.
    pub arguments: Vec<Member>,
}

/// The mathematical form of a [`FunctionCall`].
pub struct FunctionCallV {
    pub id: Seq<char>,
    pub name: Seq<char>,
    pub arguments: Seq<MemberV>,
}

impl View for FunctionCall {
    type V = FunctionCallV;

    open spec fn view(&self) -> FunctionCallV {
        FunctionCallV { id: self.id@, name: self.name@, arguments: members_view(self.arguments@) }
    }
}

impl Clone for FunctionCall {
    fn clone(&self) -> (r: Self)
        ensures
            r@ == self@,
    {
        let mut arguments: Vec<Member> = Vec::new();
        let mut i: usize = 0;
        while i < self.arguments.len()
            invariant
                i <= self.arguments@.len(),
                arguments@.len() == i,
                forall|k: int| 0 <= k < i ==> #[trigger] arguments@[k]@ == self.arguments@[k]@,
            decreases self.arguments.len() - i,
        {
            arguments.push(self.arguments[i].clone());
            i = i + 1;
        }
        proof {
            lemma_members_view_ext(arguments@, self.arguments@);
        }
        FunctionCall { id: self.id.clone(), name: self.name.clone(), arguments }
    }
}

/// The documented values of the open vocabulary of the same name.
#[derive(Debug, Clone, Copy, PartialEq, Eq, Structural, Hash, PartialOrd, Ord)]
pub enum KnownServerStepType {
    /// Code the model runs with the code-execution tool.
    CodeExecutionCall,
    /// What that code printed.
    CodeExecutionResult,
    /// A file-search query.
    FileSearchCall,
    /// What file search found.
    FileSearchResult,
    /// A Google Maps query.
    GoogleMapsCall,
    /// What Google Maps found.
    GoogleMapsResult,
    /// A Google Search query.
    GoogleSearchCall,
    /// What Google Search found.
    GoogleSearchResult,
    /// A call to a tool of a remote MCP server.
    McpServerToolCall,
    /// What the MCP server returned.
    McpServerToolResult,
    /// Server-initiated media analysis.
    ProcessingCall,
    /// Its result.
    ProcessingResult,
    /// A retrieval query.
    RetrievalCall,
    /// Its result.
    RetrievalResult,
    /// A URL fetch.
    UrlContextCall,
    /// What the fetch returned.
    UrlContextResult,
}

impl KnownServerStepType {
    /// The string this value takes on the wire.
    pub open spec fn wire(self) -> Seq<char> {
        match self {
            KnownServerStepType::CodeExecutionCall => "code_execution_call"@,
            KnownServerStepType::CodeExecutionResult => "code_execution_result"@,
            KnownServerStepType::FileSearchCall => "file_search_call"@,
            KnownServerStepType::FileSearchResult => "file_search_result"@,
            KnownServerStepType::GoogleMapsCall => "google_maps_call"@,
            KnownServerStepType::GoogleMapsResult => "google_maps_result"@,
            KnownServerStepType::GoogleSearchCall => "google_search_call"@,
            KnownServerStepType::GoogleSearchResult => "google_search_result"@,
            KnownServerStepType::McpServerToolCall => "mcp_server_tool_call"@,
            KnownServerStepType::McpServerToolResult => "mcp_server_tool_result"@,
            KnownServerStepType::ProcessingCall => "processing_call"@,
            KnownServerStepType::ProcessingResult => "processing_result"@,
            KnownServerStepType::RetrievalCall => "retrieval_call"@,
            KnownServerStepType::RetrievalResult => "retrieval_result"@,
            KnownServerStepType::UrlContextCall => "url_context_call"@,
            KnownServerStepType::UrlContextResult => "url_context_result"@,
        }
    }

    /// The string this value takes on the wire.
    pub fn as_str(self) -> (r: &'static str)
        ensures
            r@ == self.wire(),
    {
        match self {
            KnownServerStepType::CodeExecutionCall => "code_execution_call",
            KnownServerStepType::CodeExecutionResult => "code_execution_result",
            KnownServerStepType::FileSearchCall => "file_search_call",
            KnownServerStepType::FileSearchResult => "file_search_result",
            KnownServerStepType::GoogleMapsCall => "google_maps_call",
            KnownServerStepType::GoogleMapsResult => "google_maps_result",
            KnownServerStepType::GoogleSearchCall => "google_search_call",
            KnownServerStepType::GoogleSearchResult => "google_search_result",
            KnownServerStepType::McpServerToolCall => "mcp_server_tool_call",
            KnownServerStepType::McpServerToolResult => "mcp_server_tool_result",
            KnownServerStepType::ProcessingCall => "processing_call",
            KnownServerStepType::ProcessingResult => "processing_result",
            KnownServerStepType::RetrievalCall => "retrieval_call",
            KnownServerStepType::RetrievalResult => "retrieval_result",
            KnownServerStepType::UrlContextCall => "url_context_call",
            KnownServerStepType::UrlContextResult => "url_context_result",
        }
    }

    /// The value a wire string names, if it names one.
    pub fn from_wire(s: &str) -> (r: Option<Self>)
        ensures
            match r {
                Some(v) => v.wire() == s@,
                None => forall|v: Self| #[trigger] v.wire() != s@,
            },
    {
        if same_text(s, "code_execution_call") {
            Some(KnownServerStepType::CodeExecutionCall)
        } else if same_text(s, "code_execution_result") {
            Some(KnownServerStepType::CodeExecutionResult)
        } else if same_text(s, "file_search_call") {
            Some(KnownServerStepType::FileSearchCall)
        } else if same_text(s, "file_search_result") {
            Some(KnownServerStepType::FileSearchResult)
        } else if same_text(s, "google_maps_call") {
            Some(KnownServerStepType::GoogleMapsCall)
        } else if same_text(s, "google_maps_result") {
            Some(KnownServerStepType::GoogleMapsResult)
        } else if same_text(s, "google_search_call") {
            Some(KnownServerStepType::GoogleSearchCall)
        } else if same_text(s, "google_search_result") {
            Some(KnownServerStepType::GoogleSearchResult)
        } else if same_text(s, "mcp_server_tool_call") {
            Some(KnownServerStepType::McpServerToolCall)
        } else if same_text(s, "mcp_server_tool_result") {
            Some(KnownServerStepType::McpServerToolResult)
        } else if same_text(s, "processing_call") {
            Some(KnownServerStepType::ProcessingCall)
        } else if same_text(s, "processing_result") {
            Some(KnownServerStepType::ProcessingResult)
        } else if same_text(s, "retrieval_call") {
            Some(KnownServerStepType::RetrievalCall)
        } else if same_text(s, "retrieval_result") {
            Some(KnownServerStepType::RetrievalResult)
        } else if same_text(s, "url_context_call") {
            Some(KnownServerStepType::UrlContextCall)
        } else if same_text(s, "url_context_result") {
            Some(KnownServerStepType::UrlContextResult)
        } else {
            None
        }
    }

    /// Every value, in documentation order.
    pub fn all() -> (r: Vec<Self>)
        ensures
            r@ == seq![KnownServerStepType::CodeExecutionCall, KnownServerStepType::CodeExecutionResult, KnownServerStepType::FileSearchCall, KnownServerStepType::FileSearchResult, KnownServerStepType::GoogleMapsCall, KnownServerStepType::GoogleMapsResult, KnownServerStepType::GoogleSearchCall, KnownServerStepType::GoogleSearchResult, KnownServerStepType::McpServerToolCall, KnownServerStepType::McpServerToolResult, KnownServerStepType::ProcessingCall, KnownServerStepType::ProcessingResult, KnownServerStepType::RetrievalCall, KnownServerStepType::RetrievalResult, KnownServerStepType::UrlContextCall, KnownServerStepType::UrlContextResult],
    {
        vec![KnownServerStepType::CodeExecutionCall, KnownServerStepType::CodeExecutionResult, KnownServerStepType::FileSearchCall, KnownServerStepType::FileSearchResult, KnownServerStepType::GoogleMapsCall, KnownServerStepType::GoogleMapsResult, KnownServerStepType::GoogleSearchCall, KnownServerStepType::GoogleSearchResult, KnownServerStepType::McpServerToolCall, KnownServerStepType::McpServerToolResult, KnownServerStepType::ProcessingCall, KnownServerStepType::ProcessingResult, KnownServerStepType::RetrievalCall, KnownServerStepType::RetrievalResult, KnownServerStepType::UrlContextCall, KnownServerStepType::UrlContextResult]
    }

    /// Distinct values take distinct wire strings.
    pub proof fn lemma_wire_injective(a: Self, b: Self)
        ensures
            a.wire() == b.wire() ==> a == b,
    {
        reveal_strlit("code_execution_call");
        reveal_strlit("code_execution_result");
        reveal_strlit("file_search_call");
        reveal_strlit("file_search_result");
        reveal_strlit("google_maps_call");
        reveal_strlit("google_maps_result");
        reveal_strlit("google_search_call");
        reveal_strlit("google_search_result");
        reveal_strlit("mcp_server_tool_call");
        reveal_strlit("mcp_server_tool_result");
        reveal_strlit("processing_call");
        reveal_strlit("processing_result");
        reveal_strlit("retrieval_call");
        reveal_strlit("retrieval_result");
        reveal_strlit("url_context_call");
        reveal_strlit("url_context_result");
        if a.wire() == b.wire() {
            assert(a.wire().len() == b.wire().len());
            assert(a.wire()[0] == b.wire()[0]);
            assert(a.wire()[7] == b.wire()[7]);
        }
    }
}

/// Which server-side tool step a [`StepView::Server`] is.
#[derive(Debug, PartialEq, Eq)]
pub enum ServerStepType {
    /// A documented value.
    Known(KnownServerStepType),
    /// A value newer than this crate, kept verbatim.
    Unrecognized(String),
}

/// The mathematical form of a [`ServerStepType`].
pub enum ServerStepTypeV {
    /// A documented value.
    Known(KnownServerStepType),
    /// Any other wire string.
    Unrecognized(Seq<char>),
}

impl View for ServerStepType {
    type V = ServerStepTypeV;

    open spec fn view(&self) -> ServerStepTypeV {
        match self {
            ServerStepType::Known(k) => ServerStepTypeV::Known(*k),
            ServerStepType::Unrecognized(s) => ServerStepTypeV::Unrecognized(s@),
        }
    }
}

impl ServerStepType {
    /// The string this value takes on the wire.
    pub open spec fn wire(&self) -> Seq<char> {
        match self {
            ServerStepType::Known(k) => k.wire(),
            ServerStepType::Unrecognized(s) => s@,
        }
    }

    /// Whether `v` is what the wire string `s` decodes to: the documented
    /// value it names, or else the string itself.
    pub open spec fn decodes(s: Seq<char>, v: Self) -> bool {
        match v {
            ServerStepType::Known(k) => k.wire() == s,
            ServerStepType::Unrecognized(u) => u@ == s && forall|k: KnownServerStepType| #[trigger] k.wire() != s,
        }
    }

    /// What a wire string decodes to: the documented value it names, or
    /// else the string itself.
    pub open spec fn decode(s: Seq<char>) -> ServerStepTypeV {
        if exists|k: KnownServerStepType| #[trigger] k.wire() == s {
            ServerStepTypeV::Known(choose|k: KnownServerStepType| #[trigger] k.wire() == s)
        } else {
            ServerStepTypeV::Unrecognized(s)
        }
    }

    /// A documented value's wire string decodes back to it, and a string
    /// that names none decodes to itself.
    pub proof fn lemma_decode(s: Seq<char>, k: KnownServerStepType)
        ensures
            Self::decode(k.wire()) == ServerStepTypeV::Known(k),
            (forall|j: KnownServerStepType| #[trigger] j.wire() != s) ==> Self::decode(s) == ServerStepTypeV::Unrecognized(s),
    {
        let c = choose|c: KnownServerStepType| #[trigger] c.wire() == k.wire();
        KnownServerStepType::lemma_wire_injective(c, k);
    }

    /// The string this value takes on the wire.
    pub fn as_str(&self) -> (r: &str)
        ensures
            r@ == self.wire(),
    {
        match self {
            ServerStepType::Known(k) => k.as_str(),
            ServerStepType::Unrecognized(s) => s.as_str(),
        }
    }

    /// The value a wire string decodes to.
    pub fn from_string(s: String) -> (r: Self)
        ensures
            Self::decodes(s@, r),
            r@ == Self::decode(s@),
    {
        match KnownServerStepType::from_wire(s.as_str()) {
            Some(k) => {
                proof {
                    let c = choose|c: KnownServerStepType| #[trigger] c.wire() == s@;
                    KnownServerStepType::lemma_wire_injective(c, k);
                }
                ServerStepType::Known(k)
            },
            None => ServerStepType::Unrecognized(s),
        }
    }

    /// Whether this is the documented value `k`.
    pub fn is(&self, k: KnownServerStepType) -> (r: bool)
        ensures
            r == (*self == ServerStepType::Known(k)),
    {
        match self {
            ServerStepType::Known(j) => *j == k,
            ServerStepType::Unrecognized(_) => false,
        }
    }

    /// Whether two values take the same wire string.
    pub fn same(&self, other: &Self) -> (r: bool)
        ensures
            r == (self.wire() == other.wire()),
    {
        same_text(self.as_str(), other.as_str())
    }
}

impl Clone for ServerStepType {
    fn clone(&self) -> (r: Self)
        ensures
            r == *self,
    {
        match self {
            ServerStepType::Known(k) => ServerStepType::Known(*k),
            ServerStepType::Unrecognized(s) => ServerStepType::Unrecognized(s.clone()),
        }
    }
}

/// What a model step says, for reading.
#[derive(Debug, Clone, PartialEq)]
pub enum StepView {
    /// Reasoning: an opaque signature and, when requested, a summary.
    Thought {
        /// The encrypted reasoning state; absent only if the API sent none.
        signature: Option<String>,
        /// Readable summary blocks, when `thinking_summaries` asked for them.
        summary: Vec<OutputContent>,
    },
    /// A function the caller must run.
    FunctionCall(FunctionCall),
    /// What the model says.
    ModelOutput {
        /// The blocks, in order.
        content: Vec<OutputContent>,
    },
    /// A server-side tool call or result, which the server has already run.
    Server {
        /// Which one; the payload is in [`ModelStep::wire`].
        step_type: ServerStepType,
    },
}

/// The mathematical form of a [`StepView`].
pub enum StepViewV {
    Thought { signature: Option<Seq<char>>, summary: Seq<OutputContentV> },
    FunctionCall(FunctionCallV),
    ModelOutput { content: Seq<OutputContentV> },
    Server { step_type: ServerStepTypeV },
}

/// The forms of a list of blocks.
pub open spec fn contents_view(v: Seq<OutputContent>) -> Seq<OutputContentV> {
    Seq::new(v.len(), |i: int| v[i]@)
}

impl View for StepView {
    type V = StepViewV;

    open spec fn view(&self) -> StepViewV {
        match self {
            StepView::Thought { signature, summary } => StepViewV::Thought {
                signature: match signature {
                    Some(s) => Some(s@),
                    None => None,
                },
                summary: contents_view(summary@),
            },
            StepView::FunctionCall(call) => StepViewV::FunctionCall(call@),
            StepView::ModelOutput { content } => StepViewV::ModelOutput { content: contents_view(content@) },
            StepView::Server { step_type } => StepViewV::Server { step_type: step_type@ },
        }
    }
}

/// A step the model produced, replayed verbatim.
#[derive(Debug, PartialEq)]
pub struct ModelStep {
    wire: Vec<Member>,
    view: StepView,
}

impl Clone for ModelStep {
    /// A copy, decoded again from a copy of its object.
    fn clone(&self) -> (r: Self)
        ensures
            members_view(r.members()) == members_view(self.members()),
            r.says()@ == self.says()@,
    {
        proof {
            use_type_invariant(self);
        }
        let mut wire: Vec<Member> = Vec::new();
        let mut i: usize = 0;
        while i < self.wire.len()
            invariant
                i <= self.wire@.len(),
                wire@.len() == i,
                forall|k: int| 0 <= k < i ==> #[trigger] wire@[k]@ == self.wire@[k]@,
            decreases self.wire.len() - i,
        {
            wire.push(self.wire[i].clone());
            i = i + 1;
        }
        proof {
            lemma_members_view_ext(wire@, self.wire@);
        }
        match ModelStep::from_wire(wire) {
            Ok(step) => step,
            Err(_) => {
                proof {
                    assert(false);
                }
                ModelStep { wire: Vec::new(), view: StepView::ModelOutput { content: Vec::new() } }
            },
        }
    }
}

/// A model step whose JSON contradicts the schema.
#[derive(Debug, Clone, PartialEq, Eq)]
pub struct StepError(pub String);

/// The blocks a member holds: absent and `null` are none.
pub open spec fn blocks_of(v: Option<JsonV>) -> Option<Seq<OutputContentV>> {
    match v {
        None => Some(Seq::empty()),
        Some(JsonV::Null) => Some(Seq::empty()),
        Some(JsonV::Array(items)) => output_contents_of(items),
        _ => None,
    }
}

/// What a step object says: a thought with its optional `signature` and
/// `summary`, a function call with its `id`, `name` and `arguments` object, a
/// model output with its `content`, or a server step of its `type`. `None`
/// when the object has no string `type`, has a caller's type (`user_input`
/// or `function_result`), or a known step has the wrong shape.
pub open spec fn step_view_of(wire: Seq<MemberV>) -> Option<StepViewV> {
    match get_str(wire, "type"@) {
        None => None,
        Some(kind) => if kind == "thought"@ {
            match (optional_string(field_of(wire, "signature"@)), blocks_of(field_of(wire, "summary"@))) {
                (Some(signature), Some(summary)) => Some(StepViewV::Thought { signature, summary }),
                _ => None,
            }
        } else if kind == "function_call"@ {
            match (field_of(wire, "id"@), field_of(wire, "name"@), field_of(wire, "arguments"@)) {
                (Some(JsonV::Str(id)), Some(JsonV::Str(name)), None) => Some(
                    StepViewV::FunctionCall(FunctionCallV { id, name, arguments: Seq::empty() }),
                ),
                (Some(JsonV::Str(id)), Some(JsonV::Str(name)), Some(JsonV::Object(a))) => Some(
                    StepViewV::FunctionCall(FunctionCallV { id, name, arguments: a }),
                ),
                _ => None,
            }
        } else if kind == "model_output"@ {
            match blocks_of(field_of(wire, "content"@)) {
                Some(content) => Some(StepViewV::ModelOutput { content }),
                None => None,
            }
        } else if kind == "user_input"@ || kind == "function_result"@ {
            None
        } else {
            Some(StepViewV::Server { step_type: ServerStepType::decode(kind) })
        },
    }
}

/// The blocks of an optional list member.
fn read_blocks(wire: &Vec<Member>, key: &str) -> (r: Result<Vec<OutputContent>, StepError>)
    ensures
        match r {
            Ok(v) => blocks_of(field_of(members_view(wire@), key@)) == Some(contents_view(v@)),
            Err(_) => blocks_of(field_of(members_view(wire@), key@)) is None,
        },
{
    match get_member(wire, key) {
        None => Ok(Vec::new()),
        Some(Json::Null) => Ok(Vec::new()),
        Some(Json::Array(items)) => match OutputContent::decode_all(items) {
            Some(v) => Ok(v),
            None => Err(StepError("a block is malformed".to_owned())),
        },
        _ => {
            let mut detail = "`".to_owned();
            detail.append(key);
            detail.append("` is not an array");
            Err(StepError(detail))
        },
    }
}

impl ModelStep {
    /// The JSON object it replays.
    pub closed spec fn members(&self) -> Seq<Member> {
        self.wire@
    }

    /// What it says.
    pub closed spec fn says(&self) -> StepView {
        self.view
    }

    /// A step decoded from its object is what the object says.
    #[verifier::type_invariant]
    closed spec fn consistent(&self) -> bool {
        step_view_of(members_view(self.wire@)) == Some(self.view@)
    }

    /// Decode one step object, as the API sent it or as the caller stored it.
    ///
    /// Unknown step types are server steps: the `Unrecognized`
    /// [`ServerStepType`] keeps them replayable. A caller-authored type
    /// (`user_input`, `function_result`) is refused, because replaying it as the
    /// model's would put words in the model's mouth.
    pub fn from_wire(wire: Vec<Member>) -> (r: Result<Self, StepError>)
        ensures
            match r {
                Ok(step) => step.members() == wire@ && step_view_of(members_view(wire@)) == Some(step.says()@),
                Err(_) => step_view_of(members_view(wire@)) is None,
            },
    {
        let view = {
            let kind = match get_string(&wire, "type") {
                Some(k) => k,
                None => return Err(StepError("no `type`".to_owned())),
            };
            if same_text(kind, "thought") {
                let signature = match read_optional_string(&wire, "signature") {
                    Some(s) => s,
                    None => return Err(StepError("`signature` is not a string".to_owned())),
                };
                let summary = read_blocks(&wire, "summary")?;
                StepView::Thought { signature, summary }
            } else if same_text(kind, "function_call") {
                let id = match get_member(&wire, "id") {
                    Some(Json::Str(id)) => id.clone(),
                    _ => return Err(StepError("a function call has no string `id`".to_owned())),
                };
                let name = match get_member(&wire, "name") {
                    Some(Json::Str(name)) => name.clone(),
                    _ => return Err(StepError("a function call has no string `name`".to_owned())),
                };
                let arguments = match get_member(&wire, "arguments") {
                    None => Vec::new(),
                    Some(Json::Object(a)) => {
                        let mut copy: Vec<Member> = Vec::new();
                        let mut i: usize = 0;
                        while i < a.len()
                            invariant
                                i <= a@.len(),
                                copy@.len() == i,
                                forall|k: int| 0 <= k < i ==> #[trigger] copy@[k]@ == a@[k]@,
                            decreases a.len() - i,
                        {
                            copy.push(a[i].clone());
                            i = i + 1;
                        }
                        proof {
                            lemma_members_view_ext(copy@, a@);
                        }
                        copy
                    },
                    _ => return Err(StepError("`arguments` is not an object".to_owned())),
                };
                StepView::FunctionCall(FunctionCall { id, name, arguments })
            } else if same_text(kind, "model_output") {
                let content = read_blocks(&wire, "content")?;
                StepView::ModelOutput { content }
            } else if same_text(kind, "user_input") || same_text(kind, "function_result") {
                let mut detail = "`".to_owned();
                detail.append(kind);
                detail.append("` is the caller's step, not the model's");
                return Err(StepError(detail));
            } else {
                StepView::Server { step_type: ServerStepType::from_string(kind.to_owned()) }
            }
        };
        Ok(ModelStep { wire, view })
    }

    /// What the step says.
    pub fn view(&self) -> (r: &StepView)
        ensures
            *r == self.says(),
            step_view_of(members_view(self.members())) == Some(r@),
    {
        proof {
            use_type_invariant(self);
        }
        &self.view
    }

    /// The JSON object exactly as it will be sent back.
    pub fn wire(&self) -> (r: &Vec<Member>)
        ensures
            r@ == self.members(),
    {
        &self.wire
    }

    /// The function call, if this step is one.
    pub fn as_function_call(&self) -> (r: Option<&FunctionCall>)
        ensures
            match r {
                Some(c) => self.says() == StepView::FunctionCall(*c),
                None => !(self.says() is FunctionCall),
            },
    {
        match &self.view {
            StepView::FunctionCall(call) => Some(call),
            _ => None,
        }
    }

    /// The object this step is sent back as: the object it was decoded from.
    pub fn to_json(&self) -> (r: Json)
        ensures
            r@ == JsonV::Object(members_view(self.members())),
    {
        let mut m: Vec<Member> = Vec::new();
        let mut i: usize = 0;
        while i < self.wire.len()
            invariant
                i <= self.wire@.len(),
                m@.len() == i,
                forall|k: int| 0 <= k < i ==> #[trigger] m@[k]@ == self.wire@[k]@,
            decreases self.wire.len() - i,
        {
            m.push(self.wire[i].clone());
            i = i + 1;
        }
        proof {
            lemma_members_view_ext(m@, self.wire@);
        }
        Json::Object(m)
    }
}

/// One entry of a conversation's history.
#[derive(Debug, Clone, PartialEq)]
pub enum Step {
    /// The user speaks.
    UserInput(UserInput),
    /// The caller answers a function call.
    FunctionResult(FunctionResult),
    /// The model's own step, verbatim.
    Model(ModelStep),
}

/// The object a history entry is written as; a model step is its received object.
pub open spec fn step_json(s: Step) -> JsonV {
    match s {
        Step::UserInput(u) => user_input_json(u),
        Step::FunctionResult(r) => function_result_json(r),
        Step::Model(m) => JsonV::Object(members_view(m.members())),
    }
}

impl Step {
    /// The object this entry is written as.
    pub fn to_json(&self) -> (r: Json)
        ensures
            r@ == step_json(*self),
    {
        match self {
            Step::UserInput(step) => step.to_json(),
            Step::FunctionResult(step) => step.to_json(),
            Step::Model(step) => step.to_json(),
        }
    }
}

} // verus!
