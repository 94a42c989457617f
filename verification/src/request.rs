//! Per-call parameters and the `POST /v1beta/interactions` body.
//!
//! A [`Request`] borrows a [`Conversation`] and adds what may change from one
//! call to the next without touching the cached prefix: the model and its
//! parameters, the tool choice, sampling controls, the service tier, and
//! whether to stream.
//!
//! `store` is always `false`. This crate is stateless by mission: a stored
//! interaction continued with `previous_interaction_id` hands the prefix to
//! the server, where no type can guard it, so neither field exists here.

use vstd::prelude::*;

use crate::conversation::{awaits, Conversation};
use crate::json::{
    field, group_json_view, items_view, members_view, opt_field, push_field, push_str, signed, signed_view,
    str_field, Json, JsonV, Member, MemberV, };
use crate::model::{model_config, model_format, model_id, text_format_json, Model};
use crate::step::{step_json, Step};
use crate::tools::{strings_json, strings_to_json, tool_choice_json, tool_json, Tool, ToolChoice};
use crate::values::ServiceTier;

verus! {

broadcast use group_json_view;

/// A request refused before it is sent.
#[derive(Debug, Clone, Copy, PartialEq, Eq, Structural)]
pub enum RequestError {
    /// The history does not end with the caller's step, or a function call is
    /// unanswered, so there is nothing for the model to answer.
    NotAwaitingModel,
}

/// One call's body.
#[derive(Debug, Clone)]
pub struct Request<'a> {
    conversation: &'a Conversation,
    /// The model and its parameters.
    pub model: Model,
    /// Whether the response is Server-Sent Events.
    pub stream: bool,
    /// Which tools the model may call, when restricted. No documented default,
    /// so absent means the caller said nothing.
    pub tool_choice: Option<ToolChoice>,
    /// A decoding seed, for reproducibility.
    pub seed: Option<i32>,
    /// Strings that end the answer when generated.
    pub stop_sequences: Vec<String>,
    /// Which capacity pool serves the call, when the caller says.
    pub service_tier: Option<ServiceTier>,
}

/// What a [`Request`] holds: the conversation it sends and its per-call
/// parameters.
pub struct RequestV {
    pub conversation: Conversation,
    pub model: Model,
    pub stream: bool,
    pub tool_choice: Option<ToolChoice>,
    pub seed: Option<i32>,
    pub stop_sequences: Seq<String>,
    pub service_tier: Option<ServiceTier>,
}

impl<'a> View for Request<'a> {
    type V = RequestV;

    closed spec fn view(&self) -> RequestV {
        RequestV {
            conversation: *self.conversation,
            model: self.model,
            stream: self.stream,
            tool_choice: self.tool_choice,
            seed: self.seed,
            stop_sequences: self.stop_sequences@,
            service_tier: self.service_tier,
        }
    }
}

/// The `generation_config` object: the model's settings, then the seed, the
/// stop sequences when there are any, and the tool choice, each when set.
pub open spec fn generation_config(q: RequestV) -> Seq<MemberV> {
    model_config(q.model) + opt_field(
        "seed"@,
        match q.seed {
            Some(s) => Some(JsonV::Number(signed_view(s as i64))),
            None => None,
        },
    ) + if q.stop_sequences.len() > 0 {
        seq![field("stop_sequences"@, strings_json(q.stop_sequences))]
    } else {
        Seq::empty()
    } + opt_field(
        "tool_choice"@,
        match q.tool_choice {
            Some(c) => Some(tool_choice_json(c)),
            None => None,
        },
    )
}

/// The request body, in the order that keeps the cached prefix first:
/// `model`, `system_instruction` when there is one, `tools` when there are
/// any, `input`, `generation_config`, `response_format` and `service_tier`
/// when set, `store` always `false`, and `stream`.
pub open spec fn request_json(q: RequestV) -> JsonV {
    JsonV::Object(
        seq![str_field("model"@, model_id(q.model))] + opt_field(
            "system_instruction"@,
            match q.conversation.instruction() {
                Some(i) => Some(JsonV::Str(i@)),
                None => None,
            },
        ) + if q.conversation.declared().len() > 0 {
            seq![field("tools"@, JsonV::Array(q.conversation.declared().map_values(|t: Tool| tool_json(t))))]
        } else {
            Seq::empty()
        } + seq![
            field("input"@, JsonV::Array(q.conversation.history().map_values(|s: Step| step_json(s)))),
            field("generation_config"@, JsonV::Object(generation_config(q))),
        ] + opt_field(
            "response_format"@,
            match model_format(q.model) {
                Some(f) => Some(text_format_json(f)),
                None => None,
            },
        ) + opt_field(
            "service_tier"@,
            match q.service_tier {
                Some(t) => Some(JsonV::Str(t.wire())),
                None => None,
            },
        ) + seq![field("store"@, JsonV::Bool(false)), field("stream"@, JsonV::Bool(q.stream))],
    )
}

impl<'a> Request<'a> {
    /// A request for the model's next turn, refused unless the conversation is
    /// waiting for one.
    pub fn new<M>(conversation: &'a Conversation, model: M) -> (r: Result<Self, RequestError>) where
        Model: From<M>,
        ensures
            r is Ok <==> awaits(conversation.history(), conversation.waiting()),
            r matches Err(e) ==> e == RequestError::NotAwaitingModel,
            r matches Ok(q) ==> {
                &&& q@.conversation == *conversation
                &&& call_ensures(Model::from, (model,), q@.model)
                &&& !q@.stream
                &&& q@.tool_choice is None
                &&& q@.seed is None
                &&& q@.stop_sequences.len() == 0
                &&& q@.service_tier is None
            },
    {
        if !conversation.awaits_model() {
            return Err(RequestError::NotAwaitingModel);
        }
        let model = Model::from(model);
        Ok(Request {
            conversation,
            model,
            stream: false,
            tool_choice: None,
            seed: None,
            stop_sequences: Vec::new(),
            service_tier: None,
        })
    }

    /// The same request, streamed.
    pub fn streaming(self) -> (r: Self)
        ensures
            r@ == (RequestV { stream: true, ..self@ }),
    {
        let Request { conversation, model, stream: _, tool_choice, seed, stop_sequences, service_tier } = self;
        Request { conversation, model, stream: true, tool_choice, seed, stop_sequences, service_tier }
    }

    /// The same request with a tool choice.
    pub fn with_tool_choice(self, choice: ToolChoice) -> (r: Self)
        ensures
            r@ == (RequestV { tool_choice: Some(choice), ..self@ }),
    {
        let Request { conversation, model, stream, tool_choice: _, seed, stop_sequences, service_tier } = self;
        Request { conversation, model, stream, tool_choice: Some(choice), seed, stop_sequences, service_tier }
    }

    /// The conversation it sends.
    pub fn conversation(&self) -> (r: &Conversation)
        ensures
            *r == self@.conversation,
    {
        self.conversation
    }

    /// The `generation_config` object.
    fn generation_config(&self) -> (r: Json)
        ensures
            r@ == JsonV::Object(generation_config(self@)),
    {
        let mut m: Vec<Member> = Vec::new();
        self.model.write_generation_config(&mut m);
        match self.seed {
            Some(seed) => push_field(&mut m, "seed", signed(seed as i64)),
            None => {},
        }
        if self.stop_sequences.len() > 0 {
            push_field(&mut m, "stop_sequences", strings_to_json(&self.stop_sequences));
        }
        match &self.tool_choice {
            Some(choice) => push_field(&mut m, "tool_choice", choice.to_json()),
            None => {},
        }
        proof {
            assert(members_view(m@) =~= generation_config(self@));
        }
        Json::Object(m)
    }

    /// The request body.
    #[verifier::rlimit(40)]
    pub fn to_json(&self) -> (r: Json)
        ensures
            r@ == request_json(self@),
    {
        let conversation = self.conversation;
        let ghost q = self@;
        let mut m: Vec<Member> = Vec::new();
        push_str(&mut m, "model", self.model.id());
        match conversation.system_instruction() {
            Some(instruction) => push_str(&mut m, "system_instruction", instruction),
            None => {},
        }
        let ghost head = members_view(m@);
        let tools = conversation.tools();
        if tools.len() > 0 {
            push_field(&mut m, "tools", tools_json(tools));
        }
        let ghost with_tools = members_view(m@);
        push_field(&mut m, "input", input_json(conversation.steps()));
        push_field(&mut m, "generation_config", self.generation_config());
        let ghost with_config = members_view(m@);
        match self.model.response_format() {
            Some(format) => push_field(&mut m, "response_format", format.to_json()),
            None => {},
        }
        let ghost with_format = members_view(m@);
        match self.service_tier {
            Some(tier) => push_str(&mut m, "service_tier", tier.as_str()),
            None => {},
        }
        let ghost with_tier = members_view(m@);
        push_field(&mut m, "store", Json::Bool(false));
        push_field(&mut m, "stream", Json::Bool(self.stream));
        proof {
            let tools_part = if q.conversation.declared().len() > 0 {
                seq![field("tools"@, JsonV::Array(q.conversation.declared().map_values(|t: Tool| tool_json(t))))]
            } else {
                Seq::empty()
            };
            let format_part = opt_field(
                "response_format"@,
                match model_format(q.model) {
                    Some(f) => Some(text_format_json(f)),
                    None => None,
                },
            );
            let tier_part = opt_field(
                "service_tier"@,
                match q.service_tier {
                    Some(t) => Some(JsonV::Str(t.wire())),
                    None => None,
                },
            );
            assert(head =~= seq![str_field("model"@, model_id(q.model))] + opt_field(
                "system_instruction"@,
                match q.conversation.instruction() {
                    Some(i) => Some(JsonV::Str(i@)),
                    None => None,
                },
            ));
            assert(with_tools =~= head + tools_part);
            assert(with_config =~= with_tools + seq![
                field("input"@, JsonV::Array(q.conversation.history().map_values(|s: Step| step_json(s)))),
                field("generation_config"@, JsonV::Object(generation_config(q))),
            ]);
            assert(with_format =~= with_config + format_part);
            assert(with_tier =~= with_format + tier_part);
            assert(members_view(m@) =~= with_tier + seq![
                field("store"@, JsonV::Bool(false)),
                field("stream"@, JsonV::Bool(q.stream)),
            ]);
            assert(members_view(m@) =~= request_json(q)->Object_0);
        }
        Json::Object(m)
    }
}

/// The declared tools as an array.
fn tools_json(tools: &[Tool]) -> (r: Json)
    ensures
        r@ == JsonV::Array(tools@.map_values(|t: Tool| tool_json(t))),
{
    let mut items: Vec<Json> = Vec::new();
    let mut i: usize = 0;
    while i < tools.len()
        invariant
            i <= tools@.len(),
            items_view(items@) =~= tools@.take(i as int).map_values(|t: Tool| tool_json(t)),
        decreases tools.len() - i,
    {
        items.push(tools[i].to_json());
        proof {
            assert(tools@.take(i as int + 1) =~= tools@.take(i as int).push(tools@[i as int]));
        }
        i = i + 1;
    }
    proof {
        assert(tools@.take(i as int) =~= tools@);
    }
    Json::Array(items)
}

/// The history as an array.
fn input_json(steps: &[Step]) -> (r: Json)
    ensures
        r@ == JsonV::Array(steps@.map_values(|s: Step| step_json(s))),
{
    let mut input: Vec<Json> = Vec::new();
    let mut i: usize = 0;
    while i < steps.len()
        invariant
            i <= steps@.len(),
            items_view(input@) =~= steps@.take(i as int).map_values(|s: Step| step_json(s)),
        decreases steps.len() - i,
    {
        input.push(steps[i].to_json());
        proof {
            assert(steps@.take(i as int + 1) =~= steps@.take(i as int).push(steps@[i as int]));
        }
        i = i + 1;
    }
    proof {
        assert(steps@.take(i as int) =~= steps@);
    }
    Json::Array(input)
}

} // verus!
