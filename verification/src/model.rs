//! One type per model, carrying only the parameters that model accepts.
//!
//! Models differ in which thinking levels they take (Gemini 3.8 Flash answers
//! `minimal` with a 400 that Gemini 3.6 Flash accepts) and in what they can
//! output. So each model is its own type, and a parameter a model refuses is
//! not a field of it. Adding a model means adding a type, never widening one.

mod gemini_3_8_flash;

pub use gemini_3_8_flash::{flash_config, level_of, Gemini3_8Flash, Gemini3_8FlashThinking};

use vstd::prelude::*;

use crate::json::{field, group_json_view, members_view, push_field, push_str, str_field, Json, JsonV, Member, MemberV};

verus! {

broadcast use group_json_view;

/// A requested `max_output_tokens` above what the model can produce.
#[derive(Debug, Clone, Copy, PartialEq, Eq, Structural)]
pub struct OutputLimitExceeded {
    /// What was asked for.
    pub requested: u32,
    /// The model's documented output limit.
    pub limit: u32,
}

/// The shape a text answer must take.
#[derive(Debug, Clone, PartialEq)]
pub enum TextFormat {
    /// Free text.
    Plain,
    /// A JSON value matching this JSON Schema.
    Json(Vec<Member>),
}

/// The object a text format is written as.
pub open spec fn text_format_json(f: TextFormat) -> JsonV {
    JsonV::Object(
        seq![str_field("type"@, "text"@)] + match f {
            TextFormat::Plain => seq![str_field("mime_type"@, "text/plain"@)],
            TextFormat::Json(schema) => seq![
                str_field("mime_type"@, "application/json"@),
                field("schema"@, JsonV::Object(members_view(schema@))),
            ],
        },
    )
}

impl TextFormat {
    /// The object this format is written as.
    pub fn to_json(&self) -> (r: Json)
        ensures
            r@ == text_format_json(*self),
    {
        let mut m: Vec<Member> = Vec::new();
        push_str(&mut m, "type", "text");
        match self {
            TextFormat::Plain => {
                push_str(&mut m, "mime_type", "text/plain");
            },
            TextFormat::Json(schema) => {
                push_str(&mut m, "mime_type", "application/json");
                push_field(&mut m, "schema", Json::Object(crate::stream::clone_members(schema)));
            },
        }
        proof {
            assert(members_view(m@) =~= text_format_json(*self)->Object_0);
        }
        Json::Object(m)
    }
}

/// The model a request is sent to, with its own parameters.
#[derive(Debug, Clone, PartialEq)]
#[non_exhaustive]
pub enum Model {
    /// Gemini 3.8 Flash.
    Gemini3_8Flash(Gemini3_8Flash),
}

/// The model id a model is sent as.
pub open spec fn model_id(m: Model) -> Seq<char> {
    match m {
        Model::Gemini3_8Flash(_) => Gemini3_8Flash::ID@,
    }
}

/// The generation settings a model writes.
pub open spec fn model_config(m: Model) -> Seq<MemberV> {
    match m {
        Model::Gemini3_8Flash(f) => flash_config(f),
    }
}

/// The answer format a model is constrained to, if any.
pub open spec fn model_format(m: Model) -> Option<TextFormat> {
    match m {
        Model::Gemini3_8Flash(f) => f.format(),
    }
}

impl Model {
    /// Gemini 3.8 Flash with its documented defaults.
    pub fn gemini_3_8_flash() -> (r: Self)
        ensures
            r matches Model::Gemini3_8Flash(f) && {
                &&& f.level() == Gemini3_8FlashThinking::Medium
                &&& f.summary_setting() == crate::values::ThinkingSummaries::Off
                &&& f.format() is None
                &&& f.cap() is None
            },
    {
        Model::Gemini3_8Flash(Gemini3_8Flash::new())
    }

    /// The model id sent as `model`.
    pub fn id(&self) -> (r: &'static str)
        ensures
            r@ == model_id(*self),
    {
        match self {
            Model::Gemini3_8Flash(_) => Gemini3_8Flash::ID,
        }
    }

    /// Appends its generation settings.
    pub(crate) fn write_generation_config(&self, members: &mut Vec<Member>)
        ensures
            members_view(final(members)@) == members_view(old(members)@) + model_config(*self),
    {
        match self {
            Model::Gemini3_8Flash(m) => m.write_generation_config(members),
        }
    }

    /// The answer format it is constrained to, if any.
    pub(crate) fn response_format(&self) -> (r: Option<&TextFormat>)
        ensures
            match r {
                Some(f) => model_format(*self) == Some(*f),
                None => model_format(*self) is None,
            },
    {
        match self {
            Model::Gemini3_8Flash(m) => m.answer_format(),
        }
    }
}

impl vstd::std_specs::convert::FromSpecImpl<Gemini3_8Flash> for Model {
    open spec fn obeys_from_spec() -> bool {
        true
    }

    open spec fn from_spec(v: Gemini3_8Flash) -> Self {
        Model::Gemini3_8Flash(v)
    }
}

impl From<Gemini3_8Flash> for Model {
    fn from(m: Gemini3_8Flash) -> (r: Self) {
        Model::Gemini3_8Flash(m)
    }
}

} // verus!
