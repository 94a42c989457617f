//! Gemini 3.8 Flash parameters and its documented limits.

use vstd::prelude::*;

use super::{OutputLimitExceeded, TextFormat};
use crate::json::{group_json_view, members_view, opt_field, push_field, push_str, str_field, Json, JsonV, Member, MemberV, NumberV, Number};
use crate::text::same_text;
use crate::values::{ThinkingLevel, ThinkingSummaries};

verus! {

broadcast use group_json_view;

/// The thinking levels Gemini 3.8 Flash accepts.
///
/// `minimal` is not one of them: the API answers it with "'minimal' is not
/// a supported thinking level for this model" (measured 2026-09-24), so it
/// is not a value this type has.
#[derive(Debug, Clone, Copy, PartialEq, Eq, Structural, Hash, PartialOrd, Ord)]
pub enum Gemini3_8FlashThinking {
    /// Low thinking.
    Low,
    /// Medium thinking. The documented default.
    Medium,
    /// High thinking.
    High,
}

impl Gemini3_8FlashThinking {
    /// The string this value takes on the wire.
    pub open spec fn wire(self) -> Seq<char> {
        match self {
            Gemini3_8FlashThinking::Low => "low"@,
            Gemini3_8FlashThinking::Medium => "medium"@,
            Gemini3_8FlashThinking::High => "high"@,
        }
    }

    /// The string this value takes on the wire.
    pub fn as_str(self) -> (r: &'static str)
        ensures
            r@ == self.wire(),
    {
        match self {
            Gemini3_8FlashThinking::Low => "low",
            Gemini3_8FlashThinking::Medium => "medium",
            Gemini3_8FlashThinking::High => "high",
        }
    }

    /// The value a wire string names, if it names one.
    pub fn from_wire(s: &str) -> (r: Option<Self>)
        ensures
            match r {
                Some(v) => v.wire() == s@,
                None => forall|v: Self| #[trigger] v.wire() != s@,
            },
    {
        if same_text(s, "low") {
            Some(Gemini3_8FlashThinking::Low)
        } else if same_text(s, "medium") {
            Some(Gemini3_8FlashThinking::Medium)
        } else if same_text(s, "high") {
            Some(Gemini3_8FlashThinking::High)
        } else {
            None
        }
    }

    /// Every value, in documentation order.
    pub fn all() -> (r: Vec<Self>)
        ensures
            r@ == seq![Gemini3_8FlashThinking::Low, Gemini3_8FlashThinking::Medium, Gemini3_8FlashThinking::High],
    {
        vec![Gemini3_8FlashThinking::Low, Gemini3_8FlashThinking::Medium, Gemini3_8FlashThinking::High]
    }

    /// Distinct values take distinct wire strings.
    pub proof fn lemma_wire_injective(a: Self, b: Self)
        ensures
            a.wire() == b.wire() ==> a == b,
    {
        reveal_strlit("low");
        reveal_strlit("medium");
        reveal_strlit("high");
        if a.wire() == b.wire() {
            assert(a.wire().len() == b.wire().len());
        }
    }
}


/// The level a Gemini 3.8 Flash thinking level is sent as.
pub open spec fn level_of(level: Gemini3_8FlashThinking) -> ThinkingLevel {
    match level {
        Gemini3_8FlashThinking::Low => ThinkingLevel::Low,
        Gemini3_8FlashThinking::Medium => ThinkingLevel::Medium,
        Gemini3_8FlashThinking::High => ThinkingLevel::High,
    }
}

impl vstd::std_specs::convert::FromSpecImpl<Gemini3_8FlashThinking> for ThinkingLevel {
    open spec fn obeys_from_spec() -> bool {
        true
    }

    open spec fn from_spec(v: Gemini3_8FlashThinking) -> Self {
        level_of(v)
    }
}

impl From<Gemini3_8FlashThinking> for ThinkingLevel {
    fn from(level: Gemini3_8FlashThinking) -> (r: Self) {
        match level {
            Gemini3_8FlashThinking::Low => ThinkingLevel::Low,
            Gemini3_8FlashThinking::Medium => ThinkingLevel::Medium,
            Gemini3_8FlashThinking::High => ThinkingLevel::High,
        }
    }
}

/// Gemini 3.8 Flash's per-call parameters.
///
/// It reads text, images, audio, video and PDF and writes only text, so its
/// response format is a [`TextFormat`] and it has no speech, image or video
/// configuration. Thinking is always on.
#[derive(Debug, Clone, PartialEq)]
pub struct Gemini3_8Flash {
    /// How much it thinks. Always emitted, so the body records it.
    pub thinking: Gemini3_8FlashThinking,
    /// Whether thought steps carry summaries. Always emitted.
    pub summaries: ThinkingSummaries,
    /// The shape of the answer, when constrained.
    pub response_format: Option<TextFormat>,
    max_output_tokens: Option<u32>,
}

/// The generation settings Gemini 3.8 Flash writes: its thinking level and
/// summaries always, and its output cap when set.
pub open spec fn flash_config(m: Gemini3_8Flash) -> Seq<MemberV> {
    seq![
        str_field("thinking_level"@, level_of(m.level()).wire()),
        str_field("thinking_summaries"@, m.summary_setting().wire()),
    ] + opt_field(
        "max_output_tokens"@,
        match m.cap() {
            Some(t) => Some(JsonV::Number(NumberV::PosInt(t as u64))),
            None => None,
        },
    )
}

impl Default for Gemini3_8Flash {
    fn default() -> (r: Self)
        ensures
            r.level() == Gemini3_8FlashThinking::Medium,
            r.summary_setting() == ThinkingSummaries::Off,
            r.format() is None,
            r.cap() is None,
    {
        Gemini3_8Flash {
            thinking: Gemini3_8FlashThinking::Medium,
            summaries: ThinkingSummaries::Off,
            response_format: None,
            max_output_tokens: None,
        }
    }
}

impl Gemini3_8Flash {
    /// The model id.
    pub const ID: &'static str = "gemini-3.8-flash";

    /// The most input tokens it accepts.
    pub const INPUT_TOKEN_LIMIT: u32 = 1_048_576;

    /// The most tokens it can output, thinking included.
    pub const OUTPUT_TOKEN_LIMIT: u32 = 65_536;

    /// How much it thinks.
    pub closed spec fn level(&self) -> Gemini3_8FlashThinking {
        self.thinking
    }

    /// Whether thought steps carry summaries.
    pub closed spec fn summary_setting(&self) -> ThinkingSummaries {
        self.summaries
    }

    /// The shape of the answer, when constrained.
    pub closed spec fn format(&self) -> Option<TextFormat> {
        self.response_format
    }

    /// The output cap.
    pub closed spec fn cap(&self) -> Option<u32> {
        self.max_output_tokens
    }

    /// The documented defaults: medium thinking, no summaries, no output cap.
    pub fn new() -> (r: Self)
        ensures
            r.level() == Gemini3_8FlashThinking::Medium,
            r.summary_setting() == ThinkingSummaries::Off,
            r.format() is None,
            r.cap() is None,
    {
        Self::default()
    }

    /// Sets how much it thinks.
    pub fn with_thinking(self, thinking: Gemini3_8FlashThinking) -> (r: Self)
        ensures
            r.level() == thinking,
            r.summary_setting() == self.summary_setting(),
            r.format() == self.format(),
            r.cap() == self.cap(),
    {
        let Gemini3_8Flash { thinking: _, summaries, response_format, max_output_tokens } = self;
        Gemini3_8Flash { thinking, summaries, response_format, max_output_tokens }
    }

    /// Sets whether thought summaries are returned.
    pub fn with_summaries(self, summaries: ThinkingSummaries) -> (r: Self)
        ensures
            r.level() == self.level(),
            r.summary_setting() == summaries,
            r.format() == self.format(),
            r.cap() == self.cap(),
    {
        let Gemini3_8Flash { thinking, summaries: _, response_format, max_output_tokens } = self;
        Gemini3_8Flash { thinking, summaries, response_format, max_output_tokens }
    }

    /// Constrains the answer's shape.
    pub fn with_response_format(self, format: TextFormat) -> (r: Self)
        ensures
            r.level() == self.level(),
            r.summary_setting() == self.summary_setting(),
            r.format() == Some(format),
            r.cap() == self.cap(),
    {
        let Gemini3_8Flash { thinking, summaries, response_format: _, max_output_tokens } = self;
        Gemini3_8Flash { thinking, summaries, response_format: Some(format), max_output_tokens }
    }

    /// Caps output, thinking included, at `tokens`, which must be within the
    /// model's limit.
    pub fn with_max_output_tokens(self, tokens: u32) -> (r: Result<Self, OutputLimitExceeded>)
        ensures
            (1 <= tokens <= Self::OUTPUT_TOKEN_LIMIT) <==> r is Ok,
            r matches Ok(m) ==> {
                &&& m.level() == self.level()
                &&& m.summary_setting() == self.summary_setting()
                &&& m.format() == self.format()
                &&& m.cap() == Some(tokens)
            },
            r matches Err(e) ==> e == (OutputLimitExceeded { requested: tokens, limit: Self::OUTPUT_TOKEN_LIMIT }),
    {
        if tokens == 0 || tokens > Self::OUTPUT_TOKEN_LIMIT {
            return Err(OutputLimitExceeded { requested: tokens, limit: Self::OUTPUT_TOKEN_LIMIT });
        }
        let Gemini3_8Flash { thinking, summaries, response_format, max_output_tokens: _ } = self;
        Ok(Gemini3_8Flash { thinking, summaries, response_format, max_output_tokens: Some(tokens) })
    }

    /// The output cap, if one was set.
    pub fn max_output_tokens(&self) -> (r: Option<u32>)
        ensures
            r == self.cap(),
    {
        self.max_output_tokens
    }

    /// The shape of the answer, when constrained.
    pub(crate) fn answer_format(&self) -> (r: Option<&TextFormat>)
        ensures
            match r {
                Some(f) => self.format() == Some(*f),
                None => self.format() is None,
            },
    {
        self.response_format.as_ref()
    }

    /// Appends its generation settings.
    pub(crate) fn write_generation_config(&self, members: &mut Vec<Member>)
        ensures
            members_view(final(members)@) == members_view(old(members)@) + flash_config(*self),
    {
        let level = ThinkingLevel::from(self.thinking);
        push_str(members, "thinking_level", level.as_str());
        push_str(members, "thinking_summaries", self.summaries.as_str());
        match self.max_output_tokens {
            Some(tokens) => push_field(members, "max_output_tokens", Json::Number(Number::PosInt(tokens as u64))),
            None => {},
        }
        proof {
            assert(members_view(members@) =~= members_view(old(members)@) + flash_config(*self));
        }
    }
}

} // verus!
