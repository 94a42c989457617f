//! Gemini Interactions API bindings: the typed wire in both directions.
//!
//! Outbound, a request whose invalid forms are not values: a type per model
//! carrying only the parameters it accepts, and an append-only conversation
//! whose model steps can only be replayed exactly as received. Inbound, a
//! streaming decoder and a buffered decoder that make a truncated stream
//! unreadable as a finished turn.
//!
//! The crate is stateless by mission: every request sends the whole history
//! with `store: false`.
//!
//! # Outbound
//!
//! * [`content`]: the blocks a caller sends, and a view of the model's.
//! * [`step`]: the history: caller steps, and verbatim model steps.
//! * [`tools`]: tool declarations, and the choice among them.
//! * [`conversation`]: cache-safe, append-only conversation state.
//! * [`model`]: one type per model, carrying only what it accepts.
//! * [`request`]: per-call parameters and the request body.
//!
//! # Inbound
//!
//! * [`frame`]: the Server-Sent Events envelope, and what a broken frame is.
//! * [`stream`]: one streamed frame becomes one typed event.
//! * [`settle`]: a stream becomes a finished turn, or does not.
//! * [`response`]: a buffered response body.
//! * [`turn`]: the finished turn both of those produce.
//! * [`usage`]: what a request cost, and what the cache did.
//! * [`error`]: an error the API reports.
//!
//! # Shared
//!
//! * [`values`]: the enums that mirror API vocabularies, re-exported at the root.
//! * [`json`]: JSON values as this crate holds them, and how they are read.
//! * [`text`]: the few string operations the decoders rely on.

pub mod content;
pub mod conversation;
pub mod error;
pub mod frame;
pub mod json;
pub mod model;
pub mod request;
pub mod response;
pub mod settle;
pub mod step;
pub mod stream;
pub mod text;
pub mod tools;
pub mod turn;
pub mod usage;
pub mod values;

pub use values::{
    AudioMime, CodeLanguage, ComputerEnvironment, ComputerSafetyPolicy, DocumentMime, ErrorCode, GroundingTool,
    ImageMime, KnownErrorCode, KnownGroundingTool, KnownModality, KnownStatus, MediaResolution, Modality,
    SearchType, ServiceTier, Status, ThinkingLevel, ThinkingSummaries, ToolChoiceMode, VideoMime, VideoProcessing,
};

use vstd::prelude::*;

verus! {

/// The API's origin.
pub const API_BASE: &'static str = "https://generativelanguage.googleapis.com";

/// Path of the endpoint that creates an interaction.
pub const INTERACTIONS_PATH: &'static str = "/v1beta/interactions";

/// Name of the API-key header.
pub const HEADER_API_KEY: &'static str = "x-goog-api-key";

} // verus!
