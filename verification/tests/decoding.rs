//! Frames, events, buffered bodies and error bodies, decoded.

use google::content::{Annotation, OutputContent, Span};
use google::error::ApiError;
use google::frame::{data_payload, FrameError, DONE};
use google::json::{Json, Member, Number};
use google::response::{decode_interaction, decode_interaction_value, ResponseError};
use google::step::{ModelStep, StepView};
use google::stream::{Delta, Snapshot, StreamEvent};
use google::usage::Usage;
use google::{ErrorCode, KnownErrorCode, KnownModality, KnownStatus, Modality, Status};
use serde_json::Value;

fn from_value(v: Value) -> Json {
    match v {
        Value::Null => Json::Null,
        Value::Bool(b) => Json::Bool(b),
        Value::Number(n) => Json::Number(match (n.as_u64(), n.as_i64()) {
            (Some(u), _) => Number::PosInt(u),
            (None, Some(i)) => Number::NegInt(i),
            (None, None) => Number::Float(n.to_string()),
        }),
        Value::String(s) => Json::Str(s),
        Value::Array(a) => Json::Array(a.into_iter().map(from_value).collect()),
        Value::Object(o) => Json::Object(o.into_iter().map(|(key, value)| Member { key, value: from_value(value) }).collect()),
    }
}

fn parse(text: &str) -> Json {
    from_value(serde_json::from_str(text).unwrap())
}

fn object(text: &str) -> Vec<Member> {
    match parse(text) {
        Json::Object(m) => m,
        other => panic!("not an object: {other:?}"),
    }
}

#[test]
fn data_lines_yield_their_payload() {
    assert_eq!(data_payload("data: {\"a\":1}"), Some("{\"a\":1}"));
    assert_eq!(data_payload("data:{}"), Some("{}"));
    assert_eq!(data_payload("data:  two spaces"), Some(" two spaces"));
    assert_eq!(data_payload("data: [DONE]\r\n"), Some("[DONE]"));
    assert_eq!(data_payload("event: done"), None);
    assert_eq!(data_payload(" data: late"), None);
    assert_eq!(DONE, "[DONE]");
}

#[test]
fn the_sentinel_and_lifecycle_events_decode() {
    assert_eq!(StreamEvent::decode("[DONE]").unwrap(), StreamEvent::Done);
    assert_eq!(StreamEvent::decode("  [DONE]\n").unwrap(), StreamEvent::Done);
    assert_eq!(
        StreamEvent::decode(r#"{"status":"requires_action","event_type":"interaction.status_update"}"#).unwrap(),
        StreamEvent::StatusUpdate(Status::Known(KnownStatus::RequiresAction))
    );
    assert_eq!(
        StreamEvent::decode(r#"{"status":"paused","event_type":"interaction.status_update"}"#).unwrap(),
        StreamEvent::StatusUpdate(Status::Unrecognized("paused".into()))
    );
    match StreamEvent::decode(r#"{"interaction":{"id":"i1","status":"in_progress","model":"m"},"event_type":"interaction.created"}"#)
        .unwrap()
    {
        StreamEvent::Created(Snapshot { status, usage, model, service_tier, id }) => {
            assert_eq!(status, Status::Known(KnownStatus::InProgress));
            assert!(usage.is_none());
            assert_eq!(model.as_deref(), Some("m"));
            assert!(service_tier.is_none());
            assert_eq!(id.as_deref(), Some("i1"));
        },
        other => panic!("unexpected {other:?}"),
    }
}

#[test]
fn broken_frames_say_what_is_wrong() {
    assert!(matches!(StreamEvent::decode("not json"), Err(FrameError::NotJson(_))));
    assert_eq!(StreamEvent::decode("[1,2]").unwrap_err(), FrameError::NotObject);
    assert_eq!(StreamEvent::decode(r#"{"event_type":7}"#).unwrap_err(), FrameError::NoEventType);
    for (frame, event) in [
        (r#"{"event_type":"step.start","index":0}"#, "step.start"),
        (r#"{"event_type":"step.start","index":0,"step":{"id":"x"}}"#, "step.start"),
        (r#"{"event_type":"step.delta","index":0}"#, "step.delta"),
        (r#"{"event_type":"step.delta","index":0,"delta":{"type":"text"}}"#, "step.delta"),
        (r#"{"event_type":"step.stop","index":4294967296}"#, "step.stop"),
        (r#"{"event_type":"step.stop","index":0,"usage":3}"#, "step.stop"),
        (r#"{"event_type":"interaction.completed"}"#, "interaction.completed"),
        (r#"{"event_type":"interaction.created","interaction":{"id":"x"}}"#, "interaction.created"),
        (r#"{"event_type":"interaction.status_update"}"#, "interaction.status_update"),
        (r#"{"event_type":"error","error":{"message":"no code"}}"#, "error"),
    ] {
        match StreamEvent::decode(frame) {
            Err(FrameError::Malformed { event_type, .. }) => assert_eq!(event_type, event),
            other => panic!("{frame}: unexpected {other:?}"),
        }
    }
}

#[test]
fn step_events_carry_index_step_and_usage() {
    match StreamEvent::decode(r#"{"index":4294967295,"step":{"type":"thought"},"event_type":"step.start"}"#).unwrap() {
        StreamEvent::StepStart { index, step } => {
            assert_eq!(index, u32::MAX);
            assert_eq!(step, object(r#"{"type": "thought"}"#));
        },
        other => panic!("unexpected {other:?}"),
    }
    match StreamEvent::decode(r#"{"index":2,"event_type":"step.stop","usage":{"total_tokens":9}}"#).unwrap() {
        StreamEvent::StepStop { index: 2, usage: Some(u) } => assert_eq!(u.total_tokens, 9),
        other => panic!("unexpected {other:?}"),
    }
    assert_eq!(
        StreamEvent::decode(r#"{"index":2,"event_type":"step.stop","usage":null}"#).unwrap(),
        StreamEvent::StepStop { index: 2, usage: None }
    );
    match StreamEvent::decode(
        r#"{"index":1,"delta":{"type":"text","text":"hi"},"metadata":{"total_usage":{"total_input_tokens":5}},"event_type":"step.delta"}"#,
    )
    .unwrap()
    {
        StreamEvent::StepDelta { index: 1, delta: Delta::Text(t), usage: Some(u) } => {
            assert_eq!(t, "hi");
            assert_eq!(u.total_input_tokens, 5);
        },
        other => panic!("unexpected {other:?}"),
    }
}

fn delta(text: &str) -> Result<Delta, String> {
    Delta::from_value(parse(text))
}

#[test]
fn each_delta_kind_takes_its_shape() {
    assert_eq!(delta(r#"{"type":"text","text":"t"}"#).unwrap(), Delta::Text("t".into()));
    assert_eq!(delta(r#"{"type":"thought_signature","signature":"s"}"#).unwrap(), Delta::ThoughtSignature("s".into()));
    assert_eq!(delta(r#"{"type":"arguments_delta","arguments":"{"}"#).unwrap(), Delta::Arguments("{".into()));
    assert_eq!(delta(r#"{"type":"text_annotation_delta"}"#).unwrap(), Delta::TextAnnotations(vec![]));
    assert_eq!(delta(r#"{"type":"text_annotation_delta","annotations":null}"#).unwrap(), Delta::TextAnnotations(vec![]));
    assert_eq!(
        delta(r#"{"type":"text_annotation_delta","annotations":[1]}"#).unwrap(),
        Delta::TextAnnotations(vec![Json::Number(Number::PosInt(1))])
    );
    assert!(delta(r#"{"type":"text_annotation_delta","annotations":{}}"#).is_err());
    assert_eq!(
        delta(r#"{"type":"thought_summary","content":{"type":"text","text":"p"}}"#).unwrap(),
        Delta::ThoughtSummary(parse(r#"{"type":"text","text":"p"}"#))
    );
    assert!(delta(r#"{"type":"thought_summary"}"#).is_err());
    assert_eq!(
        delta(r#"{"type":"video","uri":"u"}"#).unwrap(),
        Delta::Media(parse(r#"{"type":"video","uri":"u"}"#))
    );
    assert_eq!(
        delta(r#"{"type":"url_context_result","result":[]}"#).unwrap(),
        Delta::Payload(object(r#"{"result":[]}"#))
    );
    assert_eq!(delta(r#"{"type":"hologram"}"#).unwrap(), Delta::Unrecognized(parse(r#"{"type":"hologram"}"#)));
    assert!(delta(r#"{"text":"no type"}"#).is_err());
    assert!(delta(r#""text""#).is_err());
    assert!(delta(r#"{"type":"text","text":1}"#).is_err());
}

#[test]
fn a_buffered_body_decodes_into_a_turn() {
    let turn = decode_interaction(
        r#"{
            "id": "", "status": "completed", "model": "gemini-3.8-flash", "service_tier": "standard",
            "steps": [
                {"type": "thought", "signature": "c2ln"},
                {"type": "model_output", "content": [{"type": "text", "text": "pong"}]}
            ],
            "usage": {"total_input_tokens": 101, "input_tokens_by_modality": [{"modality": "text", "tokens": 101}]}
        }"#,
    )
    .unwrap();
    assert_eq!(turn.status, Status::Known(KnownStatus::Completed));
    assert_eq!(turn.text(), "pong");
    assert_eq!(turn.steps.len(), 2);
    assert_eq!(turn.usage.total_input_tokens, 101);
    assert_eq!(turn.usage.input_tokens_by_modality.get(&Modality::Known(KnownModality::Text)), Some(101));
    assert_eq!(turn.model.as_deref(), Some("gemini-3.8-flash"));
    assert_eq!(turn.service_tier.as_deref(), Some("standard"));
}

#[test]
fn a_buffered_body_is_refused_for_what_it_lacks() {
    assert!(matches!(decode_interaction("nope"), Err(ResponseError::Body(_))));
    assert!(matches!(decode_interaction(r#"{"steps":[]}"#), Err(ResponseError::Body(_))));
    assert!(matches!(decode_interaction(r#"{"status":"completed","steps":{}}"#), Err(ResponseError::Body(_))));
    assert!(matches!(decode_interaction(r#"{"status":"completed","steps":[1]}"#), Err(ResponseError::Body(_))));
    assert!(matches!(decode_interaction(r#"{"status":"completed","model":1}"#), Err(ResponseError::Body(_))));
    assert_eq!(
        decode_interaction(r#"{"status":"in_progress","steps":[{"type":"user_input"}]}"#).unwrap_err(),
        ResponseError::NotFinal("in_progress".into())
    );
    assert!(matches!(
        decode_interaction(r#"{"status":"completed","steps":[{"type":"user_input"}]}"#),
        Err(ResponseError::Step(_))
    ));
    let empty = decode_interaction_value(parse(r#"{"status":"incomplete"}"#)).unwrap();
    assert!(empty.steps.is_empty());
    assert_eq!(empty.usage, Usage::new());
    assert_eq!(empty.status, Status::Known(KnownStatus::Incomplete));
}

#[test]
fn error_bodies_decode_in_both_shapes() {
    let buffered = ApiError::from_body(r#"{"error":{"code":"rate_limit_exceeded","message":"slow down"}}"#).unwrap();
    assert_eq!(buffered.code, ErrorCode::Known(KnownErrorCode::RateLimitExceeded));
    assert_eq!(buffered.message, "slow down");
    let framed = ApiError::from_body(
        "event: error\ndata: {\"error\":{\"code\":\"service_unavailable\"},\"event_type\":\"error\"}\n\n",
    )
    .unwrap();
    assert_eq!(framed.code, ErrorCode::Known(KnownErrorCode::ServiceUnavailable));
    assert_eq!(framed.message, "");
    let novel = ApiError::from_body(r#"{"error":{"code":"teapot","message":"short and stout"}}"#).unwrap();
    assert_eq!(novel.code, ErrorCode::Unrecognized("teapot".into()));
    assert!(ApiError::from_body("<html>bad gateway</html>").is_err());
    assert!(ApiError::from_body(r#"{"message":"no envelope"}"#).is_err());
    assert!(ApiError::from_body(r#"{"error":{"code":5}}"#).is_err());
}

#[test]
fn model_steps_decode_and_refuse_the_callers_steps() {
    let call = ModelStep::from_wire(object(r#"{"type":"function_call","id":"c","name":"f","arguments":{"x":1}}"#)).unwrap();
    let f = call.as_function_call().unwrap();
    assert_eq!((f.id.as_str(), f.name.as_str()), ("c", "f"));
    assert_eq!(f.arguments, object(r#"{"x":1}"#));
    assert_eq!(call.wire(), &object(r#"{"type":"function_call","id":"c","name":"f","arguments":{"x":1}}"#));
    assert!(ModelStep::from_wire(object(r#"{"type":"function_call","id":"c"}"#)).is_err());
    assert!(ModelStep::from_wire(object(r#"{"type":"user_input"}"#)).is_err());
    assert!(ModelStep::from_wire(object(r#"{"type":"function_result"}"#)).is_err());
    assert!(ModelStep::from_wire(object(r#"{"no":"type"}"#)).is_err());
    assert!(ModelStep::from_wire(object(r#"{"type":"model_output","content":"x"}"#)).is_err());
    let server = ModelStep::from_wire(object(r#"{"type":"rocket_launch_call","x":1}"#)).unwrap();
    assert!(matches!(server.view(), StepView::Server { .. }));
    assert!(server.as_function_call().is_none());
}

#[test]
fn output_blocks_and_annotations_decode() {
    let text = OutputContent::from_json(&parse(
        r#"{"type":"text","text":"Paris","annotations":[
            {"type":"url_citation","url":"https://p.example","title":"P","start_index":0,"end_index":5},
            {"type":"speech","words":[]}
        ]}"#,
    ))
    .unwrap();
    match &text {
        OutputContent::Text { text, annotations } => {
            assert_eq!(text, "Paris");
            assert_eq!(
                annotations[0],
                Annotation::Url {
                    span: Span { start_index: 0, end_index: 5 },
                    url: "https://p.example".into(),
                    title: Some("P".into())
                }
            );
            assert!(matches!(annotations[1], Annotation::Other(_)));
        },
        other => panic!("unexpected {other:?}"),
    }
    assert_eq!(text.as_text(), Some("Paris"));
    let audio = OutputContent::from_json(&parse(r#"{"type":"audio","data":"AA==","mime_type":"audio/wav"}"#)).unwrap();
    assert_eq!(audio.as_text(), None);
    assert!(matches!(
        OutputContent::from_json(&parse(r#"{"type":"sparkle"}"#)).unwrap(),
        OutputContent::Unrecognized(_)
    ));
    assert!(OutputContent::from_json(&parse(r#"{"type":"text"}"#)).is_err());
}
