//! Streams becoming turns, and the streams that do not.

use google::content::{FunctionOutput, OutputContent};
use google::conversation::Conversation;
use google::frame::FrameError;
use google::json::{Json, Member, Number};
use google::model::Gemini3_8Flash;
use google::request::Request;
use google::settle::{SettleError, Settling};
use google::step::StepView;
use google::tools::{Function, Tool};
use google::turn::Turn;
use google::{ErrorCode, KnownErrorCode, KnownStatus, Status};
use serde_json::Value;

fn from_value(v: Value) -> Json {
    match v {
        Value::Null => Json::Null,
        Value::Bool(b) => Json::Bool(b),
        Value::Number(n) => Json::Number(match (n.as_u64(), n.as_i64()) {
            (Some(u), _) => Number::PosInt(u),
            (None, Some(i)) => Number::NegInt(i),
            (None, None) => Number::Float(n.to_string()),
        }),
        Value::String(s) => Json::Str(s),
        Value::Array(a) => Json::Array(a.into_iter().map(from_value).collect()),
        Value::Object(o) => Json::Object(o.into_iter().map(|(key, value)| Member { key, value: from_value(value) }).collect()),
    }
}

fn to_value(j: &Json) -> Value {
    match j {
        Json::Null => Value::Null,
        Json::Bool(b) => Value::Bool(*b),
        Json::Number(Number::PosInt(u)) => Value::from(*u),
        Json::Number(Number::NegInt(i)) => Value::from(*i),
        Json::Number(Number::Float(t)) => serde_json::from_str(t).unwrap(),
        Json::Str(s) => Value::String(s.clone()),
        Json::Array(a) => Value::Array(a.iter().map(to_value).collect()),
        Json::Object(m) => Value::Object(m.iter().map(|m| (m.key.clone(), to_value(&m.value))).collect()),
    }
}

fn expect(text: &str) -> Value {
    serde_json::from_str(text).unwrap()
}

fn object(text: &str) -> Vec<Member> {
    match from_value(expect(text)) {
        Json::Object(m) => m,
        other => panic!("not an object: {other:?}"),
    }
}

fn feed(settling: &mut Settling, lines: &[&str]) {
    for line in lines {
        settling.consume_payload(line).unwrap();
    }
}

fn settled(lines: &[&str]) -> Turn {
    let mut settling = Settling::new();
    feed(&mut settling, lines);
    settling.settle().unwrap()
}

const COMPLETED: &str = r#"{"interaction":{"id":"","status":"completed"},"event_type":"interaction.completed"}"#;

#[test]
fn one_turn_with_a_function_call_replays_and_awaits_its_result() {
    let tools = vec![Tool::Function(Function::new(
        "read_file",
        "Read a file.",
        object(r#"{"type": "object", "properties": {"path": {"type": "string"}}}"#),
    ))];
    let mut conversation = Conversation::new(Some("Be brief.".into()), tools).unwrap();
    conversation.push_user_text("What is in notes.txt?").unwrap();

    let body = to_value(&Request::new(&conversation, Gemini3_8Flash::new()).unwrap().streaming().to_json());
    assert_eq!(body["store"], false);
    assert_eq!(body["stream"], true);
    assert_eq!(body["generation_config"]["thinking_level"], "medium");

    let stream = [
        r#"data: {"index":0,"step":{"type":"thought"},"event_type":"step.start"}"#,
        r#"data: {"index":0,"delta":{"signature":"c2ln","type":"thought_signature"},"event_type":"step.delta"}"#,
        r#"data: {"index":0,"event_type":"step.stop"}"#,
        r#"data: {"index":1,"step":{"id":"call_1","type":"function_call","name":"read_file","arguments":{}},"event_type":"step.start"}"#,
        r#"data: {"index":1,"delta":{"arguments":"{\"path\":\"notes.txt\"}","type":"arguments_delta"},"event_type":"step.delta"}"#,
        r#"data: {"index":1,"event_type":"step.stop"}"#,
        r#"data: {"interaction":{"id":"","status":"requires_action"},"event_type":"interaction.completed"}"#,
        "data: [DONE]",
    ]
    .join("\n");
    let mut settling = Settling::new();
    for line in stream.lines() {
        settling.consume_line(line).unwrap();
    }
    let turn = settling.settle().unwrap();
    let call_id = turn.function_calls()[0].id.clone();
    assert_eq!(call_id, "call_1");

    conversation.push_turn(turn).unwrap();
    assert!(Request::new(&conversation, Gemini3_8Flash::new()).is_err());
    conversation.push_function_result(&call_id, FunctionOutput::Text("buy milk".into()), false).unwrap();
    let body = to_value(&Request::new(&conversation, Gemini3_8Flash::new()).unwrap().to_json());
    assert_eq!(body["input"][1], expect(r#"{"type": "thought", "signature": "c2ln"}"#));
    assert_eq!(body["input"][2]["arguments"], expect(r#"{"path": "notes.txt"}"#));
    assert_eq!(body["input"][3]["call_id"], "call_1");
}

#[test]
fn a_stream_without_completion_does_not_settle() {
    let mut settling = Settling::new();
    feed(
        &mut settling,
        &[
            r#"{"interaction":{"id":"","status":"in_progress"},"event_type":"interaction.created"}"#,
            r#"{"index":0,"step":{"type":"model_output"},"event_type":"step.start"}"#,
            r#"{"index":0,"delta":{"text":"hel","type":"text"},"event_type":"step.delta"}"#,
            r#"{"index":0,"event_type":"step.stop"}"#,
        ],
    );
    assert_eq!(settling.settle().unwrap_err(), SettleError::Truncated);
    assert_eq!(Settling::new().settle().unwrap_err(), SettleError::Truncated);
}

#[test]
fn after_completion_only_the_sentinel_is_accepted() {
    let mut settling = Settling::new();
    feed(&mut settling, &[COMPLETED]);
    assert_eq!(settling.consume_payload(" [DONE] "), Ok(()));
    assert_eq!(
        settling.consume_payload(r#"{"index":0,"step":{"type":"model_output"},"event_type":"step.start"}"#),
        Err(SettleError::AfterCompletion)
    );
    assert_eq!(settling.consume_payload(COMPLETED), Err(SettleError::AfterCompletion));
    let turn = settling.settle().unwrap();
    assert!(turn.steps.is_empty());
    assert_eq!(turn.status, Status::Known(KnownStatus::Completed));
}

#[test]
fn a_step_still_open_at_the_end_fails_with_the_lowest_index() {
    let mut settling = Settling::new();
    feed(
        &mut settling,
        &[
            r#"{"index":3,"step":{"type":"model_output"},"event_type":"step.start"}"#,
            r#"{"index":1,"step":{"type":"model_output"},"event_type":"step.start"}"#,
            COMPLETED,
        ],
    );
    assert_eq!(settling.settle().unwrap_err(), SettleError::UnknownStep(1));
}

#[test]
fn steps_are_started_once_and_grow_only_while_open() {
    let mut settling = Settling::new();
    let start = r#"{"index":0,"step":{"type":"model_output"},"event_type":"step.start"}"#;
    feed(&mut settling, &[start]);
    assert_eq!(settling.consume_payload(start), Err(SettleError::DuplicateStep(0)));
    assert_eq!(
        settling.consume_payload(r#"{"index":5,"delta":{"text":"x","type":"text"},"event_type":"step.delta"}"#),
        Err(SettleError::UnknownStep(5))
    );
    assert_eq!(settling.consume_payload(r#"{"index":5,"event_type":"step.stop"}"#), Err(SettleError::UnknownStep(5)));
    feed(&mut settling, &[r#"{"index":0,"event_type":"step.stop"}"#]);
    assert_eq!(settling.consume_payload(start), Err(SettleError::DuplicateStep(0)));
    assert_eq!(settling.consume_payload(r#"{"index":0,"event_type":"step.stop"}"#), Err(SettleError::UnknownStep(0)));
}

#[test]
fn arguments_must_be_a_json_object() {
    let start = r#"{"index":2,"step":{"id":"c","type":"function_call","name":"f"},"event_type":"step.start"}"#;
    let mut settling = Settling::new();
    feed(&mut settling, &[start, r#"{"index":2,"delta":{"arguments":"[1]","type":"arguments_delta"},"event_type":"step.delta"}"#]);
    assert!(matches!(
        settling.consume_payload(r#"{"index":2,"event_type":"step.stop"}"#),
        Err(SettleError::Arguments { index: 2, .. })
    ));
    // The refused close still ends the step.
    assert_eq!(settling.consume_payload(r#"{"index":2,"event_type":"step.stop"}"#), Err(SettleError::UnknownStep(2)));

    let mut settling = Settling::new();
    feed(&mut settling, &[start, r#"{"index":2,"delta":{"arguments":"{\"a\":","type":"arguments_delta"},"event_type":"step.delta"}"#]);
    assert!(matches!(
        settling.consume_payload(r#"{"index":2,"event_type":"step.stop"}"#),
        Err(SettleError::Arguments { index: 2, .. })
    ));
}

#[test]
fn argument_text_is_concatenated_before_it_is_parsed() {
    let turn = settled(&[
        r#"{"index":0,"step":{"id":"c","type":"function_call","name":"f","arguments":{}},"event_type":"step.start"}"#,
        r#"{"index":0,"delta":{"arguments":"{\"a\":","type":"arguments_delta"},"event_type":"step.delta"}"#,
        r#"{"index":0,"delta":{"arguments":"[1,2]}","type":"arguments_delta"},"event_type":"step.delta"}"#,
        r#"{"index":0,"event_type":"step.stop"}"#,
        COMPLETED,
    ]);
    let calls = turn.function_calls();
    assert_eq!(calls.len(), 1);
    assert_eq!(to_value(&Json::Object(calls[0].arguments.clone())), expect(r#"{"a": [1, 2]}"#));
}

#[test]
fn a_caller_step_is_refused_when_it_closes() {
    let mut settling = Settling::new();
    feed(&mut settling, &[r#"{"index":0,"step":{"type":"user_input"},"event_type":"step.start"}"#]);
    assert!(matches!(settling.consume_payload(r#"{"index":0,"event_type":"step.stop"}"#), Err(SettleError::Step(_))));
}

#[test]
fn a_completion_must_be_final() {
    let mut settling = Settling::new();
    assert_eq!(
        settling.consume_payload(r#"{"interaction":{"status":"in_progress"},"event_type":"interaction.completed"}"#),
        Err(SettleError::NotFinal("in_progress".into()))
    );
    assert_eq!(
        settling.consume_payload(r#"{"interaction":{"status":"queued"},"event_type":"interaction.completed"}"#),
        Err(SettleError::NotFinal("queued".into()))
    );
    // Nothing changed: a final completion still settles.
    feed(&mut settling, &[COMPLETED]);
    assert!(settling.settle().is_ok());
}

#[test]
fn an_error_event_fails_the_stream_and_a_bad_frame_is_a_frame_error() {
    let mut settling = Settling::new();
    let err = settling
        .consume_payload(r#"{"error":{"code":"service_unavailable","message":"overloaded"},"event_type":"error"}"#)
        .unwrap_err();
    match err {
        SettleError::Api(api) => {
            assert_eq!(api.code, ErrorCode::Known(KnownErrorCode::ServiceUnavailable));
            assert_eq!(api.message, "overloaded");
        },
        other => panic!("unexpected {other:?}"),
    }
    assert!(matches!(settling.consume_payload("{"), Err(SettleError::Frame(FrameError::NotJson(_)))));
    assert!(matches!(settling.consume_payload("[1]"), Err(SettleError::Frame(FrameError::NotObject))));
    assert!(matches!(settling.consume_payload("{}"), Err(SettleError::Frame(FrameError::NoEventType))));
    assert!(matches!(
        settling.consume_payload(r#"{"event_type":"step.start","index":-1}"#),
        Err(SettleError::Frame(FrameError::Malformed { .. }))
    ));
}

#[test]
fn lines_other_than_data_are_ignored() {
    let mut settling = Settling::new();
    for line in ["event: interaction.completed", ": keep-alive", "", "id: 7"] {
        assert_eq!(settling.consume_line(line), Ok(()));
    }
    assert_eq!(settling.settle().unwrap_err(), SettleError::Truncated);
    let mut settling = Settling::new();
    settling.consume_line(&format!("data: {COMPLETED}\r")).unwrap();
    assert!(settling.settle().is_ok());
}

#[test]
fn steps_come_out_by_index_whatever_order_they_stop_in() {
    let turn = settled(&[
        r#"{"index":1,"step":{"type":"model_output"},"event_type":"step.start"}"#,
        r#"{"index":0,"step":{"type":"thought","signature":"s"},"event_type":"step.start"}"#,
        r#"{"index":1,"delta":{"text":"answer","type":"text"},"event_type":"step.delta"}"#,
        r#"{"index":1,"event_type":"step.stop"}"#,
        r#"{"index":0,"event_type":"step.stop"}"#,
        COMPLETED,
    ]);
    assert_eq!(turn.steps.len(), 2);
    assert!(matches!(turn.steps[0].view(), StepView::Thought { .. }));
    assert!(matches!(turn.steps[1].view(), StepView::ModelOutput { .. }));
    assert_eq!(turn.text(), "answer");
}

#[test]
fn text_grows_its_last_block_and_other_deltas_add_blocks() {
    let turn = settled(&[
        r#"{"index":0,"step":{"type":"model_output"},"event_type":"step.start"}"#,
        r#"{"index":0,"delta":{"text":"Hello, ","type":"text"},"event_type":"step.delta"}"#,
        r#"{"index":0,"delta":{"text":"world.","type":"text"},"event_type":"step.delta"}"#,
        r#"{"index":0,"delta":{"type":"text_annotation_delta","annotations":[{"type":"url_citation","url":"https://a.example","start_index":0,"end_index":5}]},"event_type":"step.delta"}"#,
        r#"{"index":0,"delta":{"type":"text_annotation_delta","annotations":[{"type":"url_citation","url":"https://b.example","start_index":7,"end_index":12}]},"event_type":"step.delta"}"#,
        r#"{"index":0,"delta":{"type":"image","data":"cG5n","mime_type":"image/png"},"event_type":"step.delta"}"#,
        r#"{"index":0,"delta":{"text":"After.","type":"text"},"event_type":"step.delta"}"#,
        r#"{"index":0,"event_type":"step.stop"}"#,
        COMPLETED,
    ]);
    assert_eq!(turn.text(), "Hello, world.After.");
    let wire = to_value(&turn.steps[0].to_json());
    assert_eq!(
        wire,
        expect(
            r#"{"type": "model_output", "content": [
                {"type": "text", "text": "Hello, world.", "annotations": [
                    {"type": "url_citation", "url": "https://a.example", "start_index": 0, "end_index": 5},
                    {"type": "url_citation", "url": "https://b.example", "start_index": 7, "end_index": 12}
                ]},
                {"type": "image", "data": "cG5n", "mime_type": "image/png"},
                {"type": "text", "text": "After."}
            ]}"#
        )
    );
    match turn.steps[0].view() {
        StepView::ModelOutput { content } => {
            assert_eq!(content.len(), 3);
            assert!(matches!(&content[0], OutputContent::Text { annotations, .. } if annotations.len() == 2));
            assert!(matches!(&content[1], OutputContent::Media { .. }));
        },
        other => panic!("unexpected {other:?}"),
    }
}

#[test]
fn a_thought_gets_its_signature_and_summary() {
    let turn = settled(&[
        r#"{"index":0,"step":{"type":"thought"},"event_type":"step.start"}"#,
        r#"{"index":0,"delta":{"type":"thought_summary","content":{"type":"text","text":"Plan."}},"event_type":"step.delta"}"#,
        r#"{"index":0,"delta":{"type":"thought_signature","signature":"c2ln"},"event_type":"step.delta"}"#,
        r#"{"index":0,"event_type":"step.stop"}"#,
        COMPLETED,
    ]);
    assert_eq!(
        to_value(&turn.steps[0].to_json()),
        expect(r#"{"type": "thought", "summary": [{"type": "text", "text": "Plan."}], "signature": "c2ln"}"#)
    );
    assert!(matches!(turn.steps[0].view(), StepView::Thought { signature: Some(s), summary } if s == "c2ln" && summary.len() == 1));
}

#[test]
fn usage_is_joined_over_the_stream() {
    let turn = settled(&[
        r#"{"index":0,"step":{"type":"model_output"},"event_type":"step.start"}"#,
        r#"{"index":0,"delta":{"text":"x","type":"text"},"metadata":{"total_usage":{"total_input_tokens":10,"total_output_tokens":1}},"event_type":"step.delta"}"#,
        r#"{"index":0,"event_type":"step.stop","usage":{"total_output_tokens":4,"total_tokens":14}}"#,
        r#"{"interaction":{"status":"completed","usage":{"total_input_tokens":9,"total_output_tokens":3}},"event_type":"interaction.completed"}"#,
    ]);
    assert_eq!(turn.usage.total_input_tokens, 10);
    assert_eq!(turn.usage.total_output_tokens, 4);
    assert_eq!(turn.usage.total_tokens, 14);
}

#[test]
fn a_completion_reports_model_and_tier() {
    let turn = settled(&[
        r#"{"interaction":{"status":"requires_action","model":"gemini-3.8-flash","service_tier":"standard"},"event_type":"interaction.completed"}"#,
    ]);
    assert_eq!(turn.status, Status::Known(KnownStatus::RequiresAction));
    assert_eq!(turn.model.as_deref(), Some("gemini-3.8-flash"));
    assert_eq!(turn.service_tier.as_deref(), Some("standard"));
}

#[test]
fn a_server_step_merges_its_payload_over_its_opening() {
    let turn = settled(&[
        r#"{"index":0,"step":{"type":"code_execution_result","call_id":"x"},"event_type":"step.start"}"#,
        r#"{"index":0,"delta":{"type":"code_execution_result","result":"42","call_id":"y"},"event_type":"step.delta"}"#,
        r#"{"index":0,"event_type":"step.stop"}"#,
        COMPLETED,
    ]);
    assert_eq!(
        to_value(&turn.steps[0].to_json()),
        expect(r#"{"type": "code_execution_result", "call_id": "y", "result": "42"}"#)
    );
}

#[test]
fn unrecognized_deltas_and_events_change_nothing() {
    let turn = settled(&[
        r#"{"index":0,"step":{"type":"model_output","content":[]},"event_type":"step.start"}"#,
        r#"{"index":0,"delta":{"type":"hologram","x":1},"event_type":"step.delta"}"#,
        r#"{"event_type":"interaction.teleported"}"#,
        r#"{"status":"in_progress","event_type":"interaction.status_update"}"#,
        r#"{"index":0,"event_type":"step.stop"}"#,
        COMPLETED,
    ]);
    assert_eq!(to_value(&turn.steps[0].to_json()), expect(r#"{"type": "model_output", "content": []}"#));
}

fn keys(j: &Json) -> Vec<&str> {
    match j {
        Json::Object(m) => m.iter().map(|m| m.key.as_str()).collect(),
        other => panic!("not an object: {other:?}"),
    }
}

fn member<'a>(j: &'a Json, key: &str) -> &'a Json {
    match j {
        Json::Object(m) => &m.iter().find(|m| m.key == key).unwrap().value,
        other => panic!("not an object: {other:?}"),
    }
}

#[test]
fn settled_steps_write_their_keys_in_key_order() {
    let turn = settled(&[
        r#"{"index":0,"step":{"type":"model_output"},"event_type":"step.start"}"#,
        r#"{"index":0,"delta":{"text":"Hello","type":"text"},"event_type":"step.delta"}"#,
        r#"{"index":0,"delta":{"type":"text_annotation_delta","annotations":[{"type":"url_citation","url":"https://a.example","start_index":0,"end_index":5}]},"event_type":"step.delta"}"#,
        r#"{"index":0,"event_type":"step.stop"}"#,
        r#"{"index":1,"step":{"type":"thought"},"event_type":"step.start"}"#,
        r#"{"index":1,"delta":{"type":"thought_signature","signature":"c2ln"},"event_type":"step.delta"}"#,
        r#"{"index":1,"delta":{"type":"thought_summary","content":{"type":"text","text":"Plan."}},"event_type":"step.delta"}"#,
        r#"{"index":1,"event_type":"step.stop"}"#,
        r#"{"index":2,"step":{"type":"code_execution_result","call_id":"x"},"event_type":"step.start"}"#,
        r#"{"index":2,"delta":{"type":"code_execution_result","result":"42"},"event_type":"step.delta"}"#,
        r#"{"index":2,"event_type":"step.stop"}"#,
        COMPLETED,
    ]);
    let output = turn.steps[0].to_json();
    assert_eq!(keys(&output), vec!["content", "type"]);
    match member(&output, "content") {
        Json::Array(blocks) => assert_eq!(keys(&blocks[0]), vec!["annotations", "text", "type"]),
        other => panic!("not an array: {other:?}"),
    }
    assert_eq!(keys(&turn.steps[1].to_json()), vec!["signature", "summary", "type"]);
    assert_eq!(keys(&turn.steps[2].to_json()), vec!["call_id", "result", "type"]);
}
