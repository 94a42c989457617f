//! The request body the crate writes, and the requests it refuses to write.

use google::content::{Base64, FunctionOutput, Image, InputContent, ResultBlock, Source};
use google::conversation::{Conversation, ConversationError};
use google::json::{Json, Member, Number};
use google::model::{Gemini3_8Flash, OutputLimitExceeded, TextFormat};
use google::request::{Request, RequestError};
use google::settle::Settling;
use google::stream::{Delta, StreamEvent};
use google::tools::{Function, LatLng, Tool, ToolChoice};
use google::turn::Turn;
use google::usage::Usage;
use google::{ImageMime, MediaResolution, SearchType, ServiceTier, ToolChoiceMode};
use serde_json::Value;

/// A JSON text read into this crate's values.
fn parse(text: &str) -> Json {
    from_value(serde_json::from_str(text).unwrap())
}

fn from_value(v: Value) -> Json {
    match v {
        Value::Null => Json::Null,
        Value::Bool(b) => Json::Bool(b),
        Value::Number(n) => Json::Number(match (n.as_u64(), n.as_i64()) {
            (Some(u), _) => Number::PosInt(u),
            (None, Some(i)) => Number::NegInt(i),
            (None, None) => Number::Float(n.to_string()),
        }),
        Value::String(s) => Json::Str(s),
        Value::Array(a) => Json::Array(a.into_iter().map(from_value).collect()),
        Value::Object(o) => Json::Object(o.into_iter().map(|(key, value)| Member { key, value: from_value(value) }).collect()),
    }
}

/// The members of a JSON object text.
fn object(text: &str) -> Vec<Member> {
    match parse(text) {
        Json::Object(m) => m,
        other => panic!("not an object: {other:?}"),
    }
}

fn to_value(j: &Json) -> Value {
    match j {
        Json::Null => Value::Null,
        Json::Bool(b) => Value::Bool(*b),
        Json::Number(Number::PosInt(u)) => Value::from(*u),
        Json::Number(Number::NegInt(i)) => Value::from(*i),
        Json::Number(Number::Float(t)) => serde_json::from_str(t).unwrap(),
        Json::Str(s) => Value::String(s.clone()),
        Json::Array(a) => Value::Array(a.iter().map(to_value).collect()),
        Json::Object(m) => Value::Object(m.iter().map(|m| (m.key.clone(), to_value(&m.value))).collect()),
    }
}

/// A value as JSON text, members in the order written.
fn to_text(j: &Json) -> String {
    match j {
        Json::Null => "null".to_string(),
        Json::Bool(b) => b.to_string(),
        Json::Number(Number::PosInt(u)) => u.to_string(),
        Json::Number(Number::NegInt(i)) => i.to_string(),
        Json::Number(Number::Float(t)) => t.clone(),
        Json::Str(s) => serde_json::to_string(s).unwrap(),
        Json::Array(a) => format!("[{}]", a.iter().map(to_text).collect::<Vec<_>>().join(",")),
        Json::Object(m) => format!(
            "{{{}}}",
            m.iter()
                .map(|m| format!("{}:{}", serde_json::to_string(&m.key).unwrap(), to_text(&m.value)))
                .collect::<Vec<_>>()
                .join(",")
        ),
    }
}

fn expect(text: &str) -> Value {
    serde_json::from_str(text).unwrap()
}

fn float(x: f64) -> Number {
    Number::Float(serde_json::Number::from_f64(x).unwrap().to_string())
}

fn function(name: &str) -> Tool {
    Tool::Function(Function::new(name, "Does a thing.", object(r#"{"type": "object"}"#)))
}

fn settled(lines: &[&str]) -> Turn {
    let mut settling = Settling::new();
    for line in lines {
        settling.consume_payload(line).unwrap();
    }
    settling.settle().unwrap()
}

fn one_call(id: &str) -> Turn {
    settled(&[
        &format!(
            r#"{{"index":0,"step":{{"id":"{id}","type":"function_call","name":"f","arguments":{{}}}},"event_type":"step.start"}}"#
        ),
        r#"{"index":0,"delta":{"arguments":"{\"x\":1}","type":"arguments_delta"},"event_type":"step.delta"}"#,
        r#"{"index":0,"event_type":"step.stop"}"#,
        r#"{"interaction":{"id":"","status":"requires_action"},"event_type":"interaction.completed"}"#,
    ])
}

#[test]
fn the_body_is_complete_and_in_prefix_order() {
    let mut conversation = Conversation::new(Some("Be brief.".into()), vec![function("f")]).unwrap();
    conversation.push_user_text("hi").unwrap();
    let body = to_text(&Request::new(&conversation, Gemini3_8Flash::new()).unwrap().to_json());
    assert_eq!(
        body,
        [
            r#"{"model":"gemini-3.8-flash","system_instruction":"Be brief.","#,
            r#""tools":[{"type":"function","name":"f","description":"Does a thing.","parameters":{"type":"object"}}],"#,
            r#""input":[{"type":"user_input","content":[{"type":"text","text":"hi"}]}],"#,
            r#""generation_config":{"thinking_level":"medium","thinking_summaries":"none"},"#,
            r#""store":false,"stream":false}"#,
        ]
        .concat()
    );
}

#[test]
fn per_call_parameters_land_where_the_api_reads_them() {
    let mut conversation = Conversation::new(None, vec![function("f"), function("g")]).unwrap();
    conversation.push_user_text("hi").unwrap();
    let model = Gemini3_8Flash::new()
        .with_max_output_tokens(1_000)
        .unwrap()
        .with_response_format(TextFormat::Json(object(r#"{"type": "object"}"#)));
    let allowed = conversation.allow_tools(ToolChoiceMode::Any, &["g"]).unwrap();
    let mut request = Request::new(&conversation, model).unwrap().with_tool_choice(ToolChoice::Allowed(allowed));
    request.seed = Some(7);
    request.stop_sequences = vec!["END".into()];
    request.service_tier = Some(ServiceTier::Flex);
    let body = to_value(&request.to_json());
    assert_eq!(
        body["generation_config"],
        expect(
            r#"{
                "thinking_level": "medium",
                "thinking_summaries": "none",
                "max_output_tokens": 1000,
                "seed": 7,
                "stop_sequences": ["END"],
                "tool_choice": {"allowed_tools": {"mode": "any", "tools": ["g"]}}
            }"#
        )
    );
    assert_eq!(
        body["response_format"],
        expect(r#"{"type": "text", "mime_type": "application/json", "schema": {"type": "object"}}"#)
    );
    assert_eq!(body["service_tier"], "flex");
    assert!(body.get("system_instruction").is_none());
}

#[test]
fn the_output_cap_is_checked_against_the_model() {
    assert_eq!(
        Gemini3_8Flash::new().with_max_output_tokens(65_537).unwrap_err(),
        OutputLimitExceeded { requested: 65_537, limit: 65_536 }
    );
    assert!(Gemini3_8Flash::new().with_max_output_tokens(0).is_err());
    assert_eq!(Gemini3_8Flash::new().with_max_output_tokens(65_536).unwrap().max_output_tokens(), Some(65_536));
}

#[test]
fn tool_names_are_unique_and_choices_name_declared_tools() {
    assert_eq!(
        Conversation::new(None, vec![function("f"), function("f")]).unwrap_err(),
        ConversationError::DuplicateToolName("f".into())
    );
    let conversation = Conversation::new(None, vec![function("f"), Tool::CodeExecution]).unwrap();
    assert_eq!(
        conversation.allow_tools(ToolChoiceMode::Auto, &["nope"]).unwrap_err(),
        ConversationError::UnknownTool("nope".into())
    );
    assert_eq!(to_value(&ToolChoice::Mode(ToolChoiceMode::Validated).to_json()), expect(r#""validated""#));
}

#[test]
fn a_model_turn_needs_a_caller_step_before_it() {
    let empty = Conversation::new(None, vec![]).unwrap();
    assert_eq!(Request::new(&empty, Gemini3_8Flash::new()).unwrap_err(), RequestError::NotAwaitingModel);

    let mut conversation = Conversation::new(None, vec![]).unwrap();
    conversation.push_user_text("hi").unwrap();
    let answer = settled(&[
        r#"{"index":0,"step":{"type":"model_output"},"event_type":"step.start"}"#,
        r#"{"index":0,"delta":{"text":"hello","type":"text"},"event_type":"step.delta"}"#,
        r#"{"index":0,"event_type":"step.stop"}"#,
        r#"{"interaction":{"id":"","status":"completed"},"event_type":"interaction.completed"}"#,
    ]);
    conversation.push_turn(answer.clone()).unwrap();
    assert_eq!(conversation.push_turn(answer), Ok(()));
    assert!(Request::new(&conversation, Gemini3_8Flash::new()).is_err());
    conversation.push_user_text("again").unwrap();
    assert!(Request::new(&conversation, Gemini3_8Flash::new()).is_ok());
}

#[test]
fn every_call_is_answered_once_before_anything_else() {
    let mut conversation = Conversation::new(None, vec![function("f")]).unwrap();
    conversation.push_user_text("hi").unwrap();
    conversation.push_turn(one_call("call_1")).unwrap();
    assert_eq!(
        conversation.push_user_text("more").unwrap_err(),
        ConversationError::UnansweredCalls(vec!["call_1".into()])
    );
    assert_eq!(
        conversation.push_function_result("call_2", FunctionOutput::Text("x".into()), false).unwrap_err(),
        ConversationError::UnknownCall("call_2".into())
    );
    conversation.push_function_result("call_1", FunctionOutput::Json(Default::default()), true).unwrap();
    assert!(conversation.push_function_result("call_1", FunctionOutput::Text("x".into()), false).is_err());
    let body = to_value(&Request::new(&conversation, Gemini3_8Flash::new()).unwrap().to_json());
    assert_eq!(body["input"][1], expect(r#"{"type": "function_call", "id": "call_1", "name": "f", "arguments": {"x": 1}}"#));
    assert_eq!(
        body["input"][2],
        expect(r#"{"type": "function_result", "call_id": "call_1", "name": "f", "result": {}, "is_error": true}"#)
    );
}

#[test]
fn media_and_results_take_the_documented_shapes() {
    let image = Image {
        source: Source::Inline(Base64::encode(b"png")),
        mime: ImageMime::Png,
        resolution: Some(MediaResolution::High),
    };
    assert_eq!(
        to_value(&InputContent::Image(image.clone()).to_json()),
        expect(r#"{"type": "image", "data": "cG5n", "mime_type": "image/png", "resolution": "high"}"#)
    );
    let by_uri = Image::new(Source::Uri("https://example.com/a.jpg".into()), ImageMime::Jpeg);
    assert_eq!(
        to_value(&InputContent::Image(by_uri).to_json()),
        expect(r#"{"type": "image", "uri": "https://example.com/a.jpg", "mime_type": "image/jpeg"}"#)
    );
    assert!(Base64::from_encoded("not base64!".into()).is_err());
    assert_eq!(Base64::from_encoded("cG5n".into()).unwrap().decode(), b"png");
    let blocks = FunctionOutput::Blocks(vec![ResultBlock::Text("t".into()), ResultBlock::Image(image)]);
    assert_eq!(to_value(&blocks.to_json())[1]["type"], "image");
    assert_eq!(to_value(&FunctionOutput::Text("t".into()).to_json()), expect(r#""t""#));
}

#[test]
fn hosted_tools_serialize_only_what_the_caller_set() {
    let tools = vec![
        Tool::GoogleSearch { search_types: vec![SearchType::WebSearch] },
        Tool::GoogleMaps { location: Some(LatLng { latitude: float(1.5), longitude: float(2.0) }), enable_widget: None },
        Tool::UrlContext,
        Tool::CodeExecution,
    ];
    assert_eq!(
        Value::Array(tools.iter().map(|t| to_value(&t.to_json())).collect()),
        expect(
            r#"[
                {"type": "google_search", "search_types": ["web_search"]},
                {"type": "google_maps", "latitude": 1.5, "longitude": 2.0},
                {"type": "url_context"},
                {"type": "code_execution"}
            ]"#
        )
    );
}

#[test]
fn unknown_events_and_deltas_are_not_errors() {
    assert_eq!(
        StreamEvent::decode(r#"{"event_type":"interaction.teleported"}"#).unwrap(),
        StreamEvent::Unrecognized { event_type: "interaction.teleported".into() }
    );
    let event =
        StreamEvent::decode(r#"{"index":0,"delta":{"type":"hologram","x":1},"event_type":"step.delta"}"#).unwrap();
    assert!(matches!(event, StreamEvent::StepDelta { delta: Delta::Unrecognized(_), .. }));
    assert!(StreamEvent::decode("{").is_err());
    assert!(StreamEvent::decode(r#"{"index":0}"#).is_err());
}

#[test]
fn server_tool_steps_replay_their_payload_verbatim() {
    let turn = settled(&[
        r#"{"index":0,"step":{"id":"s1","type":"google_search_call","arguments":{"queries":[]}},"event_type":"step.start"}"#,
        r#"{"index":0,"delta":{"type":"google_search_call","arguments":{"queries":["tour de france"]},"signature":"c2ln"},"event_type":"step.delta"}"#,
        r#"{"index":0,"event_type":"step.stop"}"#,
        r#"{"interaction":{"id":"","status":"completed"},"event_type":"interaction.completed"}"#,
    ]);
    let wire = to_value(&turn.steps[0].to_json());
    assert_eq!(
        wire,
        expect(r#"{"id": "s1", "type": "google_search_call", "arguments": {"queries": ["tour de france"]}, "signature": "c2ln"}"#)
    );
}

#[test]
fn usage_joins_pointwise() {
    let a = Usage::from_json(&parse(r#"{"total_input_tokens": 10, "total_output_tokens": 1}"#)).unwrap();
    let b = Usage::from_json(&parse(r#"{"total_output_tokens": 5, "total_cached_tokens": 3}"#)).unwrap();
    let mut joined = a.clone();
    joined.join(&b);
    assert_eq!((joined.total_input_tokens, joined.total_output_tokens, joined.total_cached_tokens), (10, 5, 3));
    assert_eq!(joined.total_tokens, 0);
}
