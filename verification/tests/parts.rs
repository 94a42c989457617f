//! Vocabularies, usage, conversations, media bytes and models, piece by piece.

use google::content::{Base64, FunctionOutput, InputContent};
use google::conversation::{Conversation, ConversationError};
use google::json::{Json, Member, Number};
use google::model::{Gemini3_8Flash, Gemini3_8FlashThinking, Model, TextFormat};
use google::request::Request;
use google::settle::Settling;
use google::step::{ModelStep, ServerStepType, Step};
use google::tools::{AllowedTools, Function, Headers, McpServer, Tool, ToolChoice};
use google::turn::Turn;
use google::usage::{ByGroundingTool, ByModality, Usage};
use google::{
    GroundingTool, KnownGroundingTool, KnownModality, KnownStatus, Modality, ServiceTier, Status, ThinkingLevel,
    ThinkingSummaries, ToolChoiceMode, API_BASE, HEADER_API_KEY, INTERACTIONS_PATH,
};
use serde_json::Value;

fn from_value(v: Value) -> Json {
    match v {
        Value::Null => Json::Null,
        Value::Bool(b) => Json::Bool(b),
        Value::Number(n) => Json::Number(match (n.as_u64(), n.as_i64()) {
            (Some(u), _) => Number::PosInt(u),
            (None, Some(i)) => Number::NegInt(i),
            (None, None) => Number::Float(n.to_string()),
        }),
        Value::String(s) => Json::Str(s),
        Value::Array(a) => Json::Array(a.into_iter().map(from_value).collect()),
        Value::Object(o) => Json::Object(o.into_iter().map(|(key, value)| Member { key, value: from_value(value) }).collect()),
    }
}

fn to_value(j: &Json) -> Value {
    match j {
        Json::Null => Value::Null,
        Json::Bool(b) => Value::Bool(*b),
        Json::Number(Number::PosInt(u)) => Value::from(*u),
        Json::Number(Number::NegInt(i)) => Value::from(*i),
        Json::Number(Number::Float(t)) => serde_json::from_str(t).unwrap(),
        Json::Str(s) => Value::String(s.clone()),
        Json::Array(a) => Value::Array(a.iter().map(to_value).collect()),
        Json::Object(m) => Value::Object(m.iter().map(|m| (m.key.clone(), to_value(&m.value))).collect()),
    }
}

fn parse(text: &str) -> Json {
    from_value(serde_json::from_str(text).unwrap())
}

fn expect(text: &str) -> Value {
    serde_json::from_str(text).unwrap()
}

fn usage(text: &str) -> Usage {
    Usage::from_json(&parse(text)).unwrap()
}

fn settled(lines: &[&str]) -> Turn {
    let mut settling = Settling::new();
    for line in lines {
        settling.consume_payload(line).unwrap();
    }
    settling.settle().unwrap()
}

#[test]
fn closed_vocabularies_round_trip_through_their_wire_strings() {
    for v in ThinkingLevel::all() {
        assert_eq!(ThinkingLevel::from_wire(v.as_str()), Some(v));
    }
    for v in ThinkingSummaries::all() {
        assert_eq!(ThinkingSummaries::from_wire(v.as_str()), Some(v));
    }
    for v in ServiceTier::all() {
        assert_eq!(ServiceTier::from_wire(v.as_str()), Some(v));
    }
    for v in ToolChoiceMode::all() {
        assert_eq!(ToolChoiceMode::from_wire(v.as_str()), Some(v));
    }
    for v in Gemini3_8FlashThinking::all() {
        assert_eq!(Gemini3_8FlashThinking::from_wire(v.as_str()), Some(v));
    }
    assert_eq!(ThinkingSummaries::Off.as_str(), "none");
    assert_eq!(ToolChoiceMode::NoCalls.as_str(), "none");
    assert_eq!(ThinkingLevel::from_wire("extreme"), None);
    assert_eq!(Gemini3_8FlashThinking::from_wire("minimal"), None);
}

#[test]
fn open_vocabularies_keep_unknown_strings() {
    assert_eq!(Status::from_string("completed".into()), Status::Known(KnownStatus::Completed));
    assert_eq!(Status::from_string("hibernating".into()), Status::Unrecognized("hibernating".into()));
    assert_eq!(Status::from_string("hibernating".into()).as_str(), "hibernating");
    assert!(Status::from_string("queued".into()).is(KnownStatus::Queued));
    assert!(Modality::from_string("text".into()).same(&Modality::Known(KnownModality::Text)));
    assert_eq!(
        ServerStepType::from_string("google_search_call".into()).as_str(),
        "google_search_call"
    );
}

#[test]
fn usage_decodes_with_absent_counters_as_zero_and_sums_repeated_keys() {
    let u = usage(
        r#"{"total_tokens": 7, "total_cached_tokens": null,
            "input_tokens_by_modality": [{"modality": "text", "tokens": 3}, {"modality": "text", "tokens": 4},
                                         {"modality": "smell", "tokens": 1}, {"modality": "image"}],
            "grounding_tool_count": [{"type": "google_search", "count": 2}]}"#,
    );
    assert_eq!(u.total_tokens, 7);
    assert_eq!(u.total_cached_tokens, 0);
    assert_eq!(u.input_tokens_by_modality.get(&Modality::Known(KnownModality::Text)), Some(7));
    assert_eq!(u.input_tokens_by_modality.get(&Modality::Unrecognized("smell".into())), Some(1));
    assert_eq!(u.input_tokens_by_modality.get(&Modality::Known(KnownModality::Image)), Some(0));
    assert_eq!(u.input_tokens_by_modality.get(&Modality::Known(KnownModality::Audio)), None);
    assert_eq!(u.input_tokens_by_modality.len(), 3);
    assert_eq!(u.grounding_tool_count.get(&GroundingTool::Known(KnownGroundingTool::GoogleSearch)), Some(2));
    assert!(Usage::from_json(&parse(r#"{"total_tokens": -1}"#)).is_err());
    assert!(Usage::from_json(&parse(r#"{"input_tokens_by_modality": [{"tokens": 1}]}"#)).is_err());
    assert!(Usage::from_json(&parse(r#"[]"#)).is_err());
}

#[test]
fn joining_usage_is_a_lattice_join() {
    let a = usage(r#"{"total_input_tokens": 10, "output_tokens_by_modality": [{"modality": "text", "tokens": 2}]}"#);
    let b = usage(r#"{"total_input_tokens": 4, "total_tokens": 9, "output_tokens_by_modality": [{"modality": "text", "tokens": 5}, {"modality": "audio", "tokens": 1}]}"#);
    let mut ab = a.clone();
    ab.join(&b);
    let mut ba = b.clone();
    ba.join(&a);
    assert_eq!(ab, ba);
    assert_eq!(ab.total_input_tokens, 10);
    assert_eq!(ab.total_tokens, 9);
    assert_eq!(ab.output_tokens_by_modality.get(&Modality::Known(KnownModality::Text)), Some(5));
    assert_eq!(ab.output_tokens_by_modality.get(&Modality::Known(KnownModality::Audio)), Some(1));
    let mut aa = a.clone();
    aa.join(&a);
    assert_eq!(aa, a);
    let mut z = Usage::new();
    z.join(&a);
    assert_eq!(z, a);
    assert_eq!(Usage::default(), Usage::new());
}

#[test]
fn counts_add_and_raise_by_key() {
    let mut m = ByModality::new();
    m.add(Modality::Known(KnownModality::Text), 3);
    m.add(Modality::Known(KnownModality::Text), 4);
    m.raise(Modality::Known(KnownModality::Video), 2);
    m.raise(Modality::Known(KnownModality::Video), 1);
    assert_eq!(m.get(&Modality::Known(KnownModality::Text)), Some(7));
    assert_eq!(m.get(&Modality::Known(KnownModality::Video)), Some(2));
    assert_eq!(m.len(), 2);
    let mut g = ByGroundingTool::new();
    g.add(GroundingTool::Unrecognized("radar".into()), 1);
    let mut h = ByGroundingTool::new();
    h.add(GroundingTool::Unrecognized("radar".into()), 5);
    g.join(&h);
    assert_eq!(g.get(&GroundingTool::Unrecognized("radar".into())), Some(5));
}

fn function(name: &str) -> Tool {
    Tool::Function(Function::new(name, "Does a thing.", Vec::new()))
}

fn two_calls() -> Turn {
    settled(&[
        r#"{"index":0,"step":{"id":"a","type":"function_call","name":"f","arguments":{}},"event_type":"step.start"}"#,
        r#"{"index":0,"event_type":"step.stop"}"#,
        r#"{"index":1,"step":{"id":"b","type":"function_call","name":"f","arguments":{}},"event_type":"step.start"}"#,
        r#"{"index":1,"event_type":"step.stop"}"#,
        r#"{"interaction":{"status":"requires_action"},"event_type":"interaction.completed"}"#,
    ])
}

#[test]
fn pending_calls_are_the_unanswered_calls_of_the_history() {
    let mut conversation = Conversation::new(None, vec![function("f")]).unwrap();
    assert!(!conversation.awaits_model());
    conversation.push_user(vec![InputContent::text("go")]).unwrap();
    assert!(conversation.awaits_model());
    conversation.push_turn(two_calls()).unwrap();
    let ids: Vec<&str> = conversation.pending_calls().iter().map(|c| c.id.as_str()).collect();
    assert_eq!(ids, ["a", "b"]);
    assert_eq!(
        conversation.push_turn(two_calls()).unwrap_err(),
        ConversationError::UnansweredCalls(vec!["a".into(), "b".into()])
    );
    conversation.push_function_result("b", FunctionOutput::Text("B".into()), false).unwrap();
    let ids: Vec<&str> = conversation.pending_calls().iter().map(|c| c.id.as_str()).collect();
    assert_eq!(ids, ["a"]);
    assert!(!conversation.awaits_model());
    conversation.push_function_result("a", FunctionOutput::Text("A".into()), false).unwrap();
    assert!(conversation.pending_calls().is_empty());
    assert!(conversation.awaits_model());
    assert_eq!(conversation.steps().len(), 5);
    assert!(matches!(conversation.steps()[3], Step::FunctionResult(ref r) if r.call_id() == "b" && r.name() == "f"));
}

#[test]
fn a_conversation_keeps_its_prefix() {
    let mut conversation =
        Conversation::new(Some("sys".into()), vec![function("f"), Tool::McpServer(McpServer {
            name: "m".into(),
            url: "https://m.example".into(),
            headers: Headers::new(),
            allowed_tools: vec![],
        })])
        .unwrap();
    assert_eq!(conversation.system_instruction(), Some("sys"));
    assert_eq!(conversation.tools().len(), 2);
    assert_eq!(conversation.tools()[1].name(), Some("m"));
    conversation.push_user_text("one").unwrap();
    assert_eq!(conversation.push_user_text("two"), Ok(()));
    assert_eq!(conversation.steps().len(), 2);
    assert_eq!(conversation.system_instruction(), Some("sys"));
    let allowed = conversation.allow_tools(ToolChoiceMode::Validated, &["m", "f"]).unwrap();
    assert_eq!(allowed.mode(), ToolChoiceMode::Validated);
    assert_eq!(allowed.tools(), ["m".to_string(), "f".to_string()]);
    assert_eq!(
        to_value(&ToolChoice::Allowed(AllowedTools::unchecked(ToolChoiceMode::Any, vec!["x".into()])).to_json()),
        expect(r#"{"allowed_tools": {"mode": "any", "tools": ["x"]}}"#)
    );
}

#[test]
fn base64_is_checked_where_it_enters() {
    let b = Base64::encode(b"hello");
    assert_eq!(b.as_str(), "aGVsbG8=");
    assert_eq!(b.decode(), b"hello");
    assert_eq!(Base64::from_encoded("aGVsbG8=".into()).unwrap(), b);
    assert!(Base64::from_encoded("aGVsbG8".into()).is_err());
    assert!(Base64::from_encoded("a GVsbG8=".into()).is_err());
    assert_eq!(Base64::encode(b"").as_str(), "");
}

#[test]
fn models_carry_only_their_own_parameters() {
    let m = Gemini3_8Flash::new()
        .with_thinking(Gemini3_8FlashThinking::High)
        .with_summaries(ThinkingSummaries::Auto)
        .with_response_format(TextFormat::Plain);
    assert_eq!(m.thinking, Gemini3_8FlashThinking::High);
    assert_eq!(m.summaries, ThinkingSummaries::Auto);
    assert_eq!(m.max_output_tokens(), None);
    assert_eq!(ThinkingLevel::from(Gemini3_8FlashThinking::Low), ThinkingLevel::Low);
    let model = Model::from(m);
    assert_eq!(model.id(), "gemini-3.8-flash");
    assert_eq!(Model::gemini_3_8_flash().id(), Gemini3_8Flash::ID);
    assert_eq!(Gemini3_8Flash::OUTPUT_TOKEN_LIMIT, 65_536);
    assert_eq!(Gemini3_8Flash::INPUT_TOKEN_LIMIT, 1_048_576);
    assert_eq!(Gemini3_8Flash::default(), Gemini3_8Flash::new());
    assert_eq!(
        to_value(&TextFormat::Plain.to_json()),
        expect(r#"{"type": "text", "mime_type": "text/plain"}"#)
    );

    let mut conversation = Conversation::new(None, vec![]).unwrap();
    conversation.push_user_text("hi").unwrap();
    let request = Request::new(&conversation, model).unwrap();
    let body = to_value(&request.to_json());
    assert_eq!(
        body["generation_config"],
        expect(r#"{"thinking_level": "high", "thinking_summaries": "auto"}"#)
    );
    assert_eq!(body["response_format"], expect(r#"{"type": "text", "mime_type": "text/plain"}"#));
    assert!(body.get("tools").is_none());
    assert_eq!(request.conversation().steps().len(), 1);
    let mut request = request;
    request.seed = Some(-3);
    assert_eq!(to_value(&request.to_json())["generation_config"]["seed"], -3);
}

#[test]
fn the_endpoint_constants() {
    assert_eq!(API_BASE, "https://generativelanguage.googleapis.com");
    assert_eq!(INTERACTIONS_PATH, "/v1beta/interactions");
    assert_eq!(HEADER_API_KEY, "x-goog-api-key");
}

#[test]
fn decoded_model_steps_append_under_the_turn_rule() {
    let mut conversation = Conversation::new(None, vec![function("f")]).unwrap();
    conversation.push_user_text("hi").unwrap();
    let stored = |text: &str| match from_value(expect(text)) {
        Json::Object(wire) => ModelStep::from_wire(wire).unwrap(),
        other => panic!("not an object: {other:?}"),
    };
    conversation.push_model_steps(vec![stored(r#"{"type":"thought","signature":"s"}"#)]).unwrap();
    conversation
        .push_model_steps(vec![stored(r#"{"type":"function_call","id":"c","name":"f","arguments":{}}"#)])
        .unwrap();
    assert_eq!(conversation.steps().len(), 3);
    assert_eq!(conversation.pending_calls().len(), 1);
    assert_eq!(
        conversation.push_model_steps(vec![]).unwrap_err(),
        ConversationError::UnansweredCalls(vec!["c".into()])
    );
    conversation.push_function_result("c", FunctionOutput::Text("done".into()), false).unwrap();
    conversation.push_model_steps(vec![]).unwrap();
    assert_eq!(conversation.steps().len(), 4);
}

#[test]
fn counts_compare_by_key_whatever_their_order() {
    let mut a = ByModality::new();
    a.add(Modality::Known(KnownModality::Text), 1);
    a.add(Modality::Known(KnownModality::Audio), 2);
    let mut b = ByModality::new();
    b.add(Modality::Known(KnownModality::Audio), 2);
    b.add(Modality::Known(KnownModality::Text), 1);
    assert_eq!(a, b);
    let mut entries: Vec<(String, u64)> = a.entries().iter().map(|(k, n)| (k.as_str().to_string(), *n)).collect();
    entries.sort();
    assert_eq!(entries, vec![("audio".to_string(), 2), ("text".to_string(), 1)]);
    b.add(Modality::Known(KnownModality::Text), 1);
    assert_ne!(a, b);
    let mut g = ByGroundingTool::new();
    g.add(GroundingTool::Known(KnownGroundingTool::GoogleSearch), 3);
    assert_eq!(g.entries().len(), 1);
    assert_eq!(g, g.clone());
}

#[test]
fn mcp_headers_hold_one_value_per_name() {
    let mut headers = Headers::new();
    headers.insert("authorization".into(), "Bearer a".into());
    headers.insert("x-trace".into(), "1".into());
    headers.insert("authorization".into(), "Bearer b".into());
    assert_eq!(headers.len(), 2);
    assert_eq!(headers.get("authorization"), Some("Bearer b"));
    assert_eq!(headers.get("missing"), None);
    let mut reordered = Headers::new();
    reordered.insert("x-trace".into(), "1".into());
    reordered.insert("authorization".into(), "Bearer b".into());
    assert_eq!(headers, reordered);
    let written = Tool::McpServer(McpServer {
        name: "m".into(),
        url: "https://m.example".into(),
        headers: reordered,
        allowed_tools: vec![],
    })
    .to_json();
    match written {
        Json::Object(m) => match &m.iter().find(|m| m.key == "headers").unwrap().value {
            Json::Object(h) => {
                let names: Vec<&str> = h.iter().map(|m| m.key.as_str()).collect();
                assert_eq!(names, vec!["authorization", "x-trace"]);
            },
            other => panic!("not an object: {other:?}"),
        },
        other => panic!("not an object: {other:?}"),
    }
    let server = Tool::McpServer(McpServer {
        name: "m".into(),
        url: "https://m.example".into(),
        headers,
        allowed_tools: vec![],
    });
    assert_eq!(
        to_value(&server.to_json()),
        expect(r#"{"type": "mcp_server", "name": "m", "url": "https://m.example",
                   "headers": {"authorization": "Bearer b", "x-trace": "1"}}"#)
    );
}

#[test]
fn a_model_turn_may_follow_a_model_turn() {
    let mut conversation = Conversation::new(None, vec![]).unwrap();
    conversation.push_user_text("hi").unwrap();
    let answer = || {
        settled(&[
            r#"{"index":0,"step":{"type":"model_output"},"event_type":"step.start"}"#,
            r#"{"index":0,"event_type":"step.stop"}"#,
            r#"{"interaction":{"status":"completed"},"event_type":"interaction.completed"}"#,
        ])
    };
    conversation.push_turn(answer()).unwrap();
    conversation.push_turn(answer()).unwrap();
    assert_eq!(conversation.steps().len(), 3);
    assert!(Request::new(&conversation, Gemini3_8Flash::new()).is_err());
}
