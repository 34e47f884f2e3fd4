//! JSON values, requests, error answers, and what surrounds the agent loop.

use ironclaw::agentic_loop::{
    hook_bundle_with_safety, host_err_to_error, Hook, HookBundle, HostError,
};
use ironclaw::error::{Error, LlmError};
use ironclaw::json::{Json, JsonNumber};
use ironclaw::provider::{
    ChatMessage, ContentPart, ImageUrl, Role, ToolCall, ToolCompletionRequest, ToolDefinition,
};
use ironclaw::request::{
    build_request_body, completions_url, message_to_json, messages_to_json, prepare_call,
};
use ironclaw::response::{
    classify_response, is_success, map_error_response, send_error, truncate_body,
    try_map_error_response,
};
use ironclaw::text::{contains, decimal, same_text, trim};
use ironclaw::wire::{json_from_value, json_to_string, json_to_value, parse_json};
use std::sync::Arc;

fn value(text: &str) -> serde_json::Value {
    serde_json::from_str(text).expect("JSON")
}

#[test]
fn values_survive_both_conversions() {
    for text in [
        "null",
        "true",
        "18446744073709551615",
        "-9223372036854775808",
        "0.7",
        "-0.0",
        "1e300",
        "\"h\\u00e9\\n\"",
        "[]",
        "{}",
        "[1,[2.5,{\"a\":null}],\"x\"]",
        "{\"b\":{\"c\":[{}]},\"a\":-3}",
    ] {
        let v = value(text);
        let j = json_from_value(v.clone());
        assert_eq!(json_to_value(&j), v);
        assert_eq!(json_to_value(&j.clone()), v);
        assert_eq!(json_to_string(&j), v.to_string());
        assert_eq!(json_to_value(&parse_json(text).unwrap()), v);
    }
    assert!(parse_json("{").is_none());
    assert!(parse_json("").is_none());
}

#[test]
fn numbers_that_are_not_finite_are_null() {
    let nan = Json::Number(JsonNumber::Float(f64::NAN.to_bits()));
    assert_eq!(json_to_string(&nan), "null");
    let infinite = Json::Number(JsonNumber::Float(f64::INFINITY.to_bits()));
    assert_eq!(json_to_string(&infinite), "null");
    let largest = Json::Number(JsonNumber::Float(f64::MAX.to_bits()));
    assert_eq!(json_to_value(&largest), serde_json::Value::from(f64::MAX));
    assert_eq!(Json::Number(JsonNumber::Signed(5)).as_u64(), Some(5));
    assert_eq!(json_to_value(&Json::Number(JsonNumber::Signed(5))), value("5"));
    assert_eq!(Json::Number(JsonNumber::Signed(-5)).as_u64(), None);
}

#[test]
fn later_members_count() {
    let j = Json::object()
        .with("b", Json::Bool(false))
        .with("a", Json::string("1"))
        .with("a", Json::string("2"));
    assert_eq!(j.get_str("a"), Some("2"));
    assert!(j.get("c").is_none());
    // Members are written in the order of their names.
    assert_eq!(json_to_string(&j), "{\"a\":\"2\",\"b\":false}");
    let nested = Json::object().with("a", Json::Null).with("x", Json::Array(vec![j]));
    let nested = nested.with("a", Json::Bool(true)).with("y", Json::Null).with("a", Json::object());
    assert_eq!(json_to_value(&nested), value("{\"a\":{},\"x\":[{\"a\":\"2\",\"b\":false}],\"y\":null}"));
    assert_eq!(parse_json("{\"a\":1,\"a\":2}").unwrap().get_u64("a"), Some(2));
}

#[test]
fn written_values_are_read_back() {
    let nested = |levels: usize| format!("{}{}", "[".repeat(levels), "]".repeat(levels));
    for text in [
        "null",
        "-9223372036854775808",
        "18446744073709551615",
        "\"\\u0000\\u001f\\\"\\\\/\u{7f}\u{2028}\u{1f600}\"",
        "{\"\":[true,{\"b\":0}],\"a\":\"\\n\"}",
        &nested(127),
    ] {
        let j = parse_json(text).unwrap();
        let back = parse_json(&json_to_string(&j)).unwrap();
        assert_eq!(json_to_value(&back), json_to_value(&j));
    }
    // Reading goes no deeper.
    let mut deep = Json::Null;
    for _ in 0..128 {
        deep = Json::Array(vec![deep]);
    }
    assert!(parse_json(&json_to_string(&deep)).is_none());
}

#[test]
fn sent_tool_calls() {
    let arguments = ["{\"n\":[-1,{\"s\":\"\\\"\\u0007\"}],\"m\":null}", "\"{}\"", "7"];
    let calls = (0..3)
        .map(|i| ToolCall {
            id: format!("id{}", i),
            name: format!("name{}", i),
            arguments: json_from_value(value(arguments[i])),
            reasoning: Some("why".to_string()),
        })
        .collect();
    let sent = message_to_json(&ChatMessage::assistant_with_tool_calls(None, calls)).unwrap();
    let sent = json_to_value(&sent);
    assert_eq!(sent["tool_calls"].as_array().unwrap().len(), 3);
    for i in 0..3 {
        let call = &sent["tool_calls"][i];
        assert_eq!(call["id"], format!("id{}", i));
        assert_eq!(call["type"], "function");
        assert_eq!(call["function"]["name"], format!("name{}", i));
        assert!(call.get("reasoning").is_none());
        let text = call["function"]["arguments"].as_str().unwrap();
        assert_eq!(value(text), value(arguments[i]));
        assert_eq!(json_to_value(&parse_json(text).unwrap()), value(arguments[i]));
    }
}

#[test]
fn text_operations() {
    assert_eq!(trim("\u{3000}\t a b\u{a0}\n"), "a b");
    assert_eq!(trim(" \r\n"), "");
    assert_eq!(trim("\u{200b}x"), "\u{200b}x");
    assert!(same_text("\u{e9}", "\u{e9}"));
    assert!(!same_text("e\u{301}", "\u{e9}"));
    assert!(contains("maximum context length", "context"));
    assert!(contains("x", ""));
    assert!(contains("aab", "ab"));
    assert!(!contains("ab", "abc"));
    assert!(!contains("", "a"));
    assert_eq!(decimal(0), "0");
    assert_eq!(decimal(1907), "1907");
    assert_eq!(decimal(u64::MAX), "18446744073709551615");
}

#[test]
fn body_of_a_request() {
    let request = ToolCompletionRequest::new(
        vec![ChatMessage::system("s"), ChatMessage::user(""), ChatMessage::user("u")],
        vec![ToolDefinition {
            name: "t".into(),
            description: "d".into(),
            parameters: parse_json("{\"type\":\"object\"}").unwrap(),
            strict_parameters: parse_json("{\"type\":\"object\",\"required\":[]}").unwrap(),
        }],
    )
    .with_temperature(JsonNumber::Float(0.7f64.to_bits()))
    .with_max_tokens(4096)
    .with_tool_choice("auto");
    let body = json_to_value(&build_request_body(&request, "m", true));
    assert_eq!(
        body,
        value(
            "{\"model\":\"m\",\"messages\":[{\"role\":\"system\",\"content\":\"s\"},{\"role\":\"user\",\"content\":\"u\"}],\"stream\":true,\"stream_options\":{\"include_usage\":true},\"tools\":[{\"type\":\"function\",\"function\":{\"name\":\"t\",\"description\":\"d\",\"parameters\":{\"type\":\"object\",\"required\":[]}}}],\"tool_choice\":\"auto\",\"temperature\":0.7,\"max_tokens\":4096}"
        )
    );
    let plain = json_to_value(&build_request_body(&request, "m", false));
    assert_eq!(
        plain["tools"][0]["function"]["parameters"],
        value("{\"type\":\"object\"}")
    );
}

#[test]
fn own_model_and_choice_without_tools() {
    let mut request =
        ToolCompletionRequest::new(vec![ChatMessage::user("u")], vec![]).with_tool_choice("auto");
    request.model = Some("own".into());
    let body = json_to_value(&build_request_body(&request, "m", false));
    assert_eq!(
        body,
        value(
            "{\"model\":\"own\",\"messages\":[{\"role\":\"user\",\"content\":\"u\"}],\"stream\":true,\"stream_options\":{\"include_usage\":true}}"
        )
    );
}

#[test]
fn messages_with_parts() {
    let mut msg = ChatMessage::user("");
    msg.content_parts = vec![
        ContentPart::Text { text: "not sent".into() },
        ContentPart::ImageUrl { image_url: ImageUrl { url: "u1".into() } },
        ContentPart::ImageUrl { image_url: ImageUrl { url: "u2".into() } },
    ];
    assert_eq!(
        json_to_value(&message_to_json(&msg).unwrap()),
        value(
            "{\"role\":\"user\",\"content\":[{\"type\":\"text\",\"text\":\"\"},{\"type\":\"image_url\",\"image_url\":{\"url\":\"u1\"}},{\"type\":\"image_url\",\"image_url\":{\"url\":\"u2\"}}]}"
        )
    );
}

#[test]
fn messages_of_the_model_and_of_tools() {
    let silent = message_to_json(&ChatMessage::assistant("")).unwrap();
    assert_eq!(json_to_value(&silent), value("{\"role\":\"assistant\"}"));
    let none = ChatMessage::assistant_with_tool_calls(None, vec![]);
    assert_eq!(
        json_to_value(&message_to_json(&none).unwrap()),
        value("{\"role\":\"assistant\",\"tool_calls\":[]}")
    );
    let mut tool = ChatMessage::tool_result("i", "n", "c");
    assert_eq!(tool.role, Role::Tool);
    assert_eq!(tool.name.as_deref(), Some("n"));
    tool.tool_call_id = None;
    assert_eq!(
        json_to_value(&message_to_json(&tool).unwrap()),
        value("{\"role\":\"tool\",\"tool_call_id\":\"\",\"content\":\"c\"}")
    );
}

#[test]
fn messages_keep_their_order() {
    let messages =
        vec![ChatMessage::user("1"), ChatMessage::user(""), ChatMessage::assistant("2")];
    let sent = messages_to_json(&messages);
    let contents: Vec<_> = sent.iter().map(|m| m.get_str("content")).collect();
    assert_eq!(contents, vec![Some("1"), Some("2")]);
}

#[test]
fn address_and_headers() {
    for base in ["https://h/v1", "https://h/v1/", "https://h/v1///"] {
        assert_eq!(completions_url(base), "https://h/v1/chat/completions");
    }
    assert_eq!(completions_url(""), "/chat/completions");
    assert_eq!(completions_url("//"), "/chat/completions");
    let request = ToolCompletionRequest::new(vec![], vec![]);
    let call = prepare_call("b/", &request, "m", false);
    assert_eq!(call.url, "b/chat/completions");
    assert_eq!(call.content_type, "application/json");
    assert_eq!(call.accept, "text/event-stream");
    assert_eq!(call.timeout_secs, 300);
    assert_eq!(call.body.get_str("model"), Some("m"));
}

fn reason_of(e: LlmError) -> String {
    match e {
        LlmError::RequestFailed { provider, reason } => {
            assert_eq!(provider, "openai_streaming");
            reason
        }
        other => panic!("unexpected error: {:?}", other),
    }
}

#[test]
fn statuses() {
    assert!(!is_success(199));
    assert!(is_success(200));
    assert!(is_success(299));
    assert!(!is_success(300));
}

#[test]
fn errors_that_are_not_about_the_context() {
    assert_eq!(reason_of(map_error_response(500, "oops")), "HTTP 500: oops");
    let other = "{\"error\":{\"message\":\"bad key\"}}";
    assert_eq!(reason_of(map_error_response(401, other)), format!("HTTP 401: {}", other));
    // Only the message of the error is looked at.
    let elsewhere = "{\"message\":\"context length\"}";
    assert_eq!(
        reason_of(map_error_response(400, elsewhere)),
        format!("HTTP 400: {}", elsewhere)
    );
    assert_eq!(reason_of(send_error("refused")), "HTTP request failed: refused");
}

#[test]
fn errors_about_the_context() {
    for message in ["CONTEXT LENGTH", "Maximum Context", "over the token LIMIT", "CONTEXT L\u{c9}, token limit"] {
        let body = format!("{{\"error\":{{\"message\":\"{}\"}}}}", message);
        match map_error_response(500, &body) {
            LlmError::ContextLengthExceeded { used, limit } => assert_eq!((used, limit), (0, 0)),
            other => panic!("unexpected error: {:?}", other),
        }
    }
    assert!(matches!(
        classify_response(400, "", Some("the token limit")),
        LlmError::ContextLengthExceeded { .. }
    ));
    // The message is expected in lower case here.
    assert_eq!(reason_of(classify_response(400, "b", Some("TOKEN LIMIT"))), "HTTP 400: b");
    assert_eq!(reason_of(classify_response(400, "b", None)), "HTTP 400: b");
}

#[test]
fn long_bodies_are_cut() {
    let short = "x".repeat(500);
    assert_eq!(truncate_body(&short), short);
    let long = "y".repeat(501);
    assert_eq!(truncate_body(&long), "y".repeat(500));
    let wide = "\u{e9}".repeat(300);
    assert_eq!(truncate_body(&wide), "\u{e9}".repeat(250));
    assert_eq!(reason_of(map_error_response(502, &wide)), format!("HTTP 502: {}", "\u{e9}".repeat(250)));
}

#[test]
fn bodies_that_cannot_be_cut() {
    let wide = format!("x{}", "\u{e9}".repeat(300));
    assert!(try_map_error_response(502, &wide).is_none());
    let context = format!("{{\"error\":{{\"message\":\"token limit {}\"}}}}", "\u{20ac}".repeat(300));
    assert!(!context.is_char_boundary(500));
    assert!(matches!(
        try_map_error_response(400, &context),
        Some(LlmError::ContextLengthExceeded { .. })
    ));
    assert_eq!(reason_of(try_map_error_response(404, "gone").unwrap()), "HTTP 404: gone");
}

#[test]
fn errors_of_the_engine() {
    match host_err_to_error(HostError::Own(Error::Other(7))) {
        Error::Other(n) => assert_eq!(n, 7),
        other => panic!("unexpected error: {:?}", other),
    }
    match host_err_to_error::<u8>(HostError::Foreign("lost".into())) {
        Error::Llm(LlmError::InvalidResponse { provider, reason }) => {
            assert_eq!((provider.as_str(), reason.as_str()), ("agent", "lost"));
        }
        other => panic!("unexpected error: {:?}", other),
    }
}

#[test]
fn hooks_of_the_engine() {
    let layer = Arc::new("layer");
    let bundle = hook_bundle_with_safety(layer.clone());
    match &bundle.safety {
        Hook::Safety(s) => assert!(Arc::ptr_eq(s, &layer)),
        other => panic!("unexpected hook: {:?}", other),
    }
    assert!(matches!(bundle.sandbox, Hook::Noop));
    assert!(matches!(bundle.secrets, Hook::InMemory));
    assert!(matches!(bundle.approval, Hook::AutoApprove));
    let bare: HookBundle<u8> = HookBundle::noop();
    assert!(matches!(bare.safety, Hook::Noop));
}
