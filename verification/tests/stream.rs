//! Events taken in one by one.

use ironclaw::error::LlmError;
use ironclaw::json::{Json, JsonNumber};
use ironclaw::provider::{FinishReason, ToolCompletionResponse};
use ironclaw::stream::{
    assemble_response, finish_stream, handle_chunk, handle_event, handle_payload, PendingToolCall,
    StreamEvent, StreamState, StreamStep,
};
use ironclaw::wire::{json_to_string, parse_json};

fn message(data: &str) -> StreamEvent {
    StreamEvent::Message { event: "message".into(), data: data.into() }
}

fn take(state: &mut StreamState, data: &str) -> StreamStep {
    handle_event(state, &message(data))
}

fn reply(payloads: &[&str]) -> ToolCompletionResponse {
    let mut state = StreamState::new();
    for p in payloads {
        take(&mut state, p);
    }
    finish_stream(state)
}

fn reason(step: StreamStep) -> (String, String) {
    match step {
        StreamStep::Fail(LlmError::RequestFailed { provider, reason }) => (provider, reason),
        other => panic!("unexpected step: {:?}", other),
    }
}

#[test]
fn nothing_received_is_an_empty_reply() {
    let r = reply(&[]);
    assert_eq!(r.content, None);
    assert!(r.tool_calls.is_empty());
    assert_eq!(r.finish_reason, FinishReason::Stop);
    assert_eq!((r.input_tokens, r.output_tokens), (0, 0));
    assert_eq!((r.cache_read_input_tokens, r.cache_creation_input_tokens), (0, 0));
}

#[test]
fn ends_and_failures() {
    let mut s = StreamState::new();
    assert!(matches!(handle_event(&mut s, &StreamEvent::Closed), StreamStep::Done));
    assert!(matches!(take(&mut s, " [DONE]\n"), StreamStep::Done));
    assert!(matches!(take(&mut s, "  \t "), StreamStep::Continue));
    assert!(matches!(take(&mut s, "not json"), StreamStep::Continue));
    assert_eq!(
        reason(handle_event(&mut s, &StreamEvent::Broken { reason: "reset".into() })),
        ("openai_streaming".to_string(), "SSE stream error: reset".to_string())
    );
    assert_eq!(
        reason(handle_event(&mut s, &StreamEvent::TimedOut)).1,
        "Timed out waiting for SSE event after 30s"
    );
    let error = StreamEvent::Message { event: "error".into(), data: " oops ".into() };
    assert_eq!(reason(handle_event(&mut s, &error)).1, "SSE error event:  oops ");
}

#[test]
fn white_space_around_a_payload() {
    for c in '\0'..=char::MAX {
        let white = matches!(
            c,
            '\u{9}'..='\u{d}' | ' ' | '\u{85}' | '\u{a0}' | '\u{1680}' | '\u{2000}'..='\u{200a}'
                | '\u{2028}' | '\u{2029}' | '\u{202f}' | '\u{205f}' | '\u{3000}'
        );
        let mut s = StreamState::new();
        let step = take(&mut s, &format!("{}[DONE]{}", c, c));
        assert_eq!(matches!(step, StreamStep::Done), white, "{:?}", c);
    }
}

#[test]
fn forwarded_text_adds_up() {
    let mut s = StreamState::new();
    let mut passed_on = String::new();
    for p in [
        "{\"choices\":[{\"delta\":{\"content\":\"a\"}}]}",
        "{\"choices\":[{\"delta\":{\"content\":\"\"}}]}",
        "garbage",
        "{\"choices\":[{\"delta\":{\"content\":\"b\\u00e9\"}}]}",
        "{\"choices\":[{\"delta\":{\"content\":7}}]}",
    ] {
        if let StreamStep::Forward(text) = take(&mut s, p) {
            assert!(!text.is_empty());
            passed_on.push_str(&text);
        }
    }
    assert_eq!(passed_on, "ab\u{e9}");
    assert_eq!(finish_stream(s).content, Some(passed_on));
}

#[test]
fn chunks_without_a_choice_or_a_delta() {
    let mut s = StreamState::new();
    assert!(matches!(take(&mut s, "{}"), StreamStep::Continue));
    assert!(matches!(take(&mut s, "{\"choices\":[]}"), StreamStep::Continue));
    assert!(matches!(take(&mut s, "{\"choices\":{\"0\":{}}}"), StreamStep::Continue));
    assert!(matches!(take(&mut s, "[1]"), StreamStep::Continue));
    take(&mut s, "{\"choices\":[{\"finish_reason\":\"length\"}]}");
    assert_eq!(s.finish_reason, FinishReason::Length);
    take(&mut s, "{\"choices\":[{\"finish_reason\":null,\"delta\":{}}]}");
    assert_eq!(s.finish_reason, FinishReason::Length);
}

#[test]
fn words_for_stopping() {
    for (word, expected) in [
        ("stop", FinishReason::Stop),
        ("length", FinishReason::Length),
        ("tool_calls", FinishReason::ToolUse),
        ("content_filter", FinishReason::ContentFilter),
        ("function_call", FinishReason::Unknown),
        ("", FinishReason::Unknown),
    ] {
        let r = reply(&[&format!("{{\"choices\":[{{\"finish_reason\":\"{}\"}}]}}", word)]);
        assert_eq!(r.finish_reason, expected);
    }
}

#[test]
fn last_finish_reason_counts() {
    let r = reply(&[
        "{\"choices\":[{\"finish_reason\":\"stop\"}]}",
        "{\"choices\":[{\"finish_reason\":\"length\"}]}",
        "{\"choices\":[{\"delta\":{}}]}",
    ]);
    assert_eq!(r.finish_reason, FinishReason::Length);
}

#[test]
fn token_counts() {
    // Only the low 32 bits of a count are kept.
    let r = reply(&["{\"usage\":{\"prompt_tokens\":4294967297,\"completion_tokens\":3}}"]);
    assert_eq!((r.input_tokens, r.output_tokens), (1, 3));
    // The last report counts, also where it does not say anything.
    let r = reply(&[
        "{\"usage\":{\"prompt_tokens\":5,\"completion_tokens\":3}}",
        "{\"usage\":null}",
    ]);
    assert_eq!((r.input_tokens, r.output_tokens), (0, 0));
    let r = reply(&[
        "{\"usage\":{\"prompt_tokens\":-1,\"completion_tokens\":2.5}}",
        "{\"choices\":[]}",
    ]);
    assert_eq!((r.input_tokens, r.output_tokens), (0, 0));
}

#[test]
fn reasoning_under_two_names() {
    let call = "{\"choices\":[{\"delta\":{\"tool_calls\":[{\"function\":{\"name\":\"f\"}}]}}]}";
    let given = |payloads: &[&str]| {
        let mut all = payloads.to_vec();
        all.push(call);
        reply(&all).tool_calls[0].reasoning.clone()
    };
    assert_eq!(given(&[]), None);
    assert_eq!(
        given(&["{\"choices\":[{\"delta\":{\"reasoning\":\"r\"}}]}"]),
        Some("r".to_string())
    );
    assert_eq!(
        given(&["{\"choices\":[{\"delta\":{\"reasoning_content\":\"r\"}}]}"]),
        Some("r".to_string())
    );
    assert_eq!(
        given(&["{\"choices\":[{\"delta\":{\"reasoning_content\":\"r\",\"reasoning\":\"r\"}}]}"]),
        Some("r".to_string())
    );
    assert_eq!(
        given(&["{\"choices\":[{\"delta\":{\"reasoning_content\":null,\"reasoning\":\"r\"}}]}"]),
        Some("r".to_string())
    );
    assert_eq!(
        given(&[
            "{\"choices\":[{\"delta\":{\"reasoning\":\"q\"}}]}",
            "{\"choices\":[{\"delta\":{\"reasoning_content\":null,\"reasoning\":\"r\"}}]}"
        ]),
        Some("q".to_string())
    );
}

#[test]
fn reasoning_adds_up() {
    let mut s = StreamState::new();
    for (delta, so_far) in [
        ("{\"reasoning_content\":\"\"}", ""),
        ("{\"reasoning\":\"a\"}", "a"),
        ("{\"reasoning_content\":\"b\\u00e9\"}", "ab\u{e9}"),
        ("{\"content\":\"text\"}", "ab\u{e9}"),
        ("{\"reasoning_content\":7}", "ab\u{e9}"),
        ("{\"reasoning_content\":\"c\",\"reasoning\":\"x\"}", "ab\u{e9}c"),
        ("{\"reasoning_content\":\"\",\"reasoning\":\"x\"}", "ab\u{e9}c"),
        ("{\"reasoning\":\"d\"}", "ab\u{e9}cd"),
    ] {
        take(&mut s, &format!("{{\"choices\":[{{\"delta\":{}}}]}}", delta));
        assert_eq!(s.reasoning, so_far);
    }
}

#[test]
fn refusal_takes_the_place_of_text() {
    let r = reply(&[
        "{\"choices\":[{\"delta\":{\"content\":\"Sure\"}}]}",
        "{\"choices\":[{\"delta\":{\"refusal\":\"No\"}}]}",
        "{\"choices\":[{\"delta\":{\"refusal\":\", sorry.\"}}]}",
    ]);
    assert_eq!(r.content.as_deref(), Some("[Model refused] No, sorry."));
}

#[test]
fn pieces_of_several_tool_calls() {
    let r = reply(&[
        "{\"choices\":[{\"delta\":{\"tool_calls\":[{\"index\":2,\"id\":\"c\",\"function\":{\"name\":\"h\",\"arguments\":\"[1\"}},{\"index\":0,\"id\":\"a\",\"function\":{\"name\":\"f\",\"arguments\":\"{\"}}]}}]}",
        "{\"choices\":[{\"delta\":{\"tool_calls\":[{\"index\":2,\"id\":\"cc\",\"function\":{\"arguments\":\",2]\"}}]}}]}",
        "{\"choices\":[{\"delta\":{\"tool_calls\":\"none\"}}]}",
    ]);
    // The call at the place between has no name and is left out.
    assert_eq!(r.tool_calls.len(), 2);
    assert_eq!((r.tool_calls[0].id.as_str(), r.tool_calls[0].name.as_str()), ("a", "f"));
    // Arguments that are not JSON count as none.
    assert_eq!(json_to_string(&r.tool_calls[0].arguments), "{}");
    assert_eq!((r.tool_calls[1].id.as_str(), r.tool_calls[1].name.as_str()), ("cc", "h"));
    assert_eq!(json_to_string(&r.tool_calls[1].arguments), "[1,2]");
}

#[test]
fn arguments_cut_anywhere() {
    let arguments = "{\"path\":\"/tmp\",\"depth\":2}";
    for cut in 0..=arguments.len() {
        let mut s = StreamState::new();
        for part in [&arguments[..cut], &arguments[cut..]] {
            let piece = Json::object()
                .with("index", Json::Number(JsonNumber::Unsigned(0)))
                .with(
                    "function",
                    Json::object()
                        .with("name", Json::string("ls"))
                        .with("arguments", Json::string(part)),
                );
            let delta = Json::object().with("tool_calls", Json::Array(vec![piece]));
            let chunk = Json::object()
                .with("choices", Json::Array(vec![Json::object().with("delta", delta)]));
            assert_eq!(handle_chunk(&chunk, &mut s), None);
        }
        assert_eq!(s.tool_calls.len(), 1);
        assert_eq!(s.tool_calls[0].arguments, arguments);
    }
}

#[test]
fn place_of_a_piece() {
    // A place that is not an unsigned integer is the first one.
    let r = reply(&[
        "{\"choices\":[{\"delta\":{\"tool_calls\":[{\"index\":-1,\"function\":{\"name\":\"f\"}},{\"index\":1.5,\"id\":\"x\"},{\"id\":\"y\"}]}}]}",
    ]);
    assert_eq!(r.tool_calls.len(), 1);
    assert_eq!((r.tool_calls[0].id.as_str(), r.tool_calls[0].name.as_str()), ("y", "f"));

    let mut s = StreamState::new();
    let far = "{\"choices\":[{\"delta\":{\"content\":\"t\",\"tool_calls\":[{\"index\":18446744073709551615}]}}]}";
    assert!(matches!(take(&mut s, far), StreamStep::OutOfReach));
    assert_eq!(s.text, "");
}

#[test]
fn payloads_that_were_read_elsewhere() {
    let mut s = StreamState::new();
    assert!(matches!(handle_payload(&mut s, None), StreamStep::Continue));
    let chunk = parse_json("{\"choices\":[{\"delta\":{\"content\":\"x\"}}]}");
    match handle_payload(&mut s, chunk) {
        StreamStep::Forward(text) => assert_eq!(text, "x"),
        other => panic!("unexpected step: {:?}", other),
    }
    s.tool_calls.push(PendingToolCall {
        id: "i".into(),
        name: "n".into(),
        arguments: "ignored".into(),
    });
    let r = assemble_response(s, vec![Some(Json::Bool(true))]);
    assert_eq!(r.content.as_deref(), Some("x"));
    assert!(matches!(r.tool_calls[0].arguments, Json::Bool(true)));
}

#[test]
fn nothing_changes_on_the_end() {
    let mut s = StreamState::new();
    take(&mut s, "{\"choices\":[{\"delta\":{\"content\":\"x\"}}]}");
    take(&mut s, "[DONE]");
    handle_event(&mut s, &StreamEvent::TimedOut);
    assert_eq!(s.text, "x");
    assert_eq!(finish_stream(s).content.as_deref(), Some("x"));
}
