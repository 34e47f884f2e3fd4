//! Streams that arrive as bytes, read by the event source reader that the program
//! uses, and the requests and errors around them.

use eventsource_stream::Eventsource;
use futures::StreamExt;
use ironclaw::error::LlmError;
use ironclaw::json::{Json, JsonNumber};
use ironclaw::provider::{
    ChatMessage, FinishReason, ToolCall, ToolCompletionRequest, ToolCompletionResponse,
    ToolDefinition,
};
use ironclaw::request::{build_request_body, message_to_json};
use ironclaw::response::map_error_response;
use ironclaw::stream::{finish_stream, handle_event, StreamEvent, StreamState, StreamStep};
use ironclaw::wire::parse_json;

fn json(text: &str) -> Json {
    parse_json(text).expect("JSON")
}

fn array_len(v: Option<&Json>) -> Option<usize> {
    v.and_then(|v| v.as_array()).map(|a| a.len())
}

/// Runs a stream to its end. Gives the reply and what was passed on meanwhile.
fn run_stream(events: &str) -> (Result<ToolCompletionResponse, LlmError>, Vec<String>) {
    let bytes = bytes::Bytes::from(events.to_string());
    let stream = futures::stream::iter(vec![Ok::<bytes::Bytes, String>(bytes)]);
    let mut sse = stream.eventsource();
    let mut state = StreamState::new();
    let mut chunks = Vec::new();
    loop {
        let event = match futures::executor::block_on(sse.next()) {
            Some(Ok(e)) => StreamEvent::Message { event: e.event, data: e.data },
            Some(Err(e)) => StreamEvent::Broken { reason: e.to_string() },
            None => StreamEvent::Closed,
        };
        match handle_event(&mut state, &event) {
            StreamStep::Continue => {}
            StreamStep::Forward(text) => chunks.push(text),
            StreamStep::Done => return (Ok(finish_stream(state)), chunks),
            StreamStep::Fail(e) => return (Err(e), chunks),
            StreamStep::OutOfReach => panic!("a tool call out of reach"),
        }
    }
}

#[test]
fn build_request_body_basic() {
    let request = ToolCompletionRequest::new(
        vec![
            ChatMessage::system("You are helpful."),
            ChatMessage::user("Hello"),
        ],
        vec![],
    )
    .with_temperature(JsonNumber::Float(0.7f64.to_bits()))
    .with_max_tokens(4096);

    let body = build_request_body(&request, "gpt-4o", true);

    assert_eq!(body.get_str("model"), Some("gpt-4o"));
    assert!(matches!(body.get("stream"), Some(Json::Bool(true))));
    assert_eq!(array_len(body.get("messages")), Some(2));
    assert!(body.get("tools").is_none());
}

#[test]
fn build_request_body_with_tools() {
    let request = ToolCompletionRequest::new(
        vec![ChatMessage::user("search")],
        vec![ToolDefinition {
            name: "web_search".into(),
            description: "Search the web".into(),
            parameters: json("{\"type\": \"object\"}"),
            strict_parameters: json("{\"type\": \"object\", \"additionalProperties\": false}"),
        }],
    )
    .with_tool_choice("auto");

    let body = build_request_body(&request, "gpt-4o", false);

    assert!(array_len(body.get("tools")).is_some_and(|n| n == 1));
    assert_eq!(body.get_str("tool_choice"), Some("auto"));
}

#[test]
fn message_to_json_all_roles() {
    let sys = message_to_json(&ChatMessage::system("sys")).expect("system");
    assert_eq!(sys.get_str("role"), Some("system"));

    let user = message_to_json(&ChatMessage::user("hi")).expect("user");
    assert_eq!(user.get_str("role"), Some("user"));

    let asst = message_to_json(&ChatMessage::assistant("ok")).expect("assistant");
    assert_eq!(asst.get_str("role"), Some("assistant"));

    let tool =
        message_to_json(&ChatMessage::tool_result("tc1", "search", "result")).expect("tool");
    assert_eq!(tool.get_str("role"), Some("tool"));
    assert_eq!(tool.get_str("tool_call_id"), Some("tc1"));
}

#[test]
fn message_to_json_assistant_with_tool_calls() {
    let msg = ChatMessage::assistant_with_tool_calls(
        Some("I'll search.".into()),
        vec![ToolCall {
            id: "tc_1".into(),
            name: "web_search".into(),
            arguments: json("{\"q\": \"rust\"}"),
            reasoning: None,
        }],
    );
    let json = message_to_json(&msg).expect("should produce json");
    assert_eq!(json.get_str("content"), Some("I'll search."));
    assert!(array_len(json.get("tool_calls")).is_some_and(|n| n == 1));
    let function = json
        .get("tool_calls")
        .and_then(|c| c.get_index(0))
        .and_then(|c| c.get("function"))
        .expect("function");
    assert_eq!(function.get_str("name"), Some("web_search"));
    // Arguments must be a JSON string in the wire format.
    assert!(function.get_str("arguments").is_some());
    assert_eq!(function.get_str("arguments"), Some("{\"q\":\"rust\"}"));
}

#[test]
fn empty_user_message_skipped() {
    assert!(message_to_json(&ChatMessage::user("")).is_none());
}

#[test]
fn parse_sse_text_only() {
    let events = [
        "data: {\"choices\":[{\"delta\":{\"role\":\"assistant\"},\"index\":0}]}\n\n",
        "data: {\"choices\":[{\"delta\":{\"content\":\"Hello\"},\"index\":0}]}\n\n",
        "data: {\"choices\":[{\"delta\":{\"content\":\" world\"},\"index\":0}]}\n\n",
        "data: {\"choices\":[{\"delta\":{},\"index\":0,\"finish_reason\":\"stop\"}],\"usage\":{\"prompt_tokens\":10,\"completion_tokens\":2}}\n\n",
        "data: [DONE]\n\n",
    ]
    .concat();

    let (result, chunks) = run_stream(&events);
    let result = result.expect("should parse");

    assert_eq!(result.content.as_deref(), Some("Hello world"));
    assert!(result.tool_calls.is_empty());
    assert_eq!(result.finish_reason, FinishReason::Stop);
    assert_eq!(result.input_tokens, 10);
    assert_eq!(result.output_tokens, 2);

    // Chunks should have been sent.
    assert_eq!(chunks, vec!["Hello", " world"]);
}

#[test]
fn parse_sse_tool_calls() {
    let events = [
        "data: {\"choices\":[{\"delta\":{\"tool_calls\":[{\"index\":0,\"id\":\"call_1\",\"type\":\"function\",\"function\":{\"name\":\"search\",\"arguments\":\"\"}}]},\"index\":0}]}\n\n",
        "data: {\"choices\":[{\"delta\":{\"tool_calls\":[{\"index\":0,\"function\":{\"arguments\":\"{\\\"q\\\":\"}}]},\"index\":0}]}\n\n",
        "data: {\"choices\":[{\"delta\":{\"tool_calls\":[{\"index\":0,\"function\":{\"arguments\":\"\\\"rust\\\"}\"}}]},\"index\":0}]}\n\n",
        "data: {\"choices\":[{\"delta\":{},\"index\":0,\"finish_reason\":\"tool_calls\"}]}\n\n",
        "data: [DONE]\n\n",
    ]
    .concat();

    let (result, _) = run_stream(&events);
    let result = result.expect("should parse");

    assert_eq!(result.tool_calls.len(), 1);
    assert_eq!(result.tool_calls[0].name, "search");
    assert_eq!(result.tool_calls[0].id, "call_1");
    assert_eq!(
        ironclaw::wire::json_to_value(&result.tool_calls[0].arguments),
        serde_json::from_str::<serde_json::Value>("{\"q\": \"rust\"}").unwrap()
    );
    assert_eq!(result.finish_reason, FinishReason::ToolUse);
}

#[test]
fn map_error_context_length() {
    let body = r#"{"error":{"message":"This model's maximum context length is 8192 tokens"}}"#;
    let err = map_error_response(400, body);
    assert!(matches!(err, LlmError::ContextLengthExceeded { .. }));
}

#[test]
fn parse_sse_reasoning_delta() {
    let events = [
        "data: {\"choices\":[{\"delta\":{\"reasoning_content\":\"Let me think\"},\"index\":0}]}\n\n",
        "data: {\"choices\":[{\"delta\":{\"reasoning_content\":\"... about this\"},\"index\":0}]}\n\n",
        "data: {\"choices\":[{\"delta\":{\"content\":\"The answer is 42.\"},\"index\":0}]}\n\n",
        "data: {\"choices\":[{\"delta\":{},\"index\":0,\"finish_reason\":\"stop\"}]}\n\n",
        "data: [DONE]\n\n",
    ]
    .concat();

    let (result, _) = run_stream(&events);
    let result = result.expect("should parse");

    // Reasoning is not surfaced in content but stored for tool calls.
    assert_eq!(result.content.as_deref(), Some("The answer is 42."));
}

#[test]
fn parse_sse_refusal() {
    let events = [
        "data: {\"choices\":[{\"delta\":{\"refusal\":\"I cannot help with that.\"},\"index\":0}]}\n\n",
        "data: {\"choices\":[{\"delta\":{},\"index\":0,\"finish_reason\":\"stop\"}]}\n\n",
        "data: [DONE]\n\n",
    ]
    .concat();

    let (result, _) = run_stream(&events);
    let result = result.expect("should parse");

    assert!(result
        .content
        .as_deref()
        .is_some_and(|c| c.contains("Model refused")));
    assert!(result
        .content
        .as_deref()
        .is_some_and(|c| c.contains("I cannot help with that.")));
    assert_eq!(
        result.content.as_deref(),
        Some("[Model refused] I cannot help with that.")
    );
}

#[test]
fn parse_sse_content_filter() {
    let events = [
        "data: {\"choices\":[{\"delta\":{\"content\":\"partial\"},\"index\":0}]}\n\n",
        "data: {\"choices\":[{\"delta\":{},\"index\":0,\"finish_reason\":\"content_filter\"}]}\n\n",
        "data: [DONE]\n\n",
    ]
    .concat();

    let (result, _) = run_stream(&events);
    let result = result.expect("should parse");

    assert_eq!(result.finish_reason, FinishReason::ContentFilter);
    // Partial content is still returned for caller to decide what to do.
    assert_eq!(result.content.as_deref(), Some("partial"));
}

#[test]
fn parse_sse_error_event() {
    // Some APIs send `event: error` instead of embedding errors in data.
    let events = "event: error\ndata: {\"message\":\"rate limited\"}\n\n";

    let (result, _) = run_stream(events);

    assert!(result.is_err());
    let err_msg = format!("{:?}", result.unwrap_err());
    assert!(err_msg.contains("SSE error event"));
}

#[test]
fn parse_sse_tool_calls_with_reasoning() {
    let events = [
        "data: {\"choices\":[{\"delta\":{\"reasoning_content\":\"I should search\"},\"index\":0}]}\n\n",
        "data: {\"choices\":[{\"delta\":{\"tool_calls\":[{\"index\":0,\"id\":\"tc1\",\"type\":\"function\",\"function\":{\"name\":\"search\",\"arguments\":\"{\\\"q\\\":\\\"test\\\"}\"}}]},\"index\":0}]}\n\n",
        "data: {\"choices\":[{\"delta\":{},\"index\":0,\"finish_reason\":\"tool_calls\"}]}\n\n",
        "data: [DONE]\n\n",
    ]
    .concat();

    let (result, _) = run_stream(&events);
    let result = result.expect("should parse");

    assert_eq!(result.tool_calls.len(), 1);
    assert_eq!(
        result.tool_calls[0].reasoning.as_deref(),
        Some("I should search")
    );
}
