//! What is sent to ask for a streaming chat completion.

use crate::json::{Json, JsonNumber, JsonView};
use crate::provider::{
    ChatMessage, ChatMessageView, ContentPart, ContentPartView, Role, ToolCall, ToolCallView,
    ToolCompletionRequest, ToolCompletionRequestView, ToolDefinition, ToolDefinitionView,
};
use crate::text::{concat, trim_end_slashes};
use crate::wire::json_to_string;
use vstd::prelude::*;

verus! {

/// A JSON string.
pub open spec fn string(s: Seq<char>) -> JsonView {
    JsonView::Text(s)
}

// Messages.

/// How a tool call stands in a message, given the text of its arguments.
pub open spec fn function_call_json(
    id: Seq<char>,
    name: Seq<char>,
    arguments: Seq<char>,
) -> JsonView {
    JsonView::empty().with("id"@, string(id)).with("type"@, string("function"@)).with(
        "function"@,
        JsonView::empty().with("name"@, string(name)).with("arguments"@, string(arguments)),
    )
}

/// How a tool call stands in a message: its arguments are JSON text inside a
/// string.
pub open spec fn tool_call_json(call: ToolCallView) -> JsonView {
    function_call_json(call.id, call.name, crate::wire::json_text(call.arguments))
}

/// How an image stands in a message.
pub open spec fn image_json(url: Seq<char>) -> JsonView {
    JsonView::empty().with("type"@, string("image_url"@)).with(
        "image_url"@,
        JsonView::empty().with("url"@, string(url)),
    )
}

/// The images among the parts of a message, in their order.
pub open spec fn images_json(parts: Seq<ContentPartView>) -> Seq<JsonView>
    decreases parts.len(),
{
    if parts.len() == 0 {
        Seq::empty()
    } else {
        let before = images_json(parts.drop_last());
        match parts.last() {
            ContentPartView::ImageUrl { url } => before.push(image_json(url)),
            ContentPartView::Text { .. } => before,
        }
    }
}

/// The parts of a message of more than text: first the text, then the images.
pub open spec fn parts_json(msg: ChatMessageView) -> Seq<JsonView> {
    seq![
        JsonView::empty().with("type"@, string("text"@)).with("text"@, string(msg.content)),
    ] + images_json(msg.content_parts)
}

/// A message as it goes on the wire. A message of the user that says nothing does
/// not go there.
pub open spec fn message_json(msg: ChatMessageView) -> Option<JsonView> {
    match msg.role {
        Role::System => Some(
            JsonView::empty().with("role"@, string("system"@)).with("content"@, string(msg.content)),
        ),
        Role::User => if msg.content.len() == 0 && msg.content_parts.len() == 0 {
            None
        } else if msg.content_parts.len() == 0 {
            Some(
                JsonView::empty().with("role"@, string("user"@)).with(
                    "content"@,
                    string(msg.content),
                ),
            )
        } else {
            Some(
                JsonView::empty().with("role"@, string("user"@)).with(
                    "content"@,
                    JsonView::Array(parts_json(msg)),
                ),
            )
        },
        Role::Assistant => {
            let speaker = JsonView::empty().with("role"@, string("assistant"@));
            let spoken = if msg.content.len() > 0 {
                speaker.with("content"@, string(msg.content))
            } else {
                speaker
            };
            match msg.tool_calls {
                Some(calls) => Some(
                    spoken.with(
                        "tool_calls"@,
                        JsonView::Array(calls.map_values(|c: ToolCallView| tool_call_json(c))),
                    ),
                ),
                None => Some(spoken),
            }
        },
        Role::Tool => Some(
            JsonView::empty().with("role"@, string("tool"@)).with(
                "tool_call_id"@,
                string(
                    match msg.tool_call_id {
                        Some(id) => id,
                        None => Seq::empty(),
                    },
                ),
            ).with("content"@, string(msg.content)),
        ),
    }
}

/// The text of the arguments of the tool call at `i` in a message on the wire.
pub open spec fn sent_arguments(sent: Option<JsonView>, i: int) -> Option<Seq<char>> {
    match sent {
        Some(message) => match message.field("tool_calls"@) {
            Some(calls) => match calls.item(i) {
                Some(call) => crate::stream::function_text(call, "arguments"@),
                None => None,
            },
            None => None,
        },
        None => None,
    }
}

/// Whether the arguments of every tool call of the model come back whole when
/// their text on the wire is read, as far as reading gives values back.
pub open spec fn arguments_come_back(msg: ChatMessageView, sent: Option<JsonView>) -> bool {
    msg.role == Role::Assistant ==> match msg.tool_calls {
        Some(calls) => forall|i: int|
            0 <= i < calls.len() && crate::wire::reads_back((#[trigger] calls[i]).arguments) ==> {
                &&& sent_arguments(sent, i) matches Some(text)
                &&& crate::wire::json_parse(text) == Some(calls[i].arguments)
            },
        None => true,
    }
}

/// The messages that go on the wire, in their order.
pub open spec fn messages_json(messages: Seq<ChatMessageView>) -> Seq<JsonView>
    decreases messages.len(),
{
    if messages.len() == 0 {
        Seq::empty()
    } else {
        let before = messages_json(messages.drop_last());
        match message_json(messages.last()) {
            Some(m) => before.push(m),
            None => before,
        }
    }
}

/// Adding a value to an array adds its tree to the trees of the array.
proof fn lemma_trees_push(items: Seq<Json>, j: Json)
    ensures
        Json::trees(items.push(j)) == Json::trees(items).push(j@),
{
    assert(items.push(j).subrange(0, items.push(j).len() - 1) =~= items);
}

/// A tool call as it goes on the wire, given the text of its arguments.
pub fn function_call_to_json(id: &str, name: &str, arguments: String) -> (r: Json)
    ensures
        r@ == function_call_json(id@, name@, arguments@),
{
    let function: Json = Json::object().with("name", Json::string(name)).with(
        "arguments",
        Json::Text(arguments),
    );
    Json::object().with("id", Json::string(id)).with("type", Json::string("function")).with(
        "function",
        function,
    )
}

/// The parts of a message of more than text.
pub fn multimodal_parts(msg: &ChatMessage) -> (r: Vec<Json>)
    ensures
        Json::trees(r@) == parts_json(msg@),
{
    let mut parts: Vec<Json> = Vec::new();
    let text: Json = Json::object().with("type", Json::string("text")).with(
        "text",
        Json::string(msg.content.as_str()),
    );
    let ghost head = text@;
    proof {
        lemma_trees_push(parts@, text);
    }
    parts.push(text);
    let ghost all = msg@.content_parts;
    let mut i: usize = 0;
    assert(Json::trees(parts@) =~= seq![head] + images_json(all.subrange(0, 0)));
    while i < msg.content_parts.len()
        invariant
            i <= msg.content_parts@.len(),
            all == msg@.content_parts,
            Json::trees(parts@) == seq![head] + images_json(all.subrange(0, i as int)),
        decreases msg.content_parts@.len() - i,
    {
        let ghost longer = all.subrange(0, i + 1);
        assert(longer.drop_last() =~= all.subrange(0, i as int));
        assert(longer.last() == msg.content_parts@[i as int]@);
        if let ContentPart::ImageUrl { image_url } = &msg.content_parts[i] {
            let image: Json = Json::object().with("type", Json::string("image_url")).with(
                "image_url",
                Json::object().with("url", Json::string(image_url.url.as_str())),
            );
            proof {
                lemma_trees_push(parts@, image);
            }
            parts.push(image);
            assert(Json::trees(parts@) =~= seq![head] + images_json(longer));
        }
        i += 1;
    }
    assert(all.subrange(0, all.len() as int) =~= all);
    parts
}

/// A message as it goes on the wire; nothing where it does not go there. The
/// arguments of its tool calls come back when their text is read.
pub fn message_to_json(msg: &ChatMessage) -> (r: Option<Json>)
    ensures
        crate::wire::parsed(r) == message_json(msg@),
        arguments_come_back(msg@, crate::wire::parsed(r)),
{
    match msg.role {
        Role::System => Some(
            Json::object().with("role", Json::string("system")).with(
                "content",
                Json::string(msg.content.as_str()),
            ),
        ),
        Role::User => {
            if msg.content.as_str().is_empty() && msg.content_parts.len() == 0 {
                return None;
            }
            let content: Json = if msg.content_parts.len() == 0 {
                Json::string(msg.content.as_str())
            } else {
                Json::Array(multimodal_parts(msg))
            };
            Some(Json::object().with("role", Json::string("user")).with("content", content))
        },
        Role::Assistant => {
            let mut obj: Json = Json::object().with("role", Json::string("assistant"));
            if !msg.content.as_str().is_empty() {
                obj = obj.with("content", Json::string(msg.content.as_str()));
            }
            if let Some(calls) = &msg.tool_calls {
                obj = obj.with("tool_calls", Json::Array(tool_calls_to_json(calls.as_slice())));
                proof {
                    let all = msg@.tool_calls->Some_0;
                    assert forall|i: int|
                        0 <= i < all.len() && crate::wire::reads_back(
                            (#[trigger] all[i]).arguments,
                        ) implies {
                        &&& sent_arguments(Some(obj@), i) matches Some(text)
                        &&& crate::wire::json_parse(text) == Some(all[i].arguments)
                    } by {
                        crate::laws::law_sent_tool_calls(msg@, i);
                        assert(all[i] == calls@[i]@);
                    }
                }
            }
            Some(obj)
        },
        Role::Tool => {
            let id: Json = match &msg.tool_call_id {
                Some(id) => Json::string(id.as_str()),
                None => Json::Text(String::new()),
            };
            Some(
                Json::object().with("role", Json::string("tool")).with("tool_call_id", id).with(
                    "content",
                    Json::string(msg.content.as_str()),
                ),
            )
        },
    }
}

fn tool_calls_to_json(calls: &[ToolCall]) -> (r: Vec<Json>)
    ensures
        Json::trees(r@) == crate::provider::tool_calls_of(calls@).map_values(
            |c: ToolCallView| tool_call_json(c),
        ),
        forall|i: int|
            0 <= i < calls@.len() && crate::wire::reads_back((#[trigger] calls@[i])@.arguments)
                ==> crate::wire::json_parse(crate::wire::json_text(calls@[i]@.arguments)) == Some(
                calls@[i]@.arguments,
            ),
{
    let mut out: Vec<Json> = Vec::new();
    let mut i: usize = 0;
    while i < calls.len()
        invariant
            i <= calls@.len(),
            Json::trees(out@).len() == i,
            forall|k: int|
                0 <= k < i ==> #[trigger] Json::trees(out@)[k] == tool_call_json(calls@[k]@),
            forall|k: int|
                0 <= k < i && crate::wire::reads_back((#[trigger] calls@[k])@.arguments)
                    ==> crate::wire::json_parse(crate::wire::json_text(calls@[k]@.arguments))
                    == Some(calls@[k]@.arguments),
        decreases calls@.len() - i,
    {
        let call: Json = function_call_to_json(
            calls[i].id.as_str(),
            calls[i].name.as_str(),
            json_to_string(&calls[i].arguments),
        );
        proof {
            lemma_trees_push(out@, call);
        }
        out.push(call);
        i += 1;
    }
    assert(Json::trees(out@) =~= crate::provider::tool_calls_of(calls@).map_values(
        |c: ToolCallView| tool_call_json(c),
    ));
    out
}

/// The messages that go on the wire, in their order.
pub fn messages_to_json(messages: &[ChatMessage]) -> (r: Vec<Json>)
    ensures
        Json::trees(r@) == messages_json(messages@.map_values(|m: ChatMessage| m@)),
{
    let mut out: Vec<Json> = Vec::new();
    let ghost all = messages@.map_values(|m: ChatMessage| m@);
    let mut i: usize = 0;
    assert(Json::trees(out@) =~= messages_json(all.subrange(0, 0)));
    while i < messages.len()
        invariant
            i <= messages@.len(),
            all == messages@.map_values(|m: ChatMessage| m@),
            Json::trees(out@) == messages_json(all.subrange(0, i as int)),
        decreases messages@.len() - i,
    {
        let ghost longer = all.subrange(0, i + 1);
        assert(longer.drop_last() =~= all.subrange(0, i as int));
        assert(longer.last() == messages@[i as int]@);
        if let Some(m) = message_to_json(&messages[i]) {
            proof {
                lemma_trees_push(out@, m);
            }
            out.push(m);
        }
        i += 1;
    }
    assert(all.subrange(0, all.len() as int) =~= all);
    out
}

// Tools.

/// How a tool stands in a request.
pub open spec fn tool_json(tool: ToolDefinitionView, strict_schema: bool) -> JsonView {
    JsonView::empty().with("type"@, string("function"@)).with(
        "function"@,
        JsonView::empty().with("name"@, string(tool.name)).with(
            "description"@,
            string(tool.description),
        ).with(
            "parameters"@,
            if strict_schema {
                tool.strict_parameters
            } else {
                tool.parameters
            },
        ),
    )
}

/// How the tools stand in a request.
pub open spec fn tools_json(tools: Seq<ToolDefinitionView>, strict_schema: bool) -> Seq<JsonView> {
    tools.map_values(|t: ToolDefinitionView| tool_json(t, strict_schema))
}

/// The tools as they go on the wire.
pub fn tools_to_json(tools: &[ToolDefinition], strict_schema: bool) -> (r: Vec<Json>)
    ensures
        Json::trees(r@) == tools_json(tools@.map_values(|t: ToolDefinition| t@), strict_schema),
{
    let mut out: Vec<Json> = Vec::new();
    let mut i: usize = 0;
    while i < tools.len()
        invariant
            i <= tools@.len(),
            Json::trees(out@).len() == i,
            forall|k: int|
                0 <= k < i ==> #[trigger] Json::trees(out@)[k] == tool_json(
                    tools@[k]@,
                    strict_schema,
                ),
        decreases tools@.len() - i,
    {
        let parameters: Json = if strict_schema {
            tools[i].strict_parameters.clone()
        } else {
            tools[i].parameters.clone()
        };
        let function: Json = Json::object().with(
            "name",
            Json::string(tools[i].name.as_str()),
        ).with("description", Json::string(tools[i].description.as_str())).with(
            "parameters",
            parameters,
        );
        let tool: Json = Json::object().with("type", Json::string("function")).with(
            "function",
            function,
        );
        proof {
            lemma_trees_push(out@, tool);
        }
        out.push(tool);
        i += 1;
    }
    assert(Json::trees(out@) =~= tools_json(
        tools@.map_values(|t: ToolDefinition| t@),
        strict_schema,
    ));
    out
}

// The body.

/// What the body of every request says: the model, the messages, and that the
/// reply is to be streamed with a count of the tokens at its end.
pub open spec fn core_body(model: Seq<char>, messages: Seq<ChatMessageView>) -> JsonView {
    JsonView::empty().with("model"@, string(model)).with(
        "messages"@,
        JsonView::Array(messages_json(messages)),
    ).with("stream"@, JsonView::Bool(true)).with(
        "stream_options"@,
        JsonView::empty().with("include_usage"@, JsonView::Bool(true)),
    )
}

/// The body of a request.
pub open spec fn request_body(
    request: ToolCompletionRequestView,
    model: Seq<char>,
    strict_tools_schema: bool,
) -> JsonView {
    let body = core_body(
        match request.model {
            Some(own) => own,
            None => model,
        },
        request.messages,
    );
    let body = if request.tools.len() == 0 {
        body
    } else {
        let body = body.with(
            "tools"@,
            JsonView::Array(tools_json(request.tools, strict_tools_schema)),
        );
        match request.tool_choice {
            Some(choice) => body.with("tool_choice"@, string(choice)),
            None => body,
        }
    };
    let body = match request.temperature {
        Some(t) => body.with("temperature"@, t.json()),
        None => body,
    };
    match request.max_tokens {
        Some(max) => body.with("max_tokens"@, JsonNumber::Unsigned(max as u64).json()),
        None => body,
    }
}

/// The body of a request to `model`, or to the model that the request names.
pub fn build_request_body(
    request: &ToolCompletionRequest,
    model: &str,
    strict_tools_schema: bool,
) -> (r: Json)
    ensures
        r@ == request_body(request@, model@, strict_tools_schema),
{
    let model_name: &str = match &request.model {
        Some(own) => own.as_str(),
        None => model,
    };
    let messages: Vec<Json> = messages_to_json(request.messages.as_slice());
    let tools: Vec<Json> = tools_to_json(request.tools.as_slice(), strict_tools_schema);
    let mut body: Json = Json::object().with("model", Json::string(model_name)).with(
        "messages",
        Json::Array(messages),
    ).with("stream", Json::Bool(true)).with(
        "stream_options",
        Json::object().with("include_usage", Json::Bool(true)),
    );
    proof {
        crate::json::lemma_trees(tools@);
    }
    if tools.len() > 0 {
        body = body.with("tools", Json::Array(tools));
        if let Some(choice) = &request.tool_choice {
            body = body.with("tool_choice", Json::string(choice.as_str()));
        }
    }
    if let Some(t) = request.temperature {
        body = body.with("temperature", Json::Number(t));
    }
    if let Some(max) = request.max_tokens {
        body = body.with("max_tokens", Json::Number(JsonNumber::Unsigned(max as u64)));
    }
    body
}

// The call.

/// How long the whole exchange may take, in seconds.
pub const REQUEST_TIMEOUT_SECS: u64 = 300;

/// The address of the endpoint, however many slashes the base ends in.
pub open spec fn completions_url_of(base_url: Seq<char>) -> Seq<char> {
    crate::text::without_end_slashes(base_url) + "/chat/completions"@
}

/// The address of the endpoint under a base address.
pub fn completions_url(base_url: &str) -> (r: String)
    ensures
        r@ == completions_url_of(base_url@),
{
    concat(trim_end_slashes(base_url), "/chat/completions")
}

/// A POST that asks for a streaming chat completion. The credentials are not part
/// of it.
#[derive(Debug)]
pub struct CompletionCall {
    pub url: String,
    pub content_type: String,
    pub accept: String,
    pub timeout_secs: u64,
    pub body: Json,
}

/// Works out the POST for a request.
pub fn prepare_call(
    base_url: &str,
    request: &ToolCompletionRequest,
    model: &str,
    strict_tools_schema: bool,
) -> (r: CompletionCall)
    ensures
        r.url@ == completions_url_of(base_url@),
        r.content_type@ == "application/json"@,
        r.accept@ == "text/event-stream"@,
        r.timeout_secs == REQUEST_TIMEOUT_SECS,
        r.body@ == request_body(request@, model@, strict_tools_schema),
{
    CompletionCall {
        url: completions_url(base_url),
        content_type: "application/json".to_string(),
        accept: "text/event-stream".to_string(),
        timeout_secs: REQUEST_TIMEOUT_SECS,
        body: build_request_body(request, model, strict_tools_schema),
    }
}

} // verus!
