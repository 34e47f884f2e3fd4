//! What a chat is made of: messages, tools and tool calls, the request that
//! carries them and the response that comes back.

use crate::json::{Json, JsonNumber, JsonView};
use vstd::prelude::*;

verus! {

/// What an optional text stands for.
pub open spec fn text_of(s: Option<String>) -> Option<Seq<char>> {
    match s {
        Some(t) => Some(t@),
        None => None,
    }
}

/// Who speaks in a message.
#[derive(Debug, Clone, Copy, PartialEq, Eq, Structural)]
pub enum Role {
    System,
    User,
    Assistant,
    Tool,
}

/// Where an image is found.
#[derive(Debug)]
pub struct ImageUrl {
    pub url: String,
}

/// A piece of a message beside its text.
#[derive(Debug)]
pub enum ContentPart {
    Text { text: String },
    ImageUrl { image_url: ImageUrl },
}

/// What a [`ContentPart`] stands for.
#[verifier::ext_equal]
pub enum ContentPartView {
    Text { text: Seq<char> },
    ImageUrl { url: Seq<char> },
}

impl View for ContentPart {
    type V = ContentPartView;

    open spec fn view(&self) -> ContentPartView {
        match *self {
            ContentPart::Text { text } => ContentPartView::Text { text: text@ },
            ContentPart::ImageUrl { image_url } => ContentPartView::ImageUrl { url: image_url.url@ },
        }
    }
}

/// A call of a tool that the model asks for.
#[derive(Debug)]
pub struct ToolCall {
    pub id: String,
    pub name: String,
    pub arguments: Json,
    pub reasoning: Option<String>,
}

/// What a [`ToolCall`] stands for.
#[verifier::ext_equal]
pub struct ToolCallView {
    pub id: Seq<char>,
    pub name: Seq<char>,
    pub arguments: JsonView,
    pub reasoning: Option<Seq<char>>,
}

impl View for ToolCall {
    type V = ToolCallView;

    open spec fn view(&self) -> ToolCallView {
        ToolCallView {
            id: self.id@,
            name: self.name@,
            arguments: self.arguments@,
            reasoning: text_of(self.reasoning),
        }
    }
}

/// What each of a sequence of tool calls stands for.
pub open spec fn tool_calls_of(calls: Seq<ToolCall>) -> Seq<ToolCallView> {
    calls.map_values(|c: ToolCall| c@)
}

/// One message of a chat.
#[derive(Debug)]
pub struct ChatMessage {
    pub role: Role,
    pub content: String,
    pub content_parts: Vec<ContentPart>,
    pub tool_call_id: Option<String>,
    pub name: Option<String>,
    pub tool_calls: Option<Vec<ToolCall>>,
}

/// What a [`ChatMessage`] stands for.
#[verifier::ext_equal]
pub struct ChatMessageView {
    pub role: Role,
    pub content: Seq<char>,
    pub content_parts: Seq<ContentPartView>,
    pub tool_call_id: Option<Seq<char>>,
    pub name: Option<Seq<char>>,
    pub tool_calls: Option<Seq<ToolCallView>>,
}

impl View for ChatMessage {
    type V = ChatMessageView;

    open spec fn view(&self) -> ChatMessageView {
        ChatMessageView {
            role: self.role,
            content: self.content@,
            content_parts: self.content_parts@.map_values(|p: ContentPart| p@),
            tool_call_id: text_of(self.tool_call_id),
            name: text_of(self.name),
            tool_calls: match self.tool_calls {
                Some(calls) => Some(tool_calls_of(calls@)),
                None => None,
            },
        }
    }
}

impl ChatMessageView {
    /// A message of text alone.
    pub open spec fn plain(role: Role, content: Seq<char>) -> ChatMessageView {
        ChatMessageView {
            role,
            content,
            content_parts: Seq::empty(),
            tool_call_id: None,
            name: None,
            tool_calls: None,
        }
    }
}

impl ChatMessage {
    fn plain(role: Role, content: &str) -> (r: ChatMessage)
        ensures
            r@ == ChatMessageView::plain(role, content@),
    {
        let r: ChatMessage = ChatMessage {
            role,
            content: content.to_string(),
            content_parts: Vec::new(),
            tool_call_id: None,
            name: None,
            tool_calls: None,
        };
        assert(r@.content_parts =~= Seq::empty());
        r
    }

    /// What the model is told before the chat.
    pub fn system(content: &str) -> (r: ChatMessage)
        ensures
            r@ == ChatMessageView::plain(Role::System, content@),
    {
        ChatMessage::plain(Role::System, content)
    }

    /// What the user says.
    pub fn user(content: &str) -> (r: ChatMessage)
        ensures
            r@ == ChatMessageView::plain(Role::User, content@),
    {
        ChatMessage::plain(Role::User, content)
    }

    /// What the model said.
    pub fn assistant(content: &str) -> (r: ChatMessage)
        ensures
            r@ == ChatMessageView::plain(Role::Assistant, content@),
    {
        ChatMessage::plain(Role::Assistant, content)
    }

    /// What the model said together with the tools that it called.
    pub fn assistant_with_tool_calls(content: Option<String>, tool_calls: Vec<ToolCall>) -> (r:
        ChatMessage)
        ensures
            r@ == (ChatMessageView {
                tool_calls: Some(tool_calls_of(tool_calls@)),
                ..ChatMessageView::plain(
                    Role::Assistant,
                    match content {
                        Some(c) => c@,
                        None => Seq::empty(),
                    },
                )
            }),
    {
        let content: String = match content {
            Some(c) => c,
            None => String::new(),
        };
        let mut r: ChatMessage = ChatMessage::plain(Role::Assistant, content.as_str());
        r.tool_calls = Some(tool_calls);
        r
    }

    /// What the tool `name` gave for the call `id`.
    pub fn tool_result(id: &str, name: &str, content: &str) -> (r: ChatMessage)
        ensures
            r@ == (ChatMessageView {
                tool_call_id: Some(id@),
                name: Some(name@),
                ..ChatMessageView::plain(Role::Tool, content@)
            }),
    {
        let mut r: ChatMessage = ChatMessage::plain(Role::Tool, content);
        r.tool_call_id = Some(id.to_string());
        r.name = Some(name.to_string());
        r
    }
}

/// A tool that the model may call. `strict_parameters` is the schema that
/// `parameters` becomes where the provider wants strict schemas.
#[derive(Debug)]
pub struct ToolDefinition {
    pub name: String,
    pub description: String,
    pub parameters: Json,
    pub strict_parameters: Json,
}

/// What a [`ToolDefinition`] stands for.
#[verifier::ext_equal]
pub struct ToolDefinitionView {
    pub name: Seq<char>,
    pub description: Seq<char>,
    pub parameters: JsonView,
    pub strict_parameters: JsonView,
}

impl View for ToolDefinition {
    type V = ToolDefinitionView;

    open spec fn view(&self) -> ToolDefinitionView {
        ToolDefinitionView {
            name: self.name@,
            description: self.description@,
            parameters: self.parameters@,
            strict_parameters: self.strict_parameters@,
        }
    }
}

/// A request for a completion that may call tools. `temperature` is the number
/// that goes on the wire.
#[derive(Debug)]
pub struct ToolCompletionRequest {
    pub messages: Vec<ChatMessage>,
    pub tools: Vec<ToolDefinition>,
    pub model: Option<String>,
    pub max_tokens: Option<u32>,
    pub temperature: Option<JsonNumber>,
    pub tool_choice: Option<String>,
}

/// What a [`ToolCompletionRequest`] stands for.
#[verifier::ext_equal]
pub struct ToolCompletionRequestView {
    pub messages: Seq<ChatMessageView>,
    pub tools: Seq<ToolDefinitionView>,
    pub model: Option<Seq<char>>,
    pub max_tokens: Option<u32>,
    pub temperature: Option<JsonNumber>,
    pub tool_choice: Option<Seq<char>>,
}

impl View for ToolCompletionRequest {
    type V = ToolCompletionRequestView;

    open spec fn view(&self) -> ToolCompletionRequestView {
        ToolCompletionRequestView {
            messages: self.messages@.map_values(|m: ChatMessage| m@),
            tools: self.tools@.map_values(|t: ToolDefinition| t@),
            model: text_of(self.model),
            max_tokens: self.max_tokens,
            temperature: self.temperature,
            tool_choice: text_of(self.tool_choice),
        }
    }
}

impl ToolCompletionRequest {
    /// A request that leaves every setting to the provider.
    pub fn new(messages: Vec<ChatMessage>, tools: Vec<ToolDefinition>) -> (r: ToolCompletionRequest)
        ensures
            r@ == (ToolCompletionRequestView {
                messages: messages@.map_values(|m: ChatMessage| m@),
                tools: tools@.map_values(|t: ToolDefinition| t@),
                model: None,
                max_tokens: None,
                temperature: None,
                tool_choice: None,
            }),
    {
        ToolCompletionRequest {
            messages,
            tools,
            model: None,
            max_tokens: None,
            temperature: None,
            tool_choice: None,
        }
    }

    /// This request at the given sampling temperature.
    pub fn with_temperature(self, temperature: JsonNumber) -> (r: ToolCompletionRequest)
        ensures
            r@ == (ToolCompletionRequestView { temperature: Some(temperature), ..self@ }),
    {
        let mut r: ToolCompletionRequest = self;
        r.temperature = Some(temperature);
        r
    }

    /// This request with a limit on the tokens of the reply.
    pub fn with_max_tokens(self, max_tokens: u32) -> (r: ToolCompletionRequest)
        ensures
            r@ == (ToolCompletionRequestView { max_tokens: Some(max_tokens), ..self@ }),
    {
        let mut r: ToolCompletionRequest = self;
        r.max_tokens = Some(max_tokens);
        r
    }

    /// This request with a rule on which tools are called.
    pub fn with_tool_choice(self, tool_choice: &str) -> (r: ToolCompletionRequest)
        ensures
            r@ == (ToolCompletionRequestView { tool_choice: Some(tool_choice@), ..self@ }),
    {
        let mut r: ToolCompletionRequest = self;
        r.tool_choice = Some(tool_choice.to_string());
        r
    }
}

/// Why the model stopped.
#[derive(Debug, Clone, Copy, PartialEq, Eq, Structural)]
pub enum FinishReason {
    Stop,
    Length,
    ToolUse,
    ContentFilter,
    Unknown,
}

/// A whole reply.
#[derive(Debug)]
pub struct ToolCompletionResponse {
    pub content: Option<String>,
    pub tool_calls: Vec<ToolCall>,
    pub input_tokens: u32,
    pub output_tokens: u32,
    pub finish_reason: FinishReason,
    pub cache_read_input_tokens: u32,
    pub cache_creation_input_tokens: u32,
}

/// What a [`ToolCompletionResponse`] stands for.
#[verifier::ext_equal]
pub struct ToolCompletionResponseView {
    pub content: Option<Seq<char>>,
    pub tool_calls: Seq<ToolCallView>,
    pub input_tokens: u32,
    pub output_tokens: u32,
    pub finish_reason: FinishReason,
    pub cache_read_input_tokens: u32,
    pub cache_creation_input_tokens: u32,
}

impl View for ToolCompletionResponse {
    type V = ToolCompletionResponseView;

    open spec fn view(&self) -> ToolCompletionResponseView {
        ToolCompletionResponseView {
            content: text_of(self.content),
            tool_calls: tool_calls_of(self.tool_calls@),
            input_tokens: self.input_tokens,
            output_tokens: self.output_tokens,
            finish_reason: self.finish_reason,
            cache_read_input_tokens: self.cache_read_input_tokens,
            cache_creation_input_tokens: self.cache_creation_input_tokens,
        }
    }
}

} // verus!
