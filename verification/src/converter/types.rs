//! The requests and responses of the two chat protocols.
use vstd::prelude::*;

use crate::json::{self, Json, JsonModel, Num, Object};
use crate::text;

verus! {

/// Why a translation failed.
pub enum ConverterError {
    InvalidRequest(String),
    Serialization(serde_json::Error),
    UnsupportedFeature(String),
}

impl ConverterError {
    /// The error in words.
    pub fn message(&self) -> (r: String)
        ensures
            match *self {
                ConverterError::InvalidRequest(m) => r@ == "Invalid request: "@ + m@,
                ConverterError::Serialization(e) => r@ == "Serialization error: "@
                    + json::error_words(e),
                ConverterError::UnsupportedFeature(m) => r@ == "Unsupported feature: "@ + m@,
            },
    {
        match self {
            ConverterError::InvalidRequest(m) => text::concat("Invalid request: ", m.as_str()),
            ConverterError::Serialization(e) => text::concat(
                "Serialization error: ",
                json::error_text(e).as_str(),
            ),
            ConverterError::UnsupportedFeature(m) => text::concat(
                "Unsupported feature: ",
                m.as_str(),
            ),
        }
    }
}

// ── Anthropic ───────────────────────────────────────────────────────────────

/// One turn of an Anthropic conversation.
pub struct AnthropicMessage {
    pub role: String,
    /// A string, or an array of content blocks.
    pub content: Json,
    pub extra: Object,
}

#[verifier::ext_equal]
pub struct MessageModel {
    pub role: Seq<char>,
    pub content: JsonModel,
    pub extra: Map<Seq<char>, JsonModel>,
}

impl View for AnthropicMessage {
    type V = MessageModel;

    open spec fn view(&self) -> MessageModel {
        MessageModel { role: self.role@, content: self.content@, extra: self.extra@ }
    }
}

/// A tool that an Anthropic client offers. A hosted tool has its `type` in `extra`.
pub struct AnthropicTool {
    pub name: String,
    pub description: Option<String>,
    pub input_schema: Option<Json>,
    pub extra: Object,
}

#[verifier::ext_equal]
pub struct ToolModel {
    pub name: Seq<char>,
    pub description: Option<Seq<char>>,
    pub input_schema: Option<JsonModel>,
    pub extra: Map<Seq<char>, JsonModel>,
}

impl View for AnthropicTool {
    type V = ToolModel;

    open spec fn view(&self) -> ToolModel {
        ToolModel {
            name: self.name@,
            description: text::opt_text(self.description),
            input_schema: json::opt_model(self.input_schema),
            extra: self.extra@,
        }
    }
}

impl AnthropicTool {
    pub fn dup(&self) -> (r: AnthropicTool)
        ensures
            r@ == self@,
    {
        AnthropicTool {
            name: self.name.clone(),
            description: text::dup_opt(&self.description),
            input_schema: json::dup_opt_json(&self.input_schema),
            extra: self.extra.dup(),
        }
    }
}

/// A request to Anthropic's Messages API. What has no field of its own is in `extra`.
pub struct AnthropicRequest {
    pub model: String,
    pub max_tokens: Option<u32>,
    pub temperature: Option<Num>,
    pub top_p: Option<Num>,
    pub stream: Option<bool>,
    pub system: Option<Json>,
    pub messages: Vec<AnthropicMessage>,
    pub tools: Option<Vec<AnthropicTool>>,
    pub tool_choice: Option<Json>,
    pub metadata: Option<Json>,
    pub output_config: Option<Json>,
    pub thinking: Option<Json>,
    pub extra: Object,
}

#[verifier::ext_equal]
pub struct AnthropicRequestModel {
    pub model: Seq<char>,
    pub max_tokens: Option<u32>,
    pub temperature: Option<Num>,
    pub top_p: Option<Num>,
    pub stream: Option<bool>,
    pub system: Option<JsonModel>,
    pub messages: Seq<MessageModel>,
    pub tools: Option<Seq<ToolModel>>,
    pub tool_choice: Option<JsonModel>,
    pub metadata: Option<JsonModel>,
    pub output_config: Option<JsonModel>,
    pub thinking: Option<JsonModel>,
    pub extra: Map<Seq<char>, JsonModel>,
}

pub open spec fn message_models(s: Seq<AnthropicMessage>) -> Seq<MessageModel> {
    s.map_values(|m: AnthropicMessage| m@)
}

pub open spec fn tool_models(s: Seq<AnthropicTool>) -> Seq<ToolModel> {
    s.map_values(|t: AnthropicTool| t@)
}

pub open spec fn opt_tool_models(o: Option<Vec<AnthropicTool>>) -> Option<Seq<ToolModel>> {
    match o {
        Some(v) => Some(tool_models(v@)),
        None => None,
    }
}

pub proof fn message_models_push(s: Seq<AnthropicMessage>, m: AnthropicMessage)
    ensures
        message_models(s.push(m)) == message_models(s).push(m@),
{
    assert(message_models(s.push(m)) =~= message_models(s).push(m@));
}

pub proof fn tool_models_push(s: Seq<AnthropicTool>, t: AnthropicTool)
    ensures
        tool_models(s.push(t)) == tool_models(s).push(t@),
{
    assert(tool_models(s.push(t)) =~= tool_models(s).push(t@));
}

impl View for AnthropicRequest {
    type V = AnthropicRequestModel;

    open spec fn view(&self) -> AnthropicRequestModel {
        AnthropicRequestModel {
            model: self.model@,
            max_tokens: self.max_tokens,
            temperature: self.temperature,
            top_p: self.top_p,
            stream: self.stream,
            system: json::opt_model(self.system),
            messages: message_models(self.messages@),
            tools: opt_tool_models(self.tools),
            tool_choice: json::opt_model(self.tool_choice),
            metadata: json::opt_model(self.metadata),
            output_config: json::opt_model(self.output_config),
            thinking: json::opt_model(self.thinking),
            extra: self.extra@,
        }
    }
}

impl AnthropicRequest {
    /// Whether the client asked for a stream.
    pub fn wants_stream(&self) -> (r: bool)
        ensures
            r == (self.stream == Some(true)),
    {
        match self.stream {
            Some(b) => b,
            None => false,
        }
    }
}

#[derive(Clone, Copy, PartialEq, Eq, Structural)]
pub struct AnthropicUsage {
    pub input_tokens: u64,
    pub output_tokens: u64,
    pub cache_creation_input_tokens: u64,
    pub cache_read_input_tokens: u64,
}

/// A block of an Anthropic answer: `text`, or `tool_use`.
pub struct AnthropicContentBlock {
    pub kind: String,
    pub text: Option<String>,
    pub id: Option<String>,
    pub name: Option<String>,
    pub input: Option<Json>,
}

#[verifier::ext_equal]
pub struct BlockModel {
    pub kind: Seq<char>,
    pub text: Option<Seq<char>>,
    pub id: Option<Seq<char>>,
    pub name: Option<Seq<char>>,
    pub input: Option<JsonModel>,
}

impl View for AnthropicContentBlock {
    type V = BlockModel;

    open spec fn view(&self) -> BlockModel {
        BlockModel {
            kind: self.kind@,
            text: text::opt_text(self.text),
            id: text::opt_text(self.id),
            name: text::opt_text(self.name),
            input: json::opt_model(self.input),
        }
    }
}

pub open spec fn block_models(s: Seq<AnthropicContentBlock>) -> Seq<BlockModel> {
    s.map_values(|b: AnthropicContentBlock| b@)
}

pub proof fn block_models_push(s: Seq<AnthropicContentBlock>, b: AnthropicContentBlock)
    ensures
        block_models(s.push(b)) == block_models(s).push(b@),
{
    assert(block_models(s.push(b)) =~= block_models(s).push(b@));
}

/// A text block.
pub open spec fn text_block(t: Seq<char>) -> BlockModel {
    BlockModel { kind: "text"@, text: Some(t), id: None, name: None, input: None }
}

/// A tool-use block.
pub open spec fn tool_use_block(id: Seq<char>, name: Seq<char>, input: JsonModel) -> BlockModel {
    BlockModel { kind: "tool_use"@, text: None, id: Some(id), name: Some(name), input: Some(input) }
}

impl AnthropicContentBlock {
    pub fn of_text(t: &str) -> (r: AnthropicContentBlock)
        ensures
            r@ == text_block(t@),
    {
        AnthropicContentBlock {
            kind: text::owned("text"),
            text: Some(text::owned(t)),
            id: None,
            name: None,
            input: None,
        }
    }

    pub fn of_tool(id: String, name: String, input: Json) -> (r: AnthropicContentBlock)
        ensures
            r@ == tool_use_block(id@, name@, input@),
    {
        AnthropicContentBlock {
            kind: text::owned("tool_use"),
            text: None,
            id: Some(id),
            name: Some(name),
            input: Some(input),
        }
    }
}

/// An answer of Anthropic's Messages API.
pub struct AnthropicResponse {
    pub id: String,
    pub kind: String,
    pub role: String,
    pub model: String,
    pub content: Vec<AnthropicContentBlock>,
    pub stop_reason: Option<String>,
    pub stop_sequence: Option<String>,
    pub usage: AnthropicUsage,
}

#[verifier::ext_equal]
pub struct AnthropicResponseModel {
    pub id: Seq<char>,
    pub kind: Seq<char>,
    pub role: Seq<char>,
    pub model: Seq<char>,
    pub content: Seq<BlockModel>,
    pub stop_reason: Option<Seq<char>>,
    pub stop_sequence: Option<Seq<char>>,
    pub usage: AnthropicUsage,
}

impl View for AnthropicResponse {
    type V = AnthropicResponseModel;

    open spec fn view(&self) -> AnthropicResponseModel {
        AnthropicResponseModel {
            id: self.id@,
            kind: self.kind@,
            role: self.role@,
            model: self.model@,
            content: block_models(self.content@),
            stop_reason: text::opt_text(self.stop_reason),
            stop_sequence: text::opt_text(self.stop_sequence),
            usage: self.usage,
        }
    }
}

// ── OpenAI ──────────────────────────────────────────────────────────────────

/// The canonical chat request, of both an OpenAI client and a translated Anthropic one.
///
/// `messages`, `tools`, `tool_choice` and `stop` stay loose values: clients vary in what they
/// put there. `extra` holds every field without a place of its own.
pub struct ChatCompletionsRequest {
    pub model: String,
    pub messages: Vec<Json>,
    pub stream: bool,
    pub tools: Option<Vec<Json>>,
    pub tool_choice: Option<Json>,
    pub parallel_tool_calls: Option<bool>,
    pub max_tokens: Option<u32>,
    pub temperature: Option<Num>,
    pub top_p: Option<Num>,
    pub response_format: Option<Json>,
    pub stop: Option<Json>,
    pub extra: Object,
}

#[verifier::ext_equal]
pub struct ChatRequestModel {
    pub model: Seq<char>,
    pub messages: Seq<JsonModel>,
    pub stream: bool,
    pub tools: Option<Seq<JsonModel>>,
    pub tool_choice: Option<JsonModel>,
    pub parallel_tool_calls: Option<bool>,
    pub max_tokens: Option<u32>,
    pub temperature: Option<Num>,
    pub top_p: Option<Num>,
    pub response_format: Option<JsonModel>,
    pub stop: Option<JsonModel>,
    pub extra: Map<Seq<char>, JsonModel>,
}

pub open spec fn opt_models(o: Option<Vec<Json>>) -> Option<Seq<JsonModel>> {
    match o {
        Some(v) => Some(json::models(v@)),
        None => None,
    }
}

impl View for ChatCompletionsRequest {
    type V = ChatRequestModel;

    open spec fn view(&self) -> ChatRequestModel {
        ChatRequestModel {
            model: self.model@,
            messages: json::models(self.messages@),
            stream: self.stream,
            tools: opt_models(self.tools),
            tool_choice: json::opt_model(self.tool_choice),
            parallel_tool_calls: self.parallel_tool_calls,
            max_tokens: self.max_tokens,
            temperature: self.temperature,
            top_p: self.top_p,
            response_format: json::opt_model(self.response_format),
            stop: json::opt_model(self.stop),
            extra: self.extra@,
        }
    }
}

pub struct ChatCompletionsMessage {
    pub role: String,
    pub content: Option<String>,
    pub tool_calls: Option<Vec<Json>>,
}

#[verifier::ext_equal]
pub struct ChatMessageModel {
    pub role: Seq<char>,
    pub content: Option<Seq<char>>,
    pub tool_calls: Option<Seq<JsonModel>>,
}

impl View for ChatCompletionsMessage {
    type V = ChatMessageModel;

    open spec fn view(&self) -> ChatMessageModel {
        ChatMessageModel {
            role: self.role@,
            content: text::opt_text(self.content),
            tool_calls: opt_models(self.tool_calls),
        }
    }
}

pub struct ChatCompletionsChoice {
    pub index: u32,
    pub message: ChatCompletionsMessage,
    pub finish_reason: Option<String>,
}

#[verifier::ext_equal]
pub struct ChoiceModel {
    pub index: u32,
    pub message: ChatMessageModel,
    pub finish_reason: Option<Seq<char>>,
}

impl View for ChatCompletionsChoice {
    type V = ChoiceModel;

    open spec fn view(&self) -> ChoiceModel {
        ChoiceModel {
            index: self.index,
            message: self.message@,
            finish_reason: text::opt_text(self.finish_reason),
        }
    }
}

#[derive(Clone, Copy, PartialEq, Eq, Structural)]
pub struct ChatCompletionsUsage {
    pub prompt_tokens: u32,
    pub completion_tokens: u32,
    pub total_tokens: u32,
}

pub struct ChatCompletionsResponse {
    pub id: String,
    pub object: String,
    pub created: u64,
    pub model: String,
    pub choices: Vec<ChatCompletionsChoice>,
    pub usage: Option<ChatCompletionsUsage>,
}

#[verifier::ext_equal]
pub struct ChatResponseModel {
    pub id: Seq<char>,
    pub object: Seq<char>,
    pub created: u64,
    pub model: Seq<char>,
    pub choices: Seq<ChoiceModel>,
    pub usage: Option<ChatCompletionsUsage>,
}

pub open spec fn choice_models(s: Seq<ChatCompletionsChoice>) -> Seq<ChoiceModel> {
    s.map_values(|c: ChatCompletionsChoice| c@)
}

impl View for ChatCompletionsResponse {
    type V = ChatResponseModel;

    open spec fn view(&self) -> ChatResponseModel {
        ChatResponseModel {
            id: self.id@,
            object: self.object@,
            created: self.created,
            model: self.model@,
            choices: choice_models(self.choices@),
            usage: self.usage,
        }
    }
}

} // verus!
