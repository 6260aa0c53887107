//! Chat requests turned into Anthropic requests.
use vstd::prelude::*;

use crate::converter::to_anthropic::{self, str_or};
use crate::converter::translate::{self, is_str};
use crate::converter::types::{
    self,
    AnthropicMessage,
    AnthropicRequest,
    AnthropicRequestModel,
    AnthropicTool,
    ChatCompletionsRequest,
    ChatRequestModel,
    ConverterError,
    MessageModel,
    ToolModel,
};
use crate::json::{self, Json, JsonModel, Object};
use crate::text;

verus! {

// ── Turns ───────────────────────────────────────────────────────────────────

/// Blocks join the last turn where it is of the same role, and make a new turn otherwise.
pub open spec fn with_blocks(
    messages: Seq<MessageModel>,
    role: Seq<char>,
    blocks: Seq<JsonModel>,
) -> Seq<MessageModel> {
    if blocks.len() == 0 {
        messages
    } else if messages.len() > 0 && messages.last().role == role && messages.last().content is Array {
        let last = messages.last();
        messages.drop_last().push(
            MessageModel {
                content: JsonModel::Array(last.content->Array_0 + blocks),
                ..last
            },
        )
    } else {
        messages.push(
            MessageModel { role, content: JsonModel::Array(blocks), extra: json::nothing() },
        )
    }
}

/// Append blocks to the last turn when the roles match; start a new turn otherwise. A chat
/// conversation holds runs of messages of one role, such as the results of parallel tool
/// calls, and Anthropic expects the roles to alternate.
pub fn push_anthropic_blocks(
    messages: &mut Vec<AnthropicMessage>,
    role: &str,
    blocks: Vec<Json>,
)
    ensures
        types::message_models(final(messages)@) == with_blocks(
            types::message_models(old(messages)@),
            role@,
            json::models(blocks@),
        ),
{
    proof {
        json::models_at(blocks@);
    }
    if blocks.len() == 0 {
        return ;
    }
    let ghost before = types::message_models(messages@);
    let n: usize = messages.len();
    if n > 0 && text::str_eq(messages[n - 1].role.as_str(), role) {
        match messages.pop() {
            Some(last) => {
                let ghost rest = messages@;
                assert(types::message_models(rest) =~= before.drop_last());
                assert(before.last() == last@);
                match last.content {
                    Json::Array(existing) => {
                        let mut all = existing;
                        let mut more = blocks;
                        proof {
                            json::models_add(existing@, blocks@);
                        }
                        all.append(&mut more);
                        assert(all@ =~= existing@ + blocks@);
                        let merged = AnthropicMessage {
                            role: last.role,
                            content: Json::Array(all),
                            extra: last.extra,
                        };
                        proof {
                            types::message_models_push(rest, merged);
                        }
                        messages.push(merged);
                        return ;
                    },
                    other => {
                        let kept = AnthropicMessage {
                            role: last.role,
                            content: other,
                            extra: last.extra,
                        };
                        proof {
                            types::message_models_push(rest, kept);
                            assert(before.drop_last().push(before.last()) =~= before);
                        }
                        messages.push(kept);
                    },
                }
            },
            None => {},
        }
    }
    let message = AnthropicMessage {
        role: text::owned(role),
        content: Json::Array(blocks),
        extra: Object::new(),
    };
    proof {
        types::message_models_push(messages@, message);
    }
    messages.push(message);
}

/// A tool-use block.
pub open spec fn tool_use(id: Seq<char>, name: Seq<char>, input: JsonModel) -> JsonModel {
    JsonModel::Object(
        json::nothing().insert("type"@, JsonModel::Str("tool_use"@)).insert(
            "id"@,
            JsonModel::Str(id),
        ).insert("name"@, JsonModel::Str(name)).insert("input"@, input),
    )
}

/// The tool-use block for a tool call, from what the text of its arguments parses to.
pub open spec fn block_of_call_with(call: JsonModel, parsed: Option<JsonModel>) -> JsonModel {
    tool_use(
        to_anthropic::or_str(call.str_at("id"@), "call_xyz"@),
        to_anthropic::call_name(call),
        to_anthropic::arguments_of(parsed),
    )
}

/// The text of the arguments of a tool call.
pub open spec fn arguments_text(call: JsonModel) -> Seq<char> {
    to_anthropic::or_str(to_anthropic::call_function(call).str_at("arguments"@), "{}"@)
}

pub open spec fn block_of_call(call: JsonModel) -> JsonModel {
    block_of_call_with(call, json::json_parse(arguments_text(call)))
}

/// The tool-use block for a tool call whose arguments have been parsed.
pub fn tool_use_of_call(call: &Json, parsed: Option<Json>) -> (r: Json)
    ensures
        r@ == block_of_call_with(call@, json::opt_model(parsed)),
{
    let id = str_or(call.str_at("id"), "call_xyz");
    let name = match call.get("function") {
        Some(f) => str_or(f.str_at("name"), "tool"),
        None => text::owned("tool"),
    };
    Json::Object(
        Object::new().with("type", Json::text("tool_use")).with("id", Json::Str(id)).with(
            "name",
            Json::Str(name),
        ).with("input", to_anthropic::arguments_or_empty(parsed)),
    )
}

pub open spec fn blocks_of_calls(calls: Seq<JsonModel>) -> Seq<JsonModel> {
    calls.map_values(|c: JsonModel| block_of_call(c))
}

/// The blocks of an assistant message: its text, and its tool calls.
pub open spec fn assistant_blocks(msg: JsonModel) -> Seq<JsonModel> {
    let t = translate::text_of_content(msg.field_or_null("content"@));
    let head = if t.len() > 0 {
        seq![translate::text_part(t)]
    } else {
        Seq::<JsonModel>::empty()
    };
    match msg.array_at("tool_calls"@) {
        Some(calls) => head + blocks_of_calls(calls),
        None => head,
    }
}

fn assistant_blocks_of(msg: &Json, content: &Json) -> (r: Vec<Json>)
    requires
        content@ == msg@.field_or_null("content"@),
    ensures
        json::models(r@) == assistant_blocks(msg@),
{
    let mut blocks: Vec<Json> = Vec::new();
    let t = translate::content_to_text(content);
    if !t.as_str().is_empty() {
        let block = translate::part_of_text(t.as_str());
        proof {
            json::models_push(blocks@, block);
        }
        blocks.push(block);
    }
    let ghost head = json::models(blocks@);
    assert(head =~= if t@.len() > 0 {
        seq![translate::text_part(t@)]
    } else {
        Seq::<JsonModel>::empty()
    });
    match msg.array_at("tool_calls") {
        Some(calls) => {
            let ghost all = json::models(calls@);
            let ghost made = blocks_of_calls(all);
            proof {
                json::models_at(calls@);
                assert(head + made.take(0) =~= head);
            }
            let mut i: usize = 0;
            while i < calls.len()
                invariant
                    i <= calls.len(),
                    all == json::models(calls@),
                    all.len() == calls.len(),
                    made == blocks_of_calls(all),
                    json::models(blocks@) == head + made.take(i as int),
                decreases calls.len() - i,
            {
                let call = &calls[i];
                proof {
                    json::models_at(calls@);
                }
                let arguments = match call.get("function") {
                    Some(f) => str_or(f.str_at("arguments"), "{}"),
                    None => text::owned("{}"),
                };
                let block = tool_use_of_call(call, json::parse(arguments.as_str()));
                proof {
                    json::models_push(blocks@, block);
                    assert(made[i as int] == block@);
                    assert((head + made.take(i as int)).push(block@) =~= head + made.take(i + 1));
                }
                blocks.push(block);
                i = i + 1;
            }
            assert(made.take(all.len() as int) =~= made);
        },
        None => {},
    }
    blocks
}

/// An image block.
pub open spec fn image_block(source: JsonModel) -> JsonModel {
    JsonModel::Object(
        json::nothing().insert("type"@, JsonModel::Str("image"@)).insert("source"@, source),
    )
}

/// The image block for the address of an image: a `data:` address is taken apart into its
/// media type and its data.
pub open spec fn image_of_url(url: Seq<char>) -> Option<JsonModel> {
    if text::starts_with(url, "data:"@) {
        match text::cut_at(url, ',') {
            Some((before, data)) => Some(
                image_block(
                    JsonModel::Object(
                        json::nothing().insert("type"@, JsonModel::Str("base64"@)).insert(
                            "media_type"@,
                            JsonModel::Str(
                                text::head_of(text::without_prefix(before, "data:"@), ';'),
                            ),
                        ).insert("data"@, JsonModel::Str(data)),
                    ),
                ),
            ),
            None => None,
        }
    } else {
        Some(
            image_block(
                JsonModel::Object(
                    json::nothing().insert("type"@, JsonModel::Str("url"@)).insert(
                        "url"@,
                        JsonModel::Str(url),
                    ),
                ),
            ),
        )
    }
}

pub fn image_from_url(url: &str) -> (r: Option<Json>)
    ensures
        json::opt_model(r) == image_of_url(url@),
{
    if text::has_prefix(url, "data:") {
        match text::cut_text(url, ',') {
            Some(parts) => {
                let meta = text::drop_prefix(parts.0.as_str(), "data:");
                let media = text::head_text(meta.as_str(), ';');
                let source = Object::new().with("type", Json::text("base64")).with(
                    "media_type",
                    Json::Str(media),
                ).with("data", Json::Str(parts.1));
                Some(
                    Json::Object(
                        Object::new().with("type", Json::text("image")).with(
                            "source",
                            Json::Object(source),
                        ),
                    ),
                )
            },
            None => None,
        }
    } else {
        let source = Object::new().with("type", Json::text("url")).with("url", Json::text(url));
        Some(
            Json::Object(
                Object::new().with("type", Json::text("image")).with(
                    "source",
                    Json::Object(source),
                ),
            ),
        )
    }
}

/// The block for a part of a user message: an image is rewritten, any other part stays.
pub open spec fn block_of_part(part: JsonModel) -> Option<JsonModel> {
    if part.str_at("type"@) == Some("image_url"@) {
        match part.field_of_field("image_url"@, "url"@) {
            Some(url) => match url.str() {
                Some(u) => image_of_url(u),
                None => None,
            },
            None => None,
        }
    } else {
        Some(part)
    }
}

pub open spec fn blocks_of_parts(parts: Seq<JsonModel>) -> Seq<JsonModel>
    decreases parts.len(),
{
    if parts.len() == 0 {
        seq![]
    } else {
        let before = blocks_of_parts(parts.drop_last());
        match block_of_part(parts.last()) {
            Some(b) => before.push(b),
            None => before,
        }
    }
}

/// The blocks of a user message.
pub open spec fn user_blocks(content: JsonModel) -> Seq<JsonModel> {
    match content {
        JsonModel::Str(t) => if t.len() > 0 {
            seq![translate::text_part(t)]
        } else {
            seq![]
        },
        JsonModel::Array(parts) => blocks_of_parts(parts),
        _ => seq![],
    }
}

fn user_blocks_of(content: &Json) -> (r: Vec<Json>)
    ensures
        json::models(r@) == user_blocks(content@),
{
    let mut blocks: Vec<Json> = Vec::new();
    match content {
        Json::Str(t) => {
            if !t.as_str().is_empty() {
                let block = translate::part_of_text(t.as_str());
                proof {
                    json::models_push(blocks@, block);
                }
                blocks.push(block);
            }
            assert(json::models(blocks@) =~= user_blocks(content@));
        },
        Json::Array(parts) => {
            let ghost all = json::models(parts@);
            proof {
                json::models_at(parts@);
            }
            let mut i: usize = 0;
            while i < parts.len()
                invariant
                    i <= parts.len(),
                    all == json::models(parts@),
                    all.len() == parts.len(),
                    json::models(blocks@) == blocks_of_parts(all.take(i as int)),
                decreases parts.len() - i,
            {
                let part = &parts[i];
                proof {
                    json::models_at(parts@);
                    assert(all.take(i + 1).drop_last() =~= all.take(i as int));
                    assert(all.take(i + 1).last() == part@);
                }
                let block = if is_str(part.str_at("type"), "image_url") {
                    match part.get_in("image_url", "url") {
                        Some(url) => match url.as_str() {
                            Some(u) => image_from_url(u),
                            None => None,
                        },
                        None => None,
                    }
                } else {
                    Some(part.dup())
                };
                match block {
                    Some(b) => {
                        proof {
                            json::models_push(blocks@, b);
                        }
                        blocks.push(b);
                    },
                    None => {},
                }
                i = i + 1;
            }
            assert(all.take(all.len() as int) =~= all);
        },
        _ => {},
    }
    blocks
}

/// The block for the result of a tool.
pub open spec fn tool_result(msg: JsonModel) -> JsonModel {
    JsonModel::Object(
        json::nothing().insert("type"@, JsonModel::Str("tool_result"@)).insert(
            "tool_use_id"@,
            JsonModel::Str(to_anthropic::or_str(msg.str_at("tool_call_id"@), "tool_call"@)),
        ).insert(
            "content"@,
            JsonModel::Str(translate::text_of_content(msg.field_or_null("content"@))),
        ),
    )
}

/// The turns and the system text that the messages read so far make.
#[verifier::ext_equal]
pub struct Conversation {
    pub messages: Seq<MessageModel>,
    pub system: Seq<char>,
}

/// What one chat message adds. System messages gather in the system text, a tool result goes
/// to a user turn, and a message of an unknown role is read as one of the user.
pub open spec fn with_message(c: Conversation, msg: JsonModel) -> Conversation {
    let role = to_anthropic::or_str(msg.str_at("role"@), "user"@);
    let content = msg.field_or_null("content"@);
    if role == "system"@ || role == "developer"@ {
        Conversation { system: c.system + translate::text_of_content(content) + seq!['\n'], ..c }
    } else if role == "tool"@ {
        Conversation {
            messages: with_blocks(c.messages, "user"@, seq![tool_result(msg)]),
            ..c
        }
    } else if role == "assistant"@ {
        Conversation {
            messages: with_blocks(c.messages, "assistant"@, assistant_blocks(msg)),
            ..c
        }
    } else {
        Conversation { messages: with_blocks(c.messages, "user"@, user_blocks(content)), ..c }
    }
}

pub open spec fn conversation(messages: Seq<JsonModel>) -> Conversation
    decreases messages.len(),
{
    if messages.len() == 0 {
        Conversation { messages: seq![], system: seq![] }
    } else {
        with_message(conversation(messages.drop_last()), messages.last())
    }
}

// ── Tools and the rest ──────────────────────────────────────────────────────

/// The tool that a chat tool offers, if it is a function.
pub open spec fn tool_of(t: JsonModel) -> Option<ToolModel> {
    match t.field("function"@) {
        Some(f) => Some(
            ToolModel {
                name: to_anthropic::or_str(f.str_at("name"@), "tool"@),
                description: f.str_at("description"@),
                input_schema: f.field("parameters"@),
                extra: json::nothing(),
            },
        ),
        None => None,
    }
}

pub open spec fn tools_of(tools: Seq<JsonModel>) -> Seq<ToolModel>
    decreases tools.len(),
{
    if tools.len() == 0 {
        seq![]
    } else {
        let before = tools_of(tools.drop_last());
        match tool_of(tools.last()) {
            Some(t) => before.push(t),
            None => before,
        }
    }
}

fn tools_from(tools: &Vec<Json>) -> (r: Vec<AnthropicTool>)
    ensures
        types::tool_models(r@) == tools_of(json::models(tools@)),
{
    let mut out: Vec<AnthropicTool> = Vec::new();
    let ghost all = json::models(tools@);
    proof {
        json::models_at(tools@);
        assert(types::tool_models(out@) =~= seq![]);
    }
    let mut i: usize = 0;
    while i < tools.len()
        invariant
            i <= tools.len(),
            all == json::models(tools@),
            all.len() == tools.len(),
            types::tool_models(out@) == tools_of(all.take(i as int)),
        decreases tools.len() - i,
    {
        proof {
            json::models_at(tools@);
            assert(all.take(i + 1).drop_last() =~= all.take(i as int));
            assert(all.take(i + 1).last() == tools@[i as int]@);
        }
        match tools[i].get("function") {
            Some(f) => {
                let tool = AnthropicTool {
                    name: str_or(f.str_at("name"), "tool"),
                    description: match f.str_at("description") {
                        Some(d) => Some(text::owned(d)),
                        None => None,
                    },
                    input_schema: match f.get("parameters") {
                        Some(p) => Some(p.dup()),
                        None => None,
                    },
                    extra: Object::new(),
                };
                proof {
                    types::tool_models_push(out@, tool);
                }
                out.push(tool);
            },
            None => {},
        }
        i = i + 1;
    }
    assert(all.take(all.len() as int) =~= all);
    out
}

/// Which tool an Anthropic request wants called.
pub open spec fn tool_choice_of(choice: JsonModel) -> JsonModel {
    let auto = JsonModel::Object(json::nothing().insert("type"@, JsonModel::Str("auto"@)));
    if choice.str() == Some("auto"@) {
        auto
    } else if choice.str() == Some("required"@) {
        JsonModel::Object(json::nothing().insert("type"@, JsonModel::Str("any"@)))
    } else {
        match choice.field("function"@) {
            Some(f) => JsonModel::Object(
                json::nothing().insert("type"@, JsonModel::Str("tool"@)).insert(
                    "name"@,
                    JsonModel::Str(to_anthropic::or_str(f.str_at("name"@), "tool"@)),
                ),
            ),
            None => auto,
        }
    }
}

fn tool_choice_from(choice: &Json) -> (r: Json)
    ensures
        r@ == tool_choice_of(choice@),
{
    if is_str(choice.as_str(), "auto") {
        Json::Object(Object::new().with("type", Json::text("auto")))
    } else if is_str(choice.as_str(), "required") {
        Json::Object(Object::new().with("type", Json::text("any")))
    } else {
        match choice.get("function") {
            Some(f) => {
                let name = str_or(f.str_at("name"), "tool");
                Json::Object(
                    Object::new().with("type", Json::text("tool")).with("name", Json::Str(name)),
                )
            },
            None => Json::Object(Object::new().with("type", Json::text("auto"))),
        }
    }
}

pub open spec fn only_strings(items: Seq<JsonModel>) -> Seq<JsonModel>
    decreases items.len(),
{
    if items.len() == 0 {
        seq![]
    } else if items.last() is Str {
        only_strings(items.drop_last()).push(items.last())
    } else {
        only_strings(items.drop_last())
    }
}

/// Anthropic's `stop_sequences` for OpenAI's `stop`.
pub open spec fn sequences_of(stop: JsonModel) -> Seq<JsonModel> {
    match stop {
        JsonModel::Str(s) => seq![JsonModel::Str(s)],
        JsonModel::Array(items) => only_strings(items),
        _ => seq![],
    }
}

fn sequences_from(stop: &Json) -> (r: Vec<Json>)
    ensures
        json::models(r@) == sequences_of(stop@),
{
    let mut out: Vec<Json> = Vec::new();
    match stop {
        Json::Str(s) => {
            let item = Json::text(s.as_str());
            proof {
                json::models_push(out@, item);
            }
            out.push(item);
            assert(json::models(out@) =~= sequences_of(stop@));
        },
        Json::Array(items) => {
            let ghost all = json::models(items@);
            proof {
                json::models_at(items@);
            }
            let mut i: usize = 0;
            while i < items.len()
                invariant
                    i <= items.len(),
                    all == json::models(items@),
                    all.len() == items.len(),
                    json::models(out@) == only_strings(all.take(i as int)),
                decreases items.len() - i,
            {
                proof {
                    json::models_at(items@);
                    assert(all.take(i + 1).drop_last() =~= all.take(i as int));
                    assert(all.take(i + 1).last() == items@[i as int]@);
                }
                match &items[i] {
                    Json::Str(s) => {
                        let item = Json::text(s.as_str());
                        proof {
                            json::models_push(out@, item);
                        }
                        out.push(item);
                    },
                    _ => {},
                }
                i = i + 1;
            }
            assert(all.take(all.len() as int) =~= all);
        },
        _ => {},
    }
    out
}

/// The fields without a place of their own.
pub open spec fn extra_of(stop: Option<JsonModel>) -> Map<Seq<char>, JsonModel> {
    match stop {
        Some(s) => if sequences_of(s).len() > 0 {
            json::nothing().insert("stop_sequences"@, JsonModel::Array(sequences_of(s)))
        } else {
            json::nothing()
        },
        None => json::nothing(),
    }
}

/// The Anthropic request for a chat request.
pub open spec fn anthropic_request(
    request: ChatRequestModel,
    model: Seq<char>,
) -> AnthropicRequestModel {
    let c = conversation(request.messages);
    AnthropicRequestModel {
        model,
        max_tokens: request.max_tokens,
        temperature: request.temperature,
        top_p: request.top_p,
        stream: Some(request.stream),
        system: if c.system.len() > 0 {
            Some(JsonModel::Str(text::trim(c.system)))
        } else {
            None
        },
        messages: c.messages,
        tools: match request.tools {
            Some(t) => if tools_of(t).len() > 0 {
                Some(tools_of(t))
            } else {
                None
            },
            None => None,
        },
        tool_choice: match request.tool_choice {
            Some(t) => Some(tool_choice_of(t)),
            None => None,
        },
        metadata: None,
        output_config: None,
        thinking: None,
        extra: extra_of(request.stop),
    }
}

/// The Anthropic request for a chat request.
pub fn translate_openai_to_anthropic_request(
    request: &ChatCompletionsRequest,
    upstream_model: &str,
) -> (r: Result<AnthropicRequest, ConverterError>)
    ensures
        match r {
            Ok(a) => a@ == anthropic_request(request@, upstream_model@),
            Err(_) => false,
        },
{
    let mut messages: Vec<AnthropicMessage> = Vec::new();
    let mut system = String::new();
    let ghost all = json::models(request.messages@);
    proof {
        json::models_at(request.messages@);
        assert(types::message_models(messages@) =~= seq![]);
        assert(system@ =~= seq![]);
    }
    let mut i: usize = 0;
    while i < request.messages.len()
        invariant
            i <= request.messages.len(),
            all == json::models(request.messages@),
            all.len() == request.messages.len(),
            (Conversation { messages: types::message_models(messages@), system: system@ })
                == conversation(all.take(i as int)),
        decreases request.messages.len() - i,
    {
        let msg = &request.messages[i];
        let ghost c = conversation(all.take(i as int));
        proof {
            json::models_at(request.messages@);
            assert(all.take(i + 1).drop_last() =~= all.take(i as int));
            assert(all.take(i + 1).last() == msg@);
        }
        let role = str_or(msg.str_at("role"), "user");
        let null = Json::Null;
        let content = match msg.get("content") {
            Some(c) => c,
            None => &null,
        };
        assert(content@ == msg@.field_or_null("content"@));
        if text::str_eq(role.as_str(), "system") || text::str_eq(role.as_str(), "developer") {
            let t = translate::content_to_text(content);
            system.append(t.as_str());
            system.push('\n');
            assert(system@ =~= c.system + translate::text_of_content(content@) + seq!['\n']);
        } else if text::str_eq(role.as_str(), "tool") {
            let id = str_or(msg.str_at("tool_call_id"), "tool_call");
            let block = Json::Object(
                Object::new().with("type", Json::text("tool_result")).with(
                    "tool_use_id",
                    Json::Str(id),
                ).with("content", Json::Str(translate::content_to_text(content))),
            );
            let mut blocks: Vec<Json> = Vec::new();
            proof {
                json::models_push(blocks@, block);
                assert(block@ == tool_result(msg@));
            }
            blocks.push(block);
            assert(json::models(blocks@) =~= seq![tool_result(msg@)]);
            push_anthropic_blocks(&mut messages, "user", blocks);
        } else if text::str_eq(role.as_str(), "assistant") {
            let blocks = assistant_blocks_of(msg, content);
            push_anthropic_blocks(&mut messages, "assistant", blocks);
        } else {
            let blocks = user_blocks_of(content);
            push_anthropic_blocks(&mut messages, "user", blocks);
        }
        assert(Conversation { messages: types::message_models(messages@), system: system@ }
            == with_message(c, msg@));
        i = i + 1;
    }
    assert(all.take(all.len() as int) =~= all);
    let system_value = if system.as_str().is_empty() {
        None
    } else {
        Some(Json::Str(text::trimmed(system.as_str())))
    };
    let tools: Option<Vec<AnthropicTool>> = match &request.tools {
        Some(list) => {
            let out = tools_from(list);
            assert(types::tool_models(out@).len() == out@.len());
            if out.len() > 0 {
                Some(out)
            } else {
                None
            }
        },
        None => None,
    };
    let tool_choice = match &request.tool_choice {
        Some(c) => Some(tool_choice_from(c)),
        None => None,
    };
    let mut extra = Object::new();
    match &request.stop {
        Some(stop) => {
            let sequences = sequences_from(stop);
            proof {
                json::models_at(sequences@);
            }
            if sequences.len() > 0 {
                extra.put("stop_sequences", Json::Array(sequences));
            }
        },
        None => {},
    }
    Ok(
        AnthropicRequest {
            model: text::owned(upstream_model),
            max_tokens: request.max_tokens,
            temperature: json::dup_opt_num(&request.temperature),
            top_p: json::dup_opt_num(&request.top_p),
            stream: Some(request.stream),
            system: system_value,
            messages,
            tools,
            tool_choice,
            metadata: None,
            output_config: None,
            thinking: None,
            extra,
        },
    )
}

// ── Laws ────────────────────────────────────────────────────────────────────

/// The roles alternate, each turn is one of the user or the assistant, and none is empty.
pub open spec fn alternates(messages: Seq<MessageModel>) -> bool {
    &&& forall|i: int|
        0 <= i < messages.len() ==> {
            &&& (#[trigger] messages[i]).role == "user"@ || messages[i].role == "assistant"@
            &&& messages[i].content matches JsonModel::Array(blocks) && blocks.len() > 0
        }
    &&& forall|i: int, j: int|
        0 <= i && j == i + 1 && j < messages.len() ==> (#[trigger] messages[i]).role != (
        #[trigger] messages[j]).role
}

proof fn with_blocks_alternates(
    messages: Seq<MessageModel>,
    role: Seq<char>,
    blocks: Seq<JsonModel>,
)
    requires
        alternates(messages),
        role == "user"@ || role == "assistant"@,
    ensures
        alternates(with_blocks(messages, role, blocks)),
{
    let after = with_blocks(messages, role, blocks);
    if blocks.len() > 0 {
        if messages.len() > 0 && messages.last().role == role {
            assert(messages[messages.len() - 1].content is Array);
            let k = (messages.len() - 1) as int;
            assert(after.len() == messages.len());
            assert forall|i: int| 0 <= i < k implies after[i] == messages[i] by {}
            assert(after[k].role == messages[k].role);
        } else {
            assert forall|i: int| 0 <= i < messages.len() implies after[i] == messages[i] by {}
        }
    }
}

/// The turns of a translated conversation alternate between the user and the assistant, as
/// Anthropic expects, whatever the order of the chat messages was.
pub proof fn translated_turns_alternate(messages: Seq<JsonModel>)
    ensures
        alternates(conversation(messages).messages),
    decreases messages.len(),
{
    if messages.len() > 0 {
        let c = conversation(messages.drop_last());
        translated_turns_alternate(messages.drop_last());
        let msg = messages.last();
        with_blocks_alternates(c.messages, "user"@, seq![tool_result(msg)]);
        with_blocks_alternates(c.messages, "assistant"@, assistant_blocks(msg));
        with_blocks_alternates(
            c.messages,
            "user"@,
            user_blocks(msg.field_or_null("content"@)),
        );
    }
}

proof fn strings_are_kept(items: Seq<JsonModel>)
    requires
        forall|i: int| 0 <= i < items.len() ==> (#[trigger] items[i]) is Str,
    ensures
        only_strings(items) == items,
    decreases items.len(),
{
    if items.len() > 0 {
        let rest = items.drop_last();
        assert forall|i: int| 0 <= i < rest.len() implies (#[trigger] rest[i]) is Str by {
            assert(rest[i] == items[i]);
        }
        strings_are_kept(rest);
        assert(items[items.len() - 1] is Str);
        assert(rest.push(items.last()) =~= items);
    }
}

/// Stop sequences survive the way to a chat request and back.
pub proof fn stop_sequences_survive_round_trip(
    request: AnthropicRequestModel,
    there: Seq<char>,
    back: Seq<char>,
    items: Seq<JsonModel>,
)
    requires
        JsonModel::Object(request.extra).array_at("stop_sequences"@) == Some(items),
        forall|i: int| 0 <= i < items.len() ==> (#[trigger] items[i]) is Str,
    ensures
        items.len() > 0 ==> JsonModel::Object(
            anthropic_request(translate::chat_request(request, there), back).extra,
        ).array_at("stop_sequences"@) == Some(items),
        items.len() == 0 ==> translate::chat_request(request, there).stop is None,
{
    strings_are_kept(items);
}

/// Instructions never become a turn: a system or developer message only adds to the system
/// text.
pub proof fn instructions_are_no_turn(before: Conversation, msg: JsonModel)
    requires
        msg.str_at("role"@) == Some("system"@) || msg.str_at("role"@) == Some("developer"@),
    ensures
        with_message(before, msg).messages == before.messages,
        with_message(before, msg).system == before.system + translate::text_of_content(
            msg.field_or_null("content"@),
        ) + seq!['\n'],
{
}

/// A run of tool results becomes one user turn that holds them all, in their order.
pub proof fn tool_results_merge(before: Conversation, results: Seq<JsonModel>)
    requires
        results.len() > 0,
        forall|i: int|
            0 <= i < results.len() ==> (#[trigger] results[i]).str_at("role"@) == Some("tool"@),
        before.messages.len() == 0 || before.messages.last().role != "user"@,
    ensures
        ({
            let after = results.fold_left(before, |c: Conversation, m: JsonModel| with_message(c, m));
            after.messages == before.messages.push(
                MessageModel {
                    role: "user"@,
                    content: JsonModel::Array(
                        results.map_values(|m: JsonModel| tool_result(m)),
                    ),
                    extra: json::nothing(),
                },
            ) && after.system == before.system
        }),
    decreases results.len(),
{
    reveal_strlit("tool");
    reveal_strlit("system");
    reveal_strlit("developer");
    reveal_strlit("user");
    assert("tool"@.len() == 4 && "system"@.len() == 6 && "developer"@.len() == 9);
    let f = |c: Conversation, m: JsonModel| with_message(c, m);
    let rest = results.drop_last();
    let m = results.last();
    assert(m == results[results.len() - 1]);
    assert(results.fold_left(before, f) == f(rest.fold_left(before, f), m));
    let all = results.map_values(|m: JsonModel| tool_result(m));
    if rest.len() > 0 {
        assert forall|i: int| 0 <= i < rest.len() implies (#[trigger] rest[i]).str_at("role"@)
            == Some("tool"@) by {
            assert(rest[i] == results[i]);
        }
        tool_results_merge(before, rest);
        let c = rest.fold_left(before, f);
        let turn = c.messages.last();
        assert(c.messages.drop_last() =~= before.messages);
        assert(all =~= rest.map_values(|m: JsonModel| tool_result(m)) + seq![tool_result(m)]);
    } else {
        assert(rest.fold_left(before, f) == before);
        assert(all =~= seq![tool_result(m)]);
    }
}

} // verus!
