//! Requests of the one chat protocol turned into requests of the other.
use vstd::prelude::*;

use crate::converter::to_anthropic::{self, str_or};
use crate::converter::types::{
    self,
    AnthropicRequest,
    AnthropicRequestModel,
    AnthropicTool,
    ChatCompletionsRequest,
    ChatRequestModel,
    ConverterError,
    MessageModel,
    ToolModel,
};
use crate::json::{self, Json, JsonModel, Object};
use crate::text;

verus! {

// ── Content as text ─────────────────────────────────────────────────────────

/// An item of a content list as text: a string, the text that it carries, or its JSON.
pub open spec fn item_text(item: JsonModel) -> Seq<char> {
    match item.str() {
        Some(s) => s,
        None => match item.str_at("text"@) {
            Some(s) => s,
            None => json::json_text(item),
        },
    }
}

/// Content as text: a string is its own text, a list gives a line for each of its items.
pub open spec fn text_of_content(content: JsonModel) -> Seq<char> {
    match content {
        JsonModel::Str(t) => t,
        JsonModel::Array(items) => text::join(items.map_values(|i: JsonModel| item_text(i)), "\n"@),
        JsonModel::Null => seq![],
        other => json::json_text(other),
    }
}

/// What a tool result shows of an item: images are not shown, and what has no text neither.
pub open spec fn result_item_text(item: JsonModel) -> Option<Seq<char>> {
    match item.str() {
        Some(s) => Some(s),
        None => if item.str_at("type"@) == Some("image"@) {
            Some("[image omitted]"@)
        } else {
            item.str_at("text"@)
        },
    }
}

pub open spec fn result_lines(items: Seq<JsonModel>) -> Seq<Seq<char>>
    decreases items.len(),
{
    if items.len() == 0 {
        seq![]
    } else {
        let before = result_lines(items.drop_last());
        match result_item_text(items.last()) {
            Some(t) => before.push(t),
            None => before,
        }
    }
}

/// The output of a tool as text.
pub open spec fn text_of_result(block: JsonModel) -> Seq<char> {
    match block.field_or_null("content"@) {
        JsonModel::Array(items) => text::join(result_lines(items), "\n"@),
        other => text_of_content(other),
    }
}

pub fn item_to_text(item: &Json) -> (r: String)
    ensures
        r@ == item_text(item@),
{
    match item.as_str() {
        Some(s) => text::owned(s),
        None => match item.str_at("text") {
            Some(s) => text::owned(s),
            None => json::render(item),
        },
    }
}

/// Content as text.
pub fn content_to_text(content: &Json) -> (r: String)
    ensures
        r@ == text_of_content(content@),
{
    match content {
        Json::Str(t) => t.clone(),
        Json::Array(items) => {
            let mut lines: Vec<String> = Vec::new();
            let ghost all = json::models(items@);
            let ghost texts = all.map_values(|i: JsonModel| item_text(i));
            let mut i: usize = 0;
            proof {
                json::models_at(items@);
            }
            while i < items.len()
                invariant
                    i <= items.len(),
                    all == json::models(items@),
                    all.len() == items.len(),
                    texts == all.map_values(|i: JsonModel| item_text(i)),
                    text::texts(lines@) == texts.take(i as int),
                decreases items.len() - i,
            {
                let line = item_to_text(&items[i]);
                proof {
                    json::models_at(items@);
                    text::texts_push(lines@, line);
                    assert(texts.take(i + 1) =~= texts.take(i as int).push(line@));
                }
                lines.push(line);
                i = i + 1;
            }
            assert(texts.take(all.len() as int) =~= texts);
            text::join_texts(&lines, "\n")
        },
        Json::Null => String::new(),
        _ => json::render(content),
    }
}

/// The output of a tool as text.
pub fn tool_result_output(block: &Json) -> (r: String)
    ensures
        r@ == text_of_result(block@),
{
    match block.get("content") {
        None => String::new(),
        Some(content) => match content {
            Json::Array(items) => {
                let mut lines: Vec<String> = Vec::new();
                let ghost all = json::models(items@);
                let mut i: usize = 0;
                proof {
                    json::models_at(items@);
                }
                while i < items.len()
                    invariant
                        i <= items.len(),
                        all == json::models(items@),
                        all.len() == items.len(),
                        text::texts(lines@) == result_lines(all.take(i as int)),
                    decreases items.len() - i,
                {
                    let item = &items[i];
                    proof {
                        json::models_at(items@);
                        assert(all.take(i + 1).drop_last() =~= all.take(i as int));
                        assert(all.take(i + 1).last() == item@);
                    }
                    let line: Option<String> = match item.as_str() {
                        Some(s) => Some(text::owned(s)),
                        None => if is_str(item.str_at("type"), "image") {
                            Some(text::owned("[image omitted]"))
                        } else {
                            match item.str_at("text") {
                                Some(s) => Some(text::owned(s)),
                                None => None,
                            }
                        },
                    };
                    match line {
                        Some(t) => {
                            proof {
                                text::texts_push(lines@, t);
                            }
                            lines.push(t);
                        },
                        None => {},
                    }
                    i = i + 1;
                }
                assert(all.take(all.len() as int) =~= all);
                text::join_texts(&lines, "\n")
            },
            other => content_to_text(other),
        },
    }
}

pub fn is_str(o: Option<&str>, s: &str) -> (r: bool)
    ensures
        r == (json::opt_str_ref(o) == Some(s@)),
{
    match o {
        Some(t) => text::str_eq(t, s),
        None => false,
    }
}

// ── Anthropic messages to chat messages ─────────────────────────────────────

/// A message of one role.
pub open spec fn chat_message(role: Seq<char>, content: JsonModel) -> JsonModel {
    JsonModel::Object(
        json::nothing().insert("role"@, JsonModel::Str(role)).insert("content"@, content),
    )
}

pub fn message_of(role: &str, content: Json) -> (r: Json)
    ensures
        r@ == chat_message(role@, content@),
{
    Json::Object(Object::new().with("role", Json::text(role)).with("content", content))
}

/// A text part or block.
pub open spec fn text_part(t: Seq<char>) -> JsonModel {
    JsonModel::Object(
        json::nothing().insert("type"@, JsonModel::Str("text"@)).insert(
            "text"@,
            JsonModel::Str(t),
        ),
    )
}

pub fn part_of_text(t: &str) -> (r: Json)
    ensures
        r@ == text_part(t@),
{
    Json::Object(Object::new().with("type", Json::text("text")).with("text", Json::text(t)))
}

/// The blocks of a content value: anything but a list is one text block.
pub open spec fn blocks_of(content: JsonModel) -> Seq<JsonModel> {
    match content {
        JsonModel::Str(t) => seq![text_part(t)],
        JsonModel::Array(items) => items,
        other => seq![text_part(json::json_text(other))],
    }
}

pub fn normalized_blocks(content: &Json) -> (r: Vec<Json>)
    ensures
        json::models(r@) == blocks_of(content@),
{
    match content {
        Json::Array(items) => json::dup_list(items),
        _ => {
            let t = match content {
                Json::Str(t) => t.clone(),
                _ => json::render(content),
            };
            let block = part_of_text(t.as_str());
            let mut out: Vec<Json> = Vec::new();
            proof {
                json::models_push(out@, block);
            }
            out.push(block);
            assert(json::models(out@) =~= blocks_of(content@));
            out
        },
    }
}

/// The kind of a block; a block without one is text.
pub open spec fn block_kind(block: JsonModel) -> Seq<char> {
    to_anthropic::or_str(block.str_at("type"@), "text"@)
}

/// An image of an OpenAI message.
pub open spec fn image_part(url: Seq<char>) -> JsonModel {
    JsonModel::Object(
        json::nothing().insert("type"@, JsonModel::Str("image_url"@)).insert(
            "image_url"@,
            JsonModel::Object(json::nothing().insert("url"@, JsonModel::Str(url))),
        ),
    )
}

/// The image that an image block shows, where its source is one that OpenAI has a form for.
pub open spec fn image_of(block: JsonModel) -> Option<JsonModel> {
    match block.field("source"@) {
        None => None,
        Some(source) => if source.str_at("type"@) == Some("base64"@) {
            match source.str_at("data"@) {
                Some(data) => Some(
                    image_part(
                        "data:"@ + to_anthropic::or_str(
                            source.str_at("media_type"@),
                            "image/png"@,
                        ) + ";base64,"@ + data,
                    ),
                ),
                None => None,
            }
        } else if source.str_at("type"@) == Some("url"@) {
            match source.str_at("url"@) {
                Some(url) => Some(image_part(url)),
                None => None,
            }
        } else {
            None
        },
    }
}

fn image_with(url: String) -> (r: Json)
    ensures
        r@ == image_part(url@),
{
    Json::Object(
        Object::new().with("type", Json::text("image_url")).with(
            "image_url",
            Json::Object(Object::new().with("url", Json::Str(url))),
        ),
    )
}

pub fn block_to_chat_image(block: &Json) -> (r: Option<Json>)
    ensures
        json::opt_model(r) == image_of(block@),
{
    match block.get("source") {
        None => None,
        Some(source) => {
            if is_str(source.str_at("type"), "base64") {
                let media = str_or(source.str_at("media_type"), "image/png");
                match source.str_at("data") {
                    Some(data) => {
                        let mut url = text::concat3("data:", media.as_str(), ";base64,");
                        url.append(data);
                        Some(image_with(url))
                    },
                    None => None,
                }
            } else if is_str(source.str_at("type"), "url") {
                match source.str_at("url") {
                    Some(url) => Some(image_with(text::owned(url))),
                    None => None,
                }
            } else {
                None
            }
        },
    }
}

/// Messages, and the parts that the next user message will hold.
#[verifier::ext_equal]
pub struct UserFold {
    pub messages: Seq<JsonModel>,
    pub parts: Seq<JsonModel>,
}

/// The content that a list of parts makes: one text part is a plain string.
pub open spec fn parts_content(parts: Seq<JsonModel>) -> JsonModel {
    if parts.len() == 1 && parts[0].str_at("type"@) == Some("text"@) {
        JsonModel::Str(json::or_empty(parts[0].str_at("text"@)))
    } else {
        JsonModel::Array(parts)
    }
}

/// The gathered parts become a user message, if there are any.
pub open spec fn flushed(f: UserFold) -> UserFold {
    if f.parts.len() == 0 {
        f
    } else {
        UserFold {
            messages: f.messages.push(chat_message("user"@, parts_content(f.parts))),
            parts: seq![],
        }
    }
}

/// The message of a tool result.
pub open spec fn tool_message(block: JsonModel) -> JsonModel {
    JsonModel::Object(
        json::nothing().insert("role"@, JsonModel::Str("tool"@)).insert(
            "tool_call_id"@,
            JsonModel::Str(to_anthropic::or_str(block.str_at("tool_use_id"@), "tool_call"@)),
        ).insert("content"@, JsonModel::Str(text_of_result(block))),
    )
}

/// A tool result is a message of its own; text and images gather in a user message, and of a
/// block of another kind only its text.
pub open spec fn on_user_block(f: UserFold, block: JsonModel) -> UserFold {
    let kind = block_kind(block);
    if kind == "text"@ {
        UserFold { parts: f.parts.push(text_part(json::or_empty(block.str_at("text"@)))), ..f }
    } else if kind == "image"@ {
        match image_of(block) {
            Some(image) => UserFold { parts: f.parts.push(image), ..f },
            None => f,
        }
    } else if kind == "tool_result"@ {
        let g = flushed(f);
        UserFold { messages: g.messages.push(tool_message(block)), ..g }
    } else {
        let t = json::or_empty(block.str_at("text"@));
        if t.len() > 0 {
            UserFold { parts: f.parts.push(text_part(t)), ..f }
        } else {
            f
        }
    }
}

pub open spec fn on_user_blocks(f: UserFold, blocks: Seq<JsonModel>) -> UserFold
    decreases blocks.len(),
{
    if blocks.len() == 0 {
        f
    } else {
        on_user_block(on_user_blocks(f, blocks.drop_last()), blocks.last())
    }
}

/// The chat messages once a user turn with `content` has been added.
pub open spec fn with_user_turn(messages: Seq<JsonModel>, content: JsonModel) -> Seq<JsonModel> {
    flushed(on_user_blocks(UserFold { messages, parts: seq![] }, blocks_of(content))).messages
}

fn str_or_empty(o: Option<&str>) -> (r: String)
    ensures
        r@ == json::or_empty(json::opt_str_ref(o)),
{
    match o {
        Some(s) => text::owned(s),
        None => String::new(),
    }
}

pub fn flush_user_parts(messages: &mut Vec<Json>, parts: &mut Vec<Json>)
    ensures
        (UserFold {
            messages: json::models(final(messages)@),
            parts: json::models(final(parts)@),
        }) == flushed(
            UserFold { messages: json::models(old(messages)@), parts: json::models(old(parts)@) },
        ),
{
    proof {
        json::models_at(parts@);
    }
    if parts.len() == 0 {
        return ;
    }
    let content = if parts.len() == 1 && is_str(parts[0].str_at("type"), "text") {
        Json::Str(str_or_empty(parts[0].str_at("text")))
    } else {
        Json::Array(json::dup_list(parts))
    };
    assert(content@ == parts_content(json::models(parts@)));
    let message = message_of("user", content);
    proof {
        json::models_push(messages@, message);
    }
    messages.push(message);
    parts.clear();
}

pub fn push_user_chat_messages(messages: &mut Vec<Json>, content: &Json)
    ensures
        json::models(final(messages)@) == with_user_turn(json::models(old(messages)@), content@),
{
    let blocks = normalized_blocks(content);
    let mut parts: Vec<Json> = Vec::new();
    let ghost all = json::models(blocks@);
    let ghost f0 = UserFold { messages: json::models(messages@), parts: seq![] };
    let mut i: usize = 0;
    proof {
        json::models_at(blocks@);
        assert(json::models(parts@) =~= seq![]);
    }
    while i < blocks.len()
        invariant
            i <= blocks.len(),
            all == json::models(blocks@),
            all.len() == blocks.len(),
            (UserFold { messages: json::models(messages@), parts: json::models(parts@) })
                == on_user_blocks(f0, all.take(i as int)),
        decreases blocks.len() - i,
    {
        let block = &blocks[i];
        let ghost f = on_user_blocks(f0, all.take(i as int));
        proof {
            json::models_at(blocks@);
            assert(all.take(i + 1).drop_last() =~= all.take(i as int));
            assert(all.take(i + 1).last() == block@);
        }
        let kind = str_or(block.str_at("type"), "text");
        if text::str_eq(kind.as_str(), "text") {
            let t = str_or_empty(block.str_at("text"));
            let part = part_of_text(t.as_str());
            proof {
                json::models_push(parts@, part);
            }
            parts.push(part);
        } else if text::str_eq(kind.as_str(), "image") {
            match block_to_chat_image(block) {
                Some(image) => {
                    proof {
                        json::models_push(parts@, image);
                    }
                    parts.push(image);
                },
                None => {},
            }
        } else if text::str_eq(kind.as_str(), "tool_result") {
            flush_user_parts(messages, &mut parts);
            let id = str_or(block.str_at("tool_use_id"), "tool_call");
            let output = tool_result_output(block);
            let message = Json::Object(
                Object::new().with("role", Json::text("tool")).with(
                    "tool_call_id",
                    Json::Str(id),
                ).with("content", Json::Str(output)),
            );
            proof {
                json::models_push(messages@, message);
                assert(message@ == tool_message(block@));
            }
            messages.push(message);
        } else {
            let t = str_or_empty(block.str_at("text"));
            if !t.as_str().is_empty() {
                let part = part_of_text(t.as_str());
                proof {
                    json::models_push(parts@, part);
                }
                parts.push(part);
            }
        }
        assert(UserFold { messages: json::models(messages@), parts: json::models(parts@) }
            == on_user_block(f, block@));
        i = i + 1;
    }
    assert(all.take(all.len() as int) =~= all);
    flush_user_parts(messages, &mut parts);
}

/// A tool call as OpenAI writes it.
pub open spec fn function_call(id: Seq<char>, name: Seq<char>, arguments: Seq<char>) -> JsonModel {
    JsonModel::Object(
        json::nothing().insert("id"@, JsonModel::Str(id)).insert(
            "type"@,
            JsonModel::Str("function"@),
        ).insert(
            "function"@,
            JsonModel::Object(
                json::nothing().insert("name"@, JsonModel::Str(name)).insert(
                    "arguments"@,
                    JsonModel::Str(arguments),
                ),
            ),
        ),
    )
}

pub fn function_call_of(id: String, name: String, arguments: String) -> (r: Json)
    ensures
        r@ == function_call(id@, name@, arguments@),
{
    let function = Object::new().with("name", Json::Str(name)).with(
        "arguments",
        Json::Str(arguments),
    );
    Json::Object(
        Object::new().with("id", Json::Str(id)).with("type", Json::text("function")).with(
            "function",
            Json::Object(function),
        ),
    )
}

/// The input of a tool use, if it is an object; an empty object otherwise.
pub open spec fn object_input(input: Option<JsonModel>) -> JsonModel {
    match input {
        Some(v) => if v is Object {
            v
        } else {
            JsonModel::Object(json::nothing())
        },
        None => JsonModel::Object(json::nothing()),
    }
}

/// The tool call that a tool-use block makes.
pub open spec fn call_of_block(block: JsonModel) -> JsonModel {
    function_call(
        to_anthropic::or_str(block.str_at("id"@), "tool_call"@),
        to_anthropic::or_str(block.str_at("name"@), "tool"@),
        json::json_text(object_input(block.field("input"@))),
    )
}

/// A block with what the model thought, which is never given back to a model.
pub open spec fn is_thinking(block: JsonModel) -> bool {
    block_kind(block) == "thinking"@ || block_kind(block) == "redacted_thinking"@
}

/// What an assistant block says.
pub open spec fn said(block: JsonModel) -> Seq<char> {
    if is_tool_use(block) || is_thinking(block) {
        seq![]
    } else {
        json::or_empty(block.str_at("text"@))
    }
}

/// Everything that the blocks say.
pub open spec fn all_said(blocks: Seq<JsonModel>) -> Seq<char>
    decreases blocks.len(),
{
    if blocks.len() == 0 {
        seq![]
    } else {
        all_said(blocks.drop_last()) + said(blocks.last())
    }
}

pub open spec fn is_tool_use(block: JsonModel) -> bool {
    block_kind(block) == "tool_use"@
}

/// The tool calls that the blocks make.
pub open spec fn all_calls(blocks: Seq<JsonModel>) -> Seq<JsonModel>
    decreases blocks.len(),
{
    if blocks.len() == 0 {
        seq![]
    } else if is_tool_use(blocks.last()) {
        all_calls(blocks.drop_last()).push(call_of_block(blocks.last()))
    } else {
        all_calls(blocks.drop_last())
    }
}

/// An assistant message. Its content is null only beside tool calls.
pub open spec fn assistant_message(said: Seq<char>, calls: Seq<JsonModel>) -> JsonModel {
    let content = if said.len() > 0 || calls.len() == 0 {
        JsonModel::Str(said)
    } else {
        JsonModel::Null
    };
    let message = json::nothing().insert("role"@, JsonModel::Str("assistant"@)).insert(
        "content"@,
        content,
    );
    JsonModel::Object(
        if calls.len() > 0 {
            message.insert("tool_calls"@, JsonModel::Array(calls))
        } else {
            message
        },
    )
}

/// The chat message of an assistant turn with `content`.
pub open spec fn assistant_turn(content: JsonModel) -> JsonModel {
    assistant_message(all_said(blocks_of(content)), all_calls(blocks_of(content)))
}

pub fn push_assistant_chat_message(messages: &mut Vec<Json>, content: &Json)
    ensures
        json::models(final(messages)@) == json::models(old(messages)@).push(
            assistant_turn(content@),
        ),
{
    let blocks = normalized_blocks(content);
    let ghost all = json::models(blocks@);
    let mut words = String::new();
    let mut calls: Vec<Json> = Vec::new();
    let mut i: usize = 0;
    proof {
        json::models_at(blocks@);
    }
    while i < blocks.len()
        invariant
            i <= blocks.len(),
            all == json::models(blocks@),
            all.len() == blocks.len(),
            words@ == all_said(all.take(i as int)),
            json::models(calls@) == all_calls(all.take(i as int)),
        decreases blocks.len() - i,
    {
        let block = &blocks[i];
        let ghost before = words@;
        proof {
            json::models_at(blocks@);
            assert(all.take(i + 1).drop_last() =~= all.take(i as int));
            assert(all.take(i + 1).last() == block@);
        }
        let kind = str_or(block.str_at("type"), "text");
        if text::str_eq(kind.as_str(), "tool_use") {
            let input = match block.get("input") {
                Some(v) => match v {
                    Json::Object(_) => v.dup(),
                    _ => Json::Object(Object::new()),
                },
                None => Json::Object(Object::new()),
            };
            let call = function_call_of(
                str_or(block.str_at("id"), "tool_call"),
                str_or(block.str_at("name"), "tool"),
                json::render(&input),
            );
            proof {
                json::models_push(calls@, call);
                assert(words@ + said(block@) =~= words@);
            }
            calls.push(call);
        } else if text::str_eq(kind.as_str(), "thinking") || text::str_eq(
            kind.as_str(),
            "redacted_thinking",
        ) {
            assert(words@ + said(block@) =~= words@);
        } else {
            match block.str_at("text") {
                Some(part) => {
                    words.append(part);
                },
                None => {
                    assert(words@ + said(block@) =~= words@);
                },
            }
        }
        assert(words@ == before + said(block@));
        i = i + 1;
    }
    assert(all.take(all.len() as int) =~= all);
    proof {
        json::models_at(calls@);
    }
    let silent = words.as_str().is_empty();
    let content_value = if !silent || calls.len() == 0 {
        Json::Str(words)
    } else {
        Json::Null
    };
    let mut message = Object::new().with("role", Json::text("assistant")).with(
        "content",
        content_value,
    );
    if calls.len() > 0 {
        message.put("tool_calls", Json::Array(calls));
    }
    let turn = Json::Object(message);
    proof {
        json::models_push(messages@, turn);
        assert(turn@ == assistant_turn(content@));
    }
    messages.push(turn);
}

// ── Laws of the assistant turn ──────────────────────────────────────────────

/// The blocks without what the model thought.
pub open spec fn without_thinking(blocks: Seq<JsonModel>) -> Seq<JsonModel> {
    blocks.filter(|b: JsonModel| !is_thinking(b))
}

proof fn thinking_says_nothing(blocks: Seq<JsonModel>)
    ensures
        all_said(without_thinking(blocks)) == all_said(blocks),
        all_calls(without_thinking(blocks)) == all_calls(blocks),
    decreases blocks.len(),
{
    reveal(Seq::filter);
    reveal_strlit("thinking");
    reveal_strlit("redacted_thinking");
    reveal_strlit("tool_use");
    assert("thinking"@.len() == 8 && "redacted_thinking"@.len() == 17);
    assert("thinking"@[1] == 'h' && "tool_use"@[1] == 'o');
    assert("tool_use"@.len() == 8);
    if blocks.len() > 0 {
        let rest = blocks.drop_last();
        thinking_says_nothing(rest);
        let kept = without_thinking(rest);
        if is_thinking(blocks.last()) {
            assert(without_thinking(blocks) =~= kept);
            assert(all_said(rest) + said(blocks.last()) =~= all_said(rest));
        } else {
            assert(without_thinking(blocks) =~= kept.push(blocks.last()));
            assert(kept.push(blocks.last()).drop_last() =~= kept);
        }
    }
}

/// What the model thought never reaches a prompt: an assistant turn is translated as if the
/// thinking blocks were not there.
pub proof fn thinking_never_reaches_the_prompt(blocks: Seq<JsonModel>)
    ensures
        assistant_turn(JsonModel::Array(blocks)) == assistant_turn(
            JsonModel::Array(without_thinking(blocks)),
        ),
{
    thinking_says_nothing(blocks);
}

/// An assistant message says something or calls something, or has an empty string for its
/// content: null content never stands alone.
pub proof fn assistant_content_is_null_only_with_calls(content: JsonModel)
    ensures
        assistant_turn(content).field("content"@) is Some,
        assistant_turn(content).field("content"@) == Some(JsonModel::Null) ==> (
        assistant_turn(content).array_at("tool_calls"@) matches Some(calls) && calls.len() > 0),
{
    reveal_strlit("content");
    reveal_strlit("tool_calls");
    assert("content"@.len() == 7 && "tool_calls"@.len() == 10);
}

/// The block is an image.
pub open spec fn is_image(item: JsonModel) -> bool {
    item.str() is None && item.str_at("type"@) == Some("image"@)
}

proof fn images_read_alike(a: Seq<JsonModel>, b: Seq<JsonModel>)
    requires
        a.len() == b.len(),
        forall|i: int|
            0 <= i < a.len() ==> #[trigger] a[i] == #[trigger] b[i] || is_image(a[i]) && is_image(b[i]),
    ensures
        result_lines(a) == result_lines(b),
    decreases a.len(),
{
    if a.len() > 0 {
        let (p, q) = (a.drop_last(), b.drop_last());
        assert forall|i: int| 0 <= i < p.len() implies #[trigger] p[i] == #[trigger] q[i]
            || is_image(p[i]) && is_image(q[i]) by {
            assert(p[i] == a[i] && q[i] == b[i]);
        }
        images_read_alike(p, q);
        assert(a[a.len() - 1] == b[b.len() - 1] || is_image(a.last()) && is_image(b.last()));
    }
}

/// What an image shows never reaches the text of a tool result: with another image in its
/// place, the text is the same.
pub proof fn images_never_reach_a_result(x: JsonModel, y: JsonModel)
    requires
        x.array_at("content"@) matches Some(a) && y.array_at("content"@) matches Some(b) && {
            &&& a.len() == b.len()
            &&& forall|i: int|
                0 <= i < a.len() ==> #[trigger] a[i] == #[trigger] b[i] || is_image(a[i])
                    && is_image(b[i])
        },
    ensures
        text_of_result(x) == text_of_result(y),
{
    images_read_alike(x.array_at("content"@)->Some_0, y.array_at("content"@)->Some_0);
}

// ── Anthropic requests to chat requests ─────────────────────────────────────

/// A tool that Anthropic runs itself, which its kind `web_search_*` shows: an OpenAI-shaped
/// backend has no way to run it.
pub open spec fn is_hosted(tool: ToolModel) -> bool {
    match JsonModel::Object(tool.extra).str_at("type"@) {
        Some(kind) => text::starts_with(kind, "web_search_"@),
        None => false,
    }
}

pub fn is_hosted_web_search_tool(tool: &AnthropicTool) -> (r: bool)
    ensures
        r == is_hosted(tool@),
{
    match tool.extra.get("type") {
        Some(kind) => match kind.as_str() {
            Some(k) => text::has_prefix(k, "web_search_"),
            None => false,
        },
        None => false,
    }
}

/// A tool as OpenAI takes it.
pub open spec fn chat_tool(tool: ToolModel) -> JsonModel {
    let named = json::nothing().insert("name"@, JsonModel::Str(tool.name));
    let described = match tool.description {
        Some(d) => named.insert("description"@, JsonModel::Str(d)),
        None => named,
    };
    let function = match tool.input_schema {
        Some(schema) => described.insert("parameters"@, schema),
        None => described,
    };
    JsonModel::Object(
        json::nothing().insert("type"@, JsonModel::Str("function"@)).insert(
            "function"@,
            JsonModel::Object(function),
        ),
    )
}

/// The tools that an OpenAI-shaped backend can be offered.
pub open spec fn chat_tools(tools: Seq<ToolModel>) -> Seq<JsonModel>
    decreases tools.len(),
{
    if tools.len() == 0 {
        seq![]
    } else if is_hosted(tools.last()) {
        chat_tools(tools.drop_last())
    } else {
        chat_tools(tools.drop_last()).push(chat_tool(tools.last()))
    }
}

/// The tools that Anthropic would run.
pub open spec fn hosted_of(tools: Seq<ToolModel>) -> Seq<ToolModel>
    decreases tools.len(),
{
    if tools.len() == 0 {
        seq![]
    } else if is_hosted(tools.last()) {
        hosted_of(tools.drop_last()).push(tools.last())
    } else {
        hosted_of(tools.drop_last())
    }
}

/// The tools that an OpenAI-shaped backend can be offered; the hosted ones go to
/// `hosted_tools`.
pub fn translate_chat_tools(tools: &Vec<AnthropicTool>, hosted_tools: &mut Vec<AnthropicTool>) -> (r:
    Vec<Json>)
    ensures
        json::models(r@) == chat_tools(types::tool_models(tools@)),
        types::tool_models(final(hosted_tools)@) == types::tool_models(old(hosted_tools)@)
            + hosted_of(types::tool_models(tools@)),
{
    let ghost all = types::tool_models(tools@);
    let ghost hosted0 = types::tool_models(hosted_tools@);
    let mut out: Vec<Json> = Vec::new();
    let mut i: usize = 0;
    assert(hosted0 + hosted_of(all.take(0)) =~= hosted0);
    while i < tools.len()
        invariant
            i <= tools.len(),
            all == types::tool_models(tools@),
            json::models(out@) == chat_tools(all.take(i as int)),
            types::tool_models(hosted_tools@) == hosted0 + hosted_of(all.take(i as int)),
        decreases tools.len() - i,
    {
        let tool = &tools[i];
        proof {
            assert(all.take(i + 1).drop_last() =~= all.take(i as int));
            assert(all.take(i + 1).last() == tool@);
        }
        if is_hosted_web_search_tool(tool) {
            let copy = tool.dup();
            proof {
                types::tool_models_push(hosted_tools@, copy);
                assert((hosted0 + hosted_of(all.take(i as int))).push(copy@) =~= hosted0
                    + hosted_of(all.take(i + 1)));
            }
            hosted_tools.push(copy);
        } else {
            let mut function = Object::new().with("name", Json::text(tool.name.as_str()));
            match &tool.description {
                Some(d) => {
                    function.put("description", Json::text(d.as_str()));
                },
                None => {},
            }
            match &tool.input_schema {
                Some(schema) => {
                    function.put("parameters", schema.dup());
                },
                None => {},
            }
            let offered = Json::Object(
                Object::new().with("type", Json::text("function")).with(
                    "function",
                    Json::Object(function),
                ),
            );
            proof {
                json::models_push(out@, offered);
                assert(offered@ == chat_tool(tool@));
            }
            out.push(offered);
        }
        i = i + 1;
    }
    assert(all.take(all.len() as int) =~= all);
    out
}

/// Which tool a chat request wants called.
pub open spec fn chat_tool_choice(choice: JsonModel) -> JsonModel {
    let kind = choice.str_at("type"@);
    if kind == Some("any"@) {
        JsonModel::Str("required"@)
    } else if kind == Some("tool"@) {
        JsonModel::Object(
            json::nothing().insert("type"@, JsonModel::Str("function"@)).insert(
                "function"@,
                JsonModel::Object(
                    json::nothing().insert(
                        "name"@,
                        JsonModel::Str(to_anthropic::or_str(choice.str_at("name"@), "tool"@)),
                    ),
                ),
            ),
        )
    } else {
        JsonModel::Str("auto"@)
    }
}

pub fn translate_chat_tool_choice(choice: &Json) -> (r: Json)
    ensures
        r@ == chat_tool_choice(choice@),
{
    if is_str(choice.str_at("type"), "any") {
        Json::text("required")
    } else if is_str(choice.str_at("type"), "tool") {
        let name = str_or(choice.str_at("name"), "tool");
        Json::Object(
            Object::new().with("type", Json::text("function")).with(
                "function",
                Json::Object(Object::new().with("name", Json::Str(name))),
            ),
        )
    } else {
        Json::text("auto")
    }
}

/// The format of the answer: JSON, where the client asked for that.
pub open spec fn response_format(output_config: Option<JsonModel>) -> Option<JsonModel> {
    match output_config {
        Some(config) => match config.field("format"@) {
            Some(format) => if format.str_at("type"@) == Some("json"@) {
                Some(
                    JsonModel::Object(
                        json::nothing().insert("type"@, JsonModel::Str("json_object"@)),
                    ),
                )
            } else {
                None
            },
            None => None,
        },
        None => None,
    }
}

pub fn chat_response_format(request: &AnthropicRequest) -> (r: Option<Json>)
    ensures
        json::opt_model(r) == response_format(request@.output_config),
{
    match &request.output_config {
        Some(config) => match config.get("format") {
            Some(format) => if is_str(format.str_at("type"), "json") {
                Some(Json::Object(Object::new().with("type", Json::text("json_object"))))
            } else {
                None
            },
            None => None,
        },
        None => None,
    }
}

/// OpenAI's `stop` for Anthropic's `stop_sequences`.
pub open spec fn stop_of(sequences: Option<JsonModel>) -> Option<JsonModel> {
    match sequences {
        Some(JsonModel::Array(items)) => if items.len() > 0 {
            Some(JsonModel::Array(items))
        } else {
            None
        },
        Some(JsonModel::Str(s)) => Some(JsonModel::Array(seq![JsonModel::Str(s)])),
        _ => None,
    }
}

fn stop_from(sequences: Option<&Json>) -> (r: Option<Json>)
    ensures
        json::opt_model(r) == stop_of(json::opt_model_ref(sequences)),
{
    match sequences {
        Some(value) => match value {
            Json::Array(items) => {
                proof {
                    json::models_at(items@);
                }
                if items.len() > 0 {
                    Some(value.dup())
                } else {
                    None
                }
            },
            Json::Str(s) => {
                let mut list: Vec<Json> = Vec::new();
                let item = Json::text(s.as_str());
                proof {
                    json::models_push(list@, item);
                }
                list.push(item);
                assert(json::models(list@) =~= seq![JsonModel::Str(s@)]);
                Some(Json::Array(list))
            },
            _ => None,
        },
        None => None,
    }
}

pub open spec fn is_known_role(role: Seq<char>) -> bool {
    role == "user"@ || role == "assistant"@ || role == "system"@
}

/// The chat messages with a system message, unless that would be empty.
pub open spec fn with_system(messages: Seq<JsonModel>, content: JsonModel) -> Seq<JsonModel> {
    let t = text_of_content(content);
    if t.len() > 0 {
        messages.push(chat_message("system"@, JsonModel::Str(t)))
    } else {
        messages
    }
}

/// The chat messages once an Anthropic turn has been added.
pub open spec fn with_turn(messages: Seq<JsonModel>, m: MessageModel) -> Seq<JsonModel> {
    if m.role == "user"@ {
        with_user_turn(messages, m.content)
    } else if m.role == "assistant"@ {
        messages.push(assistant_turn(m.content))
    } else {
        with_system(messages, m.content)
    }
}

pub open spec fn with_turns(messages: Seq<JsonModel>, turns: Seq<MessageModel>) -> Seq<JsonModel>
    decreases turns.len(),
{
    if turns.len() == 0 {
        messages
    } else {
        with_turn(with_turns(messages, turns.drop_last()), turns.last())
    }
}

/// The chat messages of an Anthropic request.
pub open spec fn chat_messages(request: AnthropicRequestModel) -> Seq<JsonModel> {
    let start = match request.system {
        Some(system) => with_system(seq![], system),
        None => seq![],
    };
    with_turns(start, request.messages)
}

/// The first role that has no place in a chat request.
pub open spec fn unknown_role(turns: Seq<MessageModel>) -> Option<Seq<char>>
    decreases turns.len(),
{
    if turns.len() == 0 {
        None
    } else {
        match unknown_role(turns.drop_last()) {
            Some(role) => Some(role),
            None => if is_known_role(turns.last().role) {
                None
            } else {
                Some(turns.last().role)
            },
        }
    }
}

/// The chat request for an Anthropic one.
pub open spec fn chat_request(request: AnthropicRequestModel, model: Seq<char>) -> ChatRequestModel {
    let tools = match request.tools {
        Some(t) => if chat_tools(t).len() > 0 {
            Some(chat_tools(t))
        } else {
            None
        },
        None => None,
    };
    ChatRequestModel {
        model,
        messages: chat_messages(request),
        stream: request.stream == Some(true),
        tools,
        tool_choice: if tools is Some {
            match request.tool_choice {
                Some(c) => Some(chat_tool_choice(c)),
                None => None,
            }
        } else {
            None
        },
        parallel_tool_calls: None,
        max_tokens: request.max_tokens,
        temperature: request.temperature,
        top_p: request.top_p,
        response_format: response_format(request.output_config),
        stop: stop_of(JsonModel::Object(request.extra).field("stop_sequences"@)),
        extra: json::nothing(),
    }
}

/// The hosted tools of an Anthropic request.
pub open spec fn hosted_tools_of(request: AnthropicRequestModel) -> Seq<ToolModel> {
    match request.tools {
        Some(t) => hosted_of(t),
        None => seq![],
    }
}

/// A translated request, and the hosted tools that were asked for and left out of it.
pub struct TranslatedChatRequest {
    pub request: ChatCompletionsRequest,
    pub hosted_tools: Vec<AnthropicTool>,
}

pub open spec fn role_error(role: Seq<char>) -> Seq<char> {
    "unsupported message role \""@ + role + "\""@
}

fn push_system(messages: &mut Vec<Json>, content: &Json)
    ensures
        json::models(final(messages)@) == with_system(json::models(old(messages)@), content@),
{
    let t = content_to_text(content);
    if !t.as_str().is_empty() {
        let message = message_of("system", Json::Str(t));
        proof {
            json::models_push(messages@, message);
        }
        messages.push(message);
    }
}

/// The chat request for an Anthropic one, with the hosted tools that were left out of it.
pub fn translate_anthropic_to_openai_request_ex(
    request: &AnthropicRequest,
    upstream_model: &str,
) -> (r: Result<TranslatedChatRequest, ConverterError>)
    ensures
        match r {
            Ok(t) => unknown_role(request@.messages) is None && t.request@ == chat_request(
                request@,
                upstream_model@,
            ) && types::tool_models(t.hosted_tools@) == hosted_tools_of(request@),
            Err(ConverterError::InvalidRequest(m)) => unknown_role(request@.messages) matches Some(
                role,
            ) && m@ == role_error(role),
            Err(_) => false,
        },
{
    let mut messages: Vec<Json> = Vec::new();
    match &request.system {
        Some(system) => push_system(&mut messages, system),
        None => {},
    }
    let ghost start = json::models(messages@);
    let ghost turns = request@.messages;
    let mut i: usize = 0;
    while i < request.messages.len()
        invariant
            i <= request.messages.len(),
            turns == types::message_models(request.messages@),
            json::models(messages@) == with_turns(start, turns.take(i as int)),
            unknown_role(turns.take(i as int)) is None,
        decreases request.messages.len() - i,
    {
        let message = &request.messages[i];
        proof {
            assert(turns.take(i + 1).drop_last() =~= turns.take(i as int));
            assert(turns.take(i + 1).last() == message@);
        }
        let role = message.role.as_str();
        if text::str_eq(role, "user") {
            push_user_chat_messages(&mut messages, &message.content);
        } else if text::str_eq(role, "assistant") {
            push_assistant_chat_message(&mut messages, &message.content);
        } else if text::str_eq(role, "system") {
            push_system(&mut messages, &message.content);
        } else {
            proof {
                unknown_role_stays(turns, i + 1);
            }
            return Err(
                ConverterError::InvalidRequest(
                    text::concat3("unsupported message role \"", role, "\""),
                ),
            );
        }
        i = i + 1;
    }
    assert(turns.take(turns.len() as int) =~= turns);
    let mut hosted_tools: Vec<AnthropicTool> = Vec::new();
    assert(types::tool_models(hosted_tools@) =~= seq![]);
    let tools: Option<Vec<Json>> = match &request.tools {
        Some(list) => {
            let out = translate_chat_tools(list, &mut hosted_tools);
            proof {
                json::models_at(out@);
                assert(Seq::<ToolModel>::empty() + hosted_of(types::tool_models(list@))
                    =~= hosted_of(types::tool_models(list@)));
            }
            if out.len() > 0 {
                Some(out)
            } else {
                None
            }
        },
        None => None,
    };
    let tool_choice = match &tools {
        Some(_) => match &request.tool_choice {
            Some(c) => Some(translate_chat_tool_choice(c)),
            None => None,
        },
        None => None,
    };
    let stop = stop_from(request.extra.get("stop_sequences"));
    Ok(
        TranslatedChatRequest {
            request: ChatCompletionsRequest {
                model: text::owned(upstream_model),
                messages,
                stream: request.wants_stream(),
                tools,
                tool_choice,
                parallel_tool_calls: None,
                max_tokens: request.max_tokens,
                temperature: json::dup_opt_num(&request.temperature),
                top_p: json::dup_opt_num(&request.top_p),
                response_format: chat_response_format(request),
                stop,
                extra: Object::new(),
            },
            hosted_tools,
        },
    )
}

/// The first unknown role of a beginning is that of the whole.
proof fn unknown_role_stays(turns: Seq<MessageModel>, k: int)
    requires
        0 <= k <= turns.len(),
        unknown_role(turns.take(k)) is Some,
    ensures
        unknown_role(turns) == unknown_role(turns.take(k)),
    decreases turns.len() - k,
{
    if k < turns.len() {
        assert(turns.take(k + 1).drop_last() =~= turns.take(k));
        unknown_role_stays(turns, k + 1);
    } else {
        assert(turns.take(k) =~= turns);
    }
}

/// The chat request for an Anthropic one.
pub fn translate_anthropic_to_openai_request(request: &AnthropicRequest, upstream_model: &str) -> (r:
    Result<ChatCompletionsRequest, ConverterError>)
    ensures
        match r {
            Ok(c) => unknown_role(request@.messages) is None && c@ == chat_request(
                request@,
                upstream_model@,
            ),
            Err(ConverterError::InvalidRequest(m)) => unknown_role(request@.messages) matches Some(
                role,
            ) && m@ == role_error(role),
            Err(_) => false,
        },
{
    match translate_anthropic_to_openai_request_ex(request, upstream_model) {
        Ok(t) => Ok(t.request),
        Err(e) => Err(e),
    }
}

} // verus!
