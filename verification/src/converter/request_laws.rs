//! That an Anthropic request keeps what it says when it becomes a chat request.
use vstd::prelude::*;

use crate::converter::translate::{self, UserFold};
use crate::converter::types::{AnthropicRequestModel, MessageModel, ToolModel};
use crate::json::{self, JsonModel};
use crate::text;

verus! {

/// The words of the two protocols are different words.
pub(crate) proof fn words_differ()
    ensures
        "role"@ != "content"@,
        "role"@ != "tool_calls"@,
        "role"@ != "tool_call_id"@,
        "content"@ != "tool_calls"@,
        "content"@ != "tool_call_id"@,
        "tool_calls"@ != "tool_call_id"@,
        "type"@ != "text"@,
        "type"@ != "image_url"@,
        "type"@ != "id"@,
        "type"@ != "function"@,
        "type"@ != "source"@,
        "type"@ != "tool_use_id"@,
        "type"@ != "content"@,
        "type"@ != "name"@,
        "type"@ != "input"@,
        "text"@ != "image_url"@,
        "text"@ != "id"@,
        "text"@ != "function"@,
        "text"@ != "source"@,
        "text"@ != "tool_use_id"@,
        "text"@ != "content"@,
        "text"@ != "name"@,
        "text"@ != "input"@,
        "image_url"@ != "id"@,
        "image_url"@ != "function"@,
        "image_url"@ != "source"@,
        "image_url"@ != "tool_use_id"@,
        "image_url"@ != "content"@,
        "image_url"@ != "name"@,
        "image_url"@ != "input"@,
        "id"@ != "function"@,
        "id"@ != "source"@,
        "id"@ != "tool_use_id"@,
        "id"@ != "content"@,
        "id"@ != "name"@,
        "id"@ != "input"@,
        "function"@ != "source"@,
        "function"@ != "tool_use_id"@,
        "function"@ != "content"@,
        "function"@ != "name"@,
        "function"@ != "input"@,
        "source"@ != "tool_use_id"@,
        "source"@ != "content"@,
        "source"@ != "name"@,
        "source"@ != "input"@,
        "tool_use_id"@ != "content"@,
        "tool_use_id"@ != "name"@,
        "tool_use_id"@ != "input"@,
        "content"@ != "name"@,
        "content"@ != "input"@,
        "name"@ != "input"@,
        "name"@ != "arguments"@,
        "name"@ != "description"@,
        "name"@ != "parameters"@,
        "arguments"@ != "description"@,
        "arguments"@ != "parameters"@,
        "description"@ != "parameters"@,
        "type"@ != "media_type"@,
        "type"@ != "data"@,
        "type"@ != "url"@,
        "media_type"@ != "data"@,
        "media_type"@ != "url"@,
        "data"@ != "url"@,
        "user"@ != "assistant"@,
        "user"@ != "system"@,
        "user"@ != "tool"@,
        "user"@ != "developer"@,
        "assistant"@ != "system"@,
        "assistant"@ != "tool"@,
        "assistant"@ != "developer"@,
        "system"@ != "tool"@,
        "system"@ != "developer"@,
        "tool"@ != "developer"@,
        "text"@ != "image"@,
        "text"@ != "tool_result"@,
        "text"@ != "tool_use"@,
        "text"@ != "thinking"@,
        "text"@ != "redacted_thinking"@,
        "image"@ != "tool_result"@,
        "image"@ != "tool_use"@,
        "image"@ != "thinking"@,
        "image"@ != "redacted_thinking"@,
        "image"@ != "image_url"@,
        "tool_result"@ != "tool_use"@,
        "tool_result"@ != "thinking"@,
        "tool_result"@ != "redacted_thinking"@,
        "tool_result"@ != "image_url"@,
        "tool_use"@ != "thinking"@,
        "tool_use"@ != "redacted_thinking"@,
        "tool_use"@ != "image_url"@,
        "thinking"@ != "redacted_thinking"@,
        "thinking"@ != "image_url"@,
        "redacted_thinking"@ != "image_url"@,
        "base64"@ != "url"@,
        "auto"@ != "any"@,
        "auto"@ != "tool"@,
        "auto"@ != "required"@,
        "any"@ != "tool"@,
        "any"@ != "required"@,
        "tool"@ != "required"@,
{
    reveal_strlit("role");
    reveal_strlit("content");
    reveal_strlit("tool_calls");
    reveal_strlit("tool_call_id");
    reveal_strlit("type");
    reveal_strlit("text");
    reveal_strlit("image_url");
    reveal_strlit("id");
    reveal_strlit("function");
    reveal_strlit("source");
    reveal_strlit("tool_use_id");
    reveal_strlit("name");
    reveal_strlit("input");
    reveal_strlit("arguments");
    reveal_strlit("description");
    reveal_strlit("parameters");
    reveal_strlit("media_type");
    reveal_strlit("data");
    reveal_strlit("url");
    reveal_strlit("user");
    reveal_strlit("assistant");
    reveal_strlit("system");
    reveal_strlit("tool");
    reveal_strlit("developer");
    reveal_strlit("image");
    reveal_strlit("tool_result");
    reveal_strlit("tool_use");
    reveal_strlit("thinking");
    reveal_strlit("redacted_thinking");
    reveal_strlit("base64");
    reveal_strlit("auto");
    reveal_strlit("any");
    reveal_strlit("required");
    assert("role"@.len() == 4 && "content"@.len() == 7);
    assert("tool_calls"@.len() == 10 && "tool_call_id"@.len() == 12);
    assert("type"@.len() == 4 && "text"@.len() == 4);
    assert("image_url"@.len() == 9 && "id"@.len() == 2);
    assert("function"@.len() == 8 && "source"@.len() == 6);
    assert("tool_use_id"@.len() == 11 && "name"@.len() == 4);
    assert("input"@.len() == 5 && "arguments"@.len() == 9);
    assert("description"@.len() == 11 && "parameters"@.len() == 10);
    assert("media_type"@.len() == 10 && "data"@.len() == 4);
    assert("url"@.len() == 3 && "user"@.len() == 4);
    assert("assistant"@.len() == 9 && "system"@.len() == 6);
    assert("tool"@.len() == 4 && "developer"@.len() == 9);
    assert("image"@.len() == 5 && "tool_result"@.len() == 11);
    assert("tool_use"@.len() == 8 && "thinking"@.len() == 8);
    assert("redacted_thinking"@.len() == 17 && "base64"@.len() == 6);
    assert("auto"@.len() == 4 && "any"@.len() == 3);
    assert("required"@.len() == 8);
    assert("assistant"@[0] == 'a' && "auto"@[0] == 'a');
    assert("data"@[0] == 'd' && "developer"@[0] == 'd');
    assert("name"@[0] == 'n' && "text"@[0] == 't');
    assert("text"@[1] == 'e' && "thinking"@[1] == 'h');
    assert("tool"@[0] == 't' && "tool_use"@[1] == 'o');
    assert("type"@[0] == 't' && "type"@[1] == 'y');
    assert("user"@[0] == 'u');
}

// ── What a conversation says ────────────────────────────────────────────────

/// A tool call of an assistant, with its arguments as JSON text.
#[verifier::ext_equal]
pub struct Called {
    pub id: Seq<char>,
    pub name: Seq<char>,
    pub arguments: Seq<char>,
}

/// What is said in a conversation.
#[verifier::ext_equal]
pub enum Utterance {
    System(Seq<char>),
    User(Seq<char>),
    /// A picture of the user, by its address.
    Picture(Seq<char>),
    /// What a tool call returned.
    Returned { call: Seq<char>, text: Seq<char> },
    Assistant { text: Seq<char>, calls: Seq<Called> },
}

/// The user says a text, unless it is empty.
pub open spec fn user_says(t: Seq<char>) -> Seq<Utterance> {
    if t.len() > 0 {
        seq![Utterance::User(t)]
    } else {
        seq![]
    }
}

pub open spec fn system_says(t: Seq<char>) -> Seq<Utterance> {
    if t.len() > 0 {
        seq![Utterance::System(t)]
    } else {
        seq![]
    }
}

/// The words of an item of a list: a string, the text of a part, or else the item written out.
pub open spec fn item_words(i: JsonModel) -> Seq<char> {
    if i is Str {
        i->Str_0
    } else if i.str_at("text"@) is Some {
        i.str_at("text"@)->Some_0
    } else {
        json::json_text(i)
    }
}

/// The words of a content: a string, or those of a list, each item on a line of its own; any
/// other content but null is written out.
pub open spec fn content_words(c: JsonModel) -> Seq<char> {
    match c {
        JsonModel::Str(t) => t,
        JsonModel::Array(items) => text::join(
            items.map_values(|i: JsonModel| item_words(i)),
            "\n"@,
        ),
        JsonModel::Null => seq![],
        _ => json::json_text(c),
    }
}

pub(crate) proof fn words_are_the_text(c: JsonModel)
    ensures
        translate::text_of_content(c) == content_words(c),
{
    if let JsonModel::Array(items) = c {
        assert(items.map_values(|i: JsonModel| translate::item_text(i)) =~= items.map_values(
            |i: JsonModel| item_words(i),
        ));
    }
}

// ── Chat messages, as they are read ─────────────────────────────────────────

/// A part of a user message.
pub open spec fn part_says(p: JsonModel) -> Seq<Utterance> {
    if p.str_at("type"@) == Some("text"@) {
        user_says(json::or_empty(p.str_at("text"@)))
    } else if p.str_at("type"@) == Some("image_url"@) {
        seq![Utterance::Picture(json::or_empty(p.field_or_null("image_url"@).str_at("url"@)))]
    } else {
        seq![]
    }
}

pub open spec fn parts_say(ps: Seq<JsonModel>) -> Seq<Utterance>
    decreases ps.len(),
{
    if ps.len() == 0 {
        seq![]
    } else {
        parts_say(ps.drop_last()) + part_says(ps.last())
    }
}

pub open spec fn call_says(c: JsonModel) -> Called {
    Called {
        id: json::or_empty(c.str_at("id"@)),
        name: json::or_empty(c.field_or_null("function"@).str_at("name"@)),
        arguments: json::or_empty(c.field_or_null("function"@).str_at("arguments"@)),
    }
}

pub open spec fn calls_say(m: JsonModel) -> Seq<Called> {
    match m.array_at("tool_calls"@) {
        Some(cs) => cs.map_values(|c: JsonModel| call_says(c)),
        None => seq![],
    }
}

/// A message of a chat request.
pub open spec fn message_says(m: JsonModel) -> Seq<Utterance> {
    let role = m.str_at("role"@);
    if role == Some("system"@) {
        system_says(json::or_empty(m.str_at("content"@)))
    } else if role == Some("user"@) {
        match m.field_or_null("content"@) {
            JsonModel::Str(t) => user_says(t),
            JsonModel::Array(ps) => parts_say(ps),
            _ => seq![],
        }
    } else if role == Some("tool"@) {
        seq![
            Utterance::Returned {
                call: json::or_empty(m.str_at("tool_call_id"@)),
                text: json::or_empty(m.str_at("content"@)),
            },
        ]
    } else if role == Some("assistant"@) {
        seq![
            Utterance::Assistant { text: json::or_empty(m.str_at("content"@)), calls: calls_say(m) },
        ]
    } else {
        seq![]
    }
}

pub open spec fn chat_says(ms: Seq<JsonModel>) -> Seq<Utterance>
    decreases ms.len(),
{
    if ms.len() == 0 {
        seq![]
    } else {
        chat_says(ms.drop_last()) + message_says(ms.last())
    }
}

// ── Anthropic turns, as they are read ───────────────────────────────────────

/// The address of a picture; one that is sent along is written as a data address, as a PNG where
/// its kind is not told.
pub open spec fn picture_address(source: JsonModel) -> Seq<char> {
    if source.str_at("type"@) == Some("base64"@) {
        "data:"@ + told_or(source.str_at("media_type"@), "image/png"@) + ";base64,"@
            + json::or_empty(source.str_at("data"@))
    } else {
        json::or_empty(source.str_at("url"@))
    }
}

/// What is told, or else what stands for it.
pub open spec fn told_or(o: Option<Seq<char>>, default: Seq<char>) -> Seq<char> {
    if o is Some {
        o->Some_0
    } else {
        default
    }
}

/// The lines of what a tool returned. Pictures are not passed on, and what has no text says
/// nothing.
pub open spec fn returned_lines(items: Seq<JsonModel>) -> Seq<Seq<char>>
    decreases items.len(),
{
    if items.len() == 0 {
        seq![]
    } else {
        let before = returned_lines(items.drop_last());
        let item = items.last();
        if item is Str {
            before.push(item->Str_0)
        } else if item.str_at("type"@) == Some("image"@) {
            before.push("[image omitted]"@)
        } else if item.str_at("text"@) is Some {
            before.push(item.str_at("text"@)->Some_0)
        } else {
            before
        }
    }
}

pub open spec fn returned_words(c: JsonModel) -> Seq<char> {
    match c {
        JsonModel::Str(t) => t,
        JsonModel::Array(items) => text::join(returned_lines(items), "\n"@),
        JsonModel::Null => seq![],
        _ => json::json_text(c),
    }
}

/// What a block is. One that does not say is text.
pub open spec fn kind(b: JsonModel) -> Seq<char> {
    told_or(b.str_at("type"@), "text"@)
}

/// A block of a user turn. A block of another kind says its text, if it has one.
pub open spec fn user_block_says(b: JsonModel) -> Seq<Utterance> {
    if kind(b) == "image"@ {
        if is_source(b.field_or_null("source"@)) {
            seq![Utterance::Picture(picture_address(b.field_or_null("source"@)))]
        } else {
            seq![]
        }
    } else if kind(b) == "tool_result"@ {
        seq![
            Utterance::Returned {
                call: told_or(b.str_at("tool_use_id"@), "tool_call"@),
                text: returned_words(b.field_or_null("content"@)),
            },
        ]
    } else {
        user_says(json::or_empty(b.str_at("text"@)))
    }
}

pub open spec fn user_blocks_say(bs: Seq<JsonModel>) -> Seq<Utterance>
    decreases bs.len(),
{
    if bs.len() == 0 {
        seq![]
    } else {
        user_blocks_say(bs.drop_last()) + user_block_says(bs.last())
    }
}

/// What an assistant says in its blocks, but for what it thinks and calls.
pub open spec fn assistant_words(bs: Seq<JsonModel>) -> Seq<char>
    decreases bs.len(),
{
    if bs.len() == 0 {
        seq![]
    } else if kind(bs.last()) == "tool_use"@ || kind(bs.last()) == "thinking"@ || kind(bs.last())
        == "redacted_thinking"@ {
        assistant_words(bs.drop_last())
    } else {
        assistant_words(bs.drop_last()) + json::or_empty(bs.last().str_at("text"@))
    }
}

/// The call of a tool-use block. Its arguments are its input, written out; an input that is no
/// object counts as none.
pub open spec fn block_calls(b: JsonModel) -> Called {
    Called {
        id: told_or(b.str_at("id"@), "tool_call"@),
        name: told_or(b.str_at("name"@), "tool"@),
        arguments: json::json_text(
            if b.field_or_null("input"@) is Object {
                b.field_or_null("input"@)
            } else {
                JsonModel::Object(json::nothing())
            },
        ),
    }
}

/// What an assistant calls in its tool-use blocks.
pub open spec fn assistant_calls(bs: Seq<JsonModel>) -> Seq<Called>
    decreases bs.len(),
{
    if bs.len() == 0 {
        seq![]
    } else if kind(bs.last()) == "tool_use"@ {
        assistant_calls(bs.drop_last()).push(block_calls(bs.last()))
    } else {
        assistant_calls(bs.drop_last())
    }
}

/// A turn of an Anthropic request.
pub open spec fn turn_says(m: MessageModel) -> Seq<Utterance> {
    if m.role == "system"@ {
        system_says(content_words(m.content))
    } else if m.role == "user"@ {
        match m.content {
            JsonModel::Str(t) => user_says(t),
            JsonModel::Array(bs) => user_blocks_say(bs),
            _ => user_says(json::json_text(m.content)),
        }
    } else {
        seq![
            match m.content {
                JsonModel::Str(t) => Utterance::Assistant { text: t, calls: seq![] },
                JsonModel::Array(bs) => Utterance::Assistant {
                    text: assistant_words(bs),
                    calls: assistant_calls(bs),
                },
                _ => Utterance::Assistant { text: json::json_text(m.content), calls: seq![] },
            },
        ]
    }
}

pub open spec fn turns_say(ms: Seq<MessageModel>) -> Seq<Utterance>
    decreases ms.len(),
{
    if ms.len() == 0 {
        seq![]
    } else {
        turns_say(ms.drop_last()) + turn_says(ms.last())
    }
}

/// A source of a picture that can be passed on.
pub open spec fn is_source(s: JsonModel) -> bool {
    ||| s.str_at("type"@) == Some("base64"@) && s.str_at("data"@) is Some
    ||| s.str_at("type"@) == Some("url"@) && s.str_at("url"@) is Some
}

/// A turn of one who may speak.
pub open spec fn is_turn(m: MessageModel) -> bool {
    m.role == "user"@ || m.role == "assistant"@ || m.role == "system"@
}

// ── Anthropic requests to chat requests ─────────────────────────────────────

proof fn returned_is_the_text(b: JsonModel)
    ensures
        translate::text_of_result(b) == returned_words(b.field_or_null("content"@)),
{
    match b.field_or_null("content"@) {
        JsonModel::Array(items) => {
            lines_are_returned(items);
        },
        _ => {},
    }
}

proof fn lines_are_returned(items: Seq<JsonModel>)
    ensures
        translate::result_lines(items) == returned_lines(items),
    decreases items.len(),
{
    if items.len() > 0 {
        lines_are_returned(items.drop_last());
    }
}

/// A part that a user message may hold.
spec fn is_part(p: JsonModel) -> bool {
    p.str_at("type"@) == Some("text"@) || p.str_at("type"@) == Some("image_url"@)
}

proof fn parts_say_add(a: Seq<JsonModel>, p: JsonModel)
    ensures
        parts_say(a.push(p)) == parts_say(a) + part_says(p),
{
    assert(a.push(p).drop_last() =~= a);
}

proof fn chat_says_add(a: Seq<JsonModel>, m: JsonModel)
    ensures
        chat_says(a.push(m)) == chat_says(a) + message_says(m),
{
    assert(a.push(m).drop_last() =~= a);
}

proof fn flush_says_the_parts(f: UserFold)
    requires
        forall|i: int| 0 <= i < f.parts.len() ==> is_part(#[trigger] f.parts[i]),
    ensures
        chat_says(translate::flushed(f).messages) == chat_says(f.messages) + parts_say(f.parts),
        translate::flushed(f).parts.len() == 0,
{
    words_differ();
    if f.parts.len() == 0 {
        assert(chat_says(f.messages) + parts_say(f.parts) =~= chat_says(f.messages));
    } else {
        let c = translate::parts_content(f.parts);
        let m = translate::chat_message("user"@, c);
        chat_says_add(f.messages, m);
        assert(m.field_or_null("content"@) == c);
        if f.parts.len() == 1 {
            reveal_with_fuel(parts_say, 2);
            assert(f.parts.drop_last() =~= seq![]);
            assert(parts_say(f.parts) =~= part_says(f.parts[0]));
        }
        assert(message_says(m) == parts_say(f.parts));
    }
}

proof fn block_is_passed_on(f: UserFold, b: JsonModel)
    requires
        forall|i: int| 0 <= i < f.parts.len() ==> is_part(#[trigger] f.parts[i]),
    ensures
        ({
            let g = translate::on_user_block(f, b);
            &&& forall|i: int| 0 <= i < g.parts.len() ==> is_part(#[trigger] g.parts[i])
            &&& chat_says(g.messages) + parts_say(g.parts) == chat_says(f.messages) + parts_say(
                f.parts,
            ) + user_block_says(b)
        }),
{
    words_differ();
    let g = translate::on_user_block(f, b);
    let before = chat_says(f.messages) + parts_say(f.parts);
    if kind(b) == "image"@ {
        let source = b.field_or_null("source"@);
        if is_source(source) {
            assert(b.field("source"@) == Some(source));
            let p = translate::image_part(picture_address(source));
            assert(translate::image_of(b) == Some(p));
            parts_say_add(f.parts, p);
            assert(is_part(p));
            assert(part_says(p) == user_block_says(b));
            assert(chat_says(f.messages) + (parts_say(f.parts) + part_says(p)) =~= before
                + user_block_says(b));
        } else {
            assert(translate::image_of(b) is None);
            assert(before + user_block_says(b) =~= before);
        }
    } else if kind(b) == "tool_result"@ {
        flush_says_the_parts(f);
        let h = translate::flushed(f);
        let m = translate::tool_message(b);
        returned_is_the_text(b);
        chat_says_add(h.messages, m);
        assert(m.str_at("role"@) == Some("tool"@));
        assert(m.str_at("tool_call_id"@) == Some(told_or(b.str_at("tool_use_id"@), "tool_call"@)));
        assert(message_says(m) =~= user_block_says(b));
        assert(g.parts =~= seq![]);
        assert(chat_says(g.messages) + parts_say(g.parts) =~= before + user_block_says(b));
    } else {
        let t = json::or_empty(b.str_at("text"@));
        if kind(b) == "text"@ || t.len() > 0 {
            let p = translate::text_part(t);
            parts_say_add(f.parts, p);
            assert(is_part(p));
            assert(part_says(p) == user_block_says(b));
            assert(chat_says(f.messages) + (parts_say(f.parts) + part_says(p)) =~= before
                + user_block_says(b));
        } else {
            assert(before + user_block_says(b) =~= before);
        }
    }
}

proof fn blocks_are_passed_on(f: UserFold, bs: Seq<JsonModel>)
    requires
        f.parts.len() == 0,
    ensures
        ({
            let g = translate::on_user_blocks(f, bs);
            &&& forall|i: int| 0 <= i < g.parts.len() ==> is_part(#[trigger] g.parts[i])
            &&& chat_says(g.messages) + parts_say(g.parts) == chat_says(f.messages)
                + user_blocks_say(bs)
        }),
    decreases bs.len(),
{
    if bs.len() == 0 {
        assert(f.parts =~= seq![]);
        assert(parts_say(f.parts) =~= user_blocks_say(bs));
    } else {
        let rest = bs.drop_last();
        blocks_are_passed_on(f, rest);
        let g = translate::on_user_blocks(f, rest);
        block_is_passed_on(g, bs.last());
        assert(chat_says(f.messages) + user_blocks_say(rest) + user_block_says(bs.last())
            =~= chat_says(f.messages) + user_blocks_say(bs));
    }
}

proof fn one_text_says(t: Seq<char>)
    ensures
        user_blocks_say(seq![translate::text_part(t)]) == user_says(t),
        assistant_words(seq![translate::text_part(t)]) == t,
        assistant_calls(seq![translate::text_part(t)]) == Seq::<Called>::empty(),
{
    words_differ();
    let bs = seq![translate::text_part(t)];
    assert(bs[0].str_at("type"@) == Some("text"@));
    assert(bs[0].str_at("text"@) == Some(t));
    reveal_with_fuel(user_blocks_say, 2);
    reveal_with_fuel(assistant_words, 2);
    reveal_with_fuel(assistant_calls, 2);
    assert(bs.drop_last() =~= seq![]);
    assert(user_blocks_say(bs) =~= user_says(t));
    assert(assistant_words(bs) =~= t);
}

proof fn user_turn_is_passed_on(ms: Seq<JsonModel>, m: MessageModel)
    requires
        m.role == "user"@,
    ensures
        chat_says(translate::with_user_turn(ms, m.content)) == chat_says(ms) + turn_says(m),
{
    words_differ();
    let f = UserFold { messages: ms, parts: seq![] };
    let bs = translate::blocks_of(m.content);
    match m.content {
        JsonModel::Str(t) => one_text_says(t),
        JsonModel::Array(_) => {},
        _ => one_text_says(json::json_text(m.content)),
    }
    blocks_are_passed_on(f, bs);
    flush_says_the_parts(translate::on_user_blocks(f, bs));
}

proof fn assistant_blocks_are_kept(bs: Seq<JsonModel>)
    ensures
        translate::all_said(bs) == assistant_words(bs),
        translate::all_calls(bs).map_values(|c: JsonModel| call_says(c)) == assistant_calls(bs),
        translate::all_calls(bs).len() == assistant_calls(bs).len(),
    decreases bs.len(),
{
    words_differ();
    if bs.len() == 0 {
        assert(translate::all_calls(bs).map_values(|c: JsonModel| call_says(c)) =~= seq![]);
    } else {
        let rest = bs.drop_last();
        assistant_blocks_are_kept(rest);
        let b = bs.last();
        assert(assistant_words(rest) + Seq::<char>::empty() =~= assistant_words(rest));
        if kind(b) == "tool_use"@ {
            let c = translate::call_of_block(b);
            assert(c.str_at("id"@) == Some(told_or(b.str_at("id"@), "tool_call"@)));
            assert(c.field_or_null("function"@).str_at("name"@) == Some(
                told_or(b.str_at("name"@), "tool"@),
            ));
            assert(call_says(c) =~= block_calls(b));
            assert(translate::all_calls(bs).map_values(|c: JsonModel| call_says(c))
                =~= translate::all_calls(rest).map_values(|c: JsonModel| call_says(c)).push(
                call_says(c),
            ));
        }
    }
}

proof fn assistant_turn_is_passed_on(m: MessageModel)
    requires
        m.role == "assistant"@,
    ensures
        message_says(translate::assistant_turn(m.content)) == turn_says(m),
{
    words_differ();
    let bs = translate::blocks_of(m.content);
    match m.content {
        JsonModel::Str(t) => one_text_says(t),
        JsonModel::Array(_) => {},
        _ => one_text_says(json::json_text(m.content)),
    }
    assistant_blocks_are_kept(bs);
    let calls = translate::all_calls(bs);
    let said = translate::all_said(bs);
    let a = translate::assistant_turn(m.content);
    assert(a.str_at("role"@) == Some("assistant"@));
    assert(json::or_empty(a.str_at("content"@)) =~= said);
    if calls.len() > 0 {
        assert(a.array_at("tool_calls"@) == Some(calls));
    } else {
        assert(a.array_at("tool_calls"@) is None);
        assert(assistant_calls(bs) =~= seq![]);
    }
    assert(calls_say(a) =~= assistant_calls(bs));
    assert(message_says(a) =~= turn_says(m));
}

proof fn system_is_passed_on(ms: Seq<JsonModel>, c: JsonModel)
    ensures
        chat_says(translate::with_system(ms, c)) == chat_says(ms) + system_says(content_words(c)),
{
    words_differ();
    words_are_the_text(c);
    let t = content_words(c);
    if t.len() > 0 {
        let m = translate::chat_message("system"@, JsonModel::Str(t));
        chat_says_add(ms, m);
        assert(m.str_at("content"@) == Some(t));
    } else {
        assert(chat_says(ms) + system_says(t) =~= chat_says(ms));
    }
}

proof fn turns_are_passed_on(ms: Seq<JsonModel>, turns: Seq<MessageModel>)
    requires
        forall|i: int| 0 <= i < turns.len() ==> is_turn(#[trigger] turns[i]),
    ensures
        chat_says(translate::with_turns(ms, turns)) == chat_says(ms) + turns_say(turns),
    decreases turns.len(),
{
    if turns.len() == 0 {
        assert(chat_says(ms) + turns_say(turns) =~= chat_says(ms));
    } else {
        words_differ();
        let rest = turns.drop_last();
        let m = turns.last();
        assert forall|i: int| 0 <= i < rest.len() implies is_turn(#[trigger] rest[i]) by {
            assert(rest[i] == turns[i]);
        }
        turns_are_passed_on(ms, rest);
        assert(is_turn(turns[turns.len() - 1]));
        let before = translate::with_turns(ms, rest);
        if m.role == "user"@ {
            user_turn_is_passed_on(before, m);
        } else if m.role == "assistant"@ {
            assistant_turn_is_passed_on(m);
            chat_says_add(before, translate::assistant_turn(m.content));
        } else {
            system_is_passed_on(before, m.content);
        }
        assert(chat_says(ms) + turns_say(rest) + turn_says(m) =~= chat_says(ms) + turns_say(turns));
    }
}

/// A chat request says what the Anthropic request says, in the same order and by the same
/// speakers: the instructions, each text and picture of the user, what each tool call returned
/// under the identity of that call, and of the assistant its text and its calls with their
/// identity, name and input. What the model thought is left out.
pub proof fn chat_request_says_the_same(request: AnthropicRequestModel, model: Seq<char>)
    requires
        forall|i: int| 0 <= i < request.messages.len() ==> is_turn(#[trigger] request.messages[i]),
    ensures
        chat_says(translate::chat_request(request, model).messages) == (match request.system {
            Some(s) => system_says(content_words(s)),
            None => seq![],
        }) + turns_say(request.messages),
{
    match request.system {
        Some(s) => {
            system_is_passed_on(seq![], s);
            assert(chat_says(seq![]) + system_says(content_words(s)) =~= system_says(
                content_words(s),
            ));
            turns_are_passed_on(translate::with_system(seq![], s), request.messages);
        },
        None => {
            turns_are_passed_on(seq![], request.messages);
        },
    }
}

// ── Results and the calls they answer ───────────────────────────────────────

proof fn what_is_said_has_a_message(ms: Seq<JsonModel>, u: Utterance)
    requires
        chat_says(ms).contains(u),
    ensures
        exists|k: int| 0 <= k < ms.len() && message_says(#[trigger] ms[k]).contains(u),
    decreases ms.len(),
{
    if ms.len() > 0 {
        let rest = ms.drop_last();
        let at = choose|i: int| 0 <= i < chat_says(ms).len() && chat_says(ms)[i] == u;
        if at < chat_says(rest).len() {
            assert(chat_says(rest)[at] == u);
            what_is_said_has_a_message(rest, u);
            let k = choose|k: int|
                0 <= k < rest.len() && message_says(#[trigger] rest[k]).contains(u);
            assert(ms[k] == rest[k]);
        } else {
            assert(message_says(ms.last())[at - chat_says(rest).len()] == u);
            assert(message_says(ms[ms.len() - 1]).contains(u));
        }
    }
}

proof fn what_a_turn_says_is_said(ms: Seq<MessageModel>, i: int, u: Utterance)
    requires
        0 <= i < ms.len(),
        turn_says(ms[i]).contains(u),
    ensures
        turns_say(ms).contains(u),
    decreases ms.len(),
{
    let rest = ms.drop_last();
    if i == ms.len() - 1 {
        let at = choose|k: int| 0 <= k < turn_says(ms[i]).len() && turn_says(ms[i])[k] == u;
        assert(turns_say(ms)[turns_say(rest).len() + at] == u);
    } else {
        assert(rest[i] == ms[i]);
        what_a_turn_says_is_said(rest, i, u);
        let at = choose|k: int| 0 <= k < turns_say(rest).len() && turns_say(rest)[k] == u;
        assert(turns_say(ms)[at] == u);
    }
}

proof fn what_a_block_says_is_said(bs: Seq<JsonModel>, i: int, u: Utterance)
    requires
        0 <= i < bs.len(),
        user_block_says(bs[i]).contains(u),
    ensures
        user_blocks_say(bs).contains(u),
    decreases bs.len(),
{
    let rest = bs.drop_last();
    if i == bs.len() - 1 {
        let at = choose|k: int|
            0 <= k < user_block_says(bs[i]).len() && user_block_says(bs[i])[k] == u;
        assert(user_blocks_say(bs)[user_blocks_say(rest).len() + at] == u);
    } else {
        assert(rest[i] == bs[i]);
        what_a_block_says_is_said(rest, i, u);
        let at = choose|k: int|
            0 <= k < user_blocks_say(rest).len() && user_blocks_say(rest)[k] == u;
        assert(user_blocks_say(bs)[at] == u);
    }
}

proof fn what_a_block_calls_is_called(bs: Seq<JsonModel>, i: int)
    requires
        0 <= i < bs.len(),
        kind(bs[i]) == "tool_use"@,
    ensures
        exists|k: int|
            0 <= k < assistant_calls(bs).len() && (#[trigger] assistant_calls(bs)[k])
                == block_calls(bs[i]),
    decreases bs.len(),
{
    let rest = bs.drop_last();
    if i == bs.len() - 1 {
        assert(assistant_calls(bs)[assistant_calls(rest).len() as int] == block_calls(bs[i]));
    } else {
        assert(rest[i] == bs[i]);
        what_a_block_calls_is_called(rest, i);
        let k = choose|k: int|
            0 <= k < assistant_calls(rest).len() && (#[trigger] assistant_calls(rest)[k])
                == block_calls(bs[i]);
        assert(assistant_calls(bs)[k] == assistant_calls(rest)[k]);
    }
}

/// The message holds a call with this identity and name.
pub open spec fn makes_call(m: JsonModel, id: Seq<char>, name: Seq<char>) -> bool {
    &&& m.str_at("role"@) == Some("assistant"@)
    &&& exists|k: int|
        0 <= k < calls_say(m).len() && (#[trigger] calls_say(m)[k]).id == id && calls_say(m)[k].name
            == name
}

/// The message says what the call with this identity returned.
pub open spec fn answers_call(m: JsonModel, id: Seq<char>, t: Seq<char>) -> bool {
    &&& m.str_at("role"@) == Some("tool"@)
    &&& json::or_empty(m.str_at("tool_call_id"@)) == id
    &&& json::or_empty(m.str_at("content"@)) == t
}

/// A tool-result block becomes a message of the role `tool` that names the call which the block
/// names and holds what the block holds; and where the block answers a tool-use block, that call
/// stands in the request under the same identity.
pub proof fn results_answer_their_calls(
    request: AnthropicRequestModel,
    model: Seq<char>,
    turn: int,
    block: int,
)
    requires
        forall|i: int| 0 <= i < request.messages.len() ==> is_turn(#[trigger] request.messages[i]),
        0 <= turn < request.messages.len(),
        request.messages[turn].role == "user"@,
        request.messages[turn].content is Array,
        0 <= block < request.messages[turn].content->Array_0.len(),
        request.messages[turn].content->Array_0[block].str_at("type"@) == Some("tool_result"@),
        request.messages[turn].content->Array_0[block].str_at("tool_use_id"@) is Some,
    ensures
        ({
            let b = request.messages[turn].content->Array_0[block];
            let id = b.str_at("tool_use_id"@)->Some_0;
            let out = translate::chat_request(request, model).messages;
            &&& exists|k: int|
                0 <= k < out.len() && #[trigger] answers_call(
                    out[k],
                    id,
                    returned_words(b.field_or_null("content"@)),
                )
            &&& forall|other: int, call: int|
                0 <= other < request.messages.len() && request.messages[other].role
                    == "assistant"@ && request.messages[other].content is Array && 0 <= call
                    < request.messages[other].content->Array_0.len() && (
                #[trigger] request.messages[other].content->Array_0[call]).str_at("type"@) == Some(
                    "tool_use"@,
                ) && request.messages[other].content->Array_0[call].str_at("id"@) == Some(id)
                    ==> exists|k: int|
                    0 <= k < out.len() && #[trigger] makes_call(
                        out[k],
                        id,
                        told_or(
                            request.messages[other].content->Array_0[call].str_at("name"@),
                            "tool"@,
                        ),
                    )
        }),
{
    words_differ();
    chat_request_says_the_same(request, model);
    let turns = request.messages;
    let bs = turns[turn].content->Array_0;
    let b = bs[block];
    let id = b.str_at("tool_use_id"@)->Some_0;
    let t = returned_words(b.field_or_null("content"@));
    let out = translate::chat_request(request, model).messages;
    let before = match request.system {
        Some(s) => system_says(content_words(s)),
        None => seq![],
    };
    assert(is_turn(turns[turn]));
    let u = Utterance::Returned { call: id, text: t };
    assert(user_block_says(b)[0] == u);
    what_a_block_says_is_said(bs, block, u);
    what_a_turn_says_is_said(turns, turn, u);
    said_after(before, turns_say(turns), u);
    what_is_said_has_a_message(out, u);
    let k = choose|k: int| 0 <= k < out.len() && message_says(#[trigger] out[k]).contains(u);
    assert(answers_call(out[k], id, t)) by {
        what_says_returned_is_a_tool_message(out[k], id, t);
    }
    assert forall|other: int, call: int|
        0 <= other < turns.len() && turns[other].role == "assistant"@
            && turns[other].content is Array && 0 <= call < turns[other].content->Array_0.len() && (
        #[trigger] turns[other].content->Array_0[call]).str_at("type"@) == Some("tool_use"@)
            && turns[other].content->Array_0[call].str_at("id"@) == Some(id) implies exists|k: int|
        0 <= k < out.len() && #[trigger] makes_call(
            out[k],
            id,
            told_or(turns[other].content->Array_0[call].str_at("name"@), "tool"@),
        ) by {
        let cs = turns[other].content->Array_0;
        let v = Utterance::Assistant { text: assistant_words(cs), calls: assistant_calls(cs) };
        assert(turn_says(turns[other])[0] == v);
        what_a_turn_says_is_said(turns, other, v);
        said_after(before, turns_say(turns), v);
        what_is_said_has_a_message(out, v);
        let n = choose|k: int| 0 <= k < out.len() && message_says(#[trigger] out[k]).contains(v);
        what_says_a_turn_is_an_assistant_message(out[n], v);
        what_a_block_calls_is_called(cs, call);
        let name = told_or(cs[call].str_at("name"@), "tool"@);
        assert(makes_call(out[n], id, name));
    }
}

proof fn said_after(before: Seq<Utterance>, s: Seq<Utterance>, u: Utterance)
    requires
        s.contains(u),
    ensures
        (before + s).contains(u),
{
    let at = choose|k: int| 0 <= k < s.len() && s[k] == u;
    assert((before + s)[before.len() + at] == u);
}

proof fn parts_say_user_things(ps: Seq<JsonModel>, u: Utterance)
    requires
        parts_say(ps).contains(u),
    ensures
        u is User || u is Picture,
    decreases ps.len(),
{
    if ps.len() > 0 {
        let at = choose|k: int| 0 <= k < parts_say(ps).len() && parts_say(ps)[k] == u;
        let rest = parts_say(ps.drop_last());
        if at < rest.len() {
            assert(rest[at] == u);
            parts_say_user_things(ps.drop_last(), u);
        } else {
            assert(part_says(ps.last())[at - rest.len()] == u);
        }
    }
}

proof fn what_says_returned_is_a_tool_message(m: JsonModel, id: Seq<char>, t: Seq<char>)
    requires
        message_says(m).contains((Utterance::Returned { call: id, text: t })),
    ensures
        answers_call(m, id, t),
{
    words_differ();
    let u = Utterance::Returned { call: id, text: t };
    if m.str_at("role"@) == Some("user"@) {
        if let JsonModel::Array(ps) = m.field_or_null("content"@) {
            parts_say_user_things(ps, u);
        }
    }
}

proof fn what_says_a_turn_is_an_assistant_message(m: JsonModel, u: Utterance)
    requires
        message_says(m).contains(u),
        u is Assistant,
    ensures
        m.str_at("role"@) == Some("assistant"@),
        calls_say(m) == u->calls,
{
    words_differ();
    if m.str_at("role"@) == Some("user"@) {
        if let JsonModel::Array(ps) = m.field_or_null("content"@) {
            parts_say_user_things(ps, u);
        }
    }
}

// ── Tools and settings ──────────────────────────────────────────────────────

/// A tool that the model may call, as it is offered.
#[verifier::ext_equal]
pub struct Offer {
    pub name: Seq<char>,
    pub description: Option<Seq<char>>,
    pub schema: Option<JsonModel>,
}

/// A tool of a chat request.
pub open spec fn chat_offer(t: JsonModel) -> Offer {
    let f = t.field_or_null("function"@);
    Offer {
        name: json::or_empty(f.str_at("name"@)),
        description: f.str_at("description"@),
        schema: f.field("parameters"@),
    }
}

pub open spec fn chat_offers(tools: Option<Seq<JsonModel>>) -> Seq<Offer> {
    match tools {
        Some(ts) => ts.map_values(|t: JsonModel| chat_offer(t)),
        None => seq![],
    }
}

/// A tool of an Anthropic request.
pub open spec fn tool_offer(t: ToolModel) -> Offer {
    Offer { name: t.name, description: t.description, schema: t.input_schema }
}

/// A tool that the gateway runs itself: its type begins with `web_search_`.
pub open spec fn runs_here(t: ToolModel) -> bool {
    JsonModel::Object(t.extra).str_at("type"@) matches Some(kind) && "web_search_"@.is_prefix_of(
        kind,
    )
}

/// The tools that the client runs.
pub open spec fn client_offers(tools: Seq<ToolModel>) -> Seq<Offer>
    decreases tools.len(),
{
    if tools.len() == 0 {
        seq![]
    } else if runs_here(tools.last()) {
        client_offers(tools.drop_last())
    } else {
        client_offers(tools.drop_last()).push(tool_offer(tools.last()))
    }
}

proof fn hosting_is_by_type(t: ToolModel)
    ensures
        translate::is_hosted(t) == runs_here(t),
{
    if let Some(kind) = JsonModel::Object(t.extra).str_at("type"@) {
        let p = "web_search_"@;
        if text::starts_with(kind, p) {
            assert(p =~= kind.subrange(0, p.len() as int));
        } else if p.is_prefix_of(kind) {
            assert(kind.subrange(0, p.len() as int) =~= p);
            assert(text::starts_with(kind, p));
        }
    }
}

proof fn tools_are_offered(tools: Seq<ToolModel>)
    ensures
        translate::chat_tools(tools).map_values(|t: JsonModel| chat_offer(t)) == client_offers(
            tools,
        ),
        forall|i: int|
            0 <= i < translate::chat_tools(tools).len() ==> (#[trigger] translate::chat_tools(
                tools,
            )[i]).str_at("type"@) == Some("function"@),
    decreases tools.len(),
{
    if tools.len() == 0 {
        assert(translate::chat_tools(tools).map_values(|t: JsonModel| chat_offer(t)) =~= seq![]);
    } else {
        words_differ();
        let rest = tools.drop_last();
        let t = tools.last();
        tools_are_offered(rest);
        hosting_is_by_type(t);
        if !runs_here(t) {
            let c = translate::chat_tool(t);
            assert(c.str_at("type"@) == Some("function"@));
            assert(chat_offer(c) =~= tool_offer(t));
            assert(translate::chat_tools(tools).map_values(|t: JsonModel| chat_offer(t))
                =~= translate::chat_tools(rest).map_values(|t: JsonModel| chat_offer(t)).push(
                chat_offer(c),
            ));
        }
    }
}

/// The tools that the client runs are offered to the model as functions, in their order, each
/// with its name, description and schema; those that the gateway runs are not.
pub proof fn chat_request_offers_the_tools(request: AnthropicRequestModel, model: Seq<char>)
    ensures
        chat_offers(translate::chat_request(request, model).tools) == (match request.tools {
            Some(ts) => client_offers(ts),
            None => seq![],
        }),
        translate::chat_request(request, model).tools matches Some(ts) ==> forall|i: int|
            0 <= i < ts.len() ==> (#[trigger] ts[i]).str_at("type"@) == Some("function"@),
{
    if let Some(ts) = request.tools {
        tools_are_offered(ts);
        if translate::chat_tools(ts).len() == 0 {
            assert(translate::chat_tools(ts).map_values(|t: JsonModel| chat_offer(t)) =~= seq![]);
        }
    }
}

/// What a request says of the tools that the model is to call.
#[verifier::ext_equal]
pub enum Choice {
    Auto,
    Any,
    Tool(Seq<char>),
}

/// The choice of an Anthropic request.
pub open spec fn choice(c: JsonModel) -> Option<Choice> {
    if c.str_at("type"@) == Some("auto"@) {
        Some(Choice::Auto)
    } else if c.str_at("type"@) == Some("any"@) {
        Some(Choice::Any)
    } else if c.str_at("type"@) == Some("tool"@) && c.str_at("name"@) is Some {
        Some(Choice::Tool(c.str_at("name"@)->Some_0))
    } else {
        None
    }
}

/// The choice of a chat request.
pub open spec fn chat_choice(c: JsonModel) -> Option<Choice> {
    if c.str() == Some("auto"@) {
        Some(Choice::Auto)
    } else if c.str() == Some("required"@) {
        Some(Choice::Any)
    } else if c.str_at("type"@) == Some("function"@) && c.field_or_null("function"@).str_at(
        "name"@,
    ) is Some {
        Some(Choice::Tool(c.field_or_null("function"@).str_at("name"@)->Some_0))
    } else {
        None
    }
}

/// The settings of an Anthropic request stand in the chat request: the limit, the sampling, what
/// stops the answer, whether it is streamed, whether it is to be JSON, and which tool is to be
/// called. The model is the one that was chosen for the request.
pub proof fn chat_request_keeps_the_settings(request: AnthropicRequestModel, model: Seq<char>)
    ensures
        ({
            let out = translate::chat_request(request, model);
            &&& out.model == model
            &&& out.max_tokens == request.max_tokens
            &&& out.temperature == request.temperature
            &&& out.top_p == request.top_p
            &&& out.stream <==> request.stream == Some(true)
            &&& out.tools is Some && request.tool_choice is Some && choice(
                request.tool_choice->Some_0,
            ) is Some ==> out.tool_choice is Some && chat_choice(out.tool_choice->Some_0) == choice(
                request.tool_choice->Some_0,
            )
            &&& request.tool_choice is None || out.tools is None ==> out.tool_choice is None
            &&& out.response_format is Some <==> request.output_config is Some
                && request.output_config->Some_0.field_or_null("format"@).str_at("type"@) == Some(
                "json"@,
            )
            &&& out.response_format matches Some(f) ==> f.str_at("type"@) == Some("json_object"@)
            &&& match JsonModel::Object(request.extra).array_at("stop_sequences"@) {
                Some(stops) => stops.len() > 0 ==> out.stop is Some && out.stop->Some_0.array()
                    == Some(stops),
                None => true,
            }
            &&& JsonModel::Object(request.extra).field("stop_sequences"@) is None
                ==> out.stop is None
        }),
{
    words_differ();
    if let Some(c) = request.tool_choice {
        let d = translate::chat_tool_choice(c);
        if choice(c) is Some && choice(c)->Some_0 is Tool {
            assert(d.str() is None);
            assert(d.field_or_null("function"@).str_at("name"@) == c.str_at("name"@));
            assert(d.str_at("type"@) == Some("function"@));
        }
    }
}

} // verus!
