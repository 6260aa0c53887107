//! That a chat request keeps what it says when it becomes an Anthropic request.
use vstd::prelude::*;

use crate::converter::request_laws::{
    chat_choice, chat_offer, choice, content_words, picture_address, returned_words, told_or,
    tool_offer, words_are_the_text, words_differ, Offer,
};
use crate::converter::to_anthropic_request;
use crate::converter::translate;
use crate::converter::types::{ChatRequestModel, MessageModel, ToolModel};
use crate::json::{self, JsonModel};
use crate::text;

verus! {

// ── What a conversation tells ───────────────────────────────────────────────

/// What is told in a conversation, one thing after the other.
#[verifier::ext_equal]
pub enum Told {
    User(Seq<char>),
    /// A picture of the user, by its address.
    Picture(Seq<char>),
    /// What a tool call returned.
    Returned { call: Seq<char>, text: Seq<char> },
    Assistant(Seq<char>),
    Called { id: Seq<char>, name: Seq<char>, input: JsonModel },
}

pub open spec fn user_tells(t: Seq<char>) -> Seq<Told> {
    if t.len() > 0 {
        seq![Told::User(t)]
    } else {
        seq![]
    }
}

pub open spec fn assistant_tells(t: Seq<char>) -> Seq<Told> {
    if t.len() > 0 {
        seq![Told::Assistant(t)]
    } else {
        seq![]
    }
}

// ── Anthropic turns, as they are read ───────────────────────────────────────

/// A block of a turn of the given role.
pub open spec fn block_tells(role: Seq<char>, b: JsonModel) -> Seq<Told> {
    let kind = b.str_at("type"@);
    if role == "user"@ {
        if kind == Some("text"@) {
            user_tells(json::or_empty(b.str_at("text"@)))
        } else if kind == Some("image"@) {
            seq![Told::Picture(picture_address(b.field_or_null("source"@)))]
        } else if kind == Some("tool_result"@) {
            seq![
                Told::Returned {
                    call: json::or_empty(b.str_at("tool_use_id"@)),
                    text: returned_words(b.field_or_null("content"@)),
                },
            ]
        } else {
            seq![]
        }
    } else if role == "assistant"@ {
        if kind == Some("text"@) {
            assistant_tells(json::or_empty(b.str_at("text"@)))
        } else if kind == Some("tool_use"@) {
            seq![
                Told::Called {
                    id: json::or_empty(b.str_at("id"@)),
                    name: json::or_empty(b.str_at("name"@)),
                    input: b.field_or_null("input"@),
                },
            ]
        } else {
            seq![]
        }
    } else {
        seq![]
    }
}

pub open spec fn blocks_tell(role: Seq<char>, bs: Seq<JsonModel>) -> Seq<Told>
    decreases bs.len(),
{
    if bs.len() == 0 {
        seq![]
    } else {
        blocks_tell(role, bs.drop_last()) + block_tells(role, bs.last())
    }
}

pub open spec fn turn_tells(m: MessageModel) -> Seq<Told> {
    match m.content {
        JsonModel::Array(bs) => blocks_tell(m.role, bs),
        _ => seq![],
    }
}

pub open spec fn turns_tell(ms: Seq<MessageModel>) -> Seq<Told>
    decreases ms.len(),
{
    if ms.len() == 0 {
        seq![]
    } else {
        turns_tell(ms.drop_last()) + turn_tells(ms.last())
    }
}

// ── Chat messages, as they are read ─────────────────────────────────────────

/// A part of a user message.
pub open spec fn part_tells(p: JsonModel) -> Seq<Told> {
    if p.str_at("type"@) == Some("text"@) {
        user_tells(json::or_empty(p.str_at("text"@)))
    } else if p.str_at("type"@) == Some("image_url"@) {
        seq![Told::Picture(json::or_empty(p.field_or_null("image_url"@).str_at("url"@)))]
    } else {
        seq![]
    }
}

pub open spec fn parts_tell(ps: Seq<JsonModel>) -> Seq<Told>
    decreases ps.len(),
{
    if ps.len() == 0 {
        seq![]
    } else {
        parts_tell(ps.drop_last()) + part_tells(ps.last())
    }
}

/// A tool call: its input is what its arguments stand for.
pub open spec fn call_tells(c: JsonModel) -> Told {
    let f = c.field_or_null("function"@);
    Told::Called {
        id: told_or(c.str_at("id"@), "call_xyz"@),
        name: told_or(f.str_at("name"@), "tool"@),
        input: match json::json_parse(told_or(f.str_at("arguments"@), "{}"@)) {
            Some(input) => input,
            None => JsonModel::Object(json::nothing()),
        },
    }
}

pub open spec fn calls_tell(m: JsonModel) -> Seq<Told> {
    match m.array_at("tool_calls"@) {
        Some(cs) => cs.map_values(|c: JsonModel| call_tells(c)),
        None => seq![],
    }
}

/// Who speaks in a message: the system, a tool, the assistant, or else the user.
pub open spec fn speaker(m: JsonModel) -> Seq<char> {
    told_or(m.str_at("role"@), "user"@)
}

/// The system speaks in the message.
pub open spec fn is_system(m: JsonModel) -> bool {
    speaker(m) == "system"@ || speaker(m) == "developer"@
}

/// A message of a chat request. What the system says is told apart from it.
pub open spec fn message_tells(m: JsonModel) -> Seq<Told> {
    if is_system(m) {
        seq![]
    } else if speaker(m) == "tool"@ {
        seq![
            Told::Returned {
                call: told_or(m.str_at("tool_call_id"@), "tool_call"@),
                text: content_words(m.field_or_null("content"@)),
            },
        ]
    } else if speaker(m) == "assistant"@ {
        assistant_tells(content_words(m.field_or_null("content"@))) + calls_tell(m)
    } else {
        match m.field_or_null("content"@) {
            JsonModel::Str(t) => user_tells(t),
            JsonModel::Array(ps) => parts_tell(ps),
            _ => seq![],
        }
    }
}

pub open spec fn chat_tells(ms: Seq<JsonModel>) -> Seq<Told>
    decreases ms.len(),
{
    if ms.len() == 0 {
        seq![]
    } else {
        chat_tells(ms.drop_last()) + message_tells(ms.last())
    }
}

/// What the system says, each message on a line of its own.
pub open spec fn system_words(ms: Seq<JsonModel>) -> Seq<char>
    decreases ms.len(),
{
    if ms.len() == 0 {
        seq![]
    } else if is_system(ms.last()) {
        system_words(ms.drop_last()) + content_words(ms.last().field_or_null("content"@)) + "\n"@
    } else {
        system_words(ms.drop_last())
    }
}

/// The address of a picture: of a place, or a data address in base64 form.
pub open spec fn is_address(url: Seq<char>) -> bool {
    ||| !"data:"@.is_prefix_of(url)
    ||| exists|media: Seq<char>, data: Seq<char>| #[trigger] is_data_address(url, media, data)
}

/// The data address of a picture of the given kind.
pub open spec fn is_data_address(url: Seq<char>, media: Seq<char>, data: Seq<char>) -> bool {
    &&& !media.contains(',')
    &&& !media.contains(';')
    &&& url == "data:"@ + media + ";base64,"@ + data
}

/// A part of a user message as it is defined.
pub open spec fn is_user_part(p: JsonModel) -> bool {
    ||| p.str_at("type"@) == Some("text"@) && p.str_at("text"@) is Some
    ||| p.str_at("type"@) == Some("image_url"@) && p.field_or_null("image_url"@).str_at(
        "url"@,
    ) is Some && is_address(p.field_or_null("image_url"@).str_at("url"@)->Some_0)
}

/// A message of a chat request whose parts, if it has some and the user speaks, are such as are
/// defined.
pub open spec fn is_message(m: JsonModel) -> bool {
    match m.field_or_null("content"@) {
        JsonModel::Array(ps) => is_system(m) || speaker(m) == "tool"@ || speaker(m)
            == "assistant"@ || forall|i: int| 0 <= i < ps.len() ==> is_user_part(#[trigger] ps[i]),
        _ => true,
    }
}

// ── Chat requests to Anthropic requests ─────────────────────────────────────

proof fn blocks_tell_add(role: Seq<char>, a: Seq<JsonModel>, b: Seq<JsonModel>)
    ensures
        blocks_tell(role, a + b) == blocks_tell(role, a) + blocks_tell(role, b),
    decreases b.len(),
{
    if b.len() == 0 {
        assert(a + b =~= a);
        assert(blocks_tell(role, a) + blocks_tell(role, b) =~= blocks_tell(role, a));
    } else {
        blocks_tell_add(role, a, b.drop_last());
        assert((a + b).drop_last() =~= a + b.drop_last());
        assert((a + b).last() == b.last());
        assert(blocks_tell(role, a) + blocks_tell(role, b.drop_last()) + block_tells(role, b.last())
            =~= blocks_tell(role, a) + blocks_tell(role, b));
    }
}

proof fn one_block_tells(role: Seq<char>, b: JsonModel)
    ensures
        blocks_tell(role, seq![b]) == block_tells(role, b),
{
    reveal_with_fuel(blocks_tell, 2);
    assert(seq![b].drop_last() =~= seq![]);
    assert(blocks_tell(role, seq![b]) =~= block_tells(role, b));
}

proof fn blocks_are_added(ms: Seq<MessageModel>, role: Seq<char>, bs: Seq<JsonModel>)
    ensures
        turns_tell(to_anthropic_request::with_blocks(ms, role, bs)) == turns_tell(ms)
            + blocks_tell(role, bs),
{
    let out = to_anthropic_request::with_blocks(ms, role, bs);
    if bs.len() == 0 {
        assert(turns_tell(ms) + blocks_tell(role, bs) =~= turns_tell(ms));
    } else if ms.len() > 0 && ms.last().role == role && ms.last().content is Array {
        let held = ms.last().content->Array_0;
        blocks_tell_add(role, held, bs);
        assert(out.drop_last() =~= ms.drop_last());
        assert(turn_tells(out.last()) == blocks_tell(role, held + bs));
        assert(turns_tell(ms.drop_last()) + (blocks_tell(role, held) + blocks_tell(role, bs))
            =~= turns_tell(ms) + blocks_tell(role, bs));
    } else {
        assert(out.drop_last() =~= ms);
    }
}

proof fn data_address_is_read(url: Seq<char>, media: Seq<char>, data: Seq<char>)
    requires
        is_data_address(url, media, data),
    ensures
        text::starts_with(url, "data:"@),
        text::cut_at(url, ',') == Some(("data:"@ + media + ";base64"@, data)),
        text::head_of(text::without_prefix("data:"@ + media + ";base64"@, "data:"@), ';') == media,
{
    reveal_strlit("data:");
    reveal_strlit(";base64,");
    reveal_strlit(";base64");
    let before = "data:"@ + media + ";base64"@;
    let n = before.len() as int;
    assert("data:"@.len() == 5 && ";base64"@.len() == 7 && ";base64,"@.len() == 8);
    assert(";base64,"@ =~= ";base64"@.push(','));
    assert(url =~= before.push(',') + data);
    assert(url.subrange(0, 5) =~= "data:"@);
    assert(url[n] == ',');
    assert forall|i: int| 0 <= i < n implies url[i] != ',' by {
        if i < 5 {
            assert(url[i] == "data:"@[i]);
        } else if i < 5 + media.len() {
            assert(url[i] == media[i - 5]);
            assert(media.contains(url[i]));
        } else {
            assert(url[i] == ";base64"@[i - 5 - media.len()]);
        }
    }
    text::span_of_is(url, ',', n);
    assert(url.take(n) =~= before);
    assert(url.skip(n + 1) =~= data);
    let rest = media + ";base64"@;
    assert(before.subrange(0, 5) =~= "data:"@);
    assert(before.skip(5) =~= rest);
    assert(before.subrange(5, before.len() as int) =~= rest);
    let m = media.len() as int;
    assert forall|i: int| 0 <= i < m implies rest[i] != ';' by {
        assert(media.contains(rest[i]));
    }
    assert(rest[m] == ';');
    text::span_of_is(rest, ';', m);
    assert(rest.take(m) =~= media);
}

proof fn part_is_told(p: JsonModel)
    requires
        is_user_part(p),
    ensures
        to_anthropic_request::block_of_part(p) is Some,
        block_tells("user"@, to_anthropic_request::block_of_part(p)->Some_0) == part_tells(p),
{
    words_differ();
    if p.str_at("type"@) == Some("image_url"@) {
        let url = p.field_or_null("image_url"@).str_at("url"@)->Some_0;
        if !text::starts_with(url, "data:"@) {
        } else {
            assert("data:"@ =~= url.subrange(0, "data:"@.len() as int));
            assert("data:"@.is_prefix_of(url));
            let (media, data) = choose|media: Seq<char>, data: Seq<char>| #[trigger]
                is_data_address(url, media, data);
            data_address_is_read(url, media, data);
        }
        let b = to_anthropic_request::block_of_part(p)->Some_0;
        let source = b.field_or_null("source"@);
        assert(b.str_at("type"@) == Some("image"@));
        assert(picture_address(source) =~= url);
        assert(block_tells("user"@, b) =~= part_tells(p));
    }
}

proof fn parts_are_told(ps: Seq<JsonModel>)
    requires
        forall|i: int| 0 <= i < ps.len() ==> is_user_part(#[trigger] ps[i]),
    ensures
        blocks_tell("user"@, to_anthropic_request::blocks_of_parts(ps)) == parts_tell(ps),
    decreases ps.len(),
{
    if ps.len() > 0 {
        let rest = ps.drop_last();
        assert forall|i: int| 0 <= i < rest.len() implies is_user_part(#[trigger] rest[i]) by {
            assert(rest[i] == ps[i]);
        }
        parts_are_told(rest);
        assert(is_user_part(ps[ps.len() - 1]));
        part_is_told(ps.last());
        let before = to_anthropic_request::blocks_of_parts(rest);
        let b = to_anthropic_request::block_of_part(ps.last())->Some_0;
        assert(before.push(b).drop_last() =~= before);
    }
}

proof fn calls_are_told(cs: Seq<JsonModel>)
    ensures
        blocks_tell("assistant"@, to_anthropic_request::blocks_of_calls(cs)) == cs.map_values(
            |c: JsonModel| call_tells(c),
        ),
    decreases cs.len(),
{
    words_differ();
    let bs = to_anthropic_request::blocks_of_calls(cs);
    let told = cs.map_values(|c: JsonModel| call_tells(c));
    if cs.len() == 0 {
        assert(told =~= seq![]);
    } else {
        let rest = cs.drop_last();
        calls_are_told(rest);
        let c = cs.last();
        let b = to_anthropic_request::block_of_call(c);
        assert(bs.drop_last() =~= to_anthropic_request::blocks_of_calls(rest));
        assert(bs.last() == b);
        assert(b.str_at("type"@) == Some("tool_use"@));
        assert(block_tells("assistant"@, b) =~= seq![call_tells(c)]);
        assert(told =~= rest.map_values(|c: JsonModel| call_tells(c)) + seq![call_tells(c)]);
    }
}

proof fn message_is_told(c: to_anthropic_request::Conversation, m: JsonModel)
    requires
        is_message(m),
    ensures
        ({
            let d = to_anthropic_request::with_message(c, m);
            turns_tell(d.messages) == turns_tell(c.messages) + message_tells(m)
        }),
{
    words_differ();
    let content = m.field_or_null("content"@);
    if is_system(m) {
        assert(turns_tell(c.messages) + message_tells(m) =~= turns_tell(c.messages));
    } else if speaker(m) == "tool"@ {
        words_are_the_text(content);
        let b = to_anthropic_request::tool_result(m);
        one_block_tells("user"@, b);
        blocks_are_added(c.messages, "user"@, seq![b]);
        assert(b.str_at("type"@) == Some("tool_result"@));
        assert(b.field_or_null("content"@) == JsonModel::Str(content_words(content)));
        assert(block_tells("user"@, b) =~= message_tells(m));
    } else if speaker(m) == "assistant"@ {
        words_are_the_text(content);
        let t = content_words(content);
        let bs = to_anthropic_request::assistant_blocks(m);
        blocks_are_added(c.messages, "assistant"@, bs);
        let head = if t.len() > 0 {
            seq![translate::text_part(t)]
        } else {
            Seq::<JsonModel>::empty()
        };
        if t.len() > 0 {
            one_block_tells("assistant"@, translate::text_part(t));
            assert(translate::text_part(t).str_at("type"@) == Some("text"@));
        }
        assert(blocks_tell("assistant"@, head) =~= assistant_tells(t));
        match m.array_at("tool_calls"@) {
            Some(cs) => {
                calls_are_told(cs);
                blocks_tell_add("assistant"@, head, to_anthropic_request::blocks_of_calls(cs));
            },
            None => {
                assert(assistant_tells(t) + calls_tell(m) =~= assistant_tells(t));
            },
        }
    } else {
        let bs = to_anthropic_request::user_blocks(content);
        blocks_are_added(c.messages, "user"@, bs);
        match content {
            JsonModel::Str(t) => {
                if t.len() > 0 {
                    one_block_tells("user"@, translate::text_part(t));
                    assert(translate::text_part(t).str_at("type"@) == Some("text"@));
                }
            },
            JsonModel::Array(ps) => {
                parts_are_told(ps);
            },
            _ => {},
        }
        assert(blocks_tell("user"@, bs) == message_tells(m));
    }
}

proof fn messages_are_told(ms: Seq<JsonModel>)
    requires
        forall|i: int| 0 <= i < ms.len() ==> is_message(#[trigger] ms[i]),
    ensures
        turns_tell(to_anthropic_request::conversation(ms).messages) == chat_tells(ms),
        to_anthropic_request::conversation(ms).system == system_words(ms),
    decreases ms.len(),
{
    if ms.len() > 0 {
        words_differ();
        let rest = ms.drop_last();
        assert forall|i: int| 0 <= i < rest.len() implies is_message(#[trigger] rest[i]) by {
            assert(rest[i] == ms[i]);
        }
        messages_are_told(rest);
        let m = ms[ms.len() - 1];
        assert(is_message(m));
        message_is_told(to_anthropic_request::conversation(rest), m);
        if is_system(m) {
            words_are_the_text(m.field_or_null("content"@));
            reveal_strlit("\n");
            assert("\n"@ =~= seq!['\n']);
        }
    }
}

/// An Anthropic request tells what the chat request tells, in the same order and by the same
/// speakers: each text and picture of the user, what each tool call returned under the identity
/// of that call, each text of the assistant, and each of its calls with its identity, its name
/// and the input that its arguments stand for. What the system says is gathered apart.
pub proof fn anthropic_request_tells_the_same(request: ChatRequestModel, model: Seq<char>)
    requires
        forall|i: int|
            0 <= i < request.messages.len() ==> is_message(#[trigger] request.messages[i]),
    ensures
        ({
            let out = to_anthropic_request::anthropic_request(request, model);
            let system = system_words(request.messages);
            &&& turns_tell(out.messages) == chat_tells(request.messages)
            &&& system.len() == 0 ==> out.system is None
            &&& system.len() > 0 ==> out.system == Some(JsonModel::Str(text::trim(system)))
        }),
{
    messages_are_told(request.messages);
}

// ── Tools and settings ──────────────────────────────────────────────────────

/// A tool of a chat request as it is defined.
pub open spec fn is_tool(t: JsonModel) -> bool {
    t.field_or_null("function"@).str_at("name"@) is Some
}

proof fn tools_are_offered(ts: Seq<JsonModel>)
    requires
        forall|i: int| 0 <= i < ts.len() ==> is_tool(#[trigger] ts[i]),
    ensures
        to_anthropic_request::tools_of(ts).map_values(|t: ToolModel| tool_offer(t))
            == ts.map_values(|t: JsonModel| chat_offer(t)),
    decreases ts.len(),
{
    let out = to_anthropic_request::tools_of(ts);
    if ts.len() == 0 {
        assert(out.map_values(|t: ToolModel| tool_offer(t)) =~= seq![]);
        assert(ts.map_values(|t: JsonModel| chat_offer(t)) =~= seq![]);
    } else {
        words_differ();
        let rest = ts.drop_last();
        assert forall|i: int| 0 <= i < rest.len() implies is_tool(#[trigger] rest[i]) by {
            assert(rest[i] == ts[i]);
        }
        tools_are_offered(rest);
        let t = ts[ts.len() - 1];
        assert(is_tool(t));
        let f = t.field_or_null("function"@);
        assert(t.field("function"@) == Some(f));
        let o = to_anthropic_request::tool_of(t)->Some_0;
        assert(tool_offer(o) =~= chat_offer(t));
        assert(out.map_values(|t: ToolModel| tool_offer(t)) =~= to_anthropic_request::tools_of(
            rest,
        ).map_values(|t: ToolModel| tool_offer(t)).push(tool_offer(o)));
        assert(ts.map_values(|t: JsonModel| chat_offer(t)) =~= rest.map_values(
            |t: JsonModel| chat_offer(t),
        ).push(chat_offer(t)));
    }
}

/// The tools of an Anthropic request.
pub open spec fn tool_offers(tools: Option<Seq<ToolModel>>) -> Seq<Offer> {
    match tools {
        Some(ts) => ts.map_values(|t: ToolModel| tool_offer(t)),
        None => seq![],
    }
}

/// The functions of a chat request are offered as tools, in their order, each with its name,
/// description and schema.
pub proof fn anthropic_request_offers_the_tools(request: ChatRequestModel, model: Seq<char>)
    requires
        request.tools matches Some(ts) ==> forall|i: int|
            0 <= i < ts.len() ==> is_tool(#[trigger] ts[i]),
    ensures
        tool_offers(to_anthropic_request::anthropic_request(request, model).tools) == (
        match request.tools {
            Some(ts) => ts.map_values(|t: JsonModel| chat_offer(t)),
            None => seq![],
        }),
{
    if let Some(ts) = request.tools {
        tools_are_offered(ts);
        let out = to_anthropic_request::tools_of(ts);
        if out.len() == 0 {
            assert(out.map_values(|t: ToolModel| tool_offer(t)) =~= seq![]);
        }
    }
}

proof fn strings_are_kept(items: Seq<JsonModel>)
    requires
        forall|i: int| 0 <= i < items.len() ==> (#[trigger] items[i]) is Str,
    ensures
        to_anthropic_request::only_strings(items) == items,
    decreases items.len(),
{
    if items.len() > 0 {
        let rest = items.drop_last();
        assert forall|i: int| 0 <= i < rest.len() implies (#[trigger] rest[i]) is Str by {
            assert(rest[i] == items[i]);
        }
        strings_are_kept(rest);
        assert(items[items.len() - 1] is Str);
        assert(items =~= rest.push(items.last()));
    }
}

/// The settings of a chat request stand in the Anthropic request: the limit, the sampling, what
/// stops the answer, whether it is streamed, and which tool is to be called. The model is the
/// one that was chosen for the request.
pub proof fn anthropic_request_keeps_the_settings(request: ChatRequestModel, model: Seq<char>)
    ensures
        ({
            let out = to_anthropic_request::anthropic_request(request, model);
            let stops = JsonModel::Object(out.extra).array_at("stop_sequences"@);
            &&& out.model == model
            &&& out.max_tokens == request.max_tokens
            &&& out.temperature == request.temperature
            &&& out.top_p == request.top_p
            &&& out.stream == Some(request.stream)
            &&& request.tool_choice is Some && chat_choice(request.tool_choice->Some_0) is Some
                ==> out.tool_choice is Some && choice(out.tool_choice->Some_0) == chat_choice(
                request.tool_choice->Some_0,
            )
            &&& request.tool_choice is None ==> out.tool_choice is None
            &&& request.stop matches Some(JsonModel::Str(s)) ==> stops == Some(
                seq![JsonModel::Str(s)],
            )
            &&& match request.stop {
                Some(JsonModel::Array(items)) => items.len() > 0 && (forall|i: int|
                    0 <= i < items.len() ==> (#[trigger] items[i]) is Str) ==> stops == Some(items),
                _ => true,
            }
            &&& request.stop is None ==> stops is None
        }),
{
    words_differ();
    if let Some(c) = request.tool_choice {
        let d = to_anthropic_request::tool_choice_of(c);
        if chat_choice(c) is Some && chat_choice(c)->Some_0 is Tool {
            assert(d.str_at("type"@) == Some("tool"@));
            assert(d.str_at("name"@) == c.field_or_null("function"@).str_at("name"@));
        }
    }
    if let Some(JsonModel::Array(items)) = request.stop {
        if forall|i: int| 0 <= i < items.len() ==> (#[trigger] items[i]) is Str {
            strings_are_kept(items);
        }
    }
}

} // verus!
