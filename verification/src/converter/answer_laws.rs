//! That an answer keeps what it says when it is turned from the one protocol into the other.
use vstd::prelude::*;

use crate::converter::anthropic_events;
use crate::converter::reading;
use crate::converter::request_laws::{call_says, told_or, words_differ, Called};
use crate::converter::responses;
use crate::converter::stream_laws;
use crate::converter::to_anthropic;
use crate::converter::types::{self, AnthropicResponseModel, BlockModel, ChatResponseModel};
use crate::json::{self, JsonModel};

verus! {

proof fn answer_keys_differ()
    ensures
        "id"@ != "type"@,
        "id"@ != "role"@,
        "id"@ != "model"@,
        "id"@ != "content"@,
        "id"@ != "stop_reason"@,
        "id"@ != "stop_sequence"@,
        "id"@ != "usage"@,
        "id"@ != "text"@,
        "id"@ != "name"@,
        "id"@ != "input"@,
        "type"@ != "role"@,
        "type"@ != "model"@,
        "type"@ != "content"@,
        "type"@ != "stop_reason"@,
        "type"@ != "stop_sequence"@,
        "type"@ != "usage"@,
        "type"@ != "text"@,
        "type"@ != "name"@,
        "type"@ != "input"@,
        "role"@ != "model"@,
        "role"@ != "content"@,
        "role"@ != "stop_reason"@,
        "role"@ != "stop_sequence"@,
        "role"@ != "usage"@,
        "role"@ != "text"@,
        "role"@ != "name"@,
        "role"@ != "input"@,
        "model"@ != "content"@,
        "model"@ != "stop_reason"@,
        "model"@ != "stop_sequence"@,
        "model"@ != "usage"@,
        "model"@ != "text"@,
        "model"@ != "name"@,
        "model"@ != "input"@,
        "content"@ != "stop_reason"@,
        "content"@ != "stop_sequence"@,
        "content"@ != "usage"@,
        "content"@ != "text"@,
        "content"@ != "name"@,
        "content"@ != "input"@,
        "stop_reason"@ != "stop_sequence"@,
        "stop_reason"@ != "usage"@,
        "stop_reason"@ != "text"@,
        "stop_reason"@ != "name"@,
        "stop_reason"@ != "input"@,
        "stop_sequence"@ != "usage"@,
        "stop_sequence"@ != "text"@,
        "stop_sequence"@ != "name"@,
        "stop_sequence"@ != "input"@,
        "usage"@ != "text"@,
        "usage"@ != "name"@,
        "usage"@ != "input"@,
        "text"@ != "name"@,
        "text"@ != "input"@,
        "name"@ != "input"@,
        "input_tokens"@ != "output_tokens"@,
        "input_tokens"@ != "cache_creation_input_tokens"@,
        "input_tokens"@ != "cache_read_input_tokens"@,
        "output_tokens"@ != "cache_creation_input_tokens"@,
        "output_tokens"@ != "cache_read_input_tokens"@,
        "cache_creation_input_tokens"@ != "cache_read_input_tokens"@,
        "text"@ != "tool_use"@,
{
    reveal_strlit("id");
    reveal_strlit("type");
    reveal_strlit("role");
    reveal_strlit("model");
    reveal_strlit("content");
    reveal_strlit("stop_reason");
    reveal_strlit("stop_sequence");
    reveal_strlit("usage");
    reveal_strlit("text");
    reveal_strlit("name");
    reveal_strlit("input");
    reveal_strlit("input_tokens");
    reveal_strlit("output_tokens");
    reveal_strlit("cache_creation_input_tokens");
    reveal_strlit("cache_read_input_tokens");
    reveal_strlit("tool_use");
    assert("id"@.len() == 2 && "type"@.len() == 4);
    assert("role"@.len() == 4 && "model"@.len() == 5);
    assert("content"@.len() == 7 && "stop_reason"@.len() == 11);
    assert("stop_sequence"@.len() == 13 && "usage"@.len() == 5);
    assert("text"@.len() == 4 && "name"@.len() == 4);
    assert("input"@.len() == 5 && "input_tokens"@.len() == 12);
    assert("output_tokens"@.len() == 13 && "cache_creation_input_tokens"@.len() == 27);
    assert("cache_read_input_tokens"@.len() == 23 && "tool_use"@.len() == 8);
    assert("input"@[0] == 'i' && "model"@[0] == 'm');
    assert("name"@[0] == 'n' && "role"@[0] == 'r');
    assert("text"@[0] == 't' && "text"@[1] == 'e');
    assert("type"@[0] == 't' && "type"@[1] == 'y');
    assert("usage"@[0] == 'u');
}

// ── Answers, as they are read ───────────────────────────────────────────────

/// A tool that an answer uses, with its input.
#[verifier::ext_equal]
pub struct Use {
    pub id: Seq<char>,
    pub name: Seq<char>,
    pub input: JsonModel,
}

/// The text of an Anthropic answer.
pub open spec fn words(bs: Seq<BlockModel>) -> Seq<char>
    decreases bs.len(),
{
    if bs.len() == 0 {
        seq![]
    } else if bs.last().kind == "text"@ {
        words(bs.drop_last()) + json::or_empty(bs.last().text)
    } else {
        words(bs.drop_last())
    }
}

/// The tools that an Anthropic answer uses.
pub open spec fn uses(bs: Seq<BlockModel>) -> Seq<Use>
    decreases bs.len(),
{
    if bs.len() == 0 {
        seq![]
    } else if bs.last().kind == "tool_use"@ {
        uses(bs.drop_last()).push(
            Use {
                id: json::or_empty(bs.last().id),
                name: json::or_empty(bs.last().name),
                input: match bs.last().input {
                    Some(input) => input,
                    None => JsonModel::Null,
                },
            },
        )
    } else {
        uses(bs.drop_last())
    }
}

/// The text of a chat answer.
pub open spec fn chat_words(r: ChatResponseModel) -> Seq<char> {
    if r.choices.len() > 0 {
        json::or_empty(r.choices[0].message.content)
    } else {
        seq![]
    }
}

/// The tool calls of a chat answer, as they stand in it.
pub open spec fn raw_calls(r: ChatResponseModel) -> Seq<JsonModel> {
    if r.choices.len() > 0 && r.choices[0].message.tool_calls is Some {
        r.choices[0].message.tool_calls->Some_0
    } else {
        seq![]
    }
}

/// The tool calls of a chat answer.
pub open spec fn chat_calls(r: ChatResponseModel) -> Seq<Called> {
    raw_calls(r).map_values(|c: JsonModel| call_says(c))
}

/// The call of a used tool: its arguments are its input, written out.
pub open spec fn as_call(u: Use) -> Called {
    Called { id: u.id, name: u.name, arguments: json::json_text(u.input) }
}

/// What the arguments of a call stand for; where they stand for no object, the empty one.
pub open spec fn object_of(arguments: Seq<char>) -> JsonModel {
    match json::json_parse(arguments) {
        Some(JsonModel::Object(o)) => JsonModel::Object(o),
        _ => JsonModel::Object(json::nothing()),
    }
}

/// The tool of a call that has an identity and a name.
pub open spec fn as_use(c: Called) -> Use {
    Use { id: c.id, name: c.name, input: object_of(c.arguments) }
}

/// A tool-use block as Anthropic defines it.
pub open spec fn is_use(b: BlockModel) -> bool {
    b.kind == "tool_use"@ ==> b.id is Some && b.name is Some && b.input is Some
}

/// A call as OpenAI defines it.
pub open spec fn is_whole_call(c: JsonModel) -> bool {
    &&& c.str_at("id"@) is Some
    &&& c.field_or_null("function"@).str_at("name"@) is Some
    &&& c.field_or_null("function"@).str_at("arguments"@) is Some
}

// ── Anthropic answers to chat answers ───────────────────────────────────────

/// The call of a tool-use block: its arguments are its input, written out.
pub open spec fn block_calls(b: BlockModel) -> Called {
    Called {
        id: told_or(b.id, "call_xyz"@),
        name: told_or(b.name, "tool"@),
        arguments: if b.input is Some {
            json::json_text(b.input->Some_0)
        } else {
            "{}"@
        },
    }
}

/// The calls of the tool-use blocks.
pub open spec fn blocks_call(bs: Seq<BlockModel>) -> Seq<Called>
    decreases bs.len(),
{
    if bs.len() == 0 {
        seq![]
    } else if bs.last().kind == "tool_use"@ {
        blocks_call(bs.drop_last()).push(block_calls(bs.last()))
    } else {
        blocks_call(bs.drop_last())
    }
}

proof fn blocks_are_read(bs: Seq<BlockModel>)
    ensures
        responses::said(bs) == words(bs),
        responses::called(bs).map_values(|c: JsonModel| call_says(c)) == blocks_call(bs),
        responses::called(bs).len() == blocks_call(bs).len(),
    decreases bs.len(),
{
    let calls = responses::called(bs).map_values(|c: JsonModel| call_says(c));
    if bs.len() == 0 {
        assert(calls =~= blocks_call(bs));
    } else {
        words_differ();
        answer_keys_differ();
        let rest = bs.drop_last();
        blocks_are_read(rest);
        let b = bs.last();
        if b.kind == "tool_use"@ {
            let c = responses::call_of(b);
            assert(c.str_at("id"@) == Some(told_or(b.id, "call_xyz"@)));
            assert(c.field_or_null("function"@).str_at("name"@) == Some(told_or(b.name, "tool"@)));
            assert(call_says(c) =~= block_calls(b));
            assert(calls =~= responses::called(rest).map_values(|c: JsonModel| call_says(c)).push(
                call_says(c),
            ));
        }
    }
}

proof fn uses_are_called(bs: Seq<BlockModel>)
    requires
        forall|i: int| 0 <= i < bs.len() ==> is_use(#[trigger] bs[i]),
    ensures
        blocks_call(bs) == uses(bs).map_values(|u: Use| as_call(u)),
    decreases bs.len(),
{
    let used = uses(bs).map_values(|u: Use| as_call(u));
    if bs.len() == 0 {
        assert(used =~= blocks_call(bs));
    } else {
        let rest = bs.drop_last();
        assert forall|i: int| 0 <= i < rest.len() implies is_use(#[trigger] rest[i]) by {
            assert(rest[i] == bs[i]);
        }
        uses_are_called(rest);
        assert(is_use(bs[bs.len() - 1]));
        if bs.last().kind == "tool_use"@ {
            assert(used =~= uses(rest).map_values(|u: Use| as_call(u)).push(
                as_call(uses(bs).last()),
            ));
        }
    }
}

/// A chat answer holds the text of the Anthropic answer and a call for each of its tool-use
/// blocks, also where such a block is not complete.
pub proof fn chat_answer_calls_each_tool(response: AnthropicResponseModel, created: u64)
    ensures
        chat_words(responses::chat_response(response, created)) == words(response.content),
        chat_calls(responses::chat_response(response, created)) == blocks_call(response.content),
{
    let out = responses::chat_response(response, created);
    blocks_are_read(response.content);
    assert(chat_words(out) =~= words(response.content));
    assert(chat_calls(out) =~= blocks_call(response.content));
}

/// A chat answer says what the Anthropic answer says: the text, and each used tool as a call
/// with the same identity and name whose arguments are the input of the tool, written out.
pub proof fn chat_answer_says_the_same(response: AnthropicResponseModel, created: u64)
    requires
        forall|i: int|
            0 <= i < response.content.len() ==> is_use(#[trigger] response.content[i]),
    ensures
        ({
            let out = responses::chat_response(response, created);
            &&& out.choices.len() == 1
            &&& out.choices[0].index == 0
            &&& out.choices[0].message.role == "assistant"@
            &&& chat_words(out) == words(response.content)
            &&& chat_calls(out) == uses(response.content).map_values(|u: Use| as_call(u))
        }),
{
    chat_answer_calls_each_tool(response, created);
    uses_are_called(response.content);
}

/// A chat answer names the message, the model and the reason of the Anthropic answer, and counts
/// its tokens where they fit the smaller counters.
pub proof fn chat_answer_keeps_the_rest(response: AnthropicResponseModel, created: u64)
    ensures
        ({
            let out = responses::chat_response(response, created);
            &&& out.id == response.id
            &&& out.model == response.model
            &&& out.object == "chat.completion"@
            &&& out.created == created
            &&& out.choices[0].finish_reason == (match response.stop_reason {
                Some(r) => Some(reading::in_openai_words(r)),
                None => None,
            })
            &&& out.usage matches Some(u) && {
                &&& response.usage.input_tokens <= u32::MAX ==> u.prompt_tokens
                    == response.usage.input_tokens
                &&& response.usage.output_tokens <= u32::MAX ==> u.completion_tokens
                    == response.usage.output_tokens
                &&& response.usage.input_tokens + response.usage.output_tokens <= u32::MAX
                    ==> u.total_tokens == u.prompt_tokens + u.completion_tokens
            }
        }),
{
    match response.stop_reason {
        Some(r) => stream_laws::reasons_mean_the_same(r),
        None => {},
    }
}

// ── Chat answers to Anthropic answers ───────────────────────────────────────

pub(crate) proof fn words_add(a: Seq<BlockModel>, b: Seq<BlockModel>)
    ensures
        words(a + b) == words(a) + words(b),
        uses(a + b) == uses(a) + uses(b),
    decreases b.len(),
{
    if b.len() == 0 {
        assert(a + b =~= a);
        assert(words(a) + words(b) =~= words(a));
        assert(uses(a) + uses(b) =~= uses(a));
    } else {
        words_add(a, b.drop_last());
        assert((a + b).drop_last() =~= a + b.drop_last());
        assert((a + b).last() == b.last());
        assert(words(a + b) =~= words(a) + words(b));
        assert(uses(a + b) =~= uses(a) + uses(b));
    }
}

proof fn text_is_read(t: Option<Seq<char>>)
    ensures
        words(to_anthropic::text_blocks(t)) == json::or_empty(t),
        uses(to_anthropic::text_blocks(t)) == Seq::<Use>::empty(),
{
    answer_keys_differ();
    let bs = to_anthropic::text_blocks(t);
    reveal_with_fuel(words, 2);
    reveal_with_fuel(uses, 2);
    if bs.len() > 0 {
        assert(bs.drop_last() =~= seq![]);
        assert(words(bs) =~= json::or_empty(t));
    } else {
        assert(json::or_empty(t) =~= seq![]);
    }
}

/// The blocks are tool uses, one for each of the tools.
spec fn are_uses(bs: Seq<BlockModel>, us: Seq<Use>) -> bool {
    &&& bs.len() == us.len()
    &&& forall|i: int|
        0 <= i < bs.len() ==> #[trigger] bs[i] == types::tool_use_block(
            us[i].id,
            us[i].name,
            us[i].input,
        )
}

proof fn uses_are_read(bs: Seq<BlockModel>, us: Seq<Use>)
    requires
        are_uses(bs, us),
    ensures
        words(bs) == Seq::<char>::empty(),
        uses(bs) == us,
    decreases bs.len(),
{
    answer_keys_differ();
    if bs.len() == 0 {
        assert(us =~= seq![]);
    } else {
        let rest = bs.drop_last();
        assert forall|i: int| 0 <= i < rest.len() implies #[trigger] rest[i]
            == types::tool_use_block(
            us.drop_last()[i].id,
            us.drop_last()[i].name,
            us.drop_last()[i].input,
        ) by {
            assert(rest[i] == bs[i]);
        }
        uses_are_read(rest, us.drop_last());
        assert(bs[bs.len() - 1] == bs.last());
        assert(uses(bs) =~= us);
    }
}

/// The tools of calls: each with the identity and the name of its call, where it has them, and
/// what its arguments stand for as input.
pub open spec fn calls_use(calls: Seq<JsonModel>, fresh: Seq<Seq<char>>) -> Seq<Use> {
    Seq::new(
        calls.len(),
        |i: int|
            {
                let f = calls[i].field_or_null("function"@);
                Use {
                    id: told_or(calls[i].str_at("id"@), "toolu_"@ + fresh[i]),
                    name: told_or(f.str_at("name"@), "tool"@),
                    input: if f.str_at("arguments"@) is Some {
                        object_of(f.str_at("arguments"@)->Some_0)
                    } else {
                        JsonModel::Object(json::nothing())
                    },
                }
            },
    )
}

/// An Anthropic answer holds the text of the chat answer and a tool use for each of its calls,
/// also where a call is not complete: one without an identity is given a fresh one.
pub proof fn anthropic_answer_uses_each_tool(response: ChatResponseModel, fresh: Seq<Seq<char>>)
    ensures
        words(responses::anthropic_response(response, fresh).content) == chat_words(response),
        uses(responses::anthropic_response(response, fresh).content) == calls_use(
            raw_calls(response),
            fresh,
        ),
{
    let out = responses::anthropic_response(response, fresh);
    let us = calls_use(raw_calls(response), fresh);
    if response.choices.len() > 0 {
        let head = to_anthropic::text_blocks(response.choices[0].message.content);
        let calls = responses::calls_of(response);
        assert(calls == raw_calls(response));
        let tail = responses::blocks_of(calls, fresh);
        text_is_read(response.choices[0].message.content);
        assert forall|i: int| 0 <= i < tail.len() implies #[trigger] tail[i]
            == types::tool_use_block(us[i].id, us[i].name, us[i].input) by {
            let c = raw_calls(response)[i];
            let f = c.field_or_null("function"@);
            assert(to_anthropic::call_function(c) == f);
        }
        uses_are_read(tail, us);
        words_add(head, tail);
        assert(words(out.content) =~= chat_words(response));
        assert(uses(out.content) =~= us);
    } else {
        assert(us =~= seq![]);
    }
}

/// An Anthropic answer says what the chat answer says: the text, and each call as a used tool
/// with the same identity and name whose input is what the arguments of the call stand for.
pub proof fn anthropic_answer_says_the_same(response: ChatResponseModel, fresh: Seq<Seq<char>>)
    requires
        forall|i: int|
            0 <= i < raw_calls(response).len() ==> is_whole_call(#[trigger] raw_calls(response)[i]),
    ensures
        ({
            let out = responses::anthropic_response(response, fresh);
            &&& out.kind == "message"@
            &&& out.role == "assistant"@
            &&& words(out.content) == chat_words(response)
            &&& uses(out.content) == chat_calls(response).map_values(|c: Called| as_use(c))
        }),
{
    let us = chat_calls(response).map_values(|c: Called| as_use(c));
    anthropic_answer_uses_each_tool(response, fresh);
    assert forall|i: int| 0 <= i < us.len() implies #[trigger] us[i] == calls_use(
        raw_calls(response),
        fresh,
    )[i] by {
        assert(is_whole_call(raw_calls(response)[i]));
        assert(chat_calls(response)[i] == call_says(raw_calls(response)[i]));
    }
    assert(us =~= calls_use(raw_calls(response), fresh));
}

/// An Anthropic answer names the message, the model, the reason and the token counts of the chat
/// answer.
pub proof fn anthropic_answer_keeps_the_rest(response: ChatResponseModel, fresh: Seq<Seq<char>>)
    ensures
        ({
            let out = responses::anthropic_response(response, fresh);
            &&& out.id == response.id
            &&& out.model == response.model
            &&& out.stop_sequence is None
            &&& response.choices.len() > 0 ==> out.stop_reason == (
            match response.choices[0].finish_reason {
                Some(r) => Some(reading::in_anthropic_words(r)),
                None => None,
            })
            &&& response.choices.len() == 0 ==> out.stop_reason is None && out.content.len() == 0
            &&& match response.usage {
                Some(u) => out.usage.input_tokens == u.prompt_tokens && out.usage.output_tokens
                    == u.completion_tokens,
                None => out.usage.input_tokens == 0 && out.usage.output_tokens == 0,
            }
            &&& out.usage.cache_creation_input_tokens == 0
            &&& out.usage.cache_read_input_tokens == 0
        }),
{
    if response.choices.len() > 0 {
        match response.choices[0].finish_reason {
            Some(r) => stream_laws::reasons_mean_the_same(r),
            None => {},
        }
    }
}

// ── There and back ──────────────────────────────────────────────────────────

/// An input that can be read back from its text.
pub open spec fn reads_back(input: JsonModel) -> bool {
    input is Object && json::json_parse(json::json_text(input)) == Some(input)
}

/// An Anthropic answer that becomes a chat answer and an Anthropic answer again says the same:
/// its text, and its tool uses with their identity, name and input.
pub proof fn anthropic_answer_survives(
    response: AnthropicResponseModel,
    created: u64,
    fresh: Seq<Seq<char>>,
)
    requires
        forall|i: int|
            0 <= i < response.content.len() ==> is_use(#[trigger] response.content[i]),
        forall|i: int|
            0 <= i < uses(response.content).len() ==> reads_back(
                (#[trigger] uses(response.content)[i]).input,
            ),
    ensures
        ({
            let out = responses::anthropic_response(
                responses::chat_response(response, created),
                fresh,
            );
            &&& out.id == response.id
            &&& out.model == response.model
            &&& words(out.content) == words(response.content)
            &&& uses(out.content) == uses(response.content)
        }),
{
    let there = responses::chat_response(response, created);
    let us = uses(response.content);
    chat_answer_says_the_same(response, created);
    assert(chat_calls(there) == us.map_values(|u: Use| as_call(u)));
    calls_are_whole(response.content);
    assert(raw_calls(there) =~= responses::called(response.content));
    anthropic_answer_says_the_same(there, fresh);
    let out = responses::anthropic_response(there, fresh);
    assert(uses(out.content) =~= us) by {
        assert forall|i: int| 0 <= i < us.len() implies #[trigger] as_use(as_call(us[i]))
            == us[i] by {
            assert(reads_back(us[i].input));
        }
        assert(chat_calls(there).map_values(|c: Called| as_use(c)) =~= us);
    }
}

proof fn calls_are_whole(bs: Seq<BlockModel>)
    ensures
        forall|i: int|
            0 <= i < responses::called(bs).len() ==> is_whole_call(
                #[trigger] responses::called(bs)[i],
            ),
    decreases bs.len(),
{
    words_differ();
    if bs.len() > 0 {
        calls_are_whole(bs.drop_last());
        let c = responses::call_of(bs.last());
        assert(c.field_or_null("function"@).str_at("name"@) is Some);
        assert(c.field_or_null("function"@).str_at("arguments"@) is Some);
        assert(c.str_at("id"@) is Some);
        assert(is_whole_call(c));
        let all = responses::called(bs);
        let before = responses::called(bs.drop_last());
        assert forall|i: int| 0 <= i < all.len() implies is_whole_call(#[trigger] all[i]) by {
            if i < before.len() {
                assert(all[i] == before[i]);
            } else {
                assert(all[i] == c);
            }
        }
    }
}

/// A chat answer that becomes an Anthropic answer and a chat answer again says the same: its
/// text, and its calls with their identity and name, their arguments written anew.
pub proof fn chat_answer_survives(
    response: ChatResponseModel,
    created: u64,
    fresh: Seq<Seq<char>>,
)
    requires
        forall|i: int|
            0 <= i < raw_calls(response).len() ==> is_whole_call(#[trigger] raw_calls(response)[i]),
    ensures
        ({
            let out = responses::chat_response(
                responses::anthropic_response(response, fresh),
                created,
            );
            &&& out.id == response.id
            &&& out.model == response.model
            &&& chat_words(out) == chat_words(response)
            &&& chat_calls(out) == chat_calls(response).map_values(
                |c: Called|
                    Called {
                        id: c.id,
                        name: c.name,
                        arguments: json::json_text(object_of(c.arguments)),
                    },
            )
        }),
{
    let there = responses::anthropic_response(response, fresh);
    anthropic_answer_says_the_same(response, fresh);
    assert forall|i: int| 0 <= i < there.content.len() implies is_use(
        #[trigger] there.content[i],
    ) by {
        answer_keys_differ();
    }
    chat_answer_says_the_same(there, created);
    let out = responses::chat_response(there, created);
    assert(chat_calls(out) =~= chat_calls(response).map_values(
        |c: Called|
            Called {
                id: c.id,
                name: c.name,
                arguments: json::json_text(object_of(c.arguments)),
            },
    ));
}

// ── Answers of a chat backend ───────────────────────────────────────────────

/// The message of the first choice of an answer.
pub open spec fn answer_message(value: JsonModel) -> JsonModel {
    reading::choice(value).field_or_null("message"@)
}

/// The tool calls of an answer.
pub open spec fn raw_answer_calls(value: JsonModel) -> Seq<JsonModel> {
    match answer_message(value).array_at("tool_calls"@) {
        Some(cs) => cs,
        None => seq![],
    }
}

/// The tools of calls: the input of each is whatever the arguments of its call stand for.
pub open spec fn calls_use_any(calls: Seq<JsonModel>, fresh: Seq<Seq<char>>) -> Seq<Use> {
    Seq::new(
        calls.len(),
        |i: int|
            {
                let f = calls[i].field_or_null("function"@);
                Use {
                    id: told_or(calls[i].str_at("id"@), "toolu_"@ + fresh[i]),
                    name: told_or(f.str_at("name"@), "tool"@),
                    input: match json::json_parse(told_or(f.str_at("arguments"@), "{}"@)) {
                        Some(input) => input,
                        None => JsonModel::Object(json::nothing()),
                    },
                }
            },
    )
}

/// The Anthropic answer to a client says what a chat backend answered: the text, each call as a
/// used tool with its identity, its name and the input that its arguments stand for, the reason
/// and the token counts.
pub proof fn backend_answer_says_the_same(
    value: JsonModel,
    model: Seq<char>,
    id: Seq<char>,
    fresh: Seq<Seq<char>>,
)
    requires
        value.array_at("choices"@) matches Some(cs) && cs.len() > 0,
        reading::choice(value).field("message"@) is Some,
    ensures
        ({
            let out = to_anthropic::answer_of(value, model, id, fresh);
            let counts = value.field_or_null("usage"@);
            &&& out.id == id
            &&& out.model == model
            &&& out.kind == "message"@
            &&& out.role == "assistant"@
            &&& words(out.content) == json::or_empty(answer_message(value).str_at("content"@))
            &&& uses(out.content) == calls_use_any(raw_answer_calls(value), fresh)
            &&& out.stop_reason == (match reading::choice(value).str_at("finish_reason"@) {
                Some(r) => Some(reading::in_anthropic_words(r)),
                None => None,
            })
            &&& out.usage.input_tokens == reading::count_at(counts, "prompt_tokens"@)
            &&& out.usage.output_tokens == reading::count_at(counts, "completion_tokens"@)
            &&& out.usage.cache_read_input_tokens == reading::count_at(
                counts.field_or_null("prompt_tokens_details"@),
                "cached_tokens"@,
            )
            &&& out.usage.cache_creation_input_tokens == 0
        }),
{
    let out = to_anthropic::answer_of(value, model, id, fresh);
    let us = calls_use_any(raw_answer_calls(value), fresh);
    let choice = reading::choice(value);
    assert(to_anthropic::first_choice(value) == Some(choice));
    let message = answer_message(value);
    assert(choice.field("message"@) == Some(message));
    let calls = to_anthropic::answer_calls(value);
    assert(calls == raw_answer_calls(value));
    let head = to_anthropic::text_blocks(message.str_at("content"@));
    let tail = to_anthropic::call_blocks(calls, fresh);
    text_is_read(message.str_at("content"@));
    assert forall|i: int| 0 <= i < tail.len() implies #[trigger] tail[i] == types::tool_use_block(
        us[i].id,
        us[i].name,
        us[i].input,
    ) by {
        let c = raw_answer_calls(value)[i];
        assert(to_anthropic::call_function(c) == c.field_or_null("function"@));
    }
    uses_are_read(tail, us);
    words_add(head, tail);
    assert(words(out.content) =~= json::or_empty(message.str_at("content"@)));
    assert(uses(out.content) =~= us);
    match choice.str_at("finish_reason"@) {
        Some(r) => stream_laws::reasons_mean_the_same(r),
        None => {},
    }
}

// ── Answers as JSON ─────────────────────────────────────────────────────────

/// The JSON of an answer names what the answer holds, each thing under its own key.
pub proof fn answer_is_written(r: AnthropicResponseModel)
    ensures
        ({
            let v = responses::response_model(r);
            let usage = v.field_or_null("usage"@);
            &&& v.str_at("id"@) == Some(r.id)
            &&& v.str_at("type"@) == Some(r.kind)
            &&& v.str_at("role"@) == Some(r.role)
            &&& v.str_at("model"@) == Some(r.model)
            &&& v.str_at("stop_reason"@) == r.stop_reason
            &&& v.str_at("stop_sequence"@) == r.stop_sequence
            &&& usage.unsigned_at("input_tokens"@) == Some(r.usage.input_tokens)
            &&& usage.unsigned_at("output_tokens"@) == Some(r.usage.output_tokens)
            &&& usage.unsigned_at("cache_creation_input_tokens"@) == Some(
                r.usage.cache_creation_input_tokens,
            )
            &&& usage.unsigned_at("cache_read_input_tokens"@) == Some(
                r.usage.cache_read_input_tokens,
            )
            &&& v.array_at("content"@) matches Some(bs) && bs.len() == r.content.len() && (
            forall|i: int|
                0 <= i < bs.len() ==> {
                    &&& (#[trigger] bs[i]).str_at("type"@) == Some(r.content[i].kind)
                    &&& bs[i].str_at("text"@) == r.content[i].text
                    &&& bs[i].str_at("id"@) == r.content[i].id
                    &&& bs[i].str_at("name"@) == r.content[i].name
                    &&& bs[i].field("input"@) == r.content[i].input
                })
        }),
{
    answer_keys_differ();
    let v = responses::response_model(r);
    assert(v.field_or_null("usage"@) == anthropic_events::usage_model(r.usage));
    let bs = v.array_at("content"@)->Some_0;
    assert(bs == r.content.map_values(|b: BlockModel| responses::block_json(b)));
}

} // verus!
