//! Answers of the one chat protocol turned into answers of the other.
use vstd::prelude::*;

use crate::converter::anthropic_events;
use crate::converter::finish_reason;
use crate::converter::to_anthropic::{self, str_or};
use crate::converter::translate;
use crate::converter::types::{
    self,
    AnthropicContentBlock,
    AnthropicResponse,
    AnthropicResponseModel,
    AnthropicUsage,
    BlockModel,
    ChatCompletionsChoice,
    ChatCompletionsMessage,
    ChatCompletionsResponse,
    ChatCompletionsUsage,
    ChatMessageModel,
    ChatResponseModel,
    ChoiceModel,
};
use crate::ids;
use crate::json::{self, Json, JsonModel, Object};
use crate::text;

verus! {

// ── OpenAI to Anthropic ─────────────────────────────────────────────────────

/// What the text of the arguments of a tool call parses to, where there is a text.
pub open spec fn parsed_arguments(call: JsonModel) -> Option<JsonModel> {
    match to_anthropic::call_function(call).str_at("arguments"@) {
        Some(a) => json::json_parse(a),
        None => None,
    }
}

/// The tool-use block for a tool call whose arguments parse to `parsed`: its input is always
/// an object.
pub open spec fn block_with(call: JsonModel, parsed: Option<JsonModel>, fresh: Seq<char>) -> BlockModel {
    types::tool_use_block(
        to_anthropic::call_id(call, fresh),
        to_anthropic::call_name(call),
        translate::object_input(parsed),
    )
}

pub open spec fn block_of(call: JsonModel, fresh: Seq<char>) -> BlockModel {
    block_with(call, parsed_arguments(call), fresh)
}

pub open spec fn blocks_of(calls: Seq<JsonModel>, fresh: Seq<Seq<char>>) -> Seq<BlockModel> {
    Seq::new(calls.len(), |i: int| block_of(calls[i], fresh[i]))
}

/// The tool calls of an answer.
pub open spec fn calls_of(response: ChatResponseModel) -> Seq<JsonModel> {
    if response.choices.len() > 0 {
        match response.choices[0].message.tool_calls {
            Some(calls) => calls,
            None => seq![],
        }
    } else {
        seq![]
    }
}

/// The Anthropic answer for an OpenAI one.
pub open spec fn anthropic_response(
    response: ChatResponseModel,
    fresh: Seq<Seq<char>>,
) -> AnthropicResponseModel {
    AnthropicResponseModel {
        id: response.id,
        kind: "message"@,
        role: "assistant"@,
        model: response.model,
        content: if response.choices.len() > 0 {
            to_anthropic::text_blocks(response.choices[0].message.content) + blocks_of(
                calls_of(response),
                fresh,
            )
        } else {
            seq![]
        },
        stop_reason: if response.choices.len() > 0 {
            match response.choices[0].finish_reason {
                Some(r) => Some(finish_reason::stop_reason_of(r)),
                None => None,
            }
        } else {
            None
        },
        stop_sequence: None,
        usage: match response.usage {
            Some(u) => AnthropicUsage {
                input_tokens: u.prompt_tokens as u64,
                output_tokens: u.completion_tokens as u64,
                cache_creation_input_tokens: 0,
                cache_read_input_tokens: 0,
            },
            None => anthropic_events::zero_usage(),
        },
    }
}

/// The tool-use block for a tool call whose arguments have been parsed.
pub fn tool_block(call: &Json, parsed: Option<Json>, fresh: &str) -> (r: AnthropicContentBlock)
    ensures
        r@ == block_with(call@, json::opt_model(parsed), fresh@),
{
    let input = match parsed {
        Some(v) => match v {
            Json::Object(o) => Json::Object(o),
            _ => Json::Object(Object::new()),
        },
        None => Json::Object(Object::new()),
    };
    let id = match call.str_at("id") {
        Some(id) => text::owned(id),
        None => text::concat("toolu_", fresh),
    };
    let name = match call.get("function") {
        Some(f) => str_or(f.str_at("name"), "tool"),
        None => text::owned("tool"),
    };
    AnthropicContentBlock::of_tool(id, name, input)
}

/// The Anthropic answer for an OpenAI one; `fresh[i]` is for the identity of tool call `i` if
/// that has none.
pub fn anthropic_response_with_ids(response: &ChatCompletionsResponse, fresh: &Vec<String>) -> (r:
    AnthropicResponse)
    requires
        fresh@.len() >= calls_of(response@).len(),
    ensures
        r@ == anthropic_response(response@, text::texts(fresh@)),
{
    let mut content: Vec<AnthropicContentBlock> = Vec::new();
    let mut stop_reason: Option<String> = None;
    assert(types::block_models(content@) =~= seq![]);
    assert(types::choice_models(response.choices@).len() == response.choices@.len());
    if response.choices.len() > 0 {
        let choice = &response.choices[0];
        assert(response@.choices[0] == choice@);
        match &choice.message.content {
            Some(t) => {
                if !t.as_str().is_empty() {
                    content.push(AnthropicContentBlock::of_text(t.as_str()));
                }
            },
            None => {},
        }
        let ghost head = types::block_models(content@);
        assert(head =~= to_anthropic::text_blocks(choice@.message.content));
        match &choice.message.tool_calls {
            Some(calls) => {
                let ghost all = json::models(calls@);
                let ghost names = text::texts(fresh@);
                let ghost made = blocks_of(all, names);
                proof {
                    json::models_at(calls@);
                    assert(head + made.take(0) =~= head);
                }
                let mut i: usize = 0;
                while i < calls.len()
                    invariant
                        i <= calls.len(),
                        calls.len() <= fresh.len(),
                        all == json::models(calls@),
                        all.len() == calls.len(),
                        names == text::texts(fresh@),
                        made == blocks_of(all, names),
                        types::block_models(content@) == head + made.take(i as int),
                    decreases calls.len() - i,
                {
                    let call = &calls[i];
                    proof {
                        json::models_at(calls@);
                    }
                    let parsed = match call.get("function") {
                        Some(f) => match f.str_at("arguments") {
                            Some(a) => json::parse(a),
                            None => None,
                        },
                        None => None,
                    };
                    let block = tool_block(call, parsed, fresh[i].as_str());
                    proof {
                        types::block_models_push(content@, block);
                        assert(made[i as int] == block@);
                        assert((head + made.take(i as int)).push(block@) =~= head + made.take(
                            i + 1,
                        ));
                    }
                    content.push(block);
                    i = i + 1;
                }
                assert(made.take(all.len() as int) =~= made);
            },
            None => {
                assert(calls_of(response@) == Seq::<JsonModel>::empty());
                assert(types::block_models(content@) =~= head + blocks_of(
                    calls_of(response@),
                    text::texts(fresh@),
                ));
            },
        }
        stop_reason = match &choice.finish_reason {
            Some(r) => Some(
                finish_reason::openai_finish_reason_to_anthropic_stop_reason(r.as_str()),
            ),
            None => None,
        };
    }
    let usage = match &response.usage {
        Some(u) => AnthropicUsage {
            input_tokens: u.prompt_tokens as u64,
            output_tokens: u.completion_tokens as u64,
            cache_creation_input_tokens: 0,
            cache_read_input_tokens: 0,
        },
        None => AnthropicUsage {
            input_tokens: 0,
            output_tokens: 0,
            cache_creation_input_tokens: 0,
            cache_read_input_tokens: 0,
        },
    };
    AnthropicResponse {
        id: response.id.clone(),
        kind: text::owned("message"),
        role: text::owned("assistant"),
        model: response.model.clone(),
        content,
        stop_reason,
        stop_sequence: None,
        usage,
    }
}

/// How many tool calls an answer holds.
fn call_count(response: &ChatCompletionsResponse) -> (r: usize)
    ensures
        r == calls_of(response@).len(),
{
    assert(types::choice_models(response.choices@).len() == response.choices@.len());
    if response.choices.len() > 0 {
        assert(response@.choices[0] == response.choices@[0]@);
        match &response.choices[0].message.tool_calls {
            Some(calls) => {
                proof {
                    json::models_at(calls@);
                }
                calls.len()
            },
            None => 0,
        }
    } else {
        0
    }
}

/// The Anthropic answer for an OpenAI one; a tool call without an identity gets a new one.
pub fn translate_openai_to_anthropic_response(response: &ChatCompletionsResponse) -> (r:
    AnthropicResponse)
    ensures
        exists|fresh: Seq<Seq<char>>|
            #[trigger] ids::are_uuids(fresh, calls_of(response@).len()) && r@ == anthropic_response(
                response@,
                fresh,
            ),
{
    let fresh = ids::fresh_ids(call_count(response));
    let r = anthropic_response_with_ids(response, &fresh);
    assert(ids::are_uuids(text::texts(fresh@), calls_of(response@).len()));
    r
}

/// Every tool-use block of a translated answer has an identity, a name and an object for its
/// input.
pub proof fn tool_use_always_has_input(response: ChatResponseModel, fresh: Seq<Seq<char>>, i: int)
    requires
        0 <= i < anthropic_response(response, fresh).content.len(),
        anthropic_response(response, fresh).content[i].kind == "tool_use"@,
    ensures
        ({
            let b = anthropic_response(response, fresh).content[i];
            b.id is Some && b.name is Some && b.input matches Some(JsonModel::Object(_))
        }),
{
    reveal_strlit("text");
    reveal_strlit("tool_use");
    assert("text"@.len() == 4 && "tool_use"@.len() == 8);
    let head = to_anthropic::text_blocks(response.choices[0].message.content);
    let made = blocks_of(calls_of(response), fresh);
    let content = anthropic_response(response, fresh).content;
    if i < head.len() {
        assert(content[i] == head[i]);
    } else {
        assert(content[i] == made[i - head.len()]);
    }
}

// ── Anthropic to OpenAI ─────────────────────────────────────────────────────

/// Everything that the text blocks say.
pub open spec fn said(blocks: Seq<BlockModel>) -> Seq<char>
    decreases blocks.len(),
{
    if blocks.len() == 0 {
        seq![]
    } else if blocks.last().kind == "text"@ {
        said(blocks.drop_last()) + json::or_empty(blocks.last().text)
    } else {
        said(blocks.drop_last())
    }
}

/// The tool call that a tool-use block makes.
pub open spec fn call_of(block: BlockModel) -> JsonModel {
    translate::function_call(
        to_anthropic::or_str(block.id, "call_xyz"@),
        to_anthropic::or_str(block.name, "tool"@),
        match block.input {
            Some(v) => json::json_text(v),
            None => "{}"@,
        },
    )
}

/// The tool calls that the tool-use blocks make.
pub open spec fn called(blocks: Seq<BlockModel>) -> Seq<JsonModel>
    decreases blocks.len(),
{
    if blocks.len() == 0 {
        seq![]
    } else if blocks.last().kind == "tool_use"@ {
        called(blocks.drop_last()).push(call_of(blocks.last()))
    } else {
        called(blocks.drop_last())
    }
}

/// The last 32 bits of a count.
pub open spec fn low32(n: int) -> u32 {
    (n % 0x1_0000_0000) as u32
}

/// The OpenAI answer for an Anthropic one, made at the time `created`. Counts are cut to 32
/// bits.
pub open spec fn chat_response(response: AnthropicResponseModel, created: u64) -> ChatResponseModel {
    let text = said(response.content);
    let calls = called(response.content);
    ChatResponseModel {
        id: response.id,
        object: "chat.completion"@,
        created,
        model: response.model,
        choices: seq![
            ChoiceModel {
                index: 0,
                message: ChatMessageModel {
                    role: "assistant"@,
                    content: if text.len() > 0 {
                        Some(text)
                    } else {
                        None
                    },
                    tool_calls: if calls.len() > 0 {
                        Some(calls)
                    } else {
                        None
                    },
                },
                finish_reason: match response.stop_reason {
                    Some(r) => Some(finish_reason::finish_reason_of(r)),
                    None => None,
                },
            },
        ],
        usage: Some(
            ChatCompletionsUsage {
                prompt_tokens: low32(response.usage.input_tokens as int),
                completion_tokens: low32(response.usage.output_tokens as int),
                total_tokens: low32(response.usage.input_tokens + response.usage.output_tokens),
            },
        ),
    }
}

/// The low 32 bits of a number.
pub fn cut32(n: u64) -> (r: u32)
    ensures
        r == low32(n as int),
{
    let r: u32 = #[verifier::truncate] (n as u32);
    assert(#[verifier::truncate] (n as u32) == (n % 0x1_0000_0000) as u32) by (bit_vector);
    r
}

fn opt_or(o: &Option<String>, default: &str) -> (r: String)
    ensures
        r@ == to_anthropic::or_str(text::opt_text(*o), default@),
{
    match o {
        Some(s) => s.clone(),
        None => text::owned(default),
    }
}

/// The OpenAI answer for an Anthropic one, made at the time `created`, in seconds.
pub fn translate_anthropic_to_openai_response(response: &AnthropicResponse, created: u64) -> (r:
    ChatCompletionsResponse)
    ensures
        r@ == chat_response(response@, created),
{
    let mut words = String::new();
    let mut calls: Vec<Json> = Vec::new();
    let ghost all = types::block_models(response.content@);
    let mut i: usize = 0;
    while i < response.content.len()
        invariant
            i <= response.content.len(),
            all == types::block_models(response.content@),
            words@ == said(all.take(i as int)),
            json::models(calls@) == called(all.take(i as int)),
        decreases response.content.len() - i,
    {
        let block = &response.content[i];
        proof {
            assert(all.take(i + 1).drop_last() =~= all.take(i as int));
            assert(all.take(i + 1).last() == block@);
            reveal_strlit("text");
            reveal_strlit("tool_use");
            assert("text"@.len() == 4 && "tool_use"@.len() == 8);
        }
        if text::str_eq(block.kind.as_str(), "text") {
            match &block.text {
                Some(t) => words.append(t.as_str()),
                None => {
                    assert(words@ + Seq::<char>::empty() =~= words@);
                },
            }
        } else if text::str_eq(block.kind.as_str(), "tool_use") {
            let arguments = match &block.input {
                Some(v) => json::render(v),
                None => text::owned("{}"),
            };
            let call = translate::function_call_of(
                opt_or(&block.id, "call_xyz"),
                opt_or(&block.name, "tool"),
                arguments,
            );
            proof {
                json::models_push(calls@, call);
            }
            calls.push(call);
        }
        i = i + 1;
    }
    proof {
        assert(all.take(all.len() as int) =~= all);
        json::models_at(calls@);
    }
    let silent = words.as_str().is_empty();
    let message = ChatCompletionsMessage {
        role: text::owned("assistant"),
        content: if silent {
            None
        } else {
            Some(words)
        },
        tool_calls: if calls.len() == 0 {
            None
        } else {
            Some(calls)
        },
    };
    let choice = ChatCompletionsChoice {
        index: 0,
        message,
        finish_reason: match &response.stop_reason {
            Some(r) => Some(
                finish_reason::anthropic_stop_reason_to_openai_finish_reason(r.as_str()),
            ),
            None => None,
        },
    };
    let total: u64 = response.usage.input_tokens.wrapping_add(response.usage.output_tokens);
    let usage = ChatCompletionsUsage {
        prompt_tokens: cut32(response.usage.input_tokens),
        completion_tokens: cut32(response.usage.output_tokens),
        total_tokens: cut32(total),
    };
    let mut choices: Vec<ChatCompletionsChoice> = Vec::new();
    choices.push(choice);
    let r = ChatCompletionsResponse {
        id: response.id.clone(),
        object: text::owned("chat.completion"),
        created,
        model: response.model.clone(),
        choices,
        usage: Some(usage),
    };
    assert(r@.choices =~= chat_response(response@, created).choices);
    r
}

// ── Answers as JSON ─────────────────────────────────────────────────────────

/// A block as JSON: what it does not have is left out.
pub open spec fn block_json(b: BlockModel) -> JsonModel {
    let m0 = json::nothing().insert("type"@, JsonModel::Str(b.kind));
    let m1 = match b.text {
        Some(t) => m0.insert("text"@, JsonModel::Str(t)),
        None => m0,
    };
    let m2 = match b.id {
        Some(t) => m1.insert("id"@, JsonModel::Str(t)),
        None => m1,
    };
    let m3 = match b.name {
        Some(t) => m2.insert("name"@, JsonModel::Str(t)),
        None => m2,
    };
    JsonModel::Object(
        match b.input {
            Some(v) => m3.insert("input"@, v),
            None => m3,
        },
    )
}

/// An Anthropic answer as JSON.
pub open spec fn response_model(r: AnthropicResponseModel) -> JsonModel {
    JsonModel::Object(
        json::nothing().insert("id"@, JsonModel::Str(r.id)).insert(
            "type"@,
            JsonModel::Str(r.kind),
        ).insert("role"@, JsonModel::Str(r.role)).insert("model"@, JsonModel::Str(r.model)).insert(
            "content"@,
            JsonModel::Array(r.content.map_values(|b: BlockModel| block_json(b))),
        ).insert("stop_reason"@, json::text_or_null(r.stop_reason)).insert(
            "stop_sequence"@,
            json::text_or_null(r.stop_sequence),
        ).insert("usage"@, anthropic_events::usage_model(r.usage)),
    )
}

impl AnthropicContentBlock {
    pub fn to_json(&self) -> (r: Json)
        ensures
            r@ == block_json(self@),
    {
        let mut o = Object::new().with("type", Json::text(self.kind.as_str()));
        match &self.text {
            Some(t) => o.put("text", Json::text(t.as_str())),
            None => {},
        }
        match &self.id {
            Some(t) => o.put("id", Json::text(t.as_str())),
            None => {},
        }
        match &self.name {
            Some(t) => o.put("name", Json::text(t.as_str())),
            None => {},
        }
        match &self.input {
            Some(v) => o.put("input", v.dup()),
            None => {},
        }
        Json::Object(o)
    }
}

/// An Anthropic answer as JSON.
pub fn response_json(response: &AnthropicResponse) -> (r: Json)
    ensures
        r@ == response_model(response@),
{
    let mut blocks: Vec<Json> = Vec::new();
    let ghost all = types::block_models(response.content@);
    let ghost made = all.map_values(|b: BlockModel| block_json(b));
    let mut i: usize = 0;
    while i < response.content.len()
        invariant
            i <= response.content.len(),
            all == types::block_models(response.content@),
            made == all.map_values(|b: BlockModel| block_json(b)),
            json::models(blocks@) == made.take(i as int),
        decreases response.content.len() - i,
    {
        let block = response.content[i].to_json();
        proof {
            json::models_push(blocks@, block);
            assert(made.take(i + 1) =~= made.take(i as int).push(block@));
        }
        blocks.push(block);
        i = i + 1;
    }
    assert(made.take(all.len() as int) =~= made);
    Json::Object(
        Object::new().with("id", Json::text(response.id.as_str())).with(
            "type",
            Json::text(response.kind.as_str()),
        ).with("role", Json::text(response.role.as_str())).with(
            "model",
            Json::text(response.model.as_str()),
        ).with("content", Json::Array(blocks)).with(
            "stop_reason",
            Json::text_or_null(&response.stop_reason),
        ).with("stop_sequence", Json::text_or_null(&response.stop_sequence)).with(
            "usage",
            anthropic_events::usage_json(&response.usage),
        ),
    )
}

} // verus!
