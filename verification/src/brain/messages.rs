//! OpenAI-shaped JSON read into the gateway's own messages.
use vstd::prelude::*;

use crate::brain::protocol::{
    self,
    CallModel,
    ChoiceModel,
    ContentModel,
    FunctionDef,
    Message,
    MessageContent,
    MsgModel,
    SpecificToolChoice,
    Tool,
    ToolCall,
    ToolCallFunction,
    ToolChoice,
    ToolChoiceFunction,
    ToolModel,
};
use crate::converter::to_anthropic::{self, str_or};
use crate::converter::translate::is_str;
use crate::json::{self, Json, JsonModel, Object};
use crate::text;

verus! {

// ── Tool calls ──────────────────────────────────────────────────────────────

/// The name and the arguments that a function object holds. A list of exactly the two is
/// read as well.
pub open spec fn function_of(v: JsonModel) -> Option<(Seq<char>, Seq<char>)> {
    match v {
        JsonModel::Object(_) => match (v.str_at("name"@), v.str_at("arguments"@)) {
            (Some(n), Some(a)) => Some((n, a)),
            _ => None,
        },
        JsonModel::Array(items) => if items.len() == 2 {
            match (items[0].str(), items[1].str()) {
                (Some(n), Some(a)) => Some((n, a)),
                _ => None,
            }
        } else {
            None
        },
        _ => None,
    }
}

pub open spec fn call_with(
    id: Option<Seq<char>>,
    kind: Option<Seq<char>>,
    function: Option<JsonModel>,
) -> Option<CallModel> {
    match (id, kind, function) {
        (Some(id), Some(call_type), Some(f)) => match function_of(f) {
            Some((name, arguments)) => Some(CallModel { id, call_type, name, arguments }),
            None => None,
        },
        _ => None,
    }
}

/// The tool call that a value writes. All its fields are required; fields that it has beyond
/// them are passed over. A list of exactly the fields is read as well.
pub open spec fn call_of(v: JsonModel) -> Option<CallModel> {
    match v {
        JsonModel::Object(_) => call_with(
            v.str_at("id"@),
            v.str_at("type"@),
            v.field("function"@),
        ),
        JsonModel::Array(items) => if items.len() == 3 {
            call_with(items[0].str(), items[1].str(), Some(items[2]))
        } else {
            None
        },
        _ => None,
    }
}

/// The tool calls that a list of values writes, if each of them writes one.
pub open spec fn calls_of(items: Seq<JsonModel>) -> Option<Seq<CallModel>>
    decreases items.len(),
{
    if items.len() == 0 {
        Some(seq![])
    } else {
        match (calls_of(items.drop_last()), call_of(items.last())) {
            (Some(before), Some(c)) => Some(before.push(c)),
            _ => None,
        }
    }
}

pub open spec fn call_list(v: JsonModel) -> Option<Seq<CallModel>> {
    match v {
        JsonModel::Array(items) => calls_of(items),
        _ => None,
    }
}

fn function_from(v: &Json) -> (r: Option<ToolCallFunction>)
    ensures
        match r {
            Some(f) => function_of(v@) == Some((f.name@, f.arguments@)),
            None => function_of(v@) is None,
        },
{
    match v {
        Json::Object(_) => match (v.str_at("name"), v.str_at("arguments")) {
            (Some(n), Some(a)) => Some(
                ToolCallFunction { name: text::owned(n), arguments: text::owned(a) },
            ),
            _ => None,
        },
        Json::Array(items) => {
            proof {
                json::models_at(items@);
            }
            if items.len() == 2 {
                match (items[0].as_str(), items[1].as_str()) {
                    (Some(n), Some(a)) => Some(
                        ToolCallFunction { name: text::owned(n), arguments: text::owned(a) },
                    ),
                    _ => None,
                }
            } else {
                None
            }
        },
        _ => None,
    }
}

pub open spec fn opt_call(o: Option<ToolCall>) -> Option<CallModel> {
    match o {
        Some(c) => Some(c@),
        None => None,
    }
}

fn call_from_parts(id: Option<&str>, kind: Option<&str>, function: Option<&Json>) -> (r: Option<
    ToolCall,
>)
    ensures
        opt_call(r) == call_with(
            json::opt_str_ref(id),
            json::opt_str_ref(kind),
            json::opt_model_ref(function),
        ),
{
    match (id, kind, function) {
        (Some(id), Some(kind), Some(f)) => match function_from(f) {
            Some(function) => Some(
                ToolCall { id: text::owned(id), call_type: text::owned(kind), function },
            ),
            None => None,
        },
        _ => None,
    }
}

/// The tool call that a value writes.
pub fn call_from_value(v: &Json) -> (r: Option<ToolCall>)
    ensures
        opt_call(r) == call_of(v@),
{
    match v {
        Json::Object(_) => call_from_parts(v.str_at("id"), v.str_at("type"), v.get("function")),
        Json::Array(items) => {
            proof {
                json::models_at(items@);
            }
            if items.len() == 3 {
                call_from_parts(items[0].as_str(), items[1].as_str(), Some(&items[2]))
            } else {
                None
            }
        },
        _ => None,
    }
}

/// The tool calls that a value writes, if it is a list of them.
pub fn calls_from_value(v: &Json) -> (r: Option<Vec<ToolCall>>)
    ensures
        protocol::opt_call_models(r) == call_list(v@),
{
    match v {
        Json::Array(items) => {
            let ghost all = json::models(items@);
            let mut out: Vec<ToolCall> = Vec::new();
            proof {
                json::models_at(items@);
                assert(protocol::call_models(out@) =~= seq![]);
            }
            let mut i: usize = 0;
            while i < items.len()
                invariant
                    i <= items.len(),
                    all == json::models(items@),
                    all.len() == items.len(),
                    v@ == JsonModel::Array(all),
                    calls_of(all.take(i as int)) == Some(protocol::call_models(out@)),
                decreases items.len() - i,
            {
                proof {
                    json::models_at(items@);
                    assert(all.take(i + 1).drop_last() =~= all.take(i as int));
                    assert(all.take(i + 1).last() == items@[i as int]@);
                }
                match call_from_value(&items[i]) {
                    Some(call) => {
                        proof {
                            protocol::call_models_push(out@, call);
                        }
                        out.push(call);
                    },
                    None => {
                        proof {
                            no_calls(all, i + 1);
                        }
                        return None;
                    },
                }
                i = i + 1;
            }
            assert(all.take(all.len() as int) =~= all);
            Some(out)
        },
        _ => None,
    }
}

proof fn no_calls(items: Seq<JsonModel>, k: int)
    requires
        0 <= k <= items.len(),
        calls_of(items.take(k)) is None,
    ensures
        calls_of(items) is None,
    decreases items.len() - k,
{
    if k < items.len() {
        assert(items.take(k + 1).drop_last() =~= items.take(k));
        no_calls(items, k + 1);
    } else {
        assert(items.take(k) =~= items);
    }
}

// ── Messages ────────────────────────────────────────────────────────────────

/// The texts of the text parts of a content list.
pub open spec fn text_parts(parts: Seq<JsonModel>) -> Seq<Seq<char>>
    decreases parts.len(),
{
    if parts.len() == 0 {
        seq![]
    } else {
        let before = text_parts(parts.drop_last());
        match parts.last().str_at("text"@) {
            Some(t) => if parts.last().str_at("type"@) == Some("text"@) {
                before.push(t)
            } else {
                before
            },
            None => before,
        }
    }
}

/// The text of a message's content: a string, or the text parts of a list, a line each.
pub open spec fn content_of(content: Option<JsonModel>) -> Seq<char> {
    match content {
        Some(JsonModel::Str(s)) => s,
        Some(JsonModel::Array(parts)) => text::join(text_parts(parts), "\n"@),
        _ => seq![],
    }
}

/// The message that an OpenAI-shaped value writes.
pub open spec fn message_of(v: JsonModel) -> MsgModel {
    MsgModel {
        role: to_anthropic::or_str(v.str_at("role"@), "user"@),
        content: ContentModel::Text(content_of(v.field("content"@))),
        tool_calls: match v.field("tool_calls"@) {
            Some(list) => match call_list(list) {
                Some(calls) => if calls.len() > 0 {
                    Some(calls)
                } else {
                    None
                },
                None => None,
            },
            None => None,
        },
        tool_call_id: v.str_at("tool_call_id"@),
    }
}

fn content_from(content: Option<&Json>) -> (r: String)
    ensures
        r@ == content_of(json::opt_model_ref(content)),
{
    match content {
        Some(c) => match c {
            Json::Str(s) => s.clone(),
            Json::Array(parts) => {
                let ghost all = json::models(parts@);
                let mut lines: Vec<String> = Vec::new();
                proof {
                    json::models_at(parts@);
                }
                let mut i: usize = 0;
                while i < parts.len()
                    invariant
                        i <= parts.len(),
                        all == json::models(parts@),
                        all.len() == parts.len(),
                        text::texts(lines@) == text_parts(all.take(i as int)),
                    decreases parts.len() - i,
                {
                    proof {
                        json::models_at(parts@);
                        assert(all.take(i + 1).drop_last() =~= all.take(i as int));
                        assert(all.take(i + 1).last() == parts@[i as int]@);
                    }
                    match parts[i].str_at("text") {
                        Some(t) => {
                            if is_str(parts[i].str_at("type"), "text") {
                                let line = text::owned(t);
                                proof {
                                    text::texts_push(lines@, line);
                                }
                                lines.push(line);
                            }
                        },
                        None => {},
                    }
                    i = i + 1;
                }
                assert(all.take(all.len() as int) =~= all);
                text::join_texts(&lines, "\n")
            },
            _ => String::new(),
        },
        None => String::new(),
    }
}

/// Read one OpenAI-shaped message. The chat handler and the Anthropic handler both go through
/// here, so that a message looks the same to a worker whichever protocol it came by.
pub fn message_from_openai_value(v: &Json) -> (r: Message)
    ensures
        r@ == message_of(v@),
{
    let role = str_or(v.str_at("role"), "user");
    let content = content_from(v.get("content"));
    let tool_calls = match v.get("tool_calls") {
        Some(list) => match calls_from_value(list) {
            Some(calls) => {
                assert(protocol::call_models(calls@).len() == calls@.len());
                if calls.len() > 0 {
                    Some(calls)
                } else {
                    None
                }
            },
            None => None,
        },
        None => None,
    };
    let tool_call_id = match v.str_at("tool_call_id") {
        Some(id) => Some(text::owned(id)),
        None => None,
    };
    Message { role, content: MessageContent::Text(content), tool_calls, tool_call_id }
}

/// The messages that a list of values writes.
pub open spec fn messages_of(list: Seq<JsonModel>) -> Seq<MsgModel> {
    list.map_values(|v: JsonModel| message_of(v))
}

pub fn messages_from_values(list: &Vec<Json>) -> (r: Vec<Message>)
    ensures
        protocol::msg_models(r@) == messages_of(json::models(list@)),
{
    let ghost all = json::models(list@);
    let mut out: Vec<Message> = Vec::new();
    proof {
        json::models_at(list@);
    }
    let mut i: usize = 0;
    while i < list.len()
        invariant
            i <= list.len(),
            all == json::models(list@),
            all.len() == list.len(),
            protocol::msg_models(out@) == messages_of(all).take(i as int),
        decreases list.len() - i,
    {
        let m = message_from_openai_value(&list[i]);
        proof {
            json::models_at(list@);
            protocol::msg_models_push(out@, m);
            assert(messages_of(all).take(i + 1) =~= messages_of(all).take(i as int).push(m@));
        }
        out.push(m);
        i = i + 1;
    }
    assert(messages_of(all).take(all.len() as int) =~= messages_of(all));
    out
}

// ── Tools ───────────────────────────────────────────────────────────────────

/// The tool that an OpenAI-shaped value offers, if it is a function with a name.
pub open spec fn tool_of(v: JsonModel) -> Option<ToolModel> {
    match v.field("function"@) {
        Some(f) => match f.str_at("name"@) {
            Some(name) => Some(
                ToolModel {
                    tool_type: "function"@,
                    name,
                    description: f.str_at("description"@),
                    parameters: f.field("parameters"@),
                },
            ),
            None => None,
        },
        None => None,
    }
}

pub open spec fn opt_tool(o: Option<Tool>) -> Option<ToolModel> {
    match o {
        Some(t) => Some(t@),
        None => None,
    }
}

/// Read one OpenAI-shaped tool.
pub fn openai_tool_json_to_protocol_tool(value: &Json) -> (r: Option<Tool>)
    ensures
        opt_tool(r) == tool_of(value@),
{
    match value.get("function") {
        Some(f) => match f.str_at("name") {
            Some(name) => Some(
                Tool {
                    tool_type: text::owned("function"),
                    function: FunctionDef {
                        name: text::owned(name),
                        description: match f.str_at("description") {
                            Some(d) => Some(text::owned(d)),
                            None => None,
                        },
                        parameters: match f.get("parameters") {
                            Some(p) => Some(p.dup()),
                            None => None,
                        },
                    },
                },
            ),
            None => None,
        },
        None => None,
    }
}

/// The tools that a list of values offers.
pub open spec fn tools_of(list: Seq<JsonModel>) -> Seq<ToolModel>
    decreases list.len(),
{
    if list.len() == 0 {
        seq![]
    } else {
        let before = tools_of(list.drop_last());
        match tool_of(list.last()) {
            Some(t) => before.push(t),
            None => before,
        }
    }
}

pub fn tools_from_values(list: &Vec<Json>) -> (r: Vec<Tool>)
    ensures
        protocol::tool_models(r@) == tools_of(json::models(list@)),
{
    let ghost all = json::models(list@);
    let mut out: Vec<Tool> = Vec::new();
    proof {
        json::models_at(list@);
        assert(protocol::tool_models(out@) =~= seq![]);
    }
    let mut i: usize = 0;
    while i < list.len()
        invariant
            i <= list.len(),
            all == json::models(list@),
            all.len() == list.len(),
            protocol::tool_models(out@) == tools_of(all.take(i as int)),
        decreases list.len() - i,
    {
        proof {
            json::models_at(list@);
            assert(all.take(i + 1).drop_last() =~= all.take(i as int));
            assert(all.take(i + 1).last() == list@[i as int]@);
        }
        match openai_tool_json_to_protocol_tool(&list[i]) {
            Some(t) => {
                proof {
                    protocol::tool_models_push(out@, t);
                }
                out.push(t);
            },
            None => {},
        }
        i = i + 1;
    }
    assert(all.take(all.len() as int) =~= all);
    out
}

/// Which tool an OpenAI-shaped value wants called: a word, or a function; `auto` where it is
/// neither.
pub open spec fn choice_of(v: JsonModel) -> ChoiceModel {
    match v {
        JsonModel::Str(mode) => ChoiceModel::Mode(mode),
        _ => match v.field_of_field("function"@, "name"@) {
            Some(JsonModel::Str(name)) => ChoiceModel::Specific {
                choice_type: "function"@,
                name,
            },
            _ => ChoiceModel::Mode("auto"@),
        },
    }
}

pub fn openai_tool_choice_json_to_protocol(value: &Json) -> (r: ToolChoice)
    ensures
        r@ == choice_of(value@),
{
    match value {
        Json::Str(mode) => ToolChoice::Mode(mode.clone()),
        _ => match value.get_in("function", "name") {
            Some(v) => match v.as_str() {
                Some(name) => ToolChoice::Specific(
                    SpecificToolChoice {
                        choice_type: text::owned("function"),
                        function: ToolChoiceFunction { name: text::owned(name) },
                    },
                ),
                None => ToolChoice::Mode(text::owned("auto")),
            },
            None => ToolChoice::Mode(text::owned("auto")),
        },
    }
}

// ── Stop sequences ──────────────────────────────────────────────────────────

pub open spec fn strings_of(items: Seq<JsonModel>) -> Seq<Seq<char>>
    decreases items.len(),
{
    if items.len() == 0 {
        seq![]
    } else {
        let before = strings_of(items.drop_last());
        match items.last().str() {
            Some(s) => before.push(s),
            None => before,
        }
    }
}

/// The stop sequences of a request: a string, or the strings of a list that has some.
pub open spec fn stop_of(v: JsonModel) -> Option<Seq<Seq<char>>> {
    match v {
        JsonModel::Str(s) => Some(seq![s]),
        JsonModel::Array(items) => if strings_of(items).len() > 0 {
            Some(strings_of(items))
        } else {
            None
        },
        _ => None,
    }
}

/// The strings of a list.
pub fn strings_from(items: &Vec<Json>) -> (r: Vec<String>)
    ensures
        text::texts(r@) == strings_of(json::models(items@)),
{
    let ghost all = json::models(items@);
    let mut out: Vec<String> = Vec::new();
    proof {
        json::models_at(items@);
    }
    let mut i: usize = 0;
    while i < items.len()
        invariant
            i <= items.len(),
            all == json::models(items@),
            all.len() == items.len(),
            text::texts(out@) == strings_of(all.take(i as int)),
        decreases items.len() - i,
    {
        proof {
            json::models_at(items@);
            assert(all.take(i + 1).drop_last() =~= all.take(i as int));
            assert(all.take(i + 1).last() == items@[i as int]@);
        }
        match items[i].as_str() {
            Some(s) => {
                let copy = text::owned(s);
                proof {
                    text::texts_push(out@, copy);
                }
                out.push(copy);
            },
            None => {},
        }
        i = i + 1;
    }
    assert(all.take(all.len() as int) =~= all);
    out
}

pub fn stop_sequences_from_value(value: &Json) -> (r: Option<Vec<String>>)
    ensures
        protocol::opt_texts(r) == stop_of(value@),
{
    match value {
        Json::Str(s) => {
            let mut out: Vec<String> = Vec::new();
            out.push(s.clone());
            assert(text::texts(out@) =~= seq![s@]);
            Some(out)
        },
        Json::Array(items) => {
            let out = strings_from(items);
            assert(text::texts(out@).len() == out@.len());
            if out.len() > 0 {
                Some(out)
            } else {
                None
            }
        },
        _ => None,
    }
}

// ── Estimates ───────────────────────────────────────────────────────────────

pub open spec fn calls_len(calls: Seq<CallModel>) -> nat
    decreases calls.len(),
{
    if calls.len() == 0 {
        0
    } else {
        calls_len(calls.drop_last()) + protocol::byte_len(calls.last().name) + protocol::byte_len(
            calls.last().arguments,
        )
    }
}

/// How many bytes of text a message costs.
pub open spec fn message_len(m: MsgModel) -> nat {
    protocol::content_len(m.content) + protocol::byte_len(m.role) + match m.tool_calls {
        Some(calls) => calls_len(calls),
        None => 0,
    }
}

pub open spec fn messages_len(messages: Seq<MsgModel>) -> nat
    decreases messages.len(),
{
    if messages.len() == 0 {
        0
    } else {
        messages_len(messages.drop_last()) + message_len(messages.last())
    }
}

/// How many bytes of text a tool costs.
pub open spec fn tool_len(t: ToolModel) -> nat {
    protocol::byte_len(t.name) + match t.description {
        Some(d) => protocol::byte_len(d),
        None => 0,
    } + match t.parameters {
        Some(p) => protocol::byte_len(json::json_text(p)),
        None => 0,
    }
}

/// About four bytes make a token; a part of four counts as one.
pub open spec fn tokens_for(bytes: nat) -> nat {
    (bytes + 3) / 4
}

pub open spec fn tools_tokens(tools: Seq<ToolModel>) -> nat
    decreases tools.len(),
{
    if tools.len() == 0 {
        0
    } else {
        tools_tokens(tools.drop_last()) + tokens_for(tool_len(tools.last())) + 4
    }
}

/// About how many tokens a prompt has: its text, and four tokens for each message and tool.
pub open spec fn prompt_tokens(messages: Seq<MsgModel>, tools: Option<Seq<ToolModel>>) -> nat {
    tokens_for(messages_len(messages)) + 4 * messages.len() + match tools {
        Some(t) => tools_tokens(t),
        None => 0,
    }
}

/// `n` as far as 32 bits can count.
pub open spec fn capped32(n: nat) -> nat {
    if n <= u32::MAX {
        n
    } else {
        u32::MAX as nat
    }
}

fn tokens(bytes: u64) -> (r: u64)
    ensures
        r == tokens_for(bytes as nat),
        r <= 0x4000_0000_0000_0000,
{
    if bytes % 4 == 0 {
        bytes / 4
    } else {
        bytes / 4 + 1
    }
}

fn message_bytes(m: &Message) -> (r: u64)
    ensures
        r == protocol::capped(message_len(m@)),
{
    let mut total: u64 = protocol::sat_sum(
        m.content.counted(),
        text::byte_count(m.role.as_str()) as u64,
    );
    let ghost base = protocol::content_len(m@.content) + protocol::byte_len(m@.role);
    match &m.tool_calls {
        Some(calls) => {
            let ghost all = protocol::call_models(calls@);
            let mut i: usize = 0;
            while i < calls.len()
                invariant
                    i <= calls.len(),
                    all == protocol::call_models(calls@),
                    total == protocol::capped(base + calls_len(all.take(i as int))),
                decreases calls.len() - i,
            {
                proof {
                    assert(all.take(i + 1).drop_last() =~= all.take(i as int));
                    assert(all.take(i + 1).last() == calls@[i as int]@);
                }
                total = protocol::sat_sum(
                    total,
                    text::byte_count(calls[i].function.name.as_str()) as u64,
                );
                total = protocol::sat_sum(
                    total,
                    text::byte_count(calls[i].function.arguments.as_str()) as u64,
                );
                i = i + 1;
            }
            assert(all.take(all.len() as int) =~= all);
        },
        None => {},
    }
    total
}

fn tool_bytes(t: &Tool) -> (r: u64)
    ensures
        r == protocol::capped(tool_len(t@)),
{
    let mut total: u64 = text::byte_count(t.function.name.as_str()) as u64;
    match &t.function.description {
        Some(d) => {
            total = protocol::sat_sum(total, text::byte_count(d.as_str()) as u64);
        },
        None => {},
    }
    match &t.function.parameters {
        Some(p) => {
            let schema = json::render(p);
            total = protocol::sat_sum(total, text::byte_count(schema.as_str()) as u64);
        },
        None => {},
    }
    total
}

/// About how many tokens a prompt has, to turn away a request that is too large before a
/// worker sees it. It is rounded up: a request turned away is cheap, one that fails at the
/// worker is not. What 32 bits cannot count is the largest number.
pub fn estimate_prompt_tokens(messages: &Vec<Message>, tools: &Option<Vec<Tool>>) -> (r: u32)
    ensures
        r == capped32(prompt_tokens(protocol::msg_models(messages@), protocol::opt_tool_models(*tools))),
{
    let ghost all = protocol::msg_models(messages@);
    let mut bytes: u64 = 0;
    let mut i: usize = 0;
    while i < messages.len()
        invariant
            i <= messages.len(),
            all == protocol::msg_models(messages@),
            bytes == protocol::capped(messages_len(all.take(i as int))),
        decreases messages.len() - i,
    {
        proof {
            assert(all.take(i + 1).drop_last() =~= all.take(i as int));
            assert(all.take(i + 1).last() == messages@[i as int]@);
        }
        bytes = protocol::sat_sum(bytes, message_bytes(&messages[i]));
        i = i + 1;
    }
    assert(all.take(all.len() as int) =~= all);
    let per_message: u64 = if messages.len() as u64 <= 0x1000_0000_0000_0000 {
        4 * (messages.len() as u64)
    } else {
        0x4000_0000_0000_0000
    };
    let mut estimate: u64 = tokens(bytes) + per_message;
    let ghost base = tokens_for(messages_len(all)) + 4 * all.len();
    assert(estimate <= u32::MAX ==> estimate == base);
    assert(estimate > u32::MAX ==> base > u32::MAX);
    if estimate > u32::MAX as u64 {
        estimate = u32::MAX as u64;
    }
    match tools {
        Some(list) => {
            let ghost offered = protocol::tool_models(list@);
            let mut k: usize = 0;
            while k < list.len()
                invariant
                    k <= list.len(),
                    offered == protocol::tool_models(list@),
                    estimate == capped32(base + tools_tokens(offered.take(k as int))),
                decreases list.len() - k,
            {
                proof {
                    assert(offered.take(k + 1).drop_last() =~= offered.take(k as int));
                    assert(offered.take(k + 1).last() == list@[k as int]@);
                }
                estimate = estimate + tokens(tool_bytes(&list[k])) + 4;
                if estimate > u32::MAX as u64 {
                    estimate = u32::MAX as u64;
                }
                k = k + 1;
            }
            assert(offered.take(offered.len() as int) =~= offered);
        },
        None => {},
    }
    estimate as u32
}

} // verus!
