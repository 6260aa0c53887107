//! That a client's request reaches the model server as it was asked.
use vstd::prelude::*;

use crate::brain::convert;
use crate::brain::hosted_tools;
use crate::brain::messages;
use crate::brain::plan;
use crate::brain::protocol::{CallModel, MsgModel, TaskModel, ToolModel};
use crate::converter::request_laws::{call_says, calls_say, runs_here, told_or, Called};
use crate::converter::translate::{self, UserFold};
use crate::converter::types::{self, AnthropicRequestModel, ChatRequestModel, MessageModel};
use crate::json::{self, JsonModel, Num};
use crate::lmodel::request;
use crate::text;

verus! {

proof fn task_keys_differ()
    ensures
        "model"@ != "messages"@,
        "model"@ != "max_tokens"@,
        "model"@ != "temperature"@,
        "model"@ != "stream"@,
        "model"@ != "stop"@,
        "model"@ != "top_p"@,
        "model"@ != "top_k"@,
        "model"@ != "tools"@,
        "model"@ != "tool_choice"@,
        "model"@ != "parallel_tool_calls"@,
        "messages"@ != "max_tokens"@,
        "messages"@ != "temperature"@,
        "messages"@ != "stream"@,
        "messages"@ != "stop"@,
        "messages"@ != "top_p"@,
        "messages"@ != "top_k"@,
        "messages"@ != "tools"@,
        "messages"@ != "tool_choice"@,
        "messages"@ != "parallel_tool_calls"@,
        "max_tokens"@ != "temperature"@,
        "max_tokens"@ != "stream"@,
        "max_tokens"@ != "stop"@,
        "max_tokens"@ != "top_p"@,
        "max_tokens"@ != "top_k"@,
        "max_tokens"@ != "tools"@,
        "max_tokens"@ != "tool_choice"@,
        "max_tokens"@ != "parallel_tool_calls"@,
        "temperature"@ != "stream"@,
        "temperature"@ != "stop"@,
        "temperature"@ != "top_p"@,
        "temperature"@ != "top_k"@,
        "temperature"@ != "tools"@,
        "temperature"@ != "tool_choice"@,
        "temperature"@ != "parallel_tool_calls"@,
        "stream"@ != "stop"@,
        "stream"@ != "top_p"@,
        "stream"@ != "top_k"@,
        "stream"@ != "tools"@,
        "stream"@ != "tool_choice"@,
        "stream"@ != "parallel_tool_calls"@,
        "stop"@ != "top_p"@,
        "stop"@ != "top_k"@,
        "stop"@ != "tools"@,
        "stop"@ != "tool_choice"@,
        "stop"@ != "parallel_tool_calls"@,
        "top_p"@ != "top_k"@,
        "top_p"@ != "tools"@,
        "top_p"@ != "tool_choice"@,
        "top_p"@ != "parallel_tool_calls"@,
        "top_k"@ != "tools"@,
        "top_k"@ != "tool_choice"@,
        "top_k"@ != "parallel_tool_calls"@,
        "tools"@ != "tool_choice"@,
        "tools"@ != "parallel_tool_calls"@,
        "tool_choice"@ != "parallel_tool_calls"@,
        "role"@ != "content"@,
        "role"@ != "tool_calls"@,
        "role"@ != "tool_call_id"@,
        "content"@ != "tool_calls"@,
        "content"@ != "tool_call_id"@,
        "tool_calls"@ != "tool_call_id"@,
        "id"@ != "type"@,
        "id"@ != "function"@,
        "type"@ != "function"@,
        "name"@ != "arguments"@,
        "name"@ != "description"@,
        "name"@ != "parameters"@,
        "arguments"@ != "description"@,
        "arguments"@ != "parameters"@,
        "description"@ != "parameters"@,
        "type"@ != "text"@,
{
    reveal_strlit("model");
    reveal_strlit("messages");
    reveal_strlit("max_tokens");
    reveal_strlit("temperature");
    reveal_strlit("stream");
    reveal_strlit("stop");
    reveal_strlit("top_p");
    reveal_strlit("top_k");
    reveal_strlit("tools");
    reveal_strlit("tool_choice");
    reveal_strlit("parallel_tool_calls");
    reveal_strlit("role");
    reveal_strlit("content");
    reveal_strlit("tool_calls");
    reveal_strlit("tool_call_id");
    reveal_strlit("id");
    reveal_strlit("type");
    reveal_strlit("function");
    reveal_strlit("name");
    reveal_strlit("arguments");
    reveal_strlit("description");
    reveal_strlit("parameters");
    reveal_strlit("text");
    assert("model"@.len() == 5 && "messages"@.len() == 8);
    assert("max_tokens"@.len() == 10 && "temperature"@.len() == 11);
    assert("stream"@.len() == 6 && "stop"@.len() == 4);
    assert("top_p"@.len() == 5 && "top_k"@.len() == 5);
    assert("tools"@.len() == 5 && "tool_choice"@.len() == 11);
    assert("parallel_tool_calls"@.len() == 19 && "role"@.len() == 4);
    assert("content"@.len() == 7 && "tool_calls"@.len() == 10);
    assert("tool_call_id"@.len() == 12 && "id"@.len() == 2);
    assert("type"@.len() == 4 && "function"@.len() == 8);
    assert("name"@.len() == 4 && "arguments"@.len() == 9);
    assert("description"@.len() == 11 && "parameters"@.len() == 10);
    assert("text"@.len() == 4);
    assert("model"@[0] == 'm' && "temperature"@[1] == 'e');
    assert("text"@[1] == 'e' && "tool_choice"@[1] == 'o');
    assert("tools"@[0] == 't' && "tools"@[2] == 'o');
    assert("top_k"@[0] == 't' && "top_k"@[2] == 'p');
    assert("top_k"@[4] == 'k' && "top_p"@[0] == 't');
    assert("top_p"@[2] == 'p' && "top_p"@[4] == 'p');
    assert("type"@[1] == 'y');
}

// ── Messages, as a model server reads them ──────────────────────────────────

/// What a message of a chat request says to a model that reads text.
#[verifier::ext_equal]
pub struct Heard {
    pub role: Seq<char>,
    pub text: Seq<char>,
    pub calls: Seq<Called>,
    /// The call that the message answers.
    pub answers: Option<Seq<char>>,
}

/// The texts of the text parts of a content.
pub open spec fn part_lines(parts: Seq<JsonModel>) -> Seq<Seq<char>>
    decreases parts.len(),
{
    if parts.len() == 0 {
        seq![]
    } else if parts.last().str_at("type"@) == Some("text"@) && parts.last().str_at("text"@) is Some {
        part_lines(parts.drop_last()).push(parts.last().str_at("text"@)->Some_0)
    } else {
        part_lines(parts.drop_last())
    }
}

/// The text of a content: a string, or its text parts, each on a line of its own.
pub open spec fn content_heard(c: JsonModel) -> Seq<char> {
    match c {
        JsonModel::Str(t) => t,
        JsonModel::Array(parts) => text::join(part_lines(parts), "\n"@),
        _ => seq![],
    }
}

pub open spec fn heard(v: JsonModel) -> Heard {
    Heard {
        role: told_or(v.str_at("role"@), "user"@),
        text: content_heard(v.field_or_null("content"@)),
        calls: calls_say(v),
        answers: v.str_at("tool_call_id"@),
    }
}

/// A call as it is defined: with an identity, a type, and a function with name and arguments.
pub open spec fn is_full_call(c: JsonModel) -> bool {
    &&& c.str_at("id"@) is Some
    &&& c.str_at("type"@) is Some
    &&& c.field_or_null("function"@).str_at("name"@) is Some
    &&& c.field_or_null("function"@).str_at("arguments"@) is Some
}

/// A message whose calls are such as are defined.
pub open spec fn is_chat_message(v: JsonModel) -> bool {
    match v.array_at("tool_calls"@) {
        Some(cs) => forall|i: int| 0 <= i < cs.len() ==> is_full_call(#[trigger] cs[i]),
        None => true,
    }
}

proof fn lines_are_read(parts: Seq<JsonModel>)
    ensures
        messages::text_parts(parts) == part_lines(parts),
    decreases parts.len(),
{
    if parts.len() > 0 {
        lines_are_read(parts.drop_last());
    }
}

proof fn call_reaches_the_model(c: JsonModel)
    requires
        is_full_call(c),
    ensures
        messages::call_of(c) is Some,
        call_says(request::call_json(messages::call_of(c)->Some_0)) == call_says(c),
        request::call_json(messages::call_of(c)->Some_0).str_at("type"@) == c.str_at("type"@),
{
    task_keys_differ();
    let f = c.field_or_null("function"@);
    assert(c.field("function"@) == Some(f));
    assert(messages::function_of(f) == Some(
        (f.str_at("name"@)->Some_0, f.str_at("arguments"@)->Some_0),
    ));
    let m = messages::call_of(c)->Some_0;
    let j = request::call_json(m);
    assert(j.str_at("id"@) == Some(m.id));
    assert(j.field_or_null("function"@).str_at("name"@) == Some(m.name));
    assert(j.field_or_null("function"@).str_at("arguments"@) == Some(m.arguments));
}

proof fn calls_reach_the_model(cs: Seq<JsonModel>)
    requires
        forall|i: int| 0 <= i < cs.len() ==> is_full_call(#[trigger] cs[i]),
    ensures
        messages::calls_of(cs) is Some,
        messages::calls_of(cs)->Some_0.map_values(
            |c: CallModel| call_says(request::call_json(c)),
        ) == cs.map_values(|c: JsonModel| call_says(c)),
        messages::calls_of(cs)->Some_0.len() == cs.len(),
    decreases cs.len(),
{
    let told = cs.map_values(|c: JsonModel| call_says(c));
    if cs.len() == 0 {
        assert(messages::calls_of(cs)->Some_0.map_values(
            |c: CallModel| call_says(request::call_json(c)),
        ) =~= told);
    } else {
        let rest = cs.drop_last();
        assert forall|i: int| 0 <= i < rest.len() implies is_full_call(#[trigger] rest[i]) by {
            assert(rest[i] == cs[i]);
        }
        calls_reach_the_model(rest);
        let c = cs[cs.len() - 1];
        assert(is_full_call(c));
        call_reaches_the_model(c);
        let before = messages::calls_of(rest)->Some_0;
        let m = messages::call_of(c)->Some_0;
        assert(messages::calls_of(cs) == Some(before.push(m)));
        assert(before.push(m).map_values(|c: CallModel| call_says(request::call_json(c)))
            =~= before.map_values(|c: CallModel| call_says(request::call_json(c))).push(
            call_says(c),
        ));
        assert(told =~= rest.map_values(|c: JsonModel| call_says(c)).push(call_says(c)));
    }
}

/// A message that the gateway reads and a worker writes for its model server says what it said:
/// the same role, the same text, the same calls, in answer to the same call.
pub proof fn message_reaches_the_model(v: JsonModel)
    requires
        is_chat_message(v),
    ensures
        heard(request::message_json(messages::message_of(v))) == heard(v),
{
    task_keys_differ();
    let m = messages::message_of(v);
    let j = request::message_json(m);
    assert(j.str_at("role"@) == Some(told_or(v.str_at("role"@), "user"@)));
    match v.field_or_null("content"@) {
        JsonModel::Array(parts) => {
            lines_are_read(parts);
        },
        _ => {},
    }
    assert(j.field_or_null("content"@) == JsonModel::Str(content_heard(v.field_or_null("content"@))));
    assert(j.str_at("tool_call_id"@) == v.str_at("tool_call_id"@));
    match v.array_at("tool_calls"@) {
        Some(cs) => {
            calls_reach_the_model(cs);
            assert(v.field("tool_calls"@) == Some(JsonModel::Array(cs)));
            let read = messages::calls_of(cs)->Some_0;
            if read.len() > 0 {
                assert(m.tool_calls == Some(read));
                let written = read.map_values(|c: CallModel| request::call_json(c));
                assert(j.array_at("tool_calls"@) == Some(written));
                assert(calls_say(j) =~= read.map_values(
                    |c: CallModel| call_says(request::call_json(c)),
                ));
            } else {
                assert(j.array_at("tool_calls"@) is None);
                assert(calls_say(v) =~= seq![]);
            }
        },
        None => {
            assert(m.tool_calls is None);
            assert(j.array_at("tool_calls"@) is None);
        },
    }
    assert(calls_say(j) =~= calls_say(v));
}

// ── Tools, as a model server reads them ─────────────────────────────────────

/// A tool that is offered to a model.
#[verifier::ext_equal]
pub struct ToolHeard {
    pub name: Seq<char>,
    pub description: Option<Seq<char>>,
    pub schema: JsonModel,
}

/// A function that is described as OpenAI describes it.
pub open spec fn function_heard(f: JsonModel) -> ToolHeard {
    ToolHeard {
        name: json::or_empty(f.str_at("name"@)),
        description: f.str_at("description"@),
        schema: f.field_or_null("parameters"@),
    }
}

pub open spec fn tool_heard(t: JsonModel) -> ToolHeard {
    function_heard(t.field_or_null("function"@))
}

pub open spec fn tools_heard(ts: Option<Seq<JsonModel>>) -> Seq<ToolHeard> {
    match ts {
        Some(ts) => ts.map_values(|t: JsonModel| tool_heard(t)),
        None => seq![],
    }
}

/// The tools that a chat request offers, as tools or as functions in the older way.
pub open spec fn tools_asked(req: ChatRequestModel) -> Seq<ToolHeard> {
    match req.tools {
        Some(ts) => ts.map_values(|t: JsonModel| tool_heard(t)),
        None => match JsonModel::Object(req.extra).array_at("functions"@) {
            Some(fs) => fs.map_values(|f: JsonModel| function_heard(f)),
            None => seq![],
        },
    }
}

proof fn tools_reach_the_model(ts: Seq<JsonModel>)
    requires
        forall|i: int| 0 <= i < ts.len() ==> tool_heard(#[trigger] ts[i]).name.len() > 0,
    ensures
        messages::tools_of(ts).map_values(|t: ToolModel| tool_heard(request::tool_json(t)))
            == ts.map_values(|t: JsonModel| tool_heard(t)),
        messages::tools_of(ts).len() == ts.len(),
    decreases ts.len(),
{
    let told = ts.map_values(|t: JsonModel| tool_heard(t));
    if ts.len() == 0 {
        assert(messages::tools_of(ts).map_values(|t: ToolModel| tool_heard(request::tool_json(t)))
            =~= told);
    } else {
        task_keys_differ();
        let rest = ts.drop_last();
        assert forall|i: int| 0 <= i < rest.len() implies tool_heard(
            #[trigger] rest[i],
        ).name.len() > 0 by {
            assert(rest[i] == ts[i]);
        }
        tools_reach_the_model(rest);
        let t = ts[ts.len() - 1];
        assert(tool_heard(t).name.len() > 0);
        let f = t.field_or_null("function"@);
        assert(f.str_at("name"@) is Some);
        assert(t.field("function"@) == Some(f));
        let m = messages::tool_of(t)->Some_0;
        let j = request::tool_json(m).field_or_null("function"@);
        assert(j.str_at("name"@) == Some(m.name));
        assert(j.str_at("description"@) == m.description);
        assert(tool_heard(request::tool_json(m)) =~= tool_heard(t));
        let before = messages::tools_of(rest);
        assert(before.push(m).map_values(|t: ToolModel| tool_heard(request::tool_json(t)))
            =~= before.map_values(|t: ToolModel| tool_heard(request::tool_json(t))).push(
            tool_heard(t),
        ));
        assert(told =~= rest.map_values(|t: JsonModel| tool_heard(t)).push(tool_heard(t)));
    }
}

proof fn strings_are_read(items: Seq<JsonModel>)
    requires
        forall|i: int| 0 <= i < items.len() ==> (#[trigger] items[i]) is Str,
    ensures
        messages::strings_of(items).map_values(|t: Seq<char>| JsonModel::Str(t)) == items,
        messages::strings_of(items).len() == items.len(),
    decreases items.len(),
{
    let read = messages::strings_of(items);
    if items.len() == 0 {
        assert(read.map_values(|t: Seq<char>| JsonModel::Str(t)) =~= items);
    } else {
        let rest = items.drop_last();
        assert forall|i: int| 0 <= i < rest.len() implies (#[trigger] rest[i]) is Str by {
            assert(rest[i] == items[i]);
        }
        strings_are_read(rest);
        assert(items[items.len() - 1] is Str);
        let before = messages::strings_of(rest);
        let s = items.last().str()->Some_0;
        assert(before.push(s).map_values(|t: Seq<char>| JsonModel::Str(t)) =~= before.map_values(
            |t: Seq<char>| JsonModel::Str(t),
        ).push(items.last()));
        assert(items =~= rest.push(items.last()));
    }
}

/// The strings of a list that holds nothing else.
pub open spec fn only_strings(items: Seq<JsonModel>) -> bool {
    forall|i: int| 0 <= i < items.len() ==> (#[trigger] items[i]) is Str
}

// ── Tasks, as a model server reads them ─────────────────────────────────────

/// A model server is asked for what the task says, in a stream: each thing of a task stands
/// under its own key, and what the task leaves open is left open.
pub proof fn task_reaches_the_model(t: TaskModel)
    ensures
        ({
            let body = request::task_json(t);
            &&& body.str_at("model"@) == Some(t.model)
            &&& body.unsigned_at("max_tokens"@) == Some(t.max_tokens as u64)
            &&& body.field("temperature"@) == Some(JsonModel::Number(json::plain(t.temperature)))
            &&& body.field("stream"@) == Some(JsonModel::Bool(true))
            &&& body.array_at("messages"@) == Some(
                t.messages.map_values(|m: MsgModel| request::message_json(m)),
            )
            &&& body.field("stop"@) == (match t.stop {
                Some(ss) => Some(
                    JsonModel::Array(ss.map_values(|s: Seq<char>| JsonModel::Str(s))),
                ),
                None => None,
            })
            &&& body.field("top_p"@) == (match t.top_p {
                Some(n) => Some(JsonModel::Number(json::plain(n))),
                None => None,
            })
            &&& body.unsigned_at("top_k"@) == (match t.top_k {
                Some(n) => Some(n as u64),
                None => None,
            })
            &&& body.field("tools"@) == (match t.tools {
                Some(ts) => Some(
                    JsonModel::Array(ts.map_values(|x: ToolModel| request::tool_json(x))),
                ),
                None => None,
            })
            &&& body.field("tool_choice"@) == (match t.tool_choice {
                Some(c) => Some(request::choice_json(c)),
                None => None,
            })
            &&& body.field("parallel_tool_calls"@) == (match t.parallel_tool_calls {
                Some(b) => Some(JsonModel::Bool(b)),
                None => None,
            })
        }),
{
    task_keys_differ();
}

/// The messages of the request to the model server say what the list of messages says.
pub open spec fn messages_arrive(body: JsonModel, list: Seq<JsonModel>) -> bool {
    body.array_at("messages"@) matches Some(ms) && ms.len() == list.len() && forall|i: int|
        0 <= i < ms.len() ==> heard(#[trigger] ms[i]) == heard(list[i])
}

/// The tool choice of the request to the model server is the one that was asked for.
pub open spec fn choice_arrives(body: JsonModel, asked: JsonModel) -> bool {
    &&& asked.str() matches Some(mode) ==> body.str_at("tool_choice"@) == Some(mode)
    &&& asked.field_or_null("function"@).str_at("name"@) matches Some(name)
        ==> body.field_or_null("tool_choice"@).field_or_null("function"@).str_at("name"@) == Some(
        name,
    ) && body.field_or_null("tool_choice"@).str_at("type"@) == Some("function"@)
}

proof fn messages_do_arrive(t: TaskModel, list: Seq<JsonModel>)
    requires
        t.messages == messages::messages_of(list),
        forall|i: int| 0 <= i < list.len() ==> is_chat_message(#[trigger] list[i]),
    ensures
        messages_arrive(request::task_json(t), list),
{
    task_reaches_the_model(t);
    let ms = request::task_json(t).array_at("messages"@)->Some_0;
    assert forall|i: int| 0 <= i < ms.len() implies heard(#[trigger] ms[i]) == heard(list[i]) by {
        assert(is_chat_message(list[i]));
        message_reaches_the_model(list[i]);
    }
}

proof fn choice_does_arrive(t: TaskModel, asked: JsonModel)
    requires
        t.tool_choice == Some(messages::choice_of(asked)),
    ensures
        choice_arrives(request::task_json(t), asked),
{
    task_reaches_the_model(t);
    task_keys_differ();
    if asked.field_or_null("function"@).str_at("name"@) is Some {
        let j = request::choice_json(messages::choice_of(asked));
        let name = asked.field_or_null("function"@).str_at("name"@)->Some_0;
        assert(asked.field_of_field("function"@, "name"@) == Some(JsonModel::Str(name)));
        assert(j.field_or_null("function"@).str_at("name"@) == Some(name));
        assert(j.str_at("type"@) == Some("function"@));
    }
}

proof fn tools_do_arrive(t: TaskModel, list: Option<Seq<JsonModel>>)
    requires
        t.tools == convert::offered_tools(list),
        list matches Some(ts) ==> forall|i: int|
            0 <= i < ts.len() ==> tool_heard(#[trigger] ts[i]).name.len() > 0,
    ensures
        tools_heard(request::task_json(t).array_at("tools"@)) == tools_heard(list),
{
    task_reaches_the_model(t);
    if let Some(ts) = list {
        tools_reach_the_model(ts);
        let read = messages::tools_of(ts);
        if read.len() > 0 {
            let written = read.map_values(|x: ToolModel| request::tool_json(x));
            assert(request::task_json(t).array_at("tools"@) == Some(written));
            assert(written.map_values(|t: JsonModel| tool_heard(t)) =~= read.map_values(
                |t: ToolModel| tool_heard(request::tool_json(t)),
            ));
        } else {
            assert(ts.map_values(|t: JsonModel| tool_heard(t)) =~= seq![]);
        }
    }
}

proof fn functions_are_tools(fs: Seq<JsonModel>)
    requires
        forall|i: int| 0 <= i < fs.len() ==> (#[trigger] fs[i]).str_at("name"@) is Some,
    ensures
        fs.map_values(|f: JsonModel| convert::legacy_tool(f)).map_values(
            |t: JsonModel| tool_heard(t),
        ) == fs.map_values(|f: JsonModel| function_heard(f)),
{
    task_keys_differ();
    let made = fs.map_values(|f: JsonModel| convert::legacy_tool(f)).map_values(
        |t: JsonModel| tool_heard(t),
    );
    assert forall|i: int| 0 <= i < fs.len() implies #[trigger] made[i] == function_heard(
        fs[i],
    ) by {
        let j = convert::legacy_tool(fs[i]).field_or_null("function"@);
        assert(j.str_at("name"@) == fs[i].str_at("name"@));
        assert(j.str_at("description"@) == fs[i].str_at("description"@));
        assert(j.field_or_null("parameters"@) == fs[i].field_or_null("parameters"@));
    }
    assert(made =~= fs.map_values(|f: JsonModel| function_heard(f)));
}

/// A chat request reaches the model server as it was asked: its messages, its tools in either
/// way of writing them, the choice among them, and its settings. The model is the worker's own.
pub proof fn chat_request_reaches_the_model(
    req: ChatRequestModel,
    model: Seq<char>,
    request_id: Seq<char>,
    session_id: Seq<char>,
    temperature: Num,
)
    requires
        forall|i: int|
            0 <= i < req.messages.len() ==> is_chat_message(#[trigger] req.messages[i]),
        forall|i: int|
            0 <= i < tools_asked(req).len() ==> (#[trigger] tools_asked(req)[i]).name.len() > 0,
    ensures
        ({
            let body = request::task_json(
                plan::chat_task(req, model, request_id, session_id, temperature),
            );
            &&& messages_arrive(body, req.messages)
            &&& tools_heard(body.array_at("tools"@)) == tools_asked(req)
            &&& req.tool_choice matches Some(c) ==> choice_arrives(body, c)
            &&& req.tool_choice is None && JsonModel::Object(req.extra).field("function_call"@)
                is None ==> body.field("tool_choice"@) is None
            &&& body.str_at("model"@) == Some(model)
            &&& body.unsigned_at("max_tokens"@) == Some(
                (match req.max_tokens {
                    Some(n) => n as u64,
                    None => 4096u64,
                }),
            )
            &&& body.field("temperature"@) == Some(
                JsonModel::Number(
                    json::plain(
                        match req.temperature {
                            Some(n) => n,
                            None => temperature,
                        },
                    ),
                ),
            )
            &&& body.field("top_p"@) == (match req.top_p {
                Some(n) => Some(JsonModel::Number(json::plain(n))),
                None => None,
            })
            &&& req.stop matches Some(JsonModel::Str(s)) ==> body.array_at("stop"@) == Some(
                seq![JsonModel::Str(s)],
            )
            &&& match req.stop {
                Some(JsonModel::Array(items)) => items.len() > 0 && only_strings(items)
                    ==> body.array_at("stop"@) == Some(items),
                _ => true,
            }
            &&& req.stop is None ==> body.field("stop"@) is None
            &&& body.field("parallel_tool_calls"@) == (match req.parallel_tool_calls {
                Some(b) => Some(JsonModel::Bool(b)),
                None => None,
            })
        }),
{
    let t = plan::chat_task(req, model, request_id, session_id, temperature);
    task_reaches_the_model(t);
    messages_do_arrive(t, req.messages);
    match req.tool_choice {
        Some(c) => choice_does_arrive(t, c),
        None => {},
    }
    match req.stop {
        Some(JsonModel::Str(s)) => {
            assert(seq![s].map_values(|s: Seq<char>| JsonModel::Str(s)) =~= seq![
                JsonModel::Str(s),
            ]);
        },
        Some(JsonModel::Array(items)) => {
            if only_strings(items) {
                strings_are_read(items);
            }
        },
        _ => {},
    }
    let list = plan::request_tools(req);
    match req.tools {
        Some(ts) => {
            assert forall|i: int| 0 <= i < ts.len() implies tool_heard(
                #[trigger] ts[i],
            ).name.len() > 0 by {
                assert(tools_asked(req)[i].name.len() > 0);
            }
            tools_do_arrive(t, list);
        },
        None => match JsonModel::Object(req.extra).array_at("functions"@) {
            Some(fs) => {
                assert forall|i: int| 0 <= i < fs.len() implies (#[trigger] fs[i]).str_at(
                    "name"@,
                ) is Some by {
                    assert(tools_asked(req)[i].name.len() > 0);
                }
                functions_are_tools(fs);
                assert(JsonModel::Object(req.extra).field("functions"@) == Some(
                    JsonModel::Array(fs),
                ));
                if fs.len() > 0 {
                    let ts = fs.map_values(|f: JsonModel| convert::legacy_tool(f));
                    assert(list == Some(ts));
                    let all = ts.map_values(|t: JsonModel| tool_heard(t));
                    assert forall|i: int| 0 <= i < ts.len() implies tool_heard(
                        #[trigger] ts[i],
                    ).name.len() > 0 by {
                        assert(all[i] == tool_heard(ts[i]));
                        assert(tools_asked(req)[i].name.len() > 0);
                    }
                } else {
                    assert(list is None);
                    assert(tools_asked(req) =~= seq![]);
                }
                tools_do_arrive(t, list);
            },
            None => {
                assert(list is None);
                tools_do_arrive(t, list);
            },
        },
    }
}

/// The older way to choose a function means what the newer one means: none, the named one, or
/// whichever the model likes.
pub proof fn older_choice_reaches_the_model(
    req: ChatRequestModel,
    call: JsonModel,
    model: Seq<char>,
    request_id: Seq<char>,
    session_id: Seq<char>,
    temperature: Num,
)
    requires
        req.tool_choice is None,
        JsonModel::Object(req.extra).field("function_call"@) == Some(call),
    ensures
        ({
            let body = request::task_json(
                plan::chat_task(req, model, request_id, session_id, temperature),
            );
            &&& call.str() == Some("none"@) ==> body.str_at("tool_choice"@) == Some("none"@)
            &&& call.str() == Some("auto"@) ==> body.str_at("tool_choice"@) == Some("auto"@)
            &&& call.str_at("name"@) matches Some(name) ==> body.field_or_null(
                "tool_choice"@,
            ).field_or_null("function"@).str_at("name"@) == Some(name)
        }),
{
    task_keys_differ();
    let t = plan::chat_task(req, model, request_id, session_id, temperature);
    let c = convert::legacy_choice(call);
    reveal_strlit("none");
    reveal_strlit("auto");
    assert("none"@[0] == 'n' && "auto"@[0] == 'a');
    assert(t.tool_choice == Some(messages::choice_of(c)));
    choice_does_arrive(t, c);
    if call.str_at("name"@) is Some {
        assert(c.field_or_null("function"@).str_at("name"@) == call.str_at("name"@));
    }
}

/// The request to the model server goes to the place for chats and ends with a blank line and its
/// body, whose length in bytes stands before it.
pub proof fn request_is_announced(body: Seq<char>)
    ensures
        "POST /v1/chat/completions HTTP/1.1\r\n"@.is_prefix_of(request::request_text(body)),
        ("\r\nContent-Length: "@ + text::dec(vstd::utf8::encode_utf8(body).len())
            + "\r\nConnection: close\r\n\r\n"@ + body).is_suffix_of(request::request_text(body)),
{
    reveal_strlit("POST /v1/chat/completions HTTP/1.1\r\n");
    reveal_strlit("\r\nContent-Length: ");
    reveal_strlit(
        "POST /v1/chat/completions HTTP/1.1\r\nHost: 127.0.0.1\r\nContent-Type: application/json\r\nContent-Length: ",
    );
    let head =
    "POST /v1/chat/completions HTTP/1.1\r\nHost: 127.0.0.1\r\nContent-Type: application/json\r\nContent-Length: "@;
    let first = "POST /v1/chat/completions HTTP/1.1\r\n"@;
    let label = "\r\nContent-Length: "@;
    let rest = text::dec(vstd::utf8::encode_utf8(body).len()) + "\r\nConnection: close\r\n\r\n"@
        + body;
    let all = request::request_text(body);
    assert(all =~= head + rest);
    assert(first =~= head.subrange(0, first.len() as int));
    assert(first =~= all.subrange(0, first.len() as int));
    assert(label =~= head.subrange(head.len() - label.len(), head.len() as int));
    let tail = label + text::dec(vstd::utf8::encode_utf8(body).len())
        + "\r\nConnection: close\r\n\r\n"@ + body;
    assert(tail =~= label + rest);
    assert(tail =~= all.subrange(all.len() - tail.len(), all.len() as int));
}

// ── Anthropic requests ──────────────────────────────────────────────────────

spec fn all_chat_messages(ms: Seq<JsonModel>) -> bool {
    forall|i: int| 0 <= i < ms.len() ==> is_chat_message(#[trigger] ms[i])
}

proof fn plain_message_is_one(role: Seq<char>, content: JsonModel)
    ensures
        is_chat_message(translate::chat_message(role, content)),
{
    task_keys_differ();
    let m = translate::chat_message(role, content);
    assert(m.str_at("role"@) == Some(role));
    assert(m.array_at("tool_calls"@) is None);
}

proof fn flushing_keeps_messages(f: UserFold)
    requires
        all_chat_messages(f.messages),
    ensures
        all_chat_messages(translate::flushed(f).messages),
{
    if f.parts.len() > 0 {
        plain_message_is_one("user"@, translate::parts_content(f.parts));
    }
}

proof fn user_blocks_are_messages(f: UserFold, bs: Seq<JsonModel>)
    requires
        all_chat_messages(f.messages),
    ensures
        all_chat_messages(translate::on_user_blocks(f, bs).messages),
    decreases bs.len(),
{
    if bs.len() > 0 {
        user_blocks_are_messages(f, bs.drop_last());
        let g = translate::on_user_blocks(f, bs.drop_last());
        flushing_keeps_messages(g);
        let b = bs.last();
        let m = translate::tool_message(b);
        assert(is_chat_message(m)) by {
            task_keys_differ();
            assert(m.str_at("role"@) is Some);
            assert(m.array_at("tool_calls"@) is None);
        }
    }
}

proof fn all_calls_are_full(bs: Seq<JsonModel>)
    ensures
        forall|i: int|
            0 <= i < translate::all_calls(bs).len() ==> is_full_call(
                #[trigger] translate::all_calls(bs)[i],
            ),
    decreases bs.len(),
{
    if bs.len() > 0 {
        all_calls_are_full(bs.drop_last());
        task_keys_differ();
        let c = translate::call_of_block(bs.last());
        assert(c.str_at("id"@) is Some);
        assert(c.str_at("type"@) is Some);
        assert(c.field_or_null("function"@).str_at("name"@) is Some);
        assert(c.field_or_null("function"@).str_at("arguments"@) is Some);
        let all = translate::all_calls(bs);
        let before = translate::all_calls(bs.drop_last());
        assert forall|i: int| 0 <= i < all.len() implies is_full_call(#[trigger] all[i]) by {
            if i < before.len() {
                assert(all[i] == before[i]);
            } else {
                assert(all[i] == c);
            }
        }
    }
}

proof fn turns_are_messages(ms: Seq<JsonModel>, turns: Seq<MessageModel>)
    requires
        all_chat_messages(ms),
    ensures
        all_chat_messages(translate::with_turns(ms, turns)),
    decreases turns.len(),
{
    if turns.len() > 0 {
        turns_are_messages(ms, turns.drop_last());
        let before = translate::with_turns(ms, turns.drop_last());
        let m = turns.last();
        if m.role == "user"@ {
            let f = UserFold { messages: before, parts: seq![] };
            let bs = translate::blocks_of(m.content);
            user_blocks_are_messages(f, bs);
            flushing_keeps_messages(translate::on_user_blocks(f, bs));
        } else if m.role == "assistant"@ {
            let bs = translate::blocks_of(m.content);
            all_calls_are_full(bs);
            let a = translate::assistant_turn(m.content);
            assert(is_chat_message(a)) by {
                task_keys_differ();
                assert(a.str_at("role"@) == Some("assistant"@));
                let calls = translate::all_calls(bs);
                if calls.len() > 0 {
                    assert(a.array_at("tool_calls"@) == Some(calls));
                } else {
                    assert(a.array_at("tool_calls"@) is None);
                }
            }
        } else {
            plain_message_is_one(
                "system"@,
                JsonModel::Str(translate::text_of_content(m.content)),
            );
        }
    }
}

/// The tools of an Anthropic request that the gateway runs.
pub open spec fn set_aside(tools: Seq<types::ToolModel>) -> Seq<types::ToolModel> {
    tools.filter(|t: types::ToolModel| runs_here(t))
}

/// The tools that the gateway runs are those of the request whose type says so, in their order.
pub proof fn hosted_tools_are_set_aside(tools: Seq<types::ToolModel>)
    ensures
        translate::hosted_of(tools) == set_aside(tools),
    decreases tools.len(),
{
    reveal(Seq::filter);
    if tools.len() > 0 {
        let t = tools.last();
        hosted_tools_are_set_aside(tools.drop_last());
        if let Some(kind) = JsonModel::Object(t.extra).str_at("type"@) {
            let p = "web_search_"@;
            if text::starts_with(kind, p) {
                assert(p =~= kind.subrange(0, p.len() as int));
            } else if p.is_prefix_of(kind) {
                assert(kind.subrange(0, p.len() as int) =~= p);
            }
        }
        assert(translate::is_hosted(t) == runs_here(t));
    }
}

/// An Anthropic request reaches the model server as its chat form says it: its messages, its
/// tools with those that the gateway runs in front, and its settings. The model is the worker's
/// own, and several tools may be called at once.
pub proof fn anthropic_request_reaches_the_model(
    req: AnthropicRequestModel,
    resolved: Seq<char>,
    model: Seq<char>,
    request_id: Seq<char>,
    session_id: Seq<char>,
    temperature: Num,
)
    requires
        req.tools matches Some(ts) ==> forall|i: int|
            0 <= i < ts.len() ==> (#[trigger] ts[i]).name.len() > 0,
    ensures
        ({
            let chat = translate::chat_request(req, resolved);
            let body = request::task_json(
                plan::anthropic_task(req, resolved, model, request_id, session_id, temperature),
            );
            let hosted = request_tools_heard(hosted_tools::hosted_tools());
            &&& messages_arrive(body, chat.messages)
            &&& tools_heard(body.array_at("tools"@)) == (if translate::hosted_tools_of(req).len()
                > 0 {
                hosted + tools_heard(chat.tools)
            } else {
                tools_heard(chat.tools)
            })
            &&& chat.tool_choice matches Some(c) ==> choice_arrives(body, c)
            &&& chat.tool_choice is None ==> body.field("tool_choice"@) is None
            &&& body.str_at("model"@) == Some(model)
            &&& body.unsigned_at("max_tokens"@) == Some(
                (match req.max_tokens {
                    Some(n) => n as u64,
                    None => 4096u64,
                }),
            )
            &&& body.field("temperature"@) == Some(
                JsonModel::Number(
                    json::plain(
                        match req.temperature {
                            Some(n) => n,
                            None => temperature,
                        },
                    ),
                ),
            )
            &&& body.field("top_p"@) == (match req.top_p {
                Some(n) => Some(JsonModel::Number(json::plain(n))),
                None => None,
            })
            &&& JsonModel::Object(req.extra).unsigned_at("top_k"@) matches Some(n) ==> (n
                <= u32::MAX ==> body.unsigned_at("top_k"@) == Some(n))
            &&& JsonModel::Object(req.extra).unsigned_at("top_k"@) is None ==> body.unsigned_at(
                "top_k"@,
            ) is None
            &&& match JsonModel::Object(req.extra).array_at("stop_sequences"@) {
                Some(items) => only_strings(items) ==> body.array_at("stop"@) == Some(items),
                None => body.field("stop"@) is None,
            }
            &&& body.field("parallel_tool_calls"@) == Some(JsonModel::Bool(true))
        }),
{
    let chat = translate::chat_request(req, resolved);
    let t = plan::anthropic_task(req, resolved, model, request_id, session_id, temperature);
    let body = request::task_json(t);
    task_reaches_the_model(t);
    match req.system {
        Some(s) => plain_message_is_one("system"@, JsonModel::Str(translate::text_of_content(s))),
        None => {},
    }
    let start = match req.system {
        Some(system) => translate::with_system(seq![], system),
        None => seq![],
    };
    assert(all_chat_messages(start));
    turns_are_messages(start, req.messages);
    messages_do_arrive(t, chat.messages);
    match chat.tool_choice {
        Some(c) => choice_does_arrive(t, c),
        None => {},
    }
    match JsonModel::Object(req.extra).array_at("stop_sequences"@) {
        Some(items) => {
            assert(JsonModel::Object(req.extra).field("stop_sequences"@) == Some(
                JsonModel::Array(items),
            ));
            if only_strings(items) {
                strings_are_read(items);
            }
        },
        None => {},
    }
    if let Some(ts) = req.tools {
        named_tools_are_offered(ts);
    }
    let plain = TaskModel { tools: convert::offered_tools(chat.tools), ..t };
    tools_do_arrive(plain, chat.tools);
    task_reaches_the_model(plain);
    if translate::hosted_tools_of(req).len() > 0 {
        let own = match convert::offered_tools(chat.tools) {
            Some(own) => own,
            None => seq![],
        };
        let all = hosted_tools::hosted_tools() + own;
        assert(t.tools == Some(all));
        let written = all.map_values(|x: ToolModel| request::tool_json(x));
        assert(body.array_at("tools"@) == Some(written));
        written_tools_are_heard(all);
        assert(written.map_values(|t: JsonModel| tool_heard(t)) =~= request_tools_heard(
            hosted_tools::hosted_tools(),
        ) + request_tools_heard(own));
        match convert::offered_tools(chat.tools) {
            Some(own) => {
                let mine = own.map_values(|x: ToolModel| request::tool_json(x));
                assert(request::task_json(plain).array_at("tools"@) == Some(mine));
                written_tools_are_heard(own);
            },
            None => {
                assert(request_tools_heard(own) =~= seq![]);
            },
        }
    }
}

/// The tools of a task.
pub open spec fn request_tools_heard(ts: Seq<ToolModel>) -> Seq<ToolHeard> {
    ts.map_values(
        |t: ToolModel|
            ToolHeard {
                name: t.name,
                description: t.description,
                schema: match t.parameters {
                    Some(p) => p,
                    None => JsonModel::Null,
                },
            },
    )
}

proof fn written_tools_are_heard(ts: Seq<ToolModel>)
    ensures
        ts.map_values(|x: ToolModel| request::tool_json(x)).map_values(|t: JsonModel| tool_heard(t))
            == request_tools_heard(ts),
{
    task_keys_differ();
    let read = ts.map_values(|x: ToolModel| request::tool_json(x)).map_values(
        |t: JsonModel| tool_heard(t),
    );
    assert forall|i: int| 0 <= i < ts.len() implies #[trigger] read[i] == request_tools_heard(
        ts,
    )[i] by {
        let j = request::tool_json(ts[i]).field_or_null("function"@);
        assert(j.str_at("name"@) == Some(ts[i].name));
        assert(j.str_at("description"@) == ts[i].description);
        assert(tool_heard(request::tool_json(ts[i])) =~= request_tools_heard(ts)[i]);
    }
    assert(read =~= request_tools_heard(ts));
}

proof fn named_tools_are_offered(ts: Seq<types::ToolModel>)
    requires
        forall|i: int| 0 <= i < ts.len() ==> (#[trigger] ts[i]).name.len() > 0,
    ensures
        forall|i: int|
            0 <= i < translate::chat_tools(ts).len() ==> tool_heard(
                #[trigger] translate::chat_tools(ts)[i],
            ).name.len() > 0,
    decreases ts.len(),
{
    if ts.len() > 0 {
        task_keys_differ();
        let rest = ts.drop_last();
        assert forall|i: int| 0 <= i < rest.len() implies (#[trigger] rest[i]).name.len() > 0 by {
            assert(rest[i] == ts[i]);
        }
        named_tools_are_offered(rest);
        let t = ts[ts.len() - 1];
        assert(t.name.len() > 0);
        let c = translate::chat_tool(t);
        assert(c.field_or_null("function"@).str_at("name"@) == Some(t.name));
        let all = translate::chat_tools(ts);
        let before = translate::chat_tools(rest);
        assert forall|i: int| 0 <= i < all.len() implies tool_heard(#[trigger] all[i]).name.len()
            > 0 by {
            if i < before.len() {
                assert(all[i] == before[i]);
            } else {
                assert(all[i] == c);
            }
        }
    }
}

} // verus!
