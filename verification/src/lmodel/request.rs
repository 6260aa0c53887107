//! The request that a worker makes of its model server.
use vstd::prelude::*;

use crate::brain::protocol::{
    self,
    CallModel,
    ChoiceModel,
    ContentModel,
    Message,
    MessageContent,
    MsgModel,
    PartModel,
    TaskBundle,
    TaskModel,
    Tool,
    ToolCall,
    ToolChoice,
    ToolModel,
};
use crate::json::{self, Json, JsonModel, Object};
use crate::text;

verus! {

// ── Messages and tools as JSON ──────────────────────────────────────────────

pub open spec fn part_json(p: PartModel) -> JsonModel {
    let m = json::nothing().insert("type"@, JsonModel::Str(p.part_type));
    JsonModel::Object(
        match p.text {
            Some(t) => m.insert("text"@, JsonModel::Str(t)),
            None => m,
        },
    )
}

pub open spec fn content_json(c: ContentModel) -> JsonModel {
    match c {
        ContentModel::Text(s) => JsonModel::Str(s),
        ContentModel::Parts(parts) => JsonModel::Array(
            parts.map_values(|p: PartModel| part_json(p)),
        ),
    }
}

pub open spec fn call_json(c: CallModel) -> JsonModel {
    JsonModel::Object(
        json::nothing().insert("id"@, JsonModel::Str(c.id)).insert(
            "type"@,
            JsonModel::Str(c.call_type),
        ).insert(
            "function"@,
            JsonModel::Object(
                json::nothing().insert("name"@, JsonModel::Str(c.name)).insert(
                    "arguments"@,
                    JsonModel::Str(c.arguments),
                ),
            ),
        ),
    )
}

/// A message as JSON: what it does not have is left out.
pub open spec fn message_json(m: MsgModel) -> JsonModel {
    let m0 = json::nothing().insert("role"@, JsonModel::Str(m.role)).insert(
        "content"@,
        content_json(m.content),
    );
    let m1 = match m.tool_calls {
        Some(calls) => m0.insert(
            "tool_calls"@,
            JsonModel::Array(calls.map_values(|c: CallModel| call_json(c))),
        ),
        None => m0,
    };
    JsonModel::Object(
        match m.tool_call_id {
            Some(id) => m1.insert("tool_call_id"@, JsonModel::Str(id)),
            None => m1,
        },
    )
}

/// A tool as JSON: what its function does not have is null.
pub open spec fn tool_json(t: ToolModel) -> JsonModel {
    JsonModel::Object(
        json::nothing().insert("type"@, JsonModel::Str(t.tool_type)).insert(
            "function"@,
            JsonModel::Object(
                json::nothing().insert("name"@, JsonModel::Str(t.name)).insert(
                    "description"@,
                    json::text_or_null(t.description),
                ).insert(
                    "parameters"@,
                    match t.parameters {
                        Some(p) => p,
                        None => JsonModel::Null,
                    },
                ),
            ),
        ),
    )
}

pub open spec fn choice_json(c: ChoiceModel) -> JsonModel {
    match c {
        ChoiceModel::Mode(m) => JsonModel::Str(m),
        ChoiceModel::Specific { choice_type, name } => JsonModel::Object(
            json::nothing().insert("type"@, JsonModel::Str(choice_type)).insert(
                "function"@,
                JsonModel::Object(json::nothing().insert("name"@, JsonModel::Str(name))),
            ),
        ),
    }
}

fn part_to_json(p: &protocol::ContentPart) -> (r: Json)
    ensures
        r@ == part_json(p@),
{
    let mut o = Object::new().with("type", Json::text(p.part_type.as_str()));
    match &p.text {
        Some(t) => o.put("text", Json::text(t.as_str())),
        None => {},
    }
    Json::Object(o)
}

fn content_to_json(c: &MessageContent) -> (r: Json)
    ensures
        r@ == content_json(c@),
{
    match c {
        MessageContent::Text(s) => Json::text(s.as_str()),
        MessageContent::Parts(parts) => {
            let ghost all = protocol::part_models(parts@).map_values(
                |p: PartModel| part_json(p),
            );
            let mut out: Vec<Json> = Vec::new();
            let mut i: usize = 0;
            assert(json::models(out@) =~= all.take(0));
            while i < parts.len()
                invariant
                    i <= parts.len(),
                    all == protocol::part_models(parts@).map_values(|p: PartModel| part_json(p)),
                    json::models(out@) == all.take(i as int),
                decreases parts.len() - i,
            {
                let item = part_to_json(&parts[i]);
                proof {
                    json::models_push(out@, item);
                    assert(all.take(i + 1) =~= all.take(i as int).push(item@));
                }
                out.push(item);
                i = i + 1;
            }
            assert(all.take(all.len() as int) =~= all);
            Json::Array(out)
        },
    }
}

fn call_to_json(c: &ToolCall) -> (r: Json)
    ensures
        r@ == call_json(c@),
{
    let function = Object::new().with("name", Json::text(c.function.name.as_str())).with(
        "arguments",
        Json::text(c.function.arguments.as_str()),
    );
    Json::Object(
        Object::new().with("id", Json::text(c.id.as_str())).with(
            "type",
            Json::text(c.call_type.as_str()),
        ).with("function", Json::Object(function)),
    )
}

fn calls_to_json(calls: &Vec<ToolCall>) -> (r: Json)
    ensures
        r@ == JsonModel::Array(
            protocol::call_models(calls@).map_values(|c: CallModel| call_json(c)),
        ),
{
    let ghost all = protocol::call_models(calls@).map_values(|c: CallModel| call_json(c));
    let mut out: Vec<Json> = Vec::new();
    let mut i: usize = 0;
    assert(json::models(out@) =~= all.take(0));
    while i < calls.len()
        invariant
            i <= calls.len(),
            all == protocol::call_models(calls@).map_values(|c: CallModel| call_json(c)),
            json::models(out@) == all.take(i as int),
        decreases calls.len() - i,
    {
        let item = call_to_json(&calls[i]);
        proof {
            json::models_push(out@, item);
            assert(all.take(i + 1) =~= all.take(i as int).push(item@));
        }
        out.push(item);
        i = i + 1;
    }
    assert(all.take(all.len() as int) =~= all);
    Json::Array(out)
}

/// A message as JSON.
pub fn message_to_json(m: &Message) -> (r: Json)
    ensures
        r@ == message_json(m@),
{
    let mut o = Object::new().with("role", Json::text(m.role.as_str())).with(
        "content",
        content_to_json(&m.content),
    );
    match &m.tool_calls {
        Some(calls) => o.put("tool_calls", calls_to_json(calls)),
        None => {},
    }
    match &m.tool_call_id {
        Some(id) => o.put("tool_call_id", Json::text(id.as_str())),
        None => {},
    }
    Json::Object(o)
}

/// A tool as JSON.
pub fn tool_to_json(t: &Tool) -> (r: Json)
    ensures
        r@ == tool_json(t@),
{
    let parameters = match &t.function.parameters {
        Some(p) => p.dup(),
        None => Json::Null,
    };
    let function = Object::new().with("name", Json::text(t.function.name.as_str())).with(
        "description",
        Json::text_or_null(&t.function.description),
    ).with("parameters", parameters);
    Json::Object(
        Object::new().with("type", Json::text(t.tool_type.as_str())).with(
            "function",
            Json::Object(function),
        ),
    )
}

/// A tool choice as JSON.
pub fn choice_to_json(c: &ToolChoice) -> (r: Json)
    ensures
        r@ == choice_json(c@),
{
    match c {
        ToolChoice::Mode(m) => Json::text(m.as_str()),
        ToolChoice::Specific(s) => {
            let function = Object::new().with("name", Json::text(s.function.name.as_str()));
            Json::Object(
                Object::new().with("type", Json::text(s.choice_type.as_str())).with(
                    "function",
                    Json::Object(function),
                ),
            )
        },
    }
}

// ── The request ─────────────────────────────────────────────────────────────

pub open spec fn with_field(
    m: Map<Seq<char>, JsonModel>,
    key: Seq<char>,
    v: Option<JsonModel>,
) -> Map<Seq<char>, JsonModel> {
    match v {
        Some(v) => m.insert(key, v),
        None => m,
    }
}

pub open spec fn strings_json(s: Seq<Seq<char>>) -> JsonModel {
    JsonModel::Array(s.map_values(|t: Seq<char>| JsonModel::Str(t)))
}

/// The body of the request: the task as it is. What the task leaves open is left out, so that
/// the model server decides; the answer is always streamed.
pub open spec fn task_json(t: TaskModel) -> JsonModel {
    let m0 = json::nothing().insert("model"@, JsonModel::Str(t.model)).insert(
        "messages"@,
        JsonModel::Array(t.messages.map_values(|m: MsgModel| message_json(m))),
    ).insert("max_tokens"@, json::number(t.max_tokens as u64)).insert(
        "temperature"@,
        JsonModel::Number(json::plain(t.temperature)),
    ).insert("stream"@, JsonModel::Bool(true));
    let m1 = with_field(
        m0,
        "stop"@,
        match t.stop {
            Some(s) => Some(strings_json(s)),
            None => None,
        },
    );
    let m2 = with_field(
        m1,
        "top_p"@,
        match t.top_p {
            Some(n) => Some(JsonModel::Number(json::plain(n))),
            None => None,
        },
    );
    let m3 = with_field(
        m2,
        "top_k"@,
        match t.top_k {
            Some(n) => Some(json::number(n as u64)),
            None => None,
        },
    );
    let m4 = with_field(
        m3,
        "tools"@,
        match t.tools {
            Some(tools) => Some(
                JsonModel::Array(tools.map_values(|x: ToolModel| tool_json(x))),
            ),
            None => None,
        },
    );
    let m5 = with_field(
        m4,
        "tool_choice"@,
        match t.tool_choice {
            Some(c) => Some(choice_json(c)),
            None => None,
        },
    );
    JsonModel::Object(
        with_field(
            m5,
            "parallel_tool_calls"@,
            match t.parallel_tool_calls {
                Some(b) => Some(JsonModel::Bool(b)),
                None => None,
            },
        ),
    )
}

fn messages_to_json(messages: &Vec<Message>) -> (r: Json)
    ensures
        r@ == JsonModel::Array(
            protocol::msg_models(messages@).map_values(|m: MsgModel| message_json(m)),
        ),
{
    let ghost all = protocol::msg_models(messages@).map_values(|m: MsgModel| message_json(m));
    let mut out: Vec<Json> = Vec::new();
    let mut i: usize = 0;
    assert(json::models(out@) =~= all.take(0));
    while i < messages.len()
        invariant
            i <= messages.len(),
            all == protocol::msg_models(messages@).map_values(|m: MsgModel| message_json(m)),
            json::models(out@) == all.take(i as int),
        decreases messages.len() - i,
    {
        let item = message_to_json(&messages[i]);
        proof {
            json::models_push(out@, item);
            assert(all.take(i + 1) =~= all.take(i as int).push(item@));
        }
        out.push(item);
        i = i + 1;
    }
    assert(all.take(all.len() as int) =~= all);
    Json::Array(out)
}

fn tools_to_json(tools: &Vec<Tool>) -> (r: Json)
    ensures
        r@ == JsonModel::Array(
            protocol::tool_models(tools@).map_values(|t: ToolModel| tool_json(t)),
        ),
{
    let ghost all = protocol::tool_models(tools@).map_values(|t: ToolModel| tool_json(t));
    let mut out: Vec<Json> = Vec::new();
    let mut i: usize = 0;
    assert(json::models(out@) =~= all.take(0));
    while i < tools.len()
        invariant
            i <= tools.len(),
            all == protocol::tool_models(tools@).map_values(|t: ToolModel| tool_json(t)),
            json::models(out@) == all.take(i as int),
        decreases tools.len() - i,
    {
        let item = tool_to_json(&tools[i]);
        proof {
            json::models_push(out@, item);
            assert(all.take(i + 1) =~= all.take(i as int).push(item@));
        }
        out.push(item);
        i = i + 1;
    }
    assert(all.take(all.len() as int) =~= all);
    Json::Array(out)
}

fn strings_to_json(list: &Vec<String>) -> (r: Json)
    ensures
        r@ == strings_json(text::texts(list@)),
{
    let ghost all = text::texts(list@).map_values(|t: Seq<char>| JsonModel::Str(t));
    let mut out: Vec<Json> = Vec::new();
    let mut i: usize = 0;
    assert(json::models(out@) =~= all.take(0));
    while i < list.len()
        invariant
            i <= list.len(),
            all == text::texts(list@).map_values(|t: Seq<char>| JsonModel::Str(t)),
            json::models(out@) == all.take(i as int),
        decreases list.len() - i,
    {
        let item = Json::text(list[i].as_str());
        proof {
            json::models_push(out@, item);
            assert(all.take(i + 1) =~= all.take(i as int).push(item@));
        }
        out.push(item);
        i = i + 1;
    }
    assert(all.take(all.len() as int) =~= all);
    Json::Array(out)
}

/// The body of the request for a task.
pub fn task_body(task: &TaskBundle) -> (r: Json)
    ensures
        r@ == task_json(task@),
{
    let mut o = Object::new().with("model", Json::text(task.model.as_str())).with(
        "messages",
        messages_to_json(&task.messages),
    ).with("max_tokens", Json::number(task.max_tokens as u64)).with(
        "temperature",
        Json::Number(task.temperature.dup()),
    ).with("stream", Json::Bool(true));
    match &task.stop {
        Some(s) => o.put("stop", strings_to_json(s)),
        None => {},
    }
    match &task.top_p {
        Some(n) => o.put("top_p", Json::Number(n.dup())),
        None => {},
    }
    match task.top_k {
        Some(n) => o.put("top_k", Json::number(n as u64)),
        None => {},
    }
    match &task.tools {
        Some(t) => o.put("tools", tools_to_json(t)),
        None => {},
    }
    match &task.tool_choice {
        Some(c) => o.put("tool_choice", choice_to_json(c)),
        None => {},
    }
    match task.parallel_tool_calls {
        Some(b) => o.put("parallel_tool_calls", Json::Bool(b)),
        None => {},
    }
    Json::Object(o)
}

/// The request, with its body.
pub open spec fn request_text(body: Seq<char>) -> Seq<char> {
    "POST /v1/chat/completions HTTP/1.1\r\nHost: 127.0.0.1\r\nContent-Type: application/json\r\nContent-Length: "@
        + text::dec(protocol::byte_len(body)) + "\r\nConnection: close\r\n\r\n"@ + body
}

/// The request for a task.
pub fn task_request(task: &TaskBundle) -> (r: String)
    ensures
        r@ == request_text(json::json_text(task_json(task@))),
{
    let body = task_body(task);
    let rendered = json::render(&body);
    let mut out = text::concat3(
        "POST /v1/chat/completions HTTP/1.1\r\nHost: 127.0.0.1\r\nContent-Type: application/json\r\nContent-Length: ",
        text::decimal(text::byte_count(rendered.as_str()) as u64).as_str(),
        "\r\nConnection: close\r\n\r\n",
    );
    out.append(rendered.as_str());
    out
}

// ── Laws ────────────────────────────────────────────────────────────────────

/// A worker adds no stop sequences of its own: where the task has none, the request has none.
pub proof fn no_stop_is_made_up(t: TaskModel)
    requires
        t.stop is None,
    ensures
        task_json(t).field("stop"@) is None,
{
    reveal_strlit("stop");
    reveal_strlit("model");
    reveal_strlit("messages");
    reveal_strlit("max_tokens");
    reveal_strlit("temperature");
    reveal_strlit("stream");
    reveal_strlit("top_p");
    reveal_strlit("top_k");
    reveal_strlit("tools");
    reveal_strlit("tool_choice");
    reveal_strlit("parallel_tool_calls");
    assert("stop"@.len() == 4 && "model"@.len() == 5 && "messages"@.len() == 8
        && "max_tokens"@.len() == 10 && "temperature"@.len() == 11 && "stream"@.len() == 6
        && "top_p"@.len() == 5 && "top_k"@.len() == 5 && "tools"@.len() == 5
        && "tool_choice"@.len() == 11 && "parallel_tool_calls"@.len() == 19);
}

} // verus!
