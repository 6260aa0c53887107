//! Client requests turned into what a worker needs.
use vstd::prelude::*;

use crate::brain::messages;
use crate::brain::protocol::{self, ChoiceModel, Message, MsgModel, Tool, ToolChoice, ToolModel};
use crate::converter::responses;
use crate::converter::to_anthropic::{self, str_or};
use crate::converter::translate;
use crate::converter::translate::is_str;
use crate::converter::types::{self, AnthropicRequest, AnthropicRequestModel, AnthropicTool};
use crate::json::{self, Json, JsonModel, Object};
use crate::text;

verus! {

// ── Anthropic ───────────────────────────────────────────────────────────────

/// An Anthropic request as a worker takes it, and the hosted tools that were left out.
pub struct TranslatedAnthropicRequest {
    pub messages: Vec<Message>,
    pub tools: Option<Vec<Tool>>,
    pub tool_choice: Option<ToolChoice>,
    pub hosted_tools: Vec<AnthropicTool>,
}

#[verifier::ext_equal]
pub struct TranslatedModel {
    pub messages: Seq<MsgModel>,
    pub tools: Option<Seq<ToolModel>>,
    pub tool_choice: Option<ChoiceModel>,
    pub hosted_tools: Seq<types::ToolModel>,
}

impl View for TranslatedAnthropicRequest {
    type V = TranslatedModel;

    open spec fn view(&self) -> TranslatedModel {
        TranslatedModel {
            messages: protocol::msg_models(self.messages@),
            tools: protocol::opt_tool_models(self.tools),
            tool_choice: protocol::opt_choice(self.tool_choice),
            hosted_tools: types::tool_models(self.hosted_tools@),
        }
    }
}

/// The tools of a list of values, if it offers any.
pub open spec fn offered_tools(tools: Option<Seq<JsonModel>>) -> Option<Seq<ToolModel>> {
    match tools {
        Some(list) => if messages::tools_of(list).len() > 0 {
            Some(messages::tools_of(list))
        } else {
            None
        },
        None => None,
    }
}

pub open spec fn wanted_choice(choice: Option<JsonModel>) -> Option<ChoiceModel> {
    match choice {
        Some(c) => Some(messages::choice_of(c)),
        None => None,
    }
}

/// An Anthropic request as a worker takes it: that of its translation into a chat request.
pub open spec fn translated(req: AnthropicRequestModel, model: Seq<char>) -> TranslatedModel {
    let chat = translate::chat_request(req, model);
    TranslatedModel {
        messages: messages::messages_of(chat.messages),
        tools: offered_tools(chat.tools),
        tool_choice: wanted_choice(chat.tool_choice),
        hosted_tools: translate::hosted_tools_of(req),
    }
}

pub fn tools_from(tools: &Option<Vec<Json>>) -> (r: Option<Vec<Tool>>)
    ensures
        protocol::opt_tool_models(r) == offered_tools(types::opt_models(*tools)),
{
    match tools {
        Some(list) => {
            let out = messages::tools_from_values(list);
            assert(protocol::tool_models(out@).len() == out@.len());
            if out.len() > 0 {
                Some(out)
            } else {
                None
            }
        },
        None => None,
    }
}

pub fn choice_from(choice: &Option<Json>) -> (r: Option<ToolChoice>)
    ensures
        protocol::opt_choice(r) == wanted_choice(json::opt_model(*choice)),
{
    match choice {
        Some(c) => Some(messages::openai_tool_choice_json_to_protocol(c)),
        None => None,
    }
}

/// Turn an Anthropic request into what a worker needs. It goes by way of the chat request, so
/// that a message or a tool looks the same whichever protocol it came by.
pub fn translate_anthropic_request(req: &AnthropicRequest, upstream_model: &str) -> (r: Result<
    TranslatedAnthropicRequest,
    String,
>)
    ensures
        match r {
            Ok(t) => translate::unknown_role(req@.messages) is None && t@ == translated(
                req@,
                upstream_model@,
            ),
            Err(m) => translate::unknown_role(req@.messages) matches Some(role) && m@
                == "Invalid request: "@ + translate::role_error(role),
        },
{
    match translate::translate_anthropic_to_openai_request_ex(req, upstream_model) {
        Ok(t) => {
            let messages = messages::messages_from_values(&t.request.messages);
            let tools = tools_from(&t.request.tools);
            let tool_choice = choice_from(&t.request.tool_choice);
            Ok(
                TranslatedAnthropicRequest {
                    messages,
                    tools,
                    tool_choice,
                    hosted_tools: t.hosted_tools,
                },
            )
        },
        Err(e) => Err(e.message()),
    }
}

/// The most tokens of an answer: what the client asks for, or 4096.
pub fn required_max_tokens(req: &AnthropicRequest) -> (r: u32)
    ensures
        r == (match req@.max_tokens {
            Some(n) => n,
            None => 4096,
        }),
{
    match req.max_tokens {
        Some(n) => n,
        None => 4096,
    }
}

/// The strings of a list that holds nothing else.
pub open spec fn all_strings(v: JsonModel) -> Option<Seq<Seq<char>>> {
    match v {
        JsonModel::Array(items) => if forall|i: int|
            0 <= i < items.len() ==> #[trigger] items[i] is Str {
            Some(messages::strings_of(items))
        } else {
            None
        },
        _ => None,
    }
}

proof fn strings_of_all(items: Seq<JsonModel>)
    ensures
        messages::strings_of(items).len() == items.len() <==> (forall|i: int|
            0 <= i < items.len() ==> #[trigger] items[i] is Str),
        messages::strings_of(items).len() <= items.len(),
    decreases items.len(),
{
    if items.len() > 0 {
        let rest = items.drop_last();
        strings_of_all(rest);
        assert(items.last() == items[items.len() - 1]);
        if forall|i: int| 0 <= i < items.len() ==> #[trigger] items[i] is Str {
            assert forall|i: int| 0 <= i < rest.len() implies #[trigger] rest[i] is Str by {
                assert(items[i] is Str);
            }
        }
        if messages::strings_of(items).len() == items.len() {
            assert(items.last() is Str);
            assert forall|i: int| 0 <= i < items.len() implies #[trigger] items[i] is Str by {
                if i < rest.len() {
                    assert(rest[i] is Str);
                }
            }
        }
    }
}

/// The stop sequences of an Anthropic request.
pub fn extract_stop_sequences(req: &AnthropicRequest) -> (r: Option<Vec<String>>)
    ensures
        protocol::opt_texts(r) == (match JsonModel::Object(req@.extra).field("stop_sequences"@) {
            Some(v) => all_strings(v),
            None => None,
        }),
{
    match req.extra.get("stop_sequences") {
        Some(v) => match v {
            Json::Array(items) => {
                let out = messages::strings_from(items);
                proof {
                    json::models_at(items@);
                    strings_of_all(json::models(items@));
                    assert(text::texts(out@).len() == out@.len());
                }
                if out.len() == items.len() {
                    Some(out)
                } else {
                    None
                }
            },
            _ => None,
        },
        None => None,
    }
}

/// The `top_k` of an Anthropic request, cut to 32 bits.
pub fn extract_top_k(req: &AnthropicRequest) -> (r: Option<u32>)
    ensures
        r == (match JsonModel::Object(req@.extra).unsigned_at("top_k"@) {
            Some(n) => Some(responses::low32(n as int)),
            None => None,
        }),
{
    match req.extra.get("top_k") {
        Some(v) => match v.as_u64() {
            Some(n) => Some(responses::cut32(n)),
            None => None,
        },
        None => None,
    }
}

// ── Legacy function calling ─────────────────────────────────────────────────

/// A tool for a legacy function.
pub open spec fn legacy_tool(f: JsonModel) -> JsonModel {
    JsonModel::Object(
        json::nothing().insert("type"@, JsonModel::Str("function"@)).insert(
            "function"@,
            JsonModel::Object(
                json::nothing().insert(
                    "name"@,
                    JsonModel::Str(to_anthropic::or_str(f.str_at("name"@), "tool"@)),
                ).insert("description"@, f.field_or_null("description"@)).insert(
                    "parameters"@,
                    f.field_or_null("parameters"@),
                ),
            ),
        ),
    )
}

/// The tools for a list of legacy functions, if it has any.
pub open spec fn legacy_tools(functions: JsonModel) -> Option<Seq<JsonModel>> {
    match functions {
        JsonModel::Array(items) => if items.len() > 0 {
            Some(items.map_values(|f: JsonModel| legacy_tool(f)))
        } else {
            None
        },
        _ => None,
    }
}

fn field_or_null(v: &Json, key: &str) -> (r: Json)
    ensures
        r@ == v@.field_or_null(key@),
{
    match v.get(key) {
        Some(x) => x.dup(),
        None => Json::Null,
    }
}

pub fn legacy_functions_to_tools(functions: &Json) -> (r: Option<Vec<Json>>)
    ensures
        types::opt_models(r) == legacy_tools(functions@),
{
    match functions {
        Json::Array(items) => {
            let ghost all = json::models(items@);
            let ghost made = all.map_values(|f: JsonModel| legacy_tool(f));
            proof {
                json::models_at(items@);
            }
            if items.len() == 0 {
                return None;
            }
            let mut out: Vec<Json> = Vec::new();
            let mut i: usize = 0;
            while i < items.len()
                invariant
                    i <= items.len(),
                    all == json::models(items@),
                    all.len() == items.len(),
                    made == all.map_values(|f: JsonModel| legacy_tool(f)),
                    json::models(out@) == made.take(i as int),
                decreases items.len() - i,
            {
                let f = &items[i];
                proof {
                    json::models_at(items@);
                }
                let function = Object::new().with(
                    "name",
                    Json::Str(str_or(f.str_at("name"), "tool")),
                ).with("description", field_or_null(f, "description")).with(
                    "parameters",
                    field_or_null(f, "parameters"),
                );
                let tool = Json::Object(
                    Object::new().with("type", Json::text("function")).with(
                        "function",
                        Json::Object(function),
                    ),
                );
                proof {
                    json::models_push(out@, tool);
                    assert(tool@ == legacy_tool(all[i as int]));
                    assert(made.take(i + 1) =~= made.take(i as int).push(tool@));
                }
                out.push(tool);
                i = i + 1;
            }
            assert(made.take(all.len() as int) =~= made);
            Some(out)
        },
        _ => None,
    }
}

/// The tool choice for a legacy `function_call`.
pub open spec fn legacy_choice(call: JsonModel) -> JsonModel {
    if call.str() == Some("none"@) {
        JsonModel::Str("none"@)
    } else {
        match call.str_at("name"@) {
            Some(name) => JsonModel::Object(
                json::nothing().insert("type"@, JsonModel::Str("function"@)).insert(
                    "function"@,
                    JsonModel::Object(json::nothing().insert("name"@, JsonModel::Str(name))),
                ),
            ),
            None => JsonModel::Str("auto"@),
        }
    }
}

pub fn legacy_function_call_to_tool_choice(function_call: &Json) -> (r: Json)
    ensures
        r@ == legacy_choice(function_call@),
{
    if is_str(function_call.as_str(), "none") {
        return Json::text("none");
    }
    match function_call.str_at("name") {
        Some(name) => Json::Object(
            Object::new().with("type", Json::text("function")).with(
                "function",
                Json::Object(Object::new().with("name", Json::text(name))),
            ),
        ),
        None => Json::text("auto"),
    }
}

// ── Lists of models ─────────────────────────────────────────────────────────

pub struct AnthropicModelObject {
    pub id: String,
    pub type_: String,
    pub display_name: String,
    pub created_at: String,
}

/// A list of models as Anthropic gives it.
pub struct AnthropicModelsResponse {
    pub data: Vec<AnthropicModelObject>,
    pub has_more: bool,
    pub first_id: Option<String>,
    pub last_id: Option<String>,
}

pub open spec fn is_model_object(o: AnthropicModelObject, id: Seq<char>) -> bool {
    o.id@ == id && o.type_@ == "model"@ && o.display_name@ == id && o.created_at@
        == "2024-01-01T00:00:00Z"@
}

pub fn anthropic_models_response(model_ids: &Vec<String>) -> (r: AnthropicModelsResponse)
    ensures
        r.data@.len() == model_ids@.len(),
        forall|i: int|
            0 <= i < r.data@.len() ==> is_model_object(#[trigger] r.data@[i], model_ids@[i]@),
        !r.has_more,
        text::opt_text(r.first_id) == (if model_ids@.len() > 0 {
            Some(model_ids@.first()@)
        } else {
            None
        }),
        text::opt_text(r.last_id) == (if model_ids@.len() > 0 {
            Some(model_ids@.last()@)
        } else {
            None
        }),
{
    let mut data: Vec<AnthropicModelObject> = Vec::new();
    let mut i: usize = 0;
    while i < model_ids.len()
        invariant
            i <= model_ids.len(),
            data@.len() == i,
            forall|k: int|
                0 <= k < data@.len() ==> is_model_object(#[trigger] data@[k], model_ids@[k]@),
        decreases model_ids.len() - i,
    {
        data.push(
            AnthropicModelObject {
                id: model_ids[i].clone(),
                type_: text::owned("model"),
                display_name: model_ids[i].clone(),
                created_at: text::owned("2024-01-01T00:00:00Z"),
            },
        );
        i = i + 1;
    }
    let n: usize = model_ids.len();
    AnthropicModelsResponse {
        data,
        has_more: false,
        first_id: if n > 0 {
            Some(model_ids[0].clone())
        } else {
            None
        },
        last_id: if n > 0 {
            Some(model_ids[n - 1].clone())
        } else {
            None
        },
    }
}

} // verus!
