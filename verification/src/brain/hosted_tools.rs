//! The hosted tools `web_search` and `web_fetch`, which the gateway runs itself: a worker is
//! offered them as ordinary functions, its calls of them are answered here, and the client sees
//! only the round in which the worker calls none of them.
use vstd::prelude::*;

use crate::brain::anthropic_blocking::{self, AnthropicAnswer};
use crate::brain::anthropic_stream::{self, AnthropicTurn};
use crate::brain::chat_stream;
use crate::brain::html;
use crate::brain::idempotency;
use crate::brain::protocol::{
    self,
    CallModel,
    ContentModel,
    DoneMessage,
    FinishReason,
    FunctionDef,
    Message,
    MessageContent,
    MsgModel,
    TaskBundle,
    TaskModel,
    Tool,
    ToolCall,
    ToolChoice,
    ToolModel,
};
use crate::brain::tool_calls::{self, Gathered};
use crate::converter::anthropic_events::{self as events, AnthropicEvent, EventModel};
use crate::converter::responses;
use crate::converter::to_anthropic;
use crate::converter::types::{self, AnthropicContentBlock, AnthropicResponse, AnthropicUsage};
use crate::json::{self, Json, JsonModel, Num, Object};
use crate::percent;
use crate::text;

verus! {

pub const WEB_SEARCH_TOOL_NAME: &'static str = "web_search";

pub const WEB_FETCH_TOOL_NAME: &'static str = "web_fetch";

/// Whether the gateway runs the tool of this name itself.
pub open spec fn is_hosted(name: Seq<char>) -> bool {
    name == "web_search"@ || name == "web_fetch"@
}

pub fn is_hosted_tool_name(name: &str) -> (r: bool)
    ensures
        r == is_hosted(name@),
{
    text::str_eq(name, "web_search") || text::str_eq(name, "web_fetch")
}

// ── Definitions ─────────────────────────────────────────────────────────────

/// The schema of a function of one string.
pub open spec fn one_string(field: Seq<char>, description: Seq<char>) -> JsonModel {
    JsonModel::Object(
        json::nothing().insert("type"@, JsonModel::Str("object"@)).insert(
            "properties"@,
            JsonModel::Object(
                json::nothing().insert(
                    field,
                    JsonModel::Object(
                        json::nothing().insert("type"@, JsonModel::Str("string"@)).insert(
                            "description"@,
                            JsonModel::Str(description),
                        ),
                    ),
                ),
            ),
        ).insert("required"@, JsonModel::Array(seq![JsonModel::Str(field)])),
    )
}

fn one_string_schema(field: &str, description: &str) -> (r: Json)
    ensures
        r@ == one_string(field@, description@),
{
    let mut required: Vec<Json> = Vec::new();
    let item = Json::text(field);
    proof {
        json::models_push(required@, item);
        assert(json::models(required@) =~= Seq::<JsonModel>::empty());
    }
    required.push(item);
    assert(json::models(required@) =~= seq![JsonModel::Str(field@)]);
    let property = Object::new().with("type", Json::text("string")).with(
        "description",
        Json::text(description),
    );
    Json::Object(
        Object::new().with("type", Json::text("object")).with(
            "properties",
            Json::Object(Object::new().with(field, Json::Object(property))),
        ).with("required", Json::Array(required)),
    )
}

/// The hosted tools as a worker is offered them.
pub open spec fn hosted_tools() -> Seq<ToolModel> {
    seq![
        ToolModel {
            tool_type: "function"@,
            name: "web_search"@,
            description: Some(
                "Search the web. Returns a numbered list of results, each with a title, URL, and short snippet."@,
            ),
            parameters: Some(one_string("query"@, "The search query"@)),
        },
        ToolModel {
            tool_type: "function"@,
            name: "web_fetch"@,
            description: Some("Fetch a URL and return its readable text content."@),
            parameters: Some(one_string("url"@, "The URL to fetch"@)),
        },
    ]
}

fn function_tool(name: &str, description: &str, parameters: Json) -> (r: Tool)
    ensures
        r@ == (ToolModel {
            tool_type: "function"@,
            name: name@,
            description: Some(description@),
            parameters: Some(parameters@),
        }),
{
    Tool {
        tool_type: text::owned("function"),
        function: FunctionDef {
            name: text::owned(name),
            description: Some(text::owned(description)),
            parameters: Some(parameters),
        },
    }
}

/// The definitions of the hosted tools. The request that a client makes of them carries no
/// schema, and a worker needs one.
pub fn hosted_tool_defs() -> (r: Vec<Tool>)
    ensures
        protocol::tool_models(r@) == hosted_tools(),
{
    let mut out: Vec<Tool> = Vec::new();
    let search = function_tool(
        "web_search",
        "Search the web. Returns a numbered list of results, each with a title, URL, and short snippet.",
        one_string_schema("query", "The search query"),
    );
    let fetch = function_tool(
        "web_fetch",
        "Fetch a URL and return its readable text content.",
        one_string_schema("url", "The URL to fetch"),
    );
    out.push(search);
    out.push(fetch);
    assert(protocol::tool_models(out@) =~= hosted_tools());
    out
}

// ── Rounds ──────────────────────────────────────────────────────────────────

/// What every round of a request asks of the worker; only the messages change.
pub struct HostedLoopRequest {
    pub model: String,
    pub max_tokens: u32,
    pub temperature: Num,
    pub top_p: Option<Num>,
    pub top_k: Option<u32>,
    pub stop: Option<Vec<String>>,
    pub tools: Option<Vec<Tool>>,
    pub tool_choice: Option<ToolChoice>,
    pub session_id: String,
}

/// The round that calls some tool that is not hosted, or none: what the client gets.
pub struct HostedLoopOutcome {
    pub full_text: String,
    pub tool_calls: Vec<ToolCall>,
    pub prompt_tokens: u32,
    pub comp_tokens: u32,
    pub finish_reason: FinishReason,
}

/// The task for a round.
pub open spec fn round_task(
    req: HostedLoopRequest,
    messages: Seq<MsgModel>,
    request_id: Seq<char>,
) -> TaskModel {
    TaskModel {
        request_id,
        session_id: req.session_id@,
        model: req.model@,
        messages,
        max_tokens: req.max_tokens,
        temperature: req.temperature,
        top_p: req.top_p,
        top_k: req.top_k,
        stream: false,
        tools: protocol::opt_tool_models(req.tools),
        tool_choice: protocol::opt_choice(req.tool_choice),
        parallel_tool_calls: Some(true),
        stop: protocol::opt_texts(req.stop),
    }
}

/// Whether a round calls tools, and all of them are hosted.
pub open spec fn resolves_here(calls: Seq<CallModel>) -> bool {
    calls.len() > 0 && forall|i: int|
        0 <= i < calls.len() ==> is_hosted((#[trigger] calls[i]).name)
}

pub fn all_hosted(calls: &Vec<ToolCall>) -> (r: bool)
    ensures
        r == resolves_here(protocol::call_models(calls@)),
{
    let ghost all = protocol::call_models(calls@);
    assert(all.len() == calls@.len());
    if calls.len() == 0 {
        return false;
    }
    let mut i: usize = 0;
    while i < calls.len()
        invariant
            i <= calls.len(),
            all == protocol::call_models(calls@),
            all.len() == calls@.len(),
            forall|k: int| 0 <= k < i ==> is_hosted((#[trigger] all[k]).name),
        decreases calls.len() - i,
    {
        assert(all[i as int] == calls@[i as int]@);
        if !is_hosted_tool_name(calls[i].function.name.as_str()) {
            return false;
        }
        i = i + 1;
    }
    true
}

/// The message in which the worker calls its tools.
pub open spec fn calling_message(said: Seq<char>, calls: Seq<CallModel>) -> MsgModel {
    MsgModel {
        role: "assistant"@,
        content: ContentModel::Text(said),
        tool_calls: Some(calls),
        tool_call_id: None,
    }
}

/// The message that answers a call.
pub open spec fn result_message(call: CallModel, result: Seq<char>) -> MsgModel {
    MsgModel {
        role: "tool"@,
        content: ContentModel::Text(result),
        tool_calls: None,
        tool_call_id: Some(call.id),
    }
}

/// What a round that was resolved adds to the conversation: the calls, and one answer for each.
pub open spec fn round_messages(
    said: Seq<char>,
    calls: Seq<CallModel>,
    results: Seq<Seq<char>>,
) -> Seq<MsgModel> {
    seq![calling_message(said, calls)] + Seq::new(
        calls.len(),
        |i: int| result_message(calls[i], results[i]),
    )
}

/// How far a request with hosted tools has come.
#[verifier::ext_equal]
pub struct LoopModel {
    pub messages: Seq<MsgModel>,
    pub prompt_tokens: u32,
    pub comp_tokens: u32,
    pub round: nat,
}

/// The tokens of a further round are counted as well.
pub open spec fn with_tokens(st: LoopModel, done: DoneMessage) -> LoopModel {
    LoopModel {
        prompt_tokens: responses::low32(st.prompt_tokens + done.prompt_tokens),
        comp_tokens: responses::low32(st.comp_tokens + done.comp_tokens),
        ..st
    }
}

/// A round whose calls have been answered is part of the conversation.
pub open spec fn with_results(
    st: LoopModel,
    said: Seq<char>,
    calls: Seq<CallModel>,
    results: Seq<Seq<char>>,
) -> LoopModel {
    LoopModel {
        messages: st.messages + round_messages(said, calls, results),
        round: st.round + 1,
        ..st
    }
}

/// The rounds of a request with hosted tools.
pub struct HostedLoop {
    messages: Vec<Message>,
    req: HostedLoopRequest,
    prompt_tokens: u32,
    comp_tokens: u32,
    round: usize,
    max_rounds: usize,
}

impl View for HostedLoop {
    type V = LoopModel;

    closed spec fn view(&self) -> LoopModel {
        LoopModel {
            messages: protocol::msg_models(self.messages@),
            prompt_tokens: self.prompt_tokens,
            comp_tokens: self.comp_tokens,
            round: self.round as nat,
        }
    }
}

/// The outcome of a round.
pub open spec fn is_outcome(
    o: HostedLoopOutcome,
    st: LoopModel,
    said: Seq<char>,
    calls: Seq<CallModel>,
    reason: FinishReason,
) -> bool {
    o.full_text@ == said && protocol::call_models(o.tool_calls@) == calls && o.prompt_tokens
        == st.prompt_tokens && o.comp_tokens == st.comp_tokens && o.finish_reason == reason
}

/// Why a request is given up that would go on calling hosted tools.
pub open spec fn exhausted_message(max_rounds: nat) -> Seq<char> {
    "hosted tool loop did not resolve within "@ + text::dec(max_rounds) + " round(s)"@
}

impl HostedLoop {
    /// What every round asks.
    pub closed spec fn asks(&self) -> HostedLoopRequest {
        self.req
    }

    /// How many rounds there are at most.
    pub closed spec fn limit(&self) -> nat {
        self.max_rounds as nat
    }

    pub fn new(messages: Vec<Message>, req: HostedLoopRequest, max_rounds: usize) -> (r: HostedLoop)
        ensures
            r@ == (LoopModel {
                messages: protocol::msg_models(messages@),
                prompt_tokens: 0,
                comp_tokens: 0,
                round: 0,
            }),
            r.asks() == req,
            r.limit() == max_rounds,
    {
        HostedLoop { messages, req, prompt_tokens: 0, comp_tokens: 0, round: 0, max_rounds }
    }

    /// The rounds of a request whose task offers hosted tools.
    pub fn for_task(task: TaskBundle, max_rounds: usize) -> (r: HostedLoop)
        ensures
            r@ == (LoopModel {
                messages: task@.messages,
                prompt_tokens: 0,
                comp_tokens: 0,
                round: 0,
            }),
            r.limit() == max_rounds,
            forall|id: Seq<char>|
                #[trigger] round_task(r.asks(), task@.messages, id) == (TaskModel {
                    request_id: id,
                    stream: false,
                    parallel_tool_calls: Some(true),
                    ..task@
                }),
    {
        let req = HostedLoopRequest {
            model: task.model,
            max_tokens: task.max_tokens,
            temperature: task.temperature,
            top_p: task.top_p,
            top_k: task.top_k,
            stop: task.stop,
            tools: task.tools,
            tool_choice: task.tool_choice,
            session_id: task.session_id,
        };
        HostedLoop::new(task.messages, req, max_rounds)
    }

    /// The task for the next round, unless there were too many.
    pub fn next_task(&self, request_id: &str) -> (r: Result<TaskBundle, String>)
        ensures
            match r {
                Ok(t) => self@.round < self.limit() && t@ == round_task(
                    self.asks(),
                    self@.messages,
                    request_id@,
                ),
                Err(e) => self@.round >= self.limit() && e@ == exhausted_message(self.limit()),
            },
    {
        if self.round >= self.max_rounds {
            return Err(
                text::concat3(
                    "hosted tool loop did not resolve within ",
                    text::decimal(self.max_rounds as u64).as_str(),
                    " round(s)",
                ),
            );
        }
        Ok(
            TaskBundle {
                request_id: text::owned(request_id),
                session_id: self.req.session_id.clone(),
                model: self.req.model.clone(),
                messages: protocol::dup_messages(&self.messages),
                max_tokens: self.req.max_tokens,
                temperature: self.req.temperature.dup(),
                top_p: json::dup_opt_num(&self.req.top_p),
                top_k: self.req.top_k,
                stream: false,
                tools: protocol::dup_opt_tools(&self.req.tools),
                tool_choice: protocol::dup_opt_choice(&self.req.tool_choice),
                parallel_tool_calls: Some(true),
                stop: match &self.req.stop {
                    Some(s) => Some(text::dup_all(s)),
                    None => None,
                },
            },
        )
    }

    /// Takes the end of a round in. It is the outcome, unless the gateway can answer all calls
    /// of it; then there is none yet.
    pub fn on_round(&mut self, said: &str, calls: &Vec<ToolCall>, done: &DoneMessage) -> (r: Option<
        HostedLoopOutcome,
    >)
        ensures
            final(self)@ == with_tokens(old(self)@, *done),
            final(self).asks() == old(self).asks(),
            final(self).limit() == old(self).limit(),
            match r {
                Some(o) => !resolves_here(protocol::call_models(calls@)) && is_outcome(
                    o,
                    final(self)@,
                    said@,
                    protocol::call_models(calls@),
                    done.finish_reason,
                ),
                None => resolves_here(protocol::call_models(calls@)),
            },
    {
        self.prompt_tokens = self.prompt_tokens.wrapping_add(done.prompt_tokens);
        self.comp_tokens = self.comp_tokens.wrapping_add(done.comp_tokens);
        if all_hosted(calls) {
            None
        } else {
            Some(
                HostedLoopOutcome {
                    full_text: text::owned(said),
                    tool_calls: protocol::dup_calls(calls),
                    prompt_tokens: self.prompt_tokens,
                    comp_tokens: self.comp_tokens,
                    finish_reason: done.finish_reason,
                },
            )
        }
    }

    /// Adds a round whose calls have been answered to the conversation.
    pub fn add_results(&mut self, said: &str, calls: &Vec<ToolCall>, results: &Vec<String>)
        requires
            results@.len() == calls@.len(),
            old(self)@.round < old(self).limit(),
        ensures
            final(self)@ == with_results(
                old(self)@,
                said@,
                protocol::call_models(calls@),
                text::texts(results@),
            ),
            final(self).asks() == old(self).asks(),
            final(self).limit() == old(self).limit(),
    {
        let ghost before = protocol::msg_models(self.messages@);
        let ghost all = protocol::call_models(calls@);
        let ghost answers = text::texts(results@);
        let ghost added = round_messages(said@, all, answers);
        let m = Message {
            role: text::owned("assistant"),
            content: MessageContent::Text(text::owned(said)),
            tool_calls: Some(protocol::dup_calls(calls)),
            tool_call_id: None,
        };
        proof {
            protocol::msg_models_push(self.messages@, m);
            assert(m@ == calling_message(said@, all));
            assert(before.push(m@) =~= before + added.take(1));
        }
        self.messages.push(m);
        let ghost req = self.req;
        let ghost limit = self.max_rounds;
        let ghost st = self@;
        let mut i: usize = 0;
        while i < calls.len()
            invariant
                i <= calls.len(),
                results@.len() == calls@.len(),
                all == protocol::call_models(calls@),
                answers == text::texts(results@),
                added == round_messages(said@, all, answers),
                added.len() == calls@.len() + 1,
                protocol::msg_models(self.messages@) == before + added.take(i + 1),
                self.req == req,
                self.max_rounds == limit,
                self@ == (LoopModel { messages: self@.messages, ..st }),
                self.round < self.max_rounds,
            decreases calls.len() - i,
        {
            let result = Message {
                role: text::owned("tool"),
                content: MessageContent::Text(results[i].clone()),
                tool_calls: None,
                tool_call_id: Some(calls[i].id.clone()),
            };
            proof {
                protocol::msg_models_push(self.messages@, result);
                assert(all[i as int] == calls@[i as int]@);
                assert(answers[i as int] == results@[i as int]@);
                assert(result@ == added[i + 1]);
                assert((before + added.take(i + 1)).push(result@) =~= before + added.take(i + 2));
            }
            self.messages.push(result);
            i = i + 1;
        }
        assert(added.take(added.len() as int) =~= added);
        self.round = self.round + 1;
    }
}

// ── Running a tool ──────────────────────────────────────────────────────────

/// What a call of a hosted tool asks for.
pub enum HostedAction {
    Search(String),
    Fetch(String),
    /// The tool is not one of the gateway's; the text says so to the worker.
    Unknown(String),
}

#[verifier::ext_equal]
pub enum ActionModel {
    Search(Seq<char>),
    Fetch(Seq<char>),
    Unknown(Seq<char>),
}

impl View for HostedAction {
    type V = ActionModel;

    open spec fn view(&self) -> ActionModel {
        match *self {
            HostedAction::Search(q) => ActionModel::Search(q@),
            HostedAction::Fetch(u) => ActionModel::Fetch(u@),
            HostedAction::Unknown(t) => ActionModel::Unknown(t@),
        }
    }
}

/// The argument of this name; arguments that are no JSON, or lack it, give an empty one.
pub open spec fn argument(args: Option<JsonModel>, name: Seq<char>) -> Seq<char> {
    match args {
        Some(v) => json::or_empty(v.str_at(name)),
        None => seq![],
    }
}

/// What a call asks for, from what its arguments parse to.
pub open spec fn action(name: Seq<char>, args: Option<JsonModel>) -> ActionModel {
    if name == "web_search"@ {
        ActionModel::Search(argument(args, "query"@))
    } else if name == "web_fetch"@ {
        ActionModel::Fetch(argument(args, "url"@))
    } else {
        ActionModel::Unknown(
            "error: \""@ + name + "\" is not a hosted tool brain can execute"@,
        )
    }
}

fn argument_of(args: &Option<Json>, name: &str) -> (r: String)
    ensures
        r@ == argument(json::opt_model(*args), name@),
{
    match args {
        Some(v) => match v.str_at(name) {
            Some(s) => text::owned(s),
            None => {
                let r = String::new();
                assert(r@ =~= seq![]);
                r
            },
        },
        None => {
            let r = String::new();
            assert(r@ =~= seq![]);
            r
        },
    }
}

/// What a call asks for, once its arguments have been parsed.
pub fn action_with(name: &str, args: &Option<Json>) -> (r: HostedAction)
    ensures
        r@ == action(name@, json::opt_model(*args)),
{
    if text::str_eq(name, "web_search") {
        HostedAction::Search(argument_of(args, "query"))
    } else if text::str_eq(name, "web_fetch") {
        HostedAction::Fetch(argument_of(args, "url"))
    } else {
        HostedAction::Unknown(
            text::concat3("error: \"", name, "\" is not a hosted tool brain can execute"),
        )
    }
}

/// What a call asks for.
pub fn action_of(call: &ToolCall) -> (r: HostedAction)
    ensures
        r@ == action(call@.name, json::json_parse(call@.arguments)),
{
    let args = json::parse(call.function.arguments.as_str());
    action_with(call.function.name.as_str(), &args)
}

/// Without the `/` at the end.
pub open spec fn without_slashes(s: Seq<char>) -> Seq<char>
    decreases s.len(),
{
    if s.len() > 0 && s.last() == '/' {
        without_slashes(s.drop_last())
    } else {
        s
    }
}

pub fn trim_slashes(s: &str) -> (r: String)
    ensures
        r@ == without_slashes(s@),
{
    let chars = text::chars_of(s);
    let mut n: usize = chars.len();
    assert(chars@.take(n as int) =~= s@);
    while n > 0 && chars[n - 1] == '/'
        invariant
            n <= chars.len(),
            without_slashes(chars@.take(n as int)) == without_slashes(s@),
        decreases n,
    {
        assert(chars@.take(n as int).drop_last() =~= chars@.take(n - 1));
        n = n - 1;
    }
    let r = text::slice_text(&chars, 0, n);
    assert(r@ =~= chars@.take(n as int));
    r
}

/// A setting that is there and not blank.
pub open spec fn is_set(setting: Option<Seq<char>>) -> bool {
    setting is Some && text::trim(setting->Some_0).len() > 0
}

/// The address to ask, or what to tell the worker instead.
pub open spec fn search_request(query: Seq<char>, base: Option<Seq<char>>) -> Result<
    Seq<char>,
    Seq<char>,
> {
    if text::trim(query).len() == 0 {
        Err("error: empty search query"@)
    } else if !is_set(base) {
        Err(
            "error: web_search is not configured on this brain instance (searxng_url is unset in db)"@,
        )
    } else {
        Ok(
            without_slashes(base->Some_0) + "/search?q="@ + percent::percent_encoded(
                vstd::utf8::encode_utf8(query),
            ) + "&format=json"@,
        )
    }
}

pub open spec fn text_result(r: Result<String, String>) -> Result<Seq<char>, Seq<char>> {
    match r {
        Ok(t) => Ok(t@),
        Err(e) => Err(e@),
    }
}

/// The address to ask for a query, or what to tell the worker instead.
pub fn search_url(query: &str, base: &Option<String>) -> (r: Result<String, String>)
    ensures
        text_result(r) == search_request(query@, text::opt_text(*base)),
{
    if text::trimmed(query).as_str().is_empty() {
        return Err(text::owned("error: empty search query"));
    }
    match base {
        Some(b) => {
            if !text::trimmed(b.as_str()).as_str().is_empty() {
                let start = trim_slashes(b.as_str());
                let mut url = text::concat(start.as_str(), "/search?q=");
                url.append(percent::url_encode(query).as_str());
                url.append("&format=json");
                return Ok(url);
            }
        },
        None => {},
    }
    Err(
        text::owned(
            "error: web_search is not configured on this brain instance (searxng_url is unset in db)",
        ),
    )
}

/// How many results of a search are passed on.
pub const MAX_SEARCH_RESULTS: usize = 5;

pub open spec fn or_default(o: Option<Seq<char>>, default: Seq<char>) -> Seq<char> {
    match o {
        Some(s) => s,
        None => default,
    }
}

/// One result, with its number.
pub open spec fn listed(n: nat, v: JsonModel) -> Seq<char> {
    text::dec(n) + ". "@ + or_default(v.str_at("title"@), "(no title)"@) + "\n"@ + or_default(
        v.str_at("url"@),
        ""@,
    ) + "\n"@ + or_default(v.str_at("content"@), ""@) + "\n\n"@
}

/// The results, numbered from one.
pub open spec fn listing(results: Seq<JsonModel>) -> Seq<char>
    decreases results.len(),
{
    if results.len() == 0 {
        seq![]
    } else {
        listing(results.drop_last()) + listed(results.len(), results.last())
    }
}

pub open spec fn results_of(body: JsonModel) -> Seq<JsonModel> {
    match body.array_at("results"@) {
        Some(list) => list,
        None => seq![],
    }
}

/// What a worker is told of the results of a search: the first few.
pub open spec fn search_text(body: JsonModel) -> Seq<char> {
    let all = results_of(body);
    if all.len() == 0 {
        "No results found."@
    } else if all.len() <= MAX_SEARCH_RESULTS {
        listing(all)
    } else {
        listing(all.take(MAX_SEARCH_RESULTS as int))
    }
}

fn str_or<'a>(v: &'a Json, key: &str, default: &'a str) -> (r: &'a str)
    ensures
        r@ == or_default(v@.str_at(key@), default@),
{
    match v.str_at(key) {
        Some(s) => s,
        None => default,
    }
}

/// What a worker is told of the results of a search.
pub fn search_text_of(body: &Json) -> (r: String)
    ensures
        r@ == search_text(body@),
{
    let results = match body.array_at("results") {
        Some(list) => list,
        None => return text::owned("No results found."),
    };
    proof {
        json::models_at(results@);
    }
    if results.len() == 0 {
        return text::owned("No results found.");
    }
    let ghost all = json::models(results@);
    let mut out = String::new();
    let mut i: usize = 0;
    assert(out@ =~= listing(all.take(0)));
    while i < results.len() && i < MAX_SEARCH_RESULTS
        invariant
            i <= results.len(),
            i <= MAX_SEARCH_RESULTS,
            all == json::models(results@),
            all.len() == results.len(),
            out@ == listing(all.take(i as int)),
        decreases results.len() - i,
    {
        proof {
            json::models_at(results@);
            assert(all.take(i + 1).drop_last() =~= all.take(i as int));
            assert(all.take(i + 1).last() == results@[i as int]@);
        }
        let ghost before = out@;
        let v = &results[i];
        let mut line = text::concat(text::decimal(i as u64 + 1).as_str(), ". ");
        line.append(str_or(v, "title", "(no title)"));
        line.append("\n");
        line.append(str_or(v, "url", ""));
        line.append("\n");
        line.append(str_or(v, "content", ""));
        line.append("\n\n");
        assert(line@ == listed((i + 1) as nat, v@));
        out.append(line.as_str());
        i = i + 1;
    }
    proof {
        assert(results_of(body@) == all);
        if all.len() <= MAX_SEARCH_RESULTS {
            assert(all.take(i as int) =~= all);
        }
    }
    out
}

/// What a worker is told of a search engine's answer: its results, or why it is no JSON.
pub open spec fn search_answer(read: Result<JsonModel, Seq<char>>) -> Seq<char> {
    match read {
        Ok(v) => search_text(v),
        Err(e) =>
        "error: SearxNG response was not valid JSON (is `search.formats: [json]` enabled in its settings.yml?): "@
            + e,
    }
}

/// What a worker is told of a search engine's answer.
pub fn search_reply(body: &str) -> (r: String)
    ensures
        r@ == search_answer(json::json_read(body@)),
{
    match json::from_str(body) {
        Ok(v) => search_text_of(&json::json_of(v)),
        Err(e) => text::concat(
            "error: SearxNG response was not valid JSON (is `search.formats: [json]` enabled in its settings.yml?): ",
            json::error_text(&e).as_str(),
        ),
    }
}

/// What came of a request to a web server.
pub enum WebReply {
    /// It failed: why.
    Failed(String),
    /// Its body could not be read: why.
    Unreadable(String),
    Body(String),
}

/// What a worker is told of a search.
pub fn searched(reply: &WebReply) -> (r: String)
    ensures
        r@ == match *reply {
            WebReply::Failed(e) => "error: search request to SearxNG failed: "@ + e@,
            WebReply::Unreadable(e) => "error: could not read SearxNG response body: "@ + e@,
            WebReply::Body(b) => search_answer(json::json_read(b@)),
        },
{
    match reply {
        WebReply::Failed(e) => text::concat("error: search request to SearxNG failed: ", e.as_str()),
        WebReply::Unreadable(e) => text::concat(
            "error: could not read SearxNG response body: ",
            e.as_str(),
        ),
        WebReply::Body(b) => search_reply(b.as_str()),
    }
}

/// Whether there is anything to fetch; if not, what to tell the worker.
pub fn fetch_wanted(url: &str) -> (r: Result<(), String>)
    ensures
        match r {
            Ok(_) => text::trim(url@).len() > 0,
            Err(e) => text::trim(url@).len() == 0 && e@ == "error: empty url"@,
        },
{
    if text::trimmed(url).as_str().is_empty() {
        Err(text::owned("error: empty url"))
    } else {
        Ok(())
    }
}

/// What a worker is told of a page that may not be fetched.
pub fn fetch_refused(url: &str, why: &str) -> (r: String)
    ensures
        r@ == "error: refused to fetch "@ + url@ + ": "@ + why@,
{
    let mut out = text::concat3("error: refused to fetch ", url, ": ");
    out.append(why);
    out
}

/// What a worker is told of a page that was asked for.
pub fn fetched(url: &str, reply: &WebReply) -> (r: String)
    ensures
        r@ == match *reply {
            WebReply::Failed(e) => "error: fetch of "@ + url@ + " failed: "@ + e@,
            WebReply::Unreadable(e) => "error: could not read response body from "@ + url@ + ": "@
                + e@,
            WebReply::Body(b) => html::page_text(b@),
        },
{
    match reply {
        WebReply::Failed(e) => {
            let mut out = text::concat3("error: fetch of ", url, " failed: ");
            out.append(e.as_str());
            out
        },
        WebReply::Unreadable(e) => {
            let mut out = text::concat3("error: could not read response body from ", url, ": ");
            out.append(e.as_str());
            out
        },
        WebReply::Body(b) => html::fetched_text(b.as_str()),
    }
}

// ── A round ─────────────────────────────────────────────────────────────────

/// What the channel of a round's pieces holds.
#[derive(Clone, Copy, Debug, PartialEq, Eq, Structural)]
pub enum ChunkState {
    /// A piece waits.
    Waiting,
    /// None waits now.
    Empty,
    /// None waits, and none will come.
    Closed,
}

/// What is done next in a round.
#[derive(Clone, Copy, Debug, PartialEq, Eq, Structural)]
pub enum RoundStep {
    /// The piece that waits is taken in.
    Take,
    /// The worker is done, and all its pieces have been taken in.
    Finish,
    /// The worker is gone.
    Lost,
    /// The worker has been silent for too long.
    Silent,
    /// Nothing yet.
    Wait,
}

/// A round is drained before it ends: a piece that waits comes first, then the end, and only
/// then that the channel is closed or that the worker is silent.
pub open spec fn round_step(chunks: ChunkState, done: bool, silent: bool) -> RoundStep {
    if chunks == ChunkState::Waiting {
        RoundStep::Take
    } else if done {
        RoundStep::Finish
    } else if chunks == ChunkState::Closed {
        RoundStep::Lost
    } else if silent {
        RoundStep::Silent
    } else {
        RoundStep::Wait
    }
}

/// Why a step gives the round up, if it does.
pub open spec fn round_failure(step: RoundStep) -> Option<Seq<char>> {
    match step {
        RoundStep::Lost => Some("worker chunk channel disconnected mid hosted-tool round"@),
        RoundStep::Silent => Some(
            "worker produced no output for too long during a hosted-tool round"@,
        ),
        _ => None,
    }
}

impl RoundStep {
    /// Why the round is given up, if it is.
    pub fn failure(&self) -> (r: Option<String>)
        ensures
            text::opt_text(r) == round_failure(*self),
    {
        match self {
            RoundStep::Lost => Some(
                text::owned("worker chunk channel disconnected mid hosted-tool round"),
            ),
            RoundStep::Silent => Some(
                text::owned("worker produced no output for too long during a hosted-tool round"),
            ),
            _ => None,
        }
    }
}

/// Whether the worker that was heard of at `heard_at`, in milliseconds, has been silent for too
/// long.
pub open spec fn silent_for_too_long(heard_at: u64, timeout_s: u64, now: u64) -> bool {
    idempotency::elapsed(now, heard_at) >= timeout_s * 1000
}

/// What a worker says in a round of its own, and when it last said something, in milliseconds.
pub struct Round {
    answer: AnthropicAnswer,
    last_activity: u64,
}

impl View for Round {
    type V = Gathered;

    closed spec fn view(&self) -> Gathered {
        self.answer@
    }
}

impl Round {
    pub closed spec fn heard_at(&self) -> u64 {
        self.last_activity
    }

    pub fn new(now: u64) -> (r: Round)
        ensures
            r@ == chat_stream::nothing_gathered(),
            r.heard_at() == now,
    {
        Round { answer: AnthropicAnswer::new(), last_activity: now }
    }

    /// Takes a line of the worker's output in.
    pub fn on_chunk(&mut self, line: &str, now: u64)
        ensures
            final(self).heard_at() == now,
            exists|fresh: Seq<Seq<char>>|
                #[trigger] tool_calls::fresh_for_line(line@, fresh) && final(self)@
                    == tool_calls::on_line(old(self)@, line@, fresh).0,
    {
        self.last_activity = now;
        self.answer.on_chunk(line);
    }

    /// Whether the worker has been silent for too long.
    pub fn is_silent(&self, timeout_s: u64, now: u64) -> (r: bool)
        ensures
            r == silent_for_too_long(self.heard_at(), timeout_s, now),
    {
        match timeout_s.checked_mul(1000) {
            Some(limit) => now.saturating_sub(self.last_activity) >= limit,
            None => false,
        }
    }

    /// What is done next, where `done` is whether the end of the worker's answer has come.
    pub fn step(&self, chunks: ChunkState, done: bool, timeout_s: u64, now: u64) -> (r: RoundStep)
        ensures
            r == round_step(chunks, done, silent_for_too_long(self.heard_at(), timeout_s, now)),
    {
        match chunks {
            ChunkState::Waiting => RoundStep::Take,
            _ => if done {
                RoundStep::Finish
            } else if chunks == ChunkState::Closed {
                RoundStep::Lost
            } else if self.is_silent(timeout_s, now) {
                RoundStep::Silent
            } else {
                RoundStep::Wait
            },
        }
    }

    /// The text and the tool calls of the round, once the worker is done.
    pub fn settle(&mut self) -> (r: (String, Vec<ToolCall>))
        ensures
            r.0@ == old(self)@.text,
            protocol::call_models(r.1@) == tool_calls::all_calls(old(self)@),
            final(self).heard_at() == old(self).heard_at(),
    {
        self.answer.settle()
    }
}

// ── Delivery ────────────────────────────────────────────────────────────────

/// The block of a call, whole.
pub open spec fn whole_block(block: usize, c: CallModel) -> Seq<EventModel> {
    seq![
        EventModel::BlockStart { index: block, block: to_anthropic::tool_start(c.id, c.name) },
        EventModel::BlockDelta { index: block, delta: to_anthropic::arguments_delta(c.arguments) },
        EventModel::BlockStop { index: block },
    ]
}

/// The blocks of the calls, and the next index after them.
pub open spec fn whole_blocks(next: usize, calls: Seq<CallModel>) -> (usize, Seq<EventModel>)
    decreases calls.len(),
{
    if calls.len() == 0 {
        (next, seq![])
    } else {
        let (n, out) = whole_blocks(next, calls.drop_last());
        (events::succ(n), out + whole_block(n, calls.last()))
    }
}

/// What a client that follows the answer is sent: the text, even if there is none, then the
/// calls, then the end.
pub open spec fn delivered(
    request_id: Seq<char>,
    model: Seq<char>,
    said: Seq<char>,
    calls: Seq<CallModel>,
    reason: FinishReason,
    usage: AnthropicUsage,
) -> Seq<EventModel> {
    anthropic_stream::opening(request_id, model) + anthropic_stream::shown_text(said) + seq![
        EventModel::BlockStop { index: 0 },
    ] + whole_blocks(1, calls).1 + anthropic_stream::ending(
        anthropic_stream::stop_reason_with(calls, reason),
        usage,
    )
}

fn usage_of(o: &HostedLoopOutcome) -> (r: AnthropicUsage)
    ensures
        r == anthropic_stream::usage(o.prompt_tokens, o.comp_tokens),
{
    AnthropicUsage {
        input_tokens: o.prompt_tokens as u64,
        output_tokens: o.comp_tokens as u64,
        cache_creation_input_tokens: 0,
        cache_read_input_tokens: 0,
    }
}

/// The events for a client that follows the answer.
pub fn deliver_streaming_result(request_id: &str, model: &str, outcome: &HostedLoopOutcome) -> (r:
    Vec<AnthropicEvent>)
    ensures
        events::event_models(r@) == delivered(
            request_id@,
            model@,
            outcome.full_text@,
            protocol::call_models(outcome.tool_calls@),
            outcome.finish_reason,
            anthropic_stream::usage(outcome.prompt_tokens, outcome.comp_tokens),
        ),
{
    let ghost all = protocol::call_models(outcome.tool_calls@);
    let mut out = AnthropicTurn::open(request_id, model);
    anthropic_stream::push_text(&mut out, outcome.full_text.as_str());
    anthropic_stream::push_event(&mut out, AnthropicEvent::BlockStop { index: 0 });
    let ghost before = events::event_models(out@);
    assert(before =~= anthropic_stream::opening(request_id@, model@)
        + anthropic_stream::shown_text(outcome.full_text@) + seq![
        EventModel::BlockStop { index: 0 },
    ]);
    let calls = &outcome.tool_calls;
    let mut block: usize = 1;
    let mut i: usize = 0;
    assert(before + whole_blocks(1, all.take(0)).1 =~= before);
    while i < calls.len()
        invariant
            i <= calls.len(),
            all == protocol::call_models(calls@),
            block == whole_blocks(1, all.take(i as int)).0,
            events::event_models(out@) == before + whole_blocks(1, all.take(i as int)).1,
        decreases calls.len() - i,
    {
        let call = &calls[i];
        proof {
            assert(all.take(i + 1).drop_last() =~= all.take(i as int));
            assert(all.take(i + 1).last() == call@);
        }
        let ghost mid = events::event_models(out@);
        anthropic_stream::push_tool_start(
            &mut out,
            block,
            call.id.as_str(),
            call.function.name.as_str(),
        );
        anthropic_stream::push_arguments(&mut out, block, call.function.arguments.as_str());
        anthropic_stream::push_event(&mut out, AnthropicEvent::BlockStop { index: block });
        proof {
            assert(events::event_models(out@) =~= mid + whole_block(block, call@));
            assert(mid + whole_block(block, call@) =~= before + whole_blocks(
                1,
                all.take(i + 1),
            ).1);
        }
        block = anthropic_stream::next_index(block);
        i = i + 1;
    }
    assert(all.take(all.len() as int) =~= all);
    let reason = anthropic_blocking::stop_reason_for(calls, outcome.finish_reason);
    anthropic_stream::push_ending(&mut out, reason, usage_of(outcome));
    out
}

/// The blocks for a client that waits for the whole answer: the text, unless it is empty and
/// there are calls, and the calls.
pub open spec fn outcome_blocks(said: Seq<char>, calls: Seq<CallModel>) -> Seq<types::BlockModel> {
    if calls.len() > 0 && said.len() == 0 {
        anthropic_blocking::use_blocks(calls)
    } else {
        seq![anthropic_blocking::text_block(said)] + anthropic_blocking::use_blocks(calls)
    }
}

/// The message for a client that waits for the whole answer.
pub fn deliver_blocking_result(request_id: &str, model: &str, outcome: &HostedLoopOutcome) -> (r:
    AnthropicResponse)
    ensures
        r@ == anthropic_blocking::message(
            request_id@,
            model@,
            outcome_blocks(outcome.full_text@, protocol::call_models(outcome.tool_calls@)),
            anthropic_stream::stop_reason_with(
                protocol::call_models(outcome.tool_calls@),
                outcome.finish_reason,
            ),
            anthropic_stream::usage(outcome.prompt_tokens, outcome.comp_tokens),
        ),
{
    let ghost calls = protocol::call_models(outcome.tool_calls@);
    let mut content: Vec<AnthropicContentBlock> = Vec::new();
    assert(types::block_models(content@) =~= seq![]);
    assert(calls.len() == outcome.tool_calls@.len());
    if outcome.tool_calls.len() == 0 || !outcome.full_text.as_str().is_empty() {
        anthropic_blocking::push_text_block(&mut content, outcome.full_text.as_str());
    }
    anthropic_blocking::push_use_blocks(&mut content, &outcome.tool_calls);
    assert(types::block_models(content@) =~= outcome_blocks(outcome.full_text@, calls));
    let reason = anthropic_blocking::stop_reason_for(&outcome.tool_calls, outcome.finish_reason);
    anthropic_blocking::message_of(request_id, model, content, reason, usage_of(outcome))
}

// ── Laws ────────────────────────────────────────────────────────────────────

/// A round is resolved here exactly if it calls tools and calls no other than hosted ones: a
/// round that mixes in another tool goes to the client as it is.
pub proof fn mixed_round_goes_to_the_client(calls: Seq<CallModel>, i: int)
    requires
        0 <= i < calls.len(),
        !is_hosted(calls[i].name),
    ensures
        !resolves_here(calls),
{
}

/// Every call of a round that was resolved has exactly one answer, which names it.
pub proof fn every_call_is_answered(
    said: Seq<char>,
    calls: Seq<CallModel>,
    results: Seq<Seq<char>>,
    i: int,
)
    requires
        results.len() == calls.len(),
        0 <= i < calls.len(),
    ensures
        round_messages(said, calls, results).len() == calls.len() + 1,
        round_messages(said, calls, results)[0].tool_calls == Some(calls),
        round_messages(said, calls, results)[i + 1].tool_call_id == Some(calls[i].id),
        round_messages(said, calls, results)[i + 1].content == ContentModel::Text(results[i]),
{
}

/// A round that ended is never reported as one that failed, whatever became of the channel
/// behind it, and none of its pieces is left out.
pub proof fn ended_round_is_drained(chunks: ChunkState, silent: bool)
    ensures
        round_failure(round_step(chunks, true, silent)) is None,
        round_step(chunks, true, silent) == RoundStep::Finish <==> chunks != ChunkState::Waiting,
{
}

/// What a worker answers in a round, and what its calls are answered.
#[verifier::ext_equal]
pub struct RoundModel {
    pub said: Seq<char>,
    pub calls: Seq<CallModel>,
    pub done: DoneMessage,
    pub results: Seq<Seq<char>>,
}

/// How a request with hosted tools ends, and how many tasks it took.
#[verifier::ext_equal]
pub enum RunModel {
    /// The round `last` goes to the client, with the tokens that were counted.
    Outcome { last: RoundModel, st: LoopModel, tasks: nat },
    /// It is given up, for this reason.
    GivenUp { why: Seq<char>, tasks: nat },
}

/// What becomes of a request that stands at `st`, where the worker answers the round `i` with
/// `rounds[i]`.
pub open spec fn run(st: LoopModel, limit: nat, rounds: Seq<RoundModel>) -> RunModel
    decreases limit - st.round,
{
    if st.round >= limit {
        RunModel::GivenUp { why: exhausted_message(limit), tasks: st.round }
    } else {
        let w = rounds[st.round as int];
        let counted = with_tokens(st, w.done);
        if resolves_here(w.calls) {
            run(with_results(counted, w.said, w.calls, w.results), limit, rounds)
        } else {
            RunModel::Outcome { last: w, st: counted, tasks: st.round + 1 }
        }
    }
}

pub open spec fn prompt_sum(rounds: Seq<RoundModel>) -> nat
    decreases rounds.len(),
{
    if rounds.len() == 0 {
        0
    } else {
        prompt_sum(rounds.drop_last()) + rounds.last().done.prompt_tokens as nat
    }
}

pub open spec fn completion_sum(rounds: Seq<RoundModel>) -> nat
    decreases rounds.len(),
{
    if rounds.len() == 0 {
        0
    } else {
        completion_sum(rounds.drop_last()) + rounds.last().done.comp_tokens as nat
    }
}

/// What the rounds that were resolved add to the conversation.
pub open spec fn added_messages(rounds: Seq<RoundModel>) -> Seq<MsgModel>
    decreases rounds.len(),
{
    if rounds.len() == 0 {
        seq![]
    } else {
        let w = rounds.last();
        added_messages(rounds.drop_last()) + round_messages(w.said, w.calls, w.results)
    }
}

/// Where a request stands once the first rounds have been resolved.
pub open spec fn stands_after(
    messages: Seq<MsgModel>,
    rounds: Seq<RoundModel>,
    n: nat,
) -> LoopModel {
    LoopModel {
        messages: messages + added_messages(rounds.take(n as int)),
        prompt_tokens: responses::low32(prompt_sum(rounds.take(n as int)) as int),
        comp_tokens: responses::low32(completion_sum(rounds.take(n as int)) as int),
        round: n,
    }
}

proof fn one_round_more(messages: Seq<MsgModel>, rounds: Seq<RoundModel>, n: nat)
    requires
        n < rounds.len(),
    ensures
        ({
            let w = rounds[n as int];
            let counted = with_tokens(stands_after(messages, rounds, n), w.done);
            let next = stands_after(messages, rounds, n + 1);
            &&& counted.prompt_tokens == next.prompt_tokens
            &&& counted.comp_tokens == next.comp_tokens
            &&& with_results(counted, w.said, w.calls, w.results) == next
        }),
{
    let w = rounds[n as int];
    let before = rounds.take(n as int);
    let after = rounds.take(n as int + 1);
    assert(after.drop_last() =~= before);
    assert(after.last() == w);
    let m = round_messages(w.said, w.calls, w.results);
    assert((messages + added_messages(before)) + m =~= messages + (added_messages(before) + m));
}

proof fn run_from(messages: Seq<MsgModel>, limit: nat, rounds: Seq<RoundModel>, n: nat)
    requires
        rounds.len() >= limit,
        n <= limit,
        forall|i: int| 0 <= i < n ==> resolves_here((#[trigger] rounds[i]).calls),
    ensures
        is_whole_run(
            run(stands_after(messages, rounds, n), limit, rounds),
            messages,
            limit,
            rounds,
        ),
    decreases limit - n,
{
    if n < limit {
        one_round_more(messages, rounds, n);
        if resolves_here(rounds[n as int].calls) {
            run_from(messages, limit, rounds, n + 1);
        }
    }
}

/// How a whole run ends: it is given up exactly if every round up to the limit called hosted
/// tools alone, and else the first other round is its outcome. The tokens are those of all its
/// rounds together, in 32 bits, the conversation holds the rounds before, and there was one
/// task for each round.
pub open spec fn is_whole_run(
    r: RunModel,
    messages: Seq<MsgModel>,
    limit: nat,
    rounds: Seq<RoundModel>,
) -> bool {
    match r {
        RunModel::GivenUp { why, tasks } => {
            &&& why == exhausted_message(limit)
            &&& tasks == limit
            &&& forall|i: int| 0 <= i < limit ==> resolves_here((#[trigger] rounds[i]).calls)
        },
        RunModel::Outcome { last, st, tasks } => {
            &&& 0 < tasks <= limit
            &&& last == rounds[tasks - 1]
            &&& !resolves_here(last.calls)
            &&& forall|i: int|
                0 <= i < tasks - 1 ==> resolves_here((#[trigger] rounds[i]).calls)
            &&& st.prompt_tokens == responses::low32(prompt_sum(rounds.take(tasks as int)) as int)
            &&& st.comp_tokens == responses::low32(
                completion_sum(rounds.take(tasks as int)) as int,
            )
            &&& st.messages == messages + added_messages(rounds.take(tasks - 1))
        },
    }
}

/// A request with hosted tools takes no more tasks than the limit, counts the tokens of all its
/// rounds, and is given up exactly if every round calls hosted tools alone; else the client gets
/// the first round that does not.
pub proof fn hosted_run_ends(
    messages: Seq<MsgModel>,
    limit: nat,
    rounds: Seq<RoundModel>,
)
    requires
        rounds.len() >= limit,
    ensures
        ({
            let start = LoopModel { messages, prompt_tokens: 0, comp_tokens: 0, round: 0 };
            is_whole_run(run(start, limit, rounds), messages, limit, rounds)
        }),
{
    assert(rounds.take(0) =~= seq![]);
    let start = LoopModel { messages, prompt_tokens: 0, comp_tokens: 0, round: 0 };
    assert(messages + Seq::<MsgModel>::empty() =~= messages);
    assert(stands_after(messages, rounds, 0) =~= start);
    run_from(messages, limit, rounds, 0);
}

proof fn whole_blocks_frame(f: events::Framing, calls: Seq<CallModel>)
    requires
        f.ok,
        f.open is None,
    ensures
        events::see_all(f, whole_blocks(f.next, calls).1) == (events::Framing {
            next: whole_blocks(f.next, calls).0,
            ..f
        }),
    decreases calls.len(),
{
    if calls.len() > 0 {
        let (n, out) = whole_blocks(f.next, calls.drop_last());
        whole_blocks_frame(f, calls.drop_last());
        events::see_all_add(f, out, whole_block(n, calls.last()));
        let g = events::see_all(f, out);
        let b = whole_block(n, calls.last());
        reveal_with_fuel(events::see_all, 4);
        assert(b.drop_last().drop_last().drop_last() =~= seq![]);
        assert(b.drop_last().drop_last().last() == b[0]);
        assert(b.drop_last().last() == b[1]);
    }
}

/// What is delivered after hosted rounds reads like any other answer: the blocks come one after
/// the other, all are closed, and the end follows.
pub proof fn delivered_stream_is_well_framed(
    request_id: Seq<char>,
    model: Seq<char>,
    said: Seq<char>,
    calls: Seq<CallModel>,
    reason: FinishReason,
    usage: AnthropicUsage,
)
    ensures
        events::well_framed(delivered(request_id, model, said, calls, reason, usage)),
{
    let all = delivered(request_id, model, said, calls, reason, usage);
    let f = events::no_block_yet();
    let open = anthropic_stream::opening(request_id, model);
    let shown = anthropic_stream::shown_text(said);
    let stop = seq![EventModel::BlockStop { index: 0 }];
    let blocks = whole_blocks(1, calls).1;
    let end = anthropic_stream::ending(anthropic_stream::stop_reason_with(calls, reason), usage);
    events::see_all_add(f, open + shown + stop + blocks, end);
    events::see_all_add(f, open + shown + stop, blocks);
    events::see_all_add(f, open + shown, stop);
    events::see_all_add(f, open, shown);
    reveal_with_fuel(events::see_all, 3);
    assert(open.drop_last().drop_last() =~= seq![]);
    assert(open.drop_last().last() == open[0]);
    let f1 = events::see_all(f, open);
    assert(f1.ok && f1.open == Some(0usize) && f1.next == 1);
    if said.len() > 0 {
        assert(shown.drop_last() =~= seq![]);
    }
    let f2 = events::see_all(f1, shown);
    assert(f2 == f1);
    assert(stop.drop_last() =~= seq![]);
    let f3 = events::see_all(f2, stop);
    assert(f3.ok && f3.open is None && f3.next == 1);
    whole_blocks_frame(f3, calls);
    let f4 = events::see_all(f3, blocks);
    assert(end.drop_last().drop_last() =~= seq![]);
    assert(end.drop_last().last() == end[0]);
    assert(all.first() == open[0]);
    assert(all[all.len() - 2] == end[0]);
    assert(all.last() == end[1]);
}

} // verus!
