//! What becomes of a client's request: a task for a worker, or a refusal.
use vstd::prelude::*;

use crate::brain::config::{self, Config, ConfigModel};
use crate::brain::convert;
use crate::brain::hosted_tools;
use crate::brain::http::{self, Refusal};
use crate::brain::messages;
use crate::brain::protocol::{
    self,
    MsgModel,
    TaskBundle,
    TaskModel,
    Tool,
    ToolModel,
};
use crate::brain::registry::{self, WorkerRegistry, Workers};
use crate::converter::translate;
use crate::converter::types::{self, AnthropicRequest, AnthropicRequestModel, ChatCompletionsRequest, ChatRequestModel};
use crate::json::{self, JsonModel, Num};
use crate::text;

verus! {

/// The worker that a request goes to: the model that it has, and its context window.
pub struct Picked {
    pub model: String,
    pub max_context: u32,
}

/// What distinguishes a request from others.
pub struct RequestIds {
    pub request_id: String,
    pub session_id: String,
}

/// The context window to reckon with.
pub open spec fn effective_context(reported: u32, default: u32) -> u32 {
    if reported > 0 {
        reported
    } else {
        default
    }
}

/// Why a prompt that is too long is turned away.
pub open spec fn too_long_message(tokens: nat, context: u32, model: Seq<char>) -> Seq<char> {
    "This request's prompt is approximately "@ + text::dec(tokens) + " tokens, which exceeds the "@
        + text::dec(context as nat) + "-token context window of worker '"@ + model
        + "'. Start a new session, compact/summarize the conversation, or restart the worker with a larger --ctx-size."@
}

/// What the registry says of a worker.
pub open spec fn picked_model(p: Option<Picked>) -> Option<(Seq<char>, u32)> {
    match p {
        Some(p) => Some((p.model@, p.max_context)),
        None => None,
    }
}

/// A task goes through if its prompt alone fits the context window.
pub open spec fn is_task_that_fits(
    r: Result<TaskBundle, Refusal>,
    task: TaskModel,
    context: u32,
) -> bool {
    let tokens = estimate(task.messages, task.tools);
    match r {
        Ok(t) => tokens <= context && t@ == task,
        Err(e) => tokens > context && http::is_refusal(
            e,
            413,
            "context_length_exceeded"@,
            too_long_message(tokens, context, task.model),
        ),
    }
}

/// About how many tokens the prompt has, as far as 32 bits can count.
pub open spec fn estimate(m: Seq<MsgModel>, tools: Option<Seq<ToolModel>>) -> nat {
    messages::capped32(messages::prompt_tokens(m, tools))
}

fn too_long(tokens: u32, context: u32, model: &str) -> (r: Refusal)
    ensures
        http::is_refusal(
            r,
            413,
            "context_length_exceeded"@,
            too_long_message(tokens as nat, context, model@),
        ),
{
    let mut m = text::concat3(
        "This request's prompt is approximately ",
        text::decimal(tokens as u64).as_str(),
        " tokens, which exceeds the ",
    );
    m.append(text::decimal(context as u64).as_str());
    m.append("-token context window of worker '");
    m.append(model);
    m.append(
        "'. Start a new session, compact/summarize the conversation, or restart the worker with a larger --ctx-size.",
    );
    Refusal { status: 413, code: text::owned("context_length_exceeded"), message: m }
}

// ── Chat requests ───────────────────────────────────────────────────────────

/// The tools of a chat request: its `tools`, or its legacy `functions`.
pub open spec fn request_tools(req: ChatRequestModel) -> Option<Seq<JsonModel>> {
    match req.tools {
        Some(t) => Some(t),
        None => match JsonModel::Object(req.extra).field("functions"@) {
            Some(f) => convert::legacy_tools(f),
            None => None,
        },
    }
}

/// The tool choice of a chat request: its `tool_choice`, or its legacy `function_call`.
pub open spec fn request_choice(req: ChatRequestModel) -> Option<JsonModel> {
    match req.tool_choice {
        Some(c) => Some(c),
        None => match JsonModel::Object(req.extra).field("function_call"@) {
            Some(c) => Some(convert::legacy_choice(c)),
            None => None,
        },
    }
}

pub open spec fn max_tokens_of(n: Option<u32>) -> u32 {
    match n {
        Some(n) => n,
        None => 4096,
    }
}

pub open spec fn num_or(n: Option<Num>, default: Num) -> Num {
    match n {
        Some(v) => v,
        None => default,
    }
}

/// The task for a chat request.
pub open spec fn chat_task(
    req: ChatRequestModel,
    model: Seq<char>,
    request_id: Seq<char>,
    session_id: Seq<char>,
    temperature: Num,
) -> TaskModel {
    TaskModel {
        request_id,
        session_id,
        model,
        messages: messages::messages_of(req.messages),
        max_tokens: max_tokens_of(req.max_tokens),
        temperature: num_or(req.temperature, temperature),
        top_p: req.top_p,
        top_k: None,
        stream: req.stream,
        tools: convert::offered_tools(request_tools(req)),
        tool_choice: convert::wanted_choice(request_choice(req)),
        parallel_tool_calls: req.parallel_tool_calls,
        stop: match req.stop {
            Some(s) => messages::stop_of(s),
            None => None,
        },
    }
}

/// What becomes of a chat request, for the worker that it would go to.
pub open spec fn is_chat_outcome(
    r: Result<TaskBundle, Refusal>,
    req: ChatRequestModel,
    worker: Option<(Seq<char>, u32)>,
    default_context: u32,
    temperature: Num,
    ids: RequestIds,
) -> bool {
    if req.messages.len() == 0 {
        r matches Err(e) && http::is_refusal(
            e,
            400,
            "invalid_request"@,
            "messages must not be empty"@,
        )
    } else {
        match worker {
            None => r matches Err(e) && http::is_refusal(
                e,
                503,
                "no_worker_available"@,
                "No workers are currently connected. Start a Colab worker."@,
            ),
            Some((model, max_context)) => {
                let task = chat_task(req, model, ids.request_id@, ids.session_id@, temperature);
                is_task_that_fits(r, task, effective_context(max_context, default_context))
            },
        }
    }
}

/// What becomes of a chat request. It is turned away where it has no messages, where there is
/// no worker, and where its prompt alone does not fit the worker's context window.
pub fn plan_chat(
    req: &ChatCompletionsRequest,
    picked: &Option<Picked>,
    default_context: u32,
    default_temperature: &Num,
    ids: &RequestIds,
) -> (r: Result<TaskBundle, Refusal>)
    ensures
        is_chat_outcome(
            r,
            req@,
            picked_model(*picked),
            default_context,
            *default_temperature,
            *ids,
        ),
{
    proof {
        json::models_at(req.messages@);
    }
    if req.messages.len() == 0 {
        return Err(Refusal::new(400, "invalid_request", "messages must not be empty"));
    }
    let worker = match picked {
        Some(p) => p,
        None => return Err(
            Refusal::new(
                503,
                "no_worker_available",
                "No workers are currently connected. Start a Colab worker.",
            ),
        ),
    };
    let tools = match &req.tools {
        Some(_) => convert::tools_from(&req.tools),
        None => match req.extra.get("functions") {
            Some(f) => convert::tools_from(&convert::legacy_functions_to_tools(f)),
            None => None,
        },
    };
    assert(protocol::opt_tool_models(tools) == convert::offered_tools(request_tools(req@)));
    let tool_choice = match &req.tool_choice {
        Some(_) => convert::choice_from(&req.tool_choice),
        None => match req.extra.get("function_call") {
            Some(c) => convert::choice_from(
                &Some(convert::legacy_function_call_to_tool_choice(c)),
            ),
            None => None,
        },
    };
    let list = messages::messages_from_values(&req.messages);
    let context = if worker.max_context > 0 {
        worker.max_context
    } else {
        default_context
    };
    let tokens = messages::estimate_prompt_tokens(&list, &tools);
    if tokens > context {
        return Err(too_long(tokens, context, worker.model.as_str()));
    }
    let stop = match &req.stop {
        Some(s) => messages::stop_sequences_from_value(s),
        None => None,
    };
    Ok(
        TaskBundle {
            request_id: ids.request_id.clone(),
            session_id: ids.session_id.clone(),
            model: worker.model.clone(),
            messages: list,
            max_tokens: match req.max_tokens {
                Some(n) => n,
                None => 4096,
            },
            temperature: match &req.temperature {
                Some(t) => t.dup(),
                None => default_temperature.dup(),
            },
            top_p: json::dup_opt_num(&req.top_p),
            top_k: None,
            stream: req.stream,
            tools,
            tool_choice,
            parallel_tool_calls: req.parallel_tool_calls,
            stop,
        },
    )
}

// ── Anthropic requests ──────────────────────────────────────────────────────

/// The tools of an Anthropic request as a worker is offered them: where the client wants hosted
/// tools, those that the gateway runs come first.
pub open spec fn anthropic_tools(req: AnthropicRequestModel, model: Seq<char>) -> Option<
    Seq<ToolModel>,
> {
    let t = convert::translated(req, model);
    if t.hosted_tools.len() > 0 {
        Some(
            hosted_tools::hosted_tools() + match t.tools {
                Some(own) => own,
                None => seq![],
            },
        )
    } else {
        t.tools
    }
}

pub open spec fn top_k_of(req: AnthropicRequestModel) -> Option<u32> {
    match JsonModel::Object(req.extra).unsigned_at("top_k"@) {
        Some(n) => Some((n % 0x1_0000_0000) as u32),
        None => None,
    }
}

pub open spec fn stop_of(req: AnthropicRequestModel) -> Option<Seq<Seq<char>>> {
    match JsonModel::Object(req.extra).field("stop_sequences"@) {
        Some(v) => convert::all_strings(v),
        None => None,
    }
}

/// The task for an Anthropic request. `resolved` is the model that the client's name stands
/// for, `model` that of the worker.
pub open spec fn anthropic_task(
    req: AnthropicRequestModel,
    resolved: Seq<char>,
    model: Seq<char>,
    request_id: Seq<char>,
    session_id: Seq<char>,
    temperature: Num,
) -> TaskModel {
    let t = convert::translated(req, resolved);
    TaskModel {
        request_id,
        session_id,
        model,
        messages: t.messages,
        max_tokens: max_tokens_of(req.max_tokens),
        temperature: num_or(req.temperature, temperature),
        top_p: req.top_p,
        top_k: top_k_of(req),
        stream: req.stream == Some(true),
        tools: anthropic_tools(req, resolved),
        tool_choice: t.tool_choice,
        parallel_tool_calls: Some(true),
        stop: stop_of(req),
    }
}

/// The task for an Anthropic request, and whether the client wants hosted tools.
pub struct AnthropicPlan {
    pub task: TaskBundle,
    pub hosted: bool,
}

pub open spec fn task_of_plan(r: Result<AnthropicPlan, Refusal>) -> Result<TaskBundle, Refusal> {
    match r {
        Ok(p) => Ok(p.task),
        Err(e) => Err(e),
    }
}

/// What a client is told that wants hosted tools where no search engine is set.
pub open spec fn no_engine() -> Seq<char> {
    "web_search and web_fetch are not available on this brain instance (BRAIN_SEARXNG_URL is not set)"@
}

/// What becomes of an Anthropic request, for the worker that it would go to. Hosted tools are
/// offered only where there is a search engine; where there is none the client is told so.
pub open spec fn is_anthropic_outcome(
    r: Result<TaskBundle, Refusal>,
    req: AnthropicRequestModel,
    resolved: Seq<char>,
    has_engine: bool,
    worker: Option<(Seq<char>, u32)>,
    default_context: u32,
    temperature: Num,
    ids: RequestIds,
) -> bool {
    match translate::unknown_role(req.messages) {
        Some(role) => r matches Err(e) && http::is_refusal(
            e,
            400,
            "invalid_request"@,
            "Could not translate Anthropic request: "@ + ("Invalid request: "@
                + translate::role_error(role)),
        ),
        None => if translate::hosted_tools_of(req).len() > 0 && !has_engine {
            r matches Err(e) && http::is_refusal(e, 400, "not_configured"@, no_engine())
        } else {
            match worker {
                None => r matches Err(e) && http::is_refusal(
                    e,
                    503,
                    "no_worker_available"@,
                    "No workers are currently connected."@,
                ),
                Some((model, max_context)) => {
                    let task = anthropic_task(
                        req,
                        resolved,
                        model,
                        ids.request_id@,
                        ids.session_id@,
                        temperature,
                    );
                    is_task_that_fits(r, task, effective_context(max_context, default_context))
                },
            }
        },
    }
}

/// What becomes of an Anthropic request. It is turned away where it cannot be translated, where
/// it wants hosted tools and there is no search engine, where there is no worker, and where its
/// prompt alone does not fit the worker's context window.
pub fn plan_anthropic(
    req: &AnthropicRequest,
    resolved_model: &str,
    has_engine: bool,
    picked: &Option<Picked>,
    default_context: u32,
    default_temperature: &Num,
    ids: &RequestIds,
) -> (r: Result<AnthropicPlan, Refusal>)
    ensures
        is_anthropic_outcome(
            task_of_plan(r),
            req@,
            resolved_model@,
            has_engine,
            picked_model(*picked),
            default_context,
            *default_temperature,
            *ids,
        ),
        r matches Ok(p) ==> p.hosted == (translate::hosted_tools_of(req@).len() > 0),
{
    let translated = match convert::translate_anthropic_request(req, resolved_model) {
        Ok(t) => t,
        Err(e) => {
            let message = text::concat("Could not translate Anthropic request: ", e.as_str());
            return Err(Refusal { status: 400, code: text::owned("invalid_request"), message });
        },
    };
    assert(types::tool_models(translated.hosted_tools@).len() == translated.hosted_tools@.len());
    let hosted = translated.hosted_tools.len() > 0;
    if hosted && !has_engine {
        return Err(
            Refusal::new(
                400,
                "not_configured",
                "web_search and web_fetch are not available on this brain instance (BRAIN_SEARXNG_URL is not set)",
            ),
        );
    }
    let worker = match picked {
        Some(p) => p,
        None => return Err(
            Refusal::new(503, "no_worker_available", "No workers are currently connected."),
        ),
    };
    let tools: Option<Vec<Tool>> = if hosted {
        let mut defs = hosted_tools::hosted_tool_defs();
        let ghost first = defs@;
        match translated.tools {
            Some(own) => {
                let mut more = own;
                defs.append(&mut more);
                assert(protocol::tool_models(defs@) =~= protocol::tool_models(first)
                    + protocol::tool_models(own@));
            },
            None => {
                assert(protocol::tool_models(defs@) =~= protocol::tool_models(first)
                    + Seq::<ToolModel>::empty());
            },
        }
        Some(defs)
    } else {
        translated.tools
    };
    assert(protocol::opt_tool_models(tools) == anthropic_tools(req@, resolved_model@));
    let context = if worker.max_context > 0 {
        worker.max_context
    } else {
        default_context
    };
    let tokens = messages::estimate_prompt_tokens(&translated.messages, &tools);
    if tokens > context {
        return Err(too_long(tokens, context, worker.model.as_str()));
    }
    let task = TaskBundle {
        request_id: ids.request_id.clone(),
        session_id: ids.session_id.clone(),
        model: worker.model.clone(),
        messages: translated.messages,
        max_tokens: convert::required_max_tokens(req),
        temperature: match &req.temperature {
            Some(t) => t.dup(),
            None => default_temperature.dup(),
        },
        top_p: json::dup_opt_num(&req.top_p),
        top_k: convert::extract_top_k(req),
        stream: req.wants_stream(),
        tools,
        tool_choice: translated.tool_choice,
        parallel_tool_calls: Some(true),
        stop: convert::extract_stop_sequences(req),
    };
    Ok(AnthropicPlan { task, hosted })
}

// ── Workers ─────────────────────────────────────────────────────────────────

/// The worker that a request may go to: a best one for the model, if there is any worker.
pub open spec fn may_pick(ws: Workers, wanted: Seq<char>, id: Option<Seq<char>>) -> bool {
    match id {
        Some(id) => registry::is_best_alike(ws, wanted, id) && ws.dom().contains(id),
        None => forall|k: Seq<char>| !#[trigger] ws.dom().contains(k),
    }
}

pub open spec fn worker_model(ws: Workers, id: Option<Seq<char>>) -> Option<(Seq<char>, u32)> {
    match id {
        Some(id) => Some((ws[id].model, ws[id].max_context)),
        None => None,
    }
}

fn pick(workers: &WorkerRegistry, wanted: &str) -> (r: (Option<String>, Option<Picked>))
    requires
        workers.wf(),
    ensures
        may_pick(workers@, wanted@, text::opt_text(r.0)),
        picked_model(r.1) == worker_model(workers@, text::opt_text(r.0)),
{
    match workers.pick_best_lenient(wanted) {
        Some((id, model, max_context)) => (Some(id), Some(Picked { model, max_context })),
        None => (None, None),
    }
}

/// The worker that takes a task, and the task.
pub struct Admitted {
    pub worker_id: String,
    pub task: TaskBundle,
    /// Whether the gateway has tools to run for it.
    pub hosted: bool,
}

pub open spec fn admitted_task(r: Result<Admitted, Refusal>) -> Result<TaskBundle, Refusal> {
    match r {
        Ok(a) => Ok(a.task),
        Err(e) => Err(e),
    }
}

/// A chat request is handled for the worker `id`, which may have been picked for it.
pub open spec fn is_chat_admission(
    r: Result<Admitted, Refusal>,
    req: ChatRequestModel,
    cfg: ConfigModel,
    ws: Workers,
    temperature: Num,
    ids: RequestIds,
    id: Option<Seq<char>>,
) -> bool {
    &&& may_pick(ws, config::var_or(cfg.model_aliases, req.model, req.model), id)
    &&& is_chat_outcome(
        admitted_task(r),
        req,
        worker_model(ws, id),
        cfg.default_context_window,
        temperature,
        ids,
    )
    &&& match r {
        Ok(a) => id == Some(a.worker_id@) && !a.hosted,
        Err(_) => true,
    }
}

/// Take a chat request in: find the worker for it and make the task.
pub fn admit_chat(
    req: &ChatCompletionsRequest,
    cfg: &Config,
    workers: &WorkerRegistry,
    default_temperature: &Num,
    ids: &RequestIds,
) -> (r: Result<Admitted, Refusal>)
    requires
        cfg.model_aliases.wf(),
        workers.wf(),
    ensures
        exists|id: Option<Seq<char>>|
            #[trigger] is_chat_admission(r, req@, cfg@, workers@, *default_temperature, *ids, id),
{
    let resolved = cfg.resolve_model(req.model.as_str());
    let (id, picked) = pick(workers, resolved.as_str());
    let plan = plan_chat(req, &picked, cfg.default_context_window, default_temperature, ids);
    let ghost picked_id = text::opt_text(id);
    let r = match (plan, id) {
        (Ok(task), Some(worker_id)) => Ok(Admitted { worker_id, task, hosted: false }),
        (Err(e), _) => Err(e),
        (Ok(_), None) => vstd::pervasive::unreached(),
    };
    assert(is_chat_admission(
        r,
        req@,
        cfg@,
        workers@,
        *default_temperature,
        *ids,
        picked_id,
    ));
    r
}

/// An Anthropic request is handled for the worker `id`, which may have been picked for it.
pub open spec fn is_anthropic_admission(
    r: Result<Admitted, Refusal>,
    req: AnthropicRequestModel,
    cfg: ConfigModel,
    ws: Workers,
    temperature: Num,
    ids: RequestIds,
    id: Option<Seq<char>>,
) -> bool {
    let resolved = config::var_or(cfg.model_aliases, req.model, req.model);
    &&& may_pick(ws, resolved, id)
    &&& is_anthropic_outcome(
        admitted_task(r),
        req,
        resolved,
        cfg.searxng_url is Some,
        worker_model(ws, id),
        cfg.default_context_window,
        temperature,
        ids,
    )
    &&& match r {
        Ok(a) => id == Some(a.worker_id@) && a.hosted == (translate::hosted_tools_of(
            req,
        ).len() > 0),
        Err(_) => true,
    }
}

/// Take an Anthropic request in: find the worker for it and make the task.
pub fn admit_anthropic(
    req: &AnthropicRequest,
    cfg: &Config,
    workers: &WorkerRegistry,
    default_temperature: &Num,
    ids: &RequestIds,
) -> (r: Result<Admitted, Refusal>)
    requires
        cfg.model_aliases.wf(),
        workers.wf(),
    ensures
        exists|id: Option<Seq<char>>|
            #[trigger] is_anthropic_admission(
                r,
                req@,
                cfg@,
                workers@,
                *default_temperature,
                *ids,
                id,
            ),
{
    let resolved = cfg.resolve_model(req.model.as_str());
    let (id, picked) = pick(workers, resolved.as_str());
    let plan = plan_anthropic(
        req,
        resolved.as_str(),
        cfg.searxng_url.is_some(),
        &picked,
        cfg.default_context_window,
        default_temperature,
        ids,
    );
    let ghost picked_id = text::opt_text(id);
    let r = match (plan, id) {
        (Ok(p), Some(worker_id)) => Ok(Admitted { worker_id, task: p.task, hosted: p.hosted }),
        (Err(e), _) => Err(e),
        (Ok(_), None) => vstd::pervasive::unreached(),
    };
    assert(is_anthropic_admission(
        r,
        req@,
        cfg@,
        workers@,
        *default_temperature,
        *ids,
        picked_id,
    ));
    r
}

// ── Laws ────────────────────────────────────────────────────────────────────

/// Without a search engine no worker is ever offered a hosted tool: a request that wants one
/// gets an error, and no task.
pub proof fn hosted_tools_need_an_engine(
    r: Result<Admitted, Refusal>,
    req: AnthropicRequestModel,
    cfg: ConfigModel,
    ws: Workers,
    temperature: Num,
    ids: RequestIds,
    id: Option<Seq<char>>,
)
    requires
        is_anthropic_admission(r, req, cfg, ws, temperature, ids, id),
        cfg.searxng_url is None,
        translate::hosted_tools_of(req).len() > 0,
    ensures
        r is Err,
        translate::unknown_role(req.messages) is None ==> (r matches Err(e) && http::is_refusal(
            e,
            400,
            "not_configured"@,
            no_engine(),
        )),
{
}

/// A request whose prompt fits is never turned away for the length of the answer that it asks
/// for.
pub proof fn output_ceiling_never_refuses(
    req: ChatRequestModel,
    other: Option<u32>,
    model: Seq<char>,
    request_id: Seq<char>,
    session_id: Seq<char>,
    temperature: Num,
)
    ensures
        ({
            let a = chat_task(req, model, request_id, session_id, temperature);
            let b = chat_task(
                ChatRequestModel { max_tokens: other, ..req },
                model,
                request_id,
                session_id,
                temperature,
            );
            estimate(a.messages, a.tools) == estimate(b.messages, b.tools)
        }),
{
}

} // verus!
