//! An Anthropic event stream turned into an OpenAI chat-completion stream.
use vstd::prelude::*;

use crate::converter::builders;
use crate::converter::finish_reason;
use crate::converter::sse::{self, SseParser};
use crate::json::{self, Json, JsonModel, Object};
use crate::text;

verus! {

// ── Events in ───────────────────────────────────────────────────────────────

/// One event of an Anthropic stream.
pub struct AnthropicSseEvent {
    pub event_type: String,
    pub data: Json,
}

#[verifier::ext_equal]
pub struct EventModel {
    pub event_type: Seq<char>,
    pub data: JsonModel,
}

impl View for AnthropicSseEvent {
    type V = EventModel;

    open spec fn view(&self) -> EventModel {
        EventModel { event_type: self.event_type@, data: self.data@ }
    }
}

pub open spec fn event_models(s: Seq<AnthropicSseEvent>) -> Seq<EventModel> {
    s.map_values(|e: AnthropicSseEvent| e@)
}

/// What the last `event:` line says; `message` where there is none.
pub open spec fn event_type_of(lines: Seq<Seq<char>>) -> Seq<char>
    decreases lines.len(),
{
    if lines.len() == 0 {
        "message"@
    } else {
        match text::strip_prefix(lines.last(), "event:"@) {
            Some(e) => text::trim(e),
            None => event_type_of(lines.drop_last()),
        }
    }
}

/// What the `data:` lines say.
pub open spec fn data_lines(lines: Seq<Seq<char>>) -> Seq<Seq<char>>
    decreases lines.len(),
{
    if lines.len() == 0 {
        seq![]
    } else {
        let before = data_lines(lines.drop_last());
        if text::starts_with(lines.last(), "event:"@) {
            before
        } else {
            match text::strip_prefix(lines.last(), "data:"@) {
                Some(d) => before.push(text::trim(d)),
                None => before,
            }
        }
    }
}

/// The event that a frame writes, if its data is JSON.
pub open spec fn event_of_frame(raw: Seq<char>) -> Option<EventModel> {
    let data = text::join(data_lines(text::lines(raw)), "\n"@);
    if data.len() == 0 {
        None
    } else {
        match json::json_parse(data) {
            Some(v) => Some(
                EventModel { event_type: event_type_of(text::lines(raw)), data: v },
            ),
            None => None,
        }
    }
}

pub open spec fn opt_event(o: Option<AnthropicSseEvent>) -> Option<EventModel> {
    match o {
        Some(e) => Some(e@),
        None => None,
    }
}

/// The event that a frame writes.
pub fn parse_sse_event(raw: &str) -> (r: Option<AnthropicSseEvent>)
    ensures
        opt_event(r) == event_of_frame(raw@),
{
    let lines = text::line_texts(raw);
    let ghost all = text::texts(lines@);
    let mut event_type = text::owned("message");
    let mut data: Vec<String> = Vec::new();
    let mut i: usize = 0;
    while i < lines.len()
        invariant
            i <= lines.len(),
            all == text::texts(lines@),
            event_type@ == event_type_of(all.take(i as int)),
            text::texts(data@) == data_lines(all.take(i as int)),
        decreases lines.len() - i,
    {
        proof {
            assert(all.take(i + 1).drop_last() =~= all.take(i as int));
            assert(all.take(i + 1).last() == lines@[i as int]@);
        }
        match text::cut_prefix(lines[i].as_str(), "event:") {
            Some(e) => {
                event_type = text::trimmed(e.as_str());
            },
            None => match text::cut_prefix(lines[i].as_str(), "data:") {
                Some(d) => {
                    let line = text::trimmed(d.as_str());
                    proof {
                        text::texts_push(data@, line);
                    }
                    data.push(line);
                },
                None => {},
            },
        }
        i = i + 1;
    }
    assert(all.take(lines@.len() as int) =~= all);
    let joined = text::join_texts(&data, "\n");
    if joined.as_str().is_empty() {
        return None;
    }
    match json::parse(joined.as_str()) {
        Some(v) => Some(AnthropicSseEvent { event_type, data: v }),
        None => None,
    }
}

// ── Frames out ──────────────────────────────────────────────────────────────

/// One frame of an OpenAI stream.
pub enum ChatFrame {
    Chunk { id: String, model: String, delta: Json, finish_reason: Option<String> },
    Usage { id: String, model: String, prompt_tokens: u64, completion_tokens: u64 },
    Error(Json),
    Ping,
    Done,
}

#[verifier::ext_equal]
pub enum FrameModel {
    Chunk {
        id: Seq<char>,
        model: Seq<char>,
        delta: JsonModel,
        finish_reason: Option<Seq<char>>,
    },
    Usage { id: Seq<char>, model: Seq<char>, prompt_tokens: u64, completion_tokens: u64 },
    Error(JsonModel),
    Ping,
    Done,
}

impl View for ChatFrame {
    type V = FrameModel;

    open spec fn view(&self) -> FrameModel {
        match *self {
            ChatFrame::Chunk { id, model, delta, finish_reason } => FrameModel::Chunk {
                id: id@,
                model: model@,
                delta: delta@,
                finish_reason: text::opt_text(finish_reason),
            },
            ChatFrame::Usage { id, model, prompt_tokens, completion_tokens } => FrameModel::Usage {
                id: id@,
                model: model@,
                prompt_tokens,
                completion_tokens,
            },
            ChatFrame::Error(e) => FrameModel::Error(e@),
            ChatFrame::Ping => FrameModel::Ping,
            ChatFrame::Done => FrameModel::Done,
        }
    }
}

pub open spec fn frame_models(s: Seq<ChatFrame>) -> Seq<FrameModel> {
    s.map_values(|f: ChatFrame| f@)
}

/// The text of a frame that is sent at the time `created`.
pub open spec fn frame_text(f: FrameModel, created: u64) -> Seq<char> {
    match f {
        FrameModel::Chunk { id, model, delta, finish_reason } => builders::data_frame(
            json::json_text(builders::chunk_model(id, model, delta, finish_reason, created)),
        ),
        FrameModel::Usage { id, model, prompt_tokens, completion_tokens } => builders::data_frame(
            json::json_text(
                builders::usage_chunk_model(id, model, prompt_tokens, completion_tokens, created),
            ),
        ),
        FrameModel::Error(e) => builders::data_frame(
            json::json_text(JsonModel::Object(json::nothing().insert("error"@, e))),
        ),
        FrameModel::Ping => ": ping\n\n"@,
        FrameModel::Done => "data: [DONE]\n\n"@,
    }
}

impl ChatFrame {
    /// The frame as it is sent at the time `created`, in seconds.
    pub fn render(&self, created: u64) -> (r: String)
        ensures
            r@ == frame_text(self@, created),
    {
        match self {
            ChatFrame::Chunk { id, model, delta, finish_reason } => builders::chat_completion_chunk(
                id.as_str(),
                model.as_str(),
                delta,
                finish_reason,
                created,
            ),
            ChatFrame::Usage { id, model, prompt_tokens, completion_tokens } =>
                builders::usage_chunk(
                id.as_str(),
                model.as_str(),
                *prompt_tokens,
                *completion_tokens,
                created,
            ),
            ChatFrame::Error(e) => builders::sse_event(
                &Json::Object(Object::new().with("error", e.dup())),
            ),
            ChatFrame::Ping => text::owned(": ping\n\n"),
            ChatFrame::Done => builders::done(),
        }
    }
}

// ── The reducer ─────────────────────────────────────────────────────────────

/// Where an OpenAI stream stands. `tools` lists the Anthropic content blocks that are tool
/// calls, in the order of their coming: the OpenAI index of a call is its place there.
#[verifier::ext_equal]
pub struct OpenAiState {
    pub id: Seq<char>,
    pub model: Seq<char>,
    pub input_tokens: u64,
    pub output_tokens: u64,
    pub tools: Seq<u64>,
    pub finish_sent: bool,
    pub done_sent: bool,
}

pub open spec fn initial_state(model: Seq<char>) -> OpenAiState {
    OpenAiState {
        id: "chatcmpl-000"@,
        model,
        input_tokens: 0,
        output_tokens: 0,
        tools: seq![],
        finish_sent: false,
        done_sent: false,
    }
}

/// The OpenAI index of the tool call in the content block `block`: its place among the known
/// ones, or the next free place.
pub open spec fn tool_index(tools: Seq<u64>, block: u64) -> int
    decreases tools.len(),
{
    if tools.len() == 0 || tools[0] == block {
        0
    } else {
        1 + tool_index(tools.skip(1), block)
    }
}

/// A known block has the place that it has, and an unknown one the next free place.
pub proof fn tool_index_is_place(tools: Seq<u64>, block: u64)
    ensures
        0 <= tool_index(tools, block) <= tools.len(),
        tools.contains(block) <==> tool_index(tools, block) < tools.len(),
        tools.contains(block) ==> tools[tool_index(tools, block)] == block,
    decreases tools.len(),
{
    if tools.len() > 0 && tools[0] != block {
        let rest = tools.skip(1);
        tool_index_is_place(rest, block);
        if tools.contains(block) {
            let k = choose|k: int| 0 <= k < tools.len() && tools[k] == block;
            assert(rest[k - 1] == block);
        }
        if rest.contains(block) {
            assert(tools[tool_index(tools, block)] == block);
        }
    } else if tools.len() > 0 {
        assert(tools[0] == block);
    }
}

/// The tool calls known once `block` is known to be one.
pub open spec fn with_tool(tools: Seq<u64>, block: u64) -> Seq<u64> {
    if tools.contains(block) {
        tools
    } else {
        tools.push(block)
    }
}

/// A chunk of the stream.
pub open spec fn chunk(st: OpenAiState, delta: JsonModel, finish: Option<Seq<char>>) -> FrameModel {
    FrameModel::Chunk { id: st.id, model: st.model, delta, finish_reason: finish }
}

pub open spec fn or_str(o: Option<Seq<char>>, default: Seq<char>) -> Seq<char> {
    match o {
        Some(s) => s,
        None => default,
    }
}

pub open spec fn or_zero(o: Option<u64>) -> u64 {
    match o {
        Some(n) => n,
        None => 0,
    }
}

/// The string two fields down.
pub open spec fn str_in(d: JsonModel, a: Seq<char>, b: Seq<char>) -> Option<Seq<char>> {
    match d.field_of_field(a, b) {
        Some(v) => v.str(),
        None => None,
    }
}

/// The delta that opens a tool call.
pub open spec fn tool_start_delta(index: int, id: Seq<char>, name: Seq<char>) -> JsonModel {
    JsonModel::Object(
        json::nothing().insert(
            "tool_calls"@,
            JsonModel::Array(
                seq![
                    JsonModel::Object(
                        json::nothing().insert("index"@, json::number(index as u64)).insert(
                            "id"@,
                            JsonModel::Str(id),
                        ).insert("type"@, JsonModel::Str("function"@)).insert(
                            "function"@,
                            JsonModel::Object(
                                json::nothing().insert("name"@, JsonModel::Str(name)).insert(
                                    "arguments"@,
                                    JsonModel::Str(""@),
                                ),
                            ),
                        ),
                    ),
                ],
            ),
        ),
    )
}

/// The delta that continues the arguments of a tool call.
pub open spec fn tool_arguments_delta(index: int, partial: Seq<char>) -> JsonModel {
    JsonModel::Object(
        json::nothing().insert(
            "tool_calls"@,
            JsonModel::Array(
                seq![
                    JsonModel::Object(
                        json::nothing().insert("index"@, json::number(index as u64)).insert(
                            "function"@,
                            JsonModel::Object(
                                json::nothing().insert("arguments"@, JsonModel::Str(partial)),
                            ),
                        ),
                    ),
                ],
            ),
        ),
    )
}

/// The opening chunk, once the identity and the counts of the message are known.
pub open spec fn on_message_start(st: OpenAiState, d: JsonModel) -> (OpenAiState, Seq<FrameModel>) {
    let usage = d.field_of_field("message"@, "usage"@);
    let st1 = OpenAiState {
        id: or_str(str_in(d, "message"@, "id"@), st.id),
        input_tokens: match usage {
            Some(u) => or_zero(u.unsigned_at("input_tokens"@)),
            None => st.input_tokens,
        },
        output_tokens: match usage {
            Some(u) => or_zero(u.unsigned_at("output_tokens"@)),
            None => st.output_tokens,
        },
        ..st
    };
    let delta = JsonModel::Object(
        json::nothing().insert("role"@, JsonModel::Str("assistant"@)).insert(
            "content"@,
            JsonModel::Str(""@),
        ),
    );
    (st1, seq![chunk(st1, delta, None)])
}

/// A tool-use block opens a tool call; other blocks open nothing.
pub open spec fn on_block_start(st: OpenAiState, d: JsonModel) -> (OpenAiState, Seq<FrameModel>) {
    if str_in(d, "content_block"@, "type"@) == Some("tool_use"@) {
        let block = or_zero(d.unsigned_at("index"@));
        let delta = tool_start_delta(
            tool_index(st.tools, block),
            or_str(str_in(d, "content_block"@, "id"@), "tool_call"@),
            or_str(str_in(d, "content_block"@, "name"@), "tool"@),
        );
        (OpenAiState { tools: with_tool(st.tools, block), ..st }, seq![chunk(st, delta, None)])
    } else {
        (st, seq![])
    }
}

/// Text and tool arguments go on; thinking has no place in an OpenAI stream.
pub open spec fn on_block_delta(st: OpenAiState, d: JsonModel) -> (OpenAiState, Seq<FrameModel>) {
    let kind = str_in(d, "delta"@, "type"@);
    if kind == Some("text_delta"@) {
        match str_in(d, "delta"@, "text"@) {
            Some(t) => {
                let delta = JsonModel::Object(
                    json::nothing().insert("content"@, JsonModel::Str(t)),
                );
                (st, seq![chunk(st, delta, None)])
            },
            None => (st, seq![]),
        }
    } else if kind == Some("input_json_delta"@) {
        match str_in(d, "delta"@, "partial_json"@) {
            Some(p) => {
                let block = or_zero(d.unsigned_at("index"@));
                let delta = tool_arguments_delta(tool_index(st.tools, block), p);
                (
                    OpenAiState { tools: with_tool(st.tools, block), ..st },
                    seq![chunk(st, delta, None)],
                )
            },
            None => (st, seq![]),
        }
    } else {
        (st, seq![])
    }
}

/// Newer counts replace older ones; a stop reason ends the choice.
pub open spec fn on_message_delta(st: OpenAiState, d: JsonModel) -> (OpenAiState, Seq<FrameModel>) {
    let counted = match d.field("usage"@) {
        Some(u) => OpenAiState {
            input_tokens: match u.unsigned_at("input_tokens"@) {
                Some(n) => n,
                None => st.input_tokens,
            },
            output_tokens: match u.unsigned_at("output_tokens"@) {
                Some(n) => n,
                None => st.output_tokens,
            },
            ..st
        },
        None => st,
    };
    match str_in(d, "delta"@, "stop_reason"@) {
        Some(reason) => {
            let mapped = finish_reason::finish_reason_of(reason);
            (
                OpenAiState { finish_sent: true, ..counted },
                seq![chunk(st, JsonModel::Object(json::nothing()), Some(mapped))],
            )
        },
        None => (counted, seq![]),
    }
}

/// The end of the stream, unless it was sent before: a finish reason if none was sent, the
/// counts if there are any, and `[DONE]`.
pub open spec fn finalized(st: OpenAiState) -> (OpenAiState, Seq<FrameModel>) {
    if st.done_sent {
        (st, seq![])
    } else {
        let finish = if st.finish_sent {
            Seq::<FrameModel>::empty()
        } else {
            seq![chunk(st, JsonModel::Object(json::nothing()), Some("stop"@))]
        };
        let usage = if st.input_tokens > 0 || st.output_tokens > 0 {
            seq![
                FrameModel::Usage {
                    id: st.id,
                    model: st.model,
                    prompt_tokens: st.input_tokens,
                    completion_tokens: st.output_tokens,
                },
            ]
        } else {
            Seq::<FrameModel>::empty()
        };
        (
            OpenAiState { finish_sent: true, done_sent: true, ..st },
            finish + usage + seq![FrameModel::Done],
        )
    }
}

/// What an error event without an error says.
pub open spec fn default_error() -> JsonModel {
    JsonModel::Object(
        json::nothing().insert("type"@, JsonModel::Str("api_error"@)).insert(
            "message"@,
            JsonModel::Str("upstream error"@),
        ),
    )
}

/// The error that an error event reports.
pub open spec fn error_of(data: JsonModel) -> JsonModel {
    match data.field("error"@) {
        Some(v) => v,
        None => default_error(),
    }
}

/// What one event does to the stream, and what it sends.
pub open spec fn step(st: OpenAiState, e: EventModel) -> (OpenAiState, Seq<FrameModel>) {
    if e.event_type == "message_start"@ {
        on_message_start(st, e.data)
    } else if e.event_type == "content_block_start"@ {
        on_block_start(st, e.data)
    } else if e.event_type == "content_block_delta"@ {
        on_block_delta(st, e.data)
    } else if e.event_type == "message_delta"@ {
        on_message_delta(st, e.data)
    } else if e.event_type == "message_stop"@ {
        finalized(st)
    } else if e.event_type == "ping"@ {
        (st, seq![FrameModel::Ping])
    } else if e.event_type == "error"@ {
        (st, seq![FrameModel::Error(error_of(e.data))])
    } else {
        (st, seq![])
    }
}

/// What a list of events does to the stream, and what it sends.
pub open spec fn run(st: OpenAiState, events: Seq<EventModel>) -> (OpenAiState, Seq<FrameModel>)
    decreases events.len(),
{
    if events.len() == 0 {
        (st, seq![])
    } else {
        let (st1, out) = run(st, events.drop_last());
        let (st2, more) = step(st1, events.last());
        (st2, out + more)
    }
}

/// Everything that a stream of events sends, up to its end.
pub open spec fn whole_stream(model: Seq<char>, events: Seq<EventModel>) -> Seq<FrameModel> {
    let (st, out) = run(initial_state(model), events);
    out + finalized(st).1
}

/// Turns Anthropic events into OpenAI frames, one at a time.
pub struct AnthropicStreamReducer {
    id: String,
    model: String,
    input_tokens: u64,
    output_tokens: u64,
    tools: Vec<u64>,
    finish_sent: bool,
    done_sent: bool,
}

impl View for AnthropicStreamReducer {
    type V = OpenAiState;

    closed spec fn view(&self) -> OpenAiState {
        OpenAiState {
            id: self.id@,
            model: self.model@,
            input_tokens: self.input_tokens,
            output_tokens: self.output_tokens,
            tools: self.tools@,
            finish_sent: self.finish_sent,
            done_sent: self.done_sent,
        }
    }
}

fn str_or(o: Option<&str>, default: &str) -> (r: String)
    ensures
        r@ == or_str(json::opt_str_ref(o), default@),
{
    match o {
        Some(s) => text::owned(s),
        None => text::owned(default),
    }
}

fn u64_or_zero(o: Option<u64>) -> (r: u64)
    ensures
        r == or_zero(o),
{
    match o {
        Some(n) => n,
        None => 0,
    }
}

fn str_inside<'a>(d: &'a Json, a: &str, b: &str) -> (r: Option<&'a str>)
    ensures
        json::opt_str_ref(r) == str_in(d@, a@, b@),
{
    match d.get_in(a, b) {
        Some(v) => v.as_str(),
        None => None,
    }
}

fn opt_is(o: Option<&str>, s: &str) -> (r: bool)
    ensures
        r == (json::opt_str_ref(o) == Some(s@)),
{
    match o {
        Some(t) => text::str_eq(t, s),
        None => false,
    }
}

impl AnthropicStreamReducer {
    pub fn new(model: &str) -> (r: AnthropicStreamReducer)
        ensures
            r@ == initial_state(model@),
    {
        AnthropicStreamReducer {
            id: text::owned("chatcmpl-000"),
            model: text::owned(model),
            input_tokens: 0,
            output_tokens: 0,
            tools: Vec::new(),
            finish_sent: false,
            done_sent: false,
        }
    }

    /// The OpenAI index of the tool call in a content block.
    pub fn openai_tool_index(&mut self, anthropic_block_index: u64) -> (r: u64)
        ensures
            r == tool_index(old(self)@.tools, anthropic_block_index),
            final(self)@ == (OpenAiState {
                tools: with_tool(old(self)@.tools, anthropic_block_index),
                ..old(self)@
            }),
    {
        let mut i: usize = 0;
        let ghost all = self.tools@;
        assert(all.skip(0) =~= all);
        while i < self.tools.len()
            invariant
                i <= self.tools.len(),
                all == self.tools@,
                tool_index(all, anthropic_block_index) == i + tool_index(
                    all.skip(i as int),
                    anthropic_block_index,
                ),
                *self == *old(self),
            decreases self.tools.len() - i,
        {
            if self.tools[i] == anthropic_block_index {
                proof {
                    assert(all.skip(i as int)[0] == anthropic_block_index);
                    tool_index_is_place(all, anthropic_block_index);
                }
                return i as u64;
            }
            assert(all.skip(i as int).skip(1) =~= all.skip(i + 1));
            i = i + 1;
        }
        let index: u64 = self.tools.len() as u64;
        self.tools.push(anthropic_block_index);
        proof {
            tool_index_is_place(all, anthropic_block_index);
        }
        index
    }

    /// Takes one event in and gives out the frames that it causes.
    pub fn process_event(&mut self, event: &AnthropicSseEvent) -> (r: Vec<ChatFrame>)
        ensures
            (final(self)@, frame_models(r@)) == step(old(self)@, event@),
    {
        let kind = event.event_type.as_str();
        if text::str_eq(kind, "message_start") {
            self.start_message(&event.data)
        } else if text::str_eq(kind, "content_block_start") {
            self.start_block(&event.data)
        } else if text::str_eq(kind, "content_block_delta") {
            self.continue_block(&event.data)
        } else if text::str_eq(kind, "message_delta") {
            self.update_message(&event.data)
        } else if text::str_eq(kind, "message_stop") {
            self.finalize()
        } else if text::str_eq(kind, "ping") {
            single(ChatFrame::Ping)
        } else if text::str_eq(kind, "error") {
            let error = match event.data.get("error") {
                Some(v) => v.dup(),
                None => Json::Object(
                    Object::new().with("type", Json::text("api_error")).with(
                        "message",
                        Json::text("upstream error"),
                    ),
                ),
            };
            single(ChatFrame::Error(error))
        } else {
            nothing()
        }
    }

    fn chunk(&self, delta: Json, finish_reason: Option<String>) -> (r: ChatFrame)
        ensures
            r@ == chunk(self@, delta@, text::opt_text(finish_reason)),
    {
        ChatFrame::Chunk {
            id: self.id.clone(),
            model: self.model.clone(),
            delta,
            finish_reason,
        }
    }

    fn start_message(&mut self, data: &Json) -> (r: Vec<ChatFrame>)
        ensures
            (final(self)@, frame_models(r@)) == on_message_start(old(self)@, data@),
    {
        match str_inside(data, "message", "id") {
            Some(id) => {
                self.id = text::owned(id);
            },
            None => {},
        }
        match data.get_in("message", "usage") {
            Some(usage) => {
                self.input_tokens = u64_or_zero(usage.u64_at("input_tokens"));
                self.output_tokens = u64_or_zero(usage.u64_at("output_tokens"));
            },
            None => {},
        }
        let delta = Object::new().with("role", Json::text("assistant")).with(
            "content",
            Json::text(""),
        );
        single(self.chunk(Json::Object(delta), None))
    }

    fn start_block(&mut self, data: &Json) -> (r: Vec<ChatFrame>)
        ensures
            (final(self)@, frame_models(r@)) == on_block_start(old(self)@, data@),
    {
        if !opt_is(str_inside(data, "content_block", "type"), "tool_use") {
            return nothing();
        }
        let name = str_or(str_inside(data, "content_block", "name"), "tool");
        let id = str_or(str_inside(data, "content_block", "id"), "tool_call");
        let index = self.openai_tool_index(u64_or_zero(data.u64_at("index")));
        let function = Object::new().with("name", Json::Str(name)).with(
            "arguments",
            Json::text(""),
        );
        let call = Object::new().with("index", Json::number(index)).with("id", Json::Str(id)).with(
            "type",
            Json::text("function"),
        ).with("function", Json::Object(function));
        let delta = Object::new().with("tool_calls", builders::one(Json::Object(call)));
        single(self.chunk(Json::Object(delta), None))
    }

    fn continue_block(&mut self, data: &Json) -> (r: Vec<ChatFrame>)
        ensures
            (final(self)@, frame_models(r@)) == on_block_delta(old(self)@, data@),
    {
        let kind = str_inside(data, "delta", "type");
        if opt_is(kind, "text_delta") {
            match str_inside(data, "delta", "text") {
                Some(t) => {
                    let delta = Object::new().with("content", Json::text(t));
                    single(self.chunk(Json::Object(delta), None))
                },
                None => nothing(),
            }
        } else if opt_is(kind, "input_json_delta") {
            match str_inside(data, "delta", "partial_json") {
                Some(partial) => {
                    let index = self.openai_tool_index(u64_or_zero(data.u64_at("index")));
                    let function = Object::new().with("arguments", Json::text(partial));
                    let call = Object::new().with("index", Json::number(index)).with(
                        "function",
                        Json::Object(function),
                    );
                    let delta = Object::new().with("tool_calls", builders::one(Json::Object(call)));
                    single(self.chunk(Json::Object(delta), None))
                },
                None => nothing(),
            }
        } else {
            nothing()
        }
    }

    fn update_message(&mut self, data: &Json) -> (r: Vec<ChatFrame>)
        ensures
            (final(self)@, frame_models(r@)) == on_message_delta(old(self)@, data@),
    {
        match data.get("usage") {
            Some(usage) => {
                match usage.u64_at("output_tokens") {
                    Some(n) => {
                        self.output_tokens = n;
                    },
                    None => {},
                }
                match usage.u64_at("input_tokens") {
                    Some(n) => {
                        self.input_tokens = n;
                    },
                    None => {},
                }
            },
            None => {},
        }
        match str_inside(data, "delta", "stop_reason") {
            Some(reason) => {
                let mapped = finish_reason::anthropic_stop_reason_to_openai_finish_reason(reason);
                self.finish_sent = true;
                single(self.chunk(Json::Object(Object::new()), Some(mapped)))
            },
            None => nothing(),
        }
    }

    /// Ends the stream, unless it was ended before.
    pub fn finalize(&mut self) -> (r: Vec<ChatFrame>)
        ensures
            (final(self)@, frame_models(r@)) == finalized(old(self)@),
    {
        let mut out: Vec<ChatFrame> = Vec::new();
        if self.done_sent {
            assert(frame_models(out@) =~= seq![]);
            return out;
        }
        self.done_sent = true;
        if !self.finish_sent {
            self.finish_sent = true;
            out.push(self.chunk(Json::Object(Object::new()), Some(text::owned("stop"))));
        }
        if self.input_tokens > 0 || self.output_tokens > 0 {
            out.push(
                ChatFrame::Usage {
                    id: self.id.clone(),
                    model: self.model.clone(),
                    prompt_tokens: self.input_tokens,
                    completion_tokens: self.output_tokens,
                },
            );
        }
        out.push(ChatFrame::Done);
        assert(frame_models(out@) =~= finalized(old(self)@).1);
        out
    }
}

// ── Whole streams ───────────────────────────────────────────────────────────

/// The events that a list of frames writes.
pub open spec fn events_of(raws: Seq<Seq<char>>) -> Seq<EventModel>
    decreases raws.len(),
{
    if raws.len() == 0 {
        seq![]
    } else {
        let before = events_of(raws.drop_last());
        match event_of_frame(raws.last()) {
            Some(e) => before.push(e),
            None => before,
        }
    }
}

proof fn events_of_add(a: Seq<Seq<char>>, b: Seq<Seq<char>>)
    ensures
        events_of(a + b) == events_of(a) + events_of(b),
    decreases b.len(),
{
    if b.len() == 0 {
        assert(a + b =~= a);
        assert(events_of(a) + events_of(b) =~= events_of(a));
    } else {
        events_of_add(a, b.drop_last());
        assert((a + b).drop_last() =~= a + b.drop_last());
        assert(events_of(a + b) =~= events_of(a) + events_of(b));
    }
}

proof fn run_add(st: OpenAiState, a: Seq<EventModel>, b: Seq<EventModel>)
    ensures
        run(st, a + b) == ({
            let (st1, out1) = run(st, a);
            let (st2, out2) = run(st1, b);
            (st2, out1 + out2)
        }),
    decreases b.len(),
{
    if b.len() == 0 {
        assert(a + b =~= a);
        assert(run(st, a).1 + run(run(st, a).0, b).1 =~= run(st, a).1);
    } else {
        run_add(st, a, b.drop_last());
        assert((a + b).drop_last() =~= a + b.drop_last());
        let (st1, out1) = run(st, a);
        let (st2, out2) = run(st1, b.drop_last());
        let more = step(st2, b.last()).1;
        assert((out1 + out2) + more =~= out1 + (out2 + more));
    }
}

/// An Anthropic byte stream in translation.
pub struct OpenAiStream {
    parser: SseParser,
    reducer: AnthropicStreamReducer,
}

impl OpenAiStream {
    /// The bytes that do not make an event yet, as text.
    pub closed spec fn pending(&self) -> Seq<char> {
        self.parser@
    }

    pub closed spec fn state(&self) -> OpenAiState {
        self.reducer@
    }

    pub fn new(model: &str) -> (r: OpenAiStream)
        ensures
            r.pending() == Seq::<char>::empty(),
            r.state() == initial_state(model@),
    {
        OpenAiStream { parser: SseParser::new(), reducer: AnthropicStreamReducer::new(model) }
    }

    /// Takes the events of a list of frames in.
    fn take_frames(&mut self, raws: &Vec<String>, out: &mut Vec<ChatFrame>)
        ensures
            final(self).pending() == old(self).pending(),
            final(self).state() == run(old(self).state(), events_of(text::texts(raws@))).0,
            frame_models(final(out)@) == frame_models(old(out)@) + run(
                old(self).state(),
                events_of(text::texts(raws@)),
            ).1,
    {
        let ghost all = text::texts(raws@);
        let ghost st0 = self.state();
        let ghost out0 = frame_models(out@);
        let mut i: usize = 0;
        assert(out0 + run(st0, events_of(all.take(0))).1 =~= out0);
        while i < raws.len()
            invariant
                i <= raws.len(),
                all == text::texts(raws@),
                self.pending() == old(self).pending(),
                self.state() == run(st0, events_of(all.take(i as int))).0,
                frame_models(out@) == out0 + run(st0, events_of(all.take(i as int))).1,
            decreases raws.len() - i,
        {
            let ghost seen = events_of(all.take(i as int));
            assert(all.take(i + 1).drop_last() =~= all.take(i as int));
            match parse_sse_event(raws[i].as_str()) {
                Some(event) => {
                    proof {
                        assert(seen.push(event@).drop_last() =~= seen);
                    }
                    let ghost before = frame_models(out@);
                    let ghost out_before = out@;
                    let mut more = self.reducer.process_event(&event);
                    let ghost more_before = more@;
                    out.append(&mut more);
                    proof {
                        assert(out@ =~= out_before + more_before);
                        assert(frame_models(out@) =~= before + frame_models(more_before));
                        assert(frame_models(out@) =~= out0 + run(st0, seen.push(event@)).1);
                    }
                },
                None => {},
            }
            i = i + 1;
        }
        assert(all.take(all.len() as int) =~= all);
    }

    /// Takes a chunk of bytes in and gives out the frames that it causes.
    pub fn push(&mut self, chunk: &[u8]) -> (r: Vec<ChatFrame>)
        ensures
            final(self).pending() == sse::leftover(sse::pending_with(old(self).pending(), chunk@)),
            (final(self).state(), frame_models(r@)) == run(
                old(self).state(),
                events_of(sse::frames(sse::pending_with(old(self).pending(), chunk@))),
            ),
    {
        let raws = self.parser.push(chunk);
        let mut out: Vec<ChatFrame> = Vec::new();
        self.take_frames(&raws, &mut out);
        assert(frame_models(out@) =~= run(
            old(self).state(),
            events_of(sse::frames(sse::pending_with(old(self).pending(), chunk@))),
        ).1);
        out
    }

    /// Ends the stream: a stream that broke off before `message_stop` ends properly too.
    pub fn finish(&mut self) -> (r: Vec<ChatFrame>)
        ensures
            frame_models(r@) == ({
                let (st, out) = run(
                    old(self).state(),
                    events_of(sse::last_frame(old(self).pending())),
                );
                out + finalized(st).1
            }),
    {
        let mut raws: Vec<String> = Vec::new();
        match self.parser.finish() {
            Some(raw) => {
                raws.push(raw);
            },
            None => {},
        }
        let mut out: Vec<ChatFrame> = Vec::new();
        assert(text::texts(raws@) =~= sse::last_frame(old(self).pending()));
        self.take_frames(&raws, &mut out);
        let ghost before = out@;
        let mut end = self.reducer.finalize();
        let ghost end_before = end@;
        out.append(&mut end);
        proof {
            assert(out@ =~= before + end_before);
            assert(frame_models(out@) =~= frame_models(before) + frame_models(end_before));
            let (st, frames) = run(
                old(self).state(),
                events_of(sse::last_frame(old(self).pending())),
            );
            assert(frame_models(out@) =~= frames + finalized(st).1);
        }
        out
    }
}

/// The frames that a whole Anthropic byte stream becomes.
pub fn translate_anthropic_to_openai_stream(upstream: &Vec<Vec<u8>>, model: &str) -> (r: Vec<
    ChatFrame,
>)
    ensures
        frame_models(r@) == whole_stream(
            model@,
            events_of(sse::all_frames(sse::body_text(sse::chunk_views(upstream@)))),
        ),
{
    let ghost chunks = sse::chunk_views(upstream@);
    let ghost st0 = initial_state(model@);
    let mut stream = OpenAiStream::new(model);
    let mut out: Vec<ChatFrame> = Vec::new();
    let mut i: usize = 0;
    proof {
        assert(chunks.take(0).len() == 0);
        assert(text::find_from(Seq::<char>::empty(), sse::separator(), 0) is None);
        assert(sse::frames(seq![]) =~= seq![]);
        assert(sse::leftover(seq![]) =~= Seq::<char>::empty().skip(0));
        assert(frame_models(out@) =~= seq![]);
    }
    while i < upstream.len()
        invariant
            i <= upstream.len(),
            chunks == sse::chunk_views(upstream@),
            st0 == initial_state(model@),
            stream.pending() == sse::leftover(sse::body_text(chunks.take(i as int))),
            (stream.state(), frame_models(out@)) == run(
                st0,
                events_of(sse::frames(sse::body_text(chunks.take(i as int)))),
            ),
        decreases upstream.len() - i,
    {
        let ghost before = out@;
        let ghost body = sse::body_text(chunks.take(i as int));
        let ghost t = sse::strip_cr(text::lossy(chunks[i as int]));
        let mut more = stream.push(upstream[i].as_slice());
        let ghost more_before = more@;
        out.append(&mut more);
        proof {
            assert(chunks.take(i + 1).drop_last() =~= chunks.take(i as int));
            assert(chunks.take(i + 1).last() == upstream@[i as int]@);
            sse::framing_is_chunk_invariant(seq![], body, t);
            assert(Seq::<char>::empty() + (body + t) =~= body + t);
            assert(Seq::<char>::empty() + body =~= body);
            events_of_add(sse::frames(body), sse::frames(sse::leftover(body) + t));
            run_add(
                st0,
                events_of(sse::frames(body)),
                events_of(sse::frames(sse::leftover(body) + t)),
            );
            assert(out@ =~= before + more_before);
            assert(frame_models(out@) =~= frame_models(before) + frame_models(more_before));
        }
        i = i + 1;
    }
    let ghost before = out@;
    let mut end = stream.finish();
    let ghost end_before = end@;
    out.append(&mut end);
    proof {
        assert(chunks.take(chunks.len() as int) =~= chunks);
        let body = sse::body_text(chunks);
        let rest = sse::last_frame(sse::leftover(body));
        events_of_add(sse::frames(body), rest);
        run_add(st0, events_of(sse::frames(body)), events_of(rest));
        assert(out@ =~= before + end_before);
        assert(frame_models(out@) =~= frame_models(before) + frame_models(end_before));
        assert(frame_models(out@) =~= whole_stream(
            model@,
            events_of(sse::all_frames(sse::body_text(chunks))),
        ));
    }
    out
}

// ── Laws ────────────────────────────────────────────────────────────────────

/// How many of the frames end the stream.
pub open spec fn done_count(frames: Seq<FrameModel>) -> nat
    decreases frames.len(),
{
    if frames.len() == 0 {
        0
    } else {
        done_count(frames.drop_last()) + (if frames.last() is Done {
            1nat
        } else {
            0nat
        })
    }
}

/// A chunk that says why the answer ended.
pub open spec fn is_finish(f: FrameModel) -> bool {
    f matches FrameModel::Chunk { finish_reason: Some(_), .. }
}

pub open spec fn has_finish(frames: Seq<FrameModel>) -> bool {
    exists|i: int| 0 <= i < frames.len() && is_finish(#[trigger] frames[i])
}

proof fn done_count_add(a: Seq<FrameModel>, b: Seq<FrameModel>)
    ensures
        done_count(a + b) == done_count(a) + done_count(b),
    decreases b.len(),
{
    if b.len() == 0 {
        assert(a + b =~= a);
    } else {
        done_count_add(a, b.drop_last());
        assert((a + b).drop_last() =~= a + b.drop_last());
    }
}

proof fn has_finish_add(a: Seq<FrameModel>, b: Seq<FrameModel>)
    ensures
        has_finish(a) || has_finish(b) ==> has_finish(a + b),
{
    if has_finish(a) {
        let i = choose|i: int| 0 <= i < a.len() && is_finish(#[trigger] a[i]);
        assert(is_finish((a + b)[i]));
    } else if has_finish(b) {
        let i = choose|i: int| 0 <= i < b.len() && is_finish(#[trigger] b[i]);
        assert(is_finish((a + b)[a.len() + i]));
    }
}

proof fn finalized_counts(st: OpenAiState)
    ensures
        done_count(finalized(st).1) == (if st.done_sent {
            0nat
        } else {
            1nat
        }),
        !st.done_sent && !st.finish_sent ==> has_finish(finalized(st).1),
        !st.done_sent ==> finalized(st).1.len() > 0 && finalized(st).1.last() is Done,
        finalized(st).0.done_sent,
{
    reveal_with_fuel(done_count, 4);
    let out = finalized(st).1;
    if !st.done_sent {
        let usage = out.len() == (if st.finish_sent {
            1int
        } else {
            2int
        }) + 1;
        assert(out.last() is Done);
        if !st.finish_sent {
            assert(is_finish(out[0]));
        }
        if out.len() >= 2 {
            assert(out.drop_last().last() == out[out.len() - 2]);
        }
        if out.len() == 3 {
            assert(out.drop_last().drop_last().last() == out[0]);
        }
    }
}

proof fn step_counts(st: OpenAiState, e: EventModel)
    ensures
        done_count(step(st, e).1) + (if st.done_sent {
            1nat
        } else {
            0nat
        }) == (if step(st, e).0.done_sent {
            1nat
        } else {
            0nat
        }),
        step(st, e).0.finish_sent && !st.finish_sent ==> has_finish(step(st, e).1),
        st.finish_sent ==> step(st, e).0.finish_sent,
        (st.done_sent ==> st.finish_sent) ==> (step(st, e).0.done_sent ==> step(st, e).0.finish_sent),
        e.event_type != "message_stop"@ ==> step(st, e).0.done_sent == st.done_sent,
{
    reveal_with_fuel(done_count, 2);
    let out = step(st, e).1;
    if e.event_type == "message_stop"@ {
        finalized_counts(st);
        reveal_strlit("message_stop");
        reveal_strlit("message_start");
        reveal_strlit("content_block_start");
        reveal_strlit("content_block_delta");
        reveal_strlit("message_delta");
        assert("message_stop"@.len() == 12 && "message_start"@.len() == 13);
        assert("content_block_start"@.len() == 19 && "content_block_delta"@.len() == 19);
        assert("message_delta"@.len() == 13);
    } else {
        assert(out.len() <= 1);
        if out.len() == 1 {
            assert(out.drop_last().len() == 0);
            assert(out.last() == out[0]);
            if step(st, e).0.finish_sent && !st.finish_sent {
                assert(is_finish(out[0]));
            }
        }
    }
}

proof fn run_counts(st: OpenAiState, events: Seq<EventModel>)
    requires
        !st.done_sent,
        !st.finish_sent,
    ensures
        done_count(run(st, events).1) == (if run(st, events).0.done_sent {
            1nat
        } else {
            0nat
        }),
        run(st, events).0.finish_sent ==> has_finish(run(st, events).1),
        run(st, events).0.done_sent ==> run(st, events).0.finish_sent,
        (forall|i: int|
            0 <= i < events.len() ==> (#[trigger] events[i]).event_type != "message_stop"@)
            ==> !run(st, events).0.done_sent,
    decreases events.len(),
{
    if events.len() > 0 {
        let before = events.drop_last();
        run_counts(st, before);
        let (st1, out) = run(st, before);
        step_counts(st1, events.last());
        done_count_add(out, step(st1, events.last()).1);
        has_finish_add(out, step(st1, events.last()).1);
        assert(forall|i: int| 0 <= i < before.len() ==> before[i] == events[i]);
    }
}

/// A translated stream ends once: it holds exactly one `[DONE]`, whatever came in.
pub proof fn stream_has_one_done(model: Seq<char>, events: Seq<EventModel>)
    ensures
        done_count(whole_stream(model, events)) == 1,
{
    let (st, out) = run(initial_state(model), events);
    run_counts(initial_state(model), events);
    finalized_counts(st);
    done_count_add(out, finalized(st).1);
}

/// A translated stream says why the answer ended, also where the upstream never did.
pub proof fn stream_has_finish_reason(model: Seq<char>, events: Seq<EventModel>)
    ensures
        has_finish(whole_stream(model, events)),
{
    let (st, out) = run(initial_state(model), events);
    run_counts(initial_state(model), events);
    finalized_counts(st);
    has_finish_add(out, finalized(st).1);
}

/// A stream that broke off before `message_stop` still ends with `[DONE]`.
pub proof fn truncated_stream_ends_with_done(model: Seq<char>, events: Seq<EventModel>)
    requires
        forall|i: int|
            0 <= i < events.len() ==> (#[trigger] events[i]).event_type != "message_stop"@,
    ensures
        whole_stream(model, events).len() > 0,
        whole_stream(model, events).last() is Done,
{
    let (st, out) = run(initial_state(model), events);
    run_counts(initial_state(model), events);
    finalized_counts(st);
}

proof fn sent_is_kept(st: OpenAiState, events: Seq<EventModel>, i: int, frame: FrameModel)
    requires
        0 <= i < events.len(),
        step(run(st, events.take(i)).0, events[i]).1 == seq![frame],
    ensures
        run(st, events).1.contains(frame),
    decreases events.len(),
{
    let rest = events.drop_last();
    let out = run(st, rest).1;
    let more = step(run(st, rest).0, events.last()).1;
    let all = run(st, events).1;
    assert(all == out + more);
    if i == events.len() - 1 {
        assert(events.take(i) =~= rest);
        assert(more[0] == frame);
        assert(all[out.len() as int] == frame);
    } else {
        assert(rest.take(i) =~= events.take(i));
        sent_is_kept(st, rest, i, frame);
        let j = choose|j: int| 0 <= j < out.len() && out[j] == frame;
        assert(all[j] == frame);
    }
}

/// No error of the upstream is swallowed: each one is forwarded as a frame of its own.
pub proof fn errors_are_forwarded(model: Seq<char>, events: Seq<EventModel>, i: int)
    requires
        0 <= i < events.len(),
        events[i].event_type == "error"@,
    ensures
        whole_stream(model, events).contains(FrameModel::Error(error_of(events[i].data))),
{
    reveal_strlit("error");
    reveal_strlit("ping");
    reveal_strlit("message_start");
    reveal_strlit("message_delta");
    reveal_strlit("message_stop");
    reveal_strlit("content_block_start");
    reveal_strlit("content_block_delta");
    assert("error"@.len() == 5 && "ping"@.len() == 4 && "message_start"@.len() == 13);
    assert("message_delta"@.len() == 13 && "message_stop"@.len() == 12);
    assert("content_block_start"@.len() == 19 && "content_block_delta"@.len() == 19);
    let frame = FrameModel::Error(error_of(events[i].data));
    let (st, out) = run(initial_state(model), events);
    sent_is_kept(initial_state(model), events, i, frame);
    let j = choose|j: int| 0 <= j < out.len() && out[j] == frame;
    assert(whole_stream(model, events)[j] == frame);
}

/// Pings pass: a client sees one for each that the upstream sends, and nothing else changes.
pub proof fn pings_pass(st: OpenAiState, event: EventModel)
    requires
        event.event_type == "ping"@,
    ensures
        step(st, event) == (st, seq![FrameModel::Ping]),
{
    reveal_strlit("ping");
    reveal_strlit("message_start");
    reveal_strlit("message_delta");
    reveal_strlit("message_stop");
    reveal_strlit("content_block_start");
    reveal_strlit("content_block_delta");
    assert("ping"@.len() == 4 && "message_start"@.len() == 13 && "message_delta"@.len() == 13);
    assert("message_stop"@.len() == 12 && "content_block_start"@.len() == 19);
    assert("content_block_delta"@.len() == 19);
}

/// Ending an ended stream sends nothing and changes nothing.
pub proof fn finalize_is_idempotent(st: OpenAiState)
    ensures
        finalized(finalized(st).0) == (finalized(st).0, Seq::<FrameModel>::empty()),
{
}

/// The tool calls of a stream are numbered from zero without a gap: no content block has two
/// numbers, no number two blocks, and a block keeps the number that it has.
pub proof fn tool_indices_are_contiguous(
    model: Seq<char>,
    events: Seq<EventModel>,
    more: Seq<EventModel>,
    block: u64,
)
    ensures
        run(initial_state(model), events).0.tools.no_duplicates(),
        ({
            let tools = run(initial_state(model), events).0.tools;
            let later = run(initial_state(model), events + more).0.tools;
            tools.contains(block) ==> {
                &&& tool_index(tools, block) < tools.len()
                &&& tools[tool_index(tools, block)] == block
                &&& later.contains(block)
                &&& tool_index(later, block) == tool_index(tools, block)
            }
        }),
{
    let st0 = initial_state(model);
    let st = run(st0, events).0;
    run_keeps_tools(st0, events);
    run_keeps_tools(st, more);
    run_add(st0, events, more);
    let later = run(st0, events + more).0.tools;
    if st.tools.contains(block) {
        tool_index_is_place(st.tools, block);
        tool_index_is_place(later, block);
        let k = tool_index(st.tools, block);
        assert(later[k] == block);
        assert(later.contains(block));
        assert(later[tool_index(later, block)] == later[k]);
    }
}

proof fn run_keeps_tools(st: OpenAiState, events: Seq<EventModel>)
    requires
        st.tools.no_duplicates(),
    ensures
        run(st, events).0.tools.no_duplicates(),
        st.tools.len() <= run(st, events).0.tools.len(),
        run(st, events).0.tools.take(st.tools.len() as int) == st.tools,
        forall|i: int|
            0 <= i < st.tools.len() ==> run(st, events).0.tools[i] == #[trigger] st.tools[i],
    decreases events.len(),
{
    if events.len() > 0 {
        run_keeps_tools(st, events.drop_last());
        let st1 = run(st, events.drop_last()).0;
        let st2 = step(st1, events.last()).0;
        let block = or_zero(events.last().data.unsigned_at("index"@));
        assert(st2.tools == st1.tools || st2.tools == with_tool(st1.tools, block));
        assert(st2.tools.take(st.tools.len() as int) =~= st.tools);
    } else {
        assert(st.tools.take(st.tools.len() as int) =~= st.tools);
    }
}

fn single(f: ChatFrame) -> (r: Vec<ChatFrame>)
    ensures
        frame_models(r@) == seq![f@],
{
    let mut out: Vec<ChatFrame> = Vec::new();
    out.push(f);
    assert(frame_models(out@) =~= seq![f@]);
    out
}

fn nothing() -> (r: Vec<ChatFrame>)
    ensures
        frame_models(r@) == Seq::<FrameModel>::empty(),
{
    let out: Vec<ChatFrame> = Vec::new();
    assert(frame_models(out@) =~= seq![]);
    out
}

} // verus!
