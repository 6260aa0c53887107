//! An OpenAI chat-completion stream turned into an Anthropic event stream, and an OpenAI answer
//! into an Anthropic one.
use vstd::prelude::*;

use crate::buffer;
use crate::converter::anthropic_events::{self as events, AnthropicEvent, EventModel};
use crate::converter::finish_reason;
use crate::converter::sse::{self, SseParser};
use crate::converter::types::{self, AnthropicContentBlock, AnthropicResponse, AnthropicUsage, ConverterError};
use crate::ids;
use crate::json::{self, Json, JsonModel, Object};
use crate::text;

verus! {

// ── Events in ───────────────────────────────────────────────────────────────

/// What the `data:` lines say.
pub open spec fn data_lines(lines: Seq<Seq<char>>) -> Seq<Seq<char>>
    decreases lines.len(),
{
    if lines.len() == 0 {
        seq![]
    } else {
        let before = data_lines(lines.drop_last());
        match text::strip_prefix(lines.last(), "data:"@) {
            Some(d) => before.push(text::trim_start(d)),
            None => before,
        }
    }
}

/// The data that a frame carries; none where it is empty or marks the end.
pub open spec fn frame_data(raw: Seq<char>) -> Option<Seq<char>> {
    let data = text::join(data_lines(text::lines(raw)), "\n"@);
    if data.len() == 0 || data == "[DONE]"@ {
        None
    } else {
        Some(data)
    }
}

/// The event that a frame writes, if its data is JSON.
pub open spec fn event_of_frame(raw: Seq<char>) -> Option<JsonModel> {
    match frame_data(raw) {
        Some(data) => json::json_parse(data),
        None => None,
    }
}

/// The event that a frame writes.
pub fn parse_sse_event(raw: &str) -> (r: Option<Json>)
    ensures
        json::opt_model(r) == event_of_frame(raw@),
{
    match sse_data(raw) {
        Some(data) => json::parse(data.as_str()),
        None => None,
    }
}

/// The data that a frame carries.
pub fn sse_data(raw: &str) -> (r: Option<String>)
    ensures
        text::opt_text(r) == frame_data(raw@),
{
    let lines = text::line_texts(raw);
    let ghost all = text::texts(lines@);
    let mut data: Vec<String> = Vec::new();
    let mut i: usize = 0;
    while i < lines.len()
        invariant
            i <= lines.len(),
            all == text::texts(lines@),
            text::texts(data@) == data_lines(all.take(i as int)),
        decreases lines.len() - i,
    {
        proof {
            assert(all.take(i + 1).drop_last() =~= all.take(i as int));
            assert(all.take(i + 1).last() == lines@[i as int]@);
        }
        match text::cut_prefix(lines[i].as_str(), "data:") {
            Some(d) => {
                let line = text::trimmed_start(d.as_str());
                proof {
                    text::texts_push(data@, line);
                }
                data.push(line);
            },
            None => {},
        }
        i = i + 1;
    }
    assert(all.take(lines@.len() as int) =~= all);
    let joined = text::join_texts(&data, "\n");
    if joined.as_str().is_empty() || text::str_eq(joined.as_str(), "[DONE]") {
        return None;
    }
    Some(joined)
}

// ── The reducer ─────────────────────────────────────────────────────────────

/// The content block that is open. Blocks come strictly one after the other, so that there is
/// at most one.
#[derive(Clone, Copy, PartialEq, Eq, Structural)]
pub enum OpenBlock {
    Text(usize),
    Tool { upstream: usize, block: usize },
}

/// Where an Anthropic stream stands. `seen` lists the upstream tool calls that have a block.
#[verifier::ext_equal]
pub struct ChatState {
    pub next: usize,
    pub open: Option<OpenBlock>,
    pub seen: Seq<usize>,
    pub usage: AnthropicUsage,
    pub stop_reason: Option<Seq<char>>,
}

pub open spec fn initial_state() -> ChatState {
    ChatState {
        next: 0,
        open: None,
        seen: seq![],
        usage: events::zero_usage(),
        stop_reason: None,
    }
}

/// The index of an open block.
pub open spec fn block_index(b: OpenBlock) -> usize {
    match b {
        OpenBlock::Text(index) => index,
        OpenBlock::Tool { block, .. } => block,
    }
}

/// The token counts of an OpenAI answer.
pub open spec fn usage_of(value: Option<JsonModel>) -> AnthropicUsage {
    match value {
        Some(v) => AnthropicUsage {
            input_tokens: or_zero(v.unsigned_at("prompt_tokens"@)),
            output_tokens: or_zero(v.unsigned_at("completion_tokens"@)),
            cache_creation_input_tokens: 0,
            cache_read_input_tokens: match v.field_of_field(
                "prompt_tokens_details"@,
                "cached_tokens"@,
            ) {
                Some(n) => or_zero(n.unsigned()),
                None => 0,
            },
        },
        None => events::zero_usage(),
    }
}

pub open spec fn or_zero(o: Option<u64>) -> u64 {
    match o {
        Some(n) => n,
        None => 0,
    }
}

pub open spec fn or_str(o: Option<Seq<char>>, default: Seq<char>) -> Seq<char> {
    match o {
        Some(s) => s,
        None => default,
    }
}

pub open spec fn or_null(o: Option<JsonModel>) -> JsonModel {
    match o {
        Some(v) => v,
        None => JsonModel::Null,
    }
}

/// Closes the open block, if there is one.
pub open spec fn closed(st: ChatState) -> (ChatState, Seq<EventModel>) {
    match st.open {
        Some(b) => (
            ChatState { open: None, ..st },
            seq![EventModel::BlockStop { index: block_index(b) }],
        ),
        None => (st, seq![]),
    }
}

pub open spec fn text_start() -> JsonModel {
    JsonModel::Object(events::typed("text"@).insert("text"@, JsonModel::Str(""@)))
}

pub open spec fn text_delta(t: Seq<char>) -> JsonModel {
    JsonModel::Object(events::typed("text_delta"@).insert("text"@, JsonModel::Str(t)))
}

pub open spec fn tool_start(id: Seq<char>, name: Seq<char>) -> JsonModel {
    JsonModel::Object(
        events::typed("tool_use"@).insert("id"@, JsonModel::Str(id)).insert(
            "name"@,
            JsonModel::Str(name),
        ).insert("input"@, JsonModel::Object(json::nothing())),
    )
}

pub open spec fn arguments_delta(partial: Seq<char>) -> JsonModel {
    JsonModel::Object(
        events::typed("input_json_delta"@).insert("partial_json"@, JsonModel::Str(partial)),
    )
}

/// Makes a text block the open one.
pub open spec fn with_text_block(st: ChatState) -> (ChatState, Seq<EventModel>) {
    if st.open matches Some(OpenBlock::Text(_)) {
        (st, seq![])
    } else {
        let (st1, out) = closed(st);
        (
            ChatState {
                next: events::succ(st.next),
                open: Some(OpenBlock::Text(st.next)),
                ..st1
            },
            out.push(EventModel::BlockStart { index: st.next, block: text_start() }),
        )
    }
}

/// Text goes to the open text block, or to a new one; empty text opens none.
pub open spec fn on_text(st: ChatState, t: Seq<char>) -> (ChatState, Seq<EventModel>) {
    if t.len() == 0 {
        (st, seq![])
    } else {
        let (st1, out) = with_text_block(st);
        let index = block_index(st1.open->Some_0);
        (st1, out.push(EventModel::BlockDelta { index, delta: text_delta(t) }))
    }
}

/// The number that the upstream gives a tool call.
pub open spec fn upstream_index(call: JsonModel) -> usize {
    match call.unsigned_at("index"@) {
        Some(n) => if n <= usize::MAX {
            n as usize
        } else {
            0
        },
        None => 0,
    }
}

pub open spec fn call_function(call: JsonModel) -> JsonModel {
    or_null(call.field("function"@))
}

/// The identity of a tool call: what the upstream gives, or one made from `fresh`.
pub open spec fn call_id(call: JsonModel, fresh: Seq<char>) -> Seq<char> {
    or_str(call.str_at("id"@), "toolu_"@ + fresh)
}

pub open spec fn call_name(call: JsonModel) -> Seq<char> {
    or_str(call_function(call).str_at("name"@), "tool"@)
}

/// A tool call that was not seen before opens a block of its own.
pub open spec fn with_tool_block(st: ChatState, call: JsonModel, fresh: Seq<char>) -> (
    ChatState,
    Seq<EventModel>,
) {
    let upstream = upstream_index(call);
    if st.seen.contains(upstream) {
        (st, seq![])
    } else {
        let (st1, out) = closed(st);
        (
            ChatState {
                next: events::succ(st.next),
                open: Some(OpenBlock::Tool { upstream, block: st.next }),
                seen: st.seen.push(upstream),
                ..st1
            },
            out.push(
                EventModel::BlockStart {
                    index: st.next,
                    block: tool_start(call_id(call, fresh), call_name(call)),
                },
            ),
        )
    }
}

/// A piece of a tool call: it opens its block if it is new, and its arguments go there as long
/// as that block is open.
pub open spec fn on_call(st: ChatState, call: JsonModel, fresh: Seq<char>) -> (
    ChatState,
    Seq<EventModel>,
) {
    let (st1, out) = with_tool_block(st, call, fresh);
    let args = match call_function(call).str_at("arguments"@) {
        Some(a) => a,
        None => seq![],
    };
    match st1.open {
        Some(OpenBlock::Tool { upstream, block }) => if args.len() > 0 && upstream
            == upstream_index(call) {
            (st1, out.push(EventModel::BlockDelta { index: block, delta: arguments_delta(args) }))
        } else {
            (st1, out)
        },
        _ => (st1, out),
    }
}

/// The pieces of tool calls one after the other; `fresh[i]` is for an identity of `calls[i]`.
pub open spec fn on_calls(st: ChatState, calls: Seq<JsonModel>, fresh: Seq<Seq<char>>) -> (
    ChatState,
    Seq<EventModel>,
)
    decreases calls.len(),
{
    if calls.len() == 0 {
        (st, seq![])
    } else {
        let (st1, out) = on_calls(st, calls.drop_last(), fresh);
        let (st2, more) = on_call(st1, calls.last(), fresh[calls.len() - 1]);
        (st2, out + more)
    }
}

/// The first choice of an answer.
pub open spec fn first_choice(event: JsonModel) -> Option<JsonModel> {
    match event.array_at("choices"@) {
        Some(c) => if c.len() > 0 {
            Some(c[0])
        } else {
            None
        },
        None => None,
    }
}

/// Counts are taken over from an object only: a stream may send null with every chunk.
pub open spec fn with_usage(st: ChatState, event: JsonModel) -> ChatState {
    match event.field("usage"@) {
        Some(u) => if u is Object {
            ChatState { usage: usage_of(Some(u)), ..st }
        } else {
            st
        },
        None => st,
    }
}

/// The tool-call pieces that an event carries, where it is to be read for them.
pub open spec fn event_calls(event: JsonModel) -> Seq<JsonModel> {
    if event.field("error"@) is Some {
        seq![]
    } else {
        match first_choice(event) {
            Some(choice) => match choice.field("delta"@) {
                Some(delta) => match delta.array_at("tool_calls"@) {
                    Some(calls) => calls,
                    None => seq![],
                },
                None => seq![],
            },
            None => seq![],
        }
    }
}

/// The text that an event carries.
pub open spec fn event_text(event: JsonModel) -> Seq<char> {
    match first_choice(event) {
        Some(choice) => match choice.field("delta"@) {
            Some(delta) => match delta.str_at("content"@) {
                Some(t) => t,
                None => seq![],
            },
            None => seq![],
        },
        None => seq![],
    }
}

pub open spec fn error_message(error: JsonModel) -> Seq<char> {
    or_str(error.str_at("message"@), "upstream error"@)
}

/// What one event does to the stream, and what it sends.
pub open spec fn step(st: ChatState, event: JsonModel, fresh: Seq<Seq<char>>) -> (
    ChatState,
    Seq<EventModel>,
) {
    let st0 = with_usage(st, event);
    match event.field("error"@) {
        Some(error) => (
            st0,
            seq![EventModel::Error { kind: "api_error"@, message: error_message(error) }],
        ),
        None => {
            let st1 = match first_choice(event) {
                Some(choice) => match choice.str_at("finish_reason"@) {
                    Some(reason) => ChatState {
                        stop_reason: Some(finish_reason::stop_reason_of(reason)),
                        ..st0
                    },
                    None => st0,
                },
                None => st0,
            };
            let (st2, out) = on_text(st1, event_text(event));
            let (st3, more) = on_calls(st2, event_calls(event), fresh);
            (st3, out + more)
        },
    }
}

/// What a list of events does to the stream; `fresh[i]` is for the tool calls of `inputs[i]`.
pub open spec fn run(st: ChatState, inputs: Seq<JsonModel>, fresh: Seq<Seq<Seq<char>>>) -> (
    ChatState,
    Seq<EventModel>,
)
    decreases inputs.len(),
{
    if inputs.len() == 0 {
        (st, seq![])
    } else {
        let (st1, out) = run(st, inputs.drop_last(), fresh);
        let (st2, more) = step(st1, inputs.last(), fresh[inputs.len() - 1]);
        (st2, out + more)
    }
}

/// The end of the stream: the open block is closed, and the stop reason is `end_turn` where
/// the upstream gave none.
pub open spec fn finish(st: ChatState) -> Seq<EventModel> {
    closed(st).1 + seq![
        EventModel::MessageDelta {
            stop_reason: Some(or_str(st.stop_reason, "end_turn"@)),
            usage: st.usage,
        },
        EventModel::MessageStop,
    ]
}

/// Everything that a stream of events sends, from the start of the message to its end.
pub open spec fn whole_stream(
    id: Seq<char>,
    model: Seq<char>,
    inputs: Seq<JsonModel>,
    fresh: Seq<Seq<Seq<char>>>,
) -> Seq<EventModel> {
    let (st, out) = run(initial_state(), inputs, fresh);
    seq![EventModel::MessageStart { id, model }] + out + finish(st)
}

/// Turns OpenAI chunks into Anthropic events, one at a time.
pub struct ChatStreamReducer {
    next_block_index: usize,
    open_block: Option<OpenBlock>,
    seen_tools: Vec<usize>,
    usage: AnthropicUsage,
    stop_reason: Option<String>,
}

impl View for ChatStreamReducer {
    type V = ChatState;

    closed spec fn view(&self) -> ChatState {
        ChatState {
            next: self.next_block_index,
            open: self.open_block,
            seen: self.seen_tools@,
            usage: self.usage,
            stop_reason: text::opt_text(self.stop_reason),
        }
    }
}

pub fn str_or(o: Option<&str>, default: &str) -> (r: String)
    ensures
        r@ == or_str(json::opt_str_ref(o), default@),
{
    match o {
        Some(s) => text::owned(s),
        None => text::owned(default),
    }
}

fn u64_or_zero(o: Option<u64>) -> (r: u64)
    ensures
        r == or_zero(o),
{
    match o {
        Some(n) => n,
        None => 0,
    }
}

fn next_index(n: usize) -> (r: usize)
    ensures
        r == events::succ(n),
{
    if n == usize::MAX {
        0
    } else {
        n + 1
    }
}

fn function_name(call: &Json) -> (r: String)
    ensures
        r@ == call_name(call@),
{
    match call.get("function") {
        Some(f) => str_or(f.str_at("name"), "tool"),
        None => text::owned("tool"),
    }
}

fn function_arguments<'a>(call: &'a Json) -> (r: Option<&'a str>)
    ensures
        json::opt_str_ref(r) == call_function(call@).str_at("arguments"@),
{
    match call.get("function") {
        Some(f) => f.str_at("arguments"),
        None => None,
    }
}

fn call_identity(call: &Json, fresh: &str) -> (r: String)
    ensures
        r@ == call_id(call@, fresh@),
{
    match call.str_at("id") {
        Some(id) => text::owned(id),
        None => text::concat("toolu_", fresh),
    }
}

/// The token counts of an OpenAI answer.
pub fn usage_from_value(value: Option<&Json>) -> (r: AnthropicUsage)
    ensures
        r == usage_of(json::opt_model_ref(value)),
{
    match value {
        Some(v) => AnthropicUsage {
            input_tokens: u64_or_zero(v.u64_at("prompt_tokens")),
            output_tokens: u64_or_zero(v.u64_at("completion_tokens")),
            cache_creation_input_tokens: 0,
            cache_read_input_tokens: match v.get_in("prompt_tokens_details", "cached_tokens") {
                Some(n) => u64_or_zero(n.as_u64()),
                None => 0,
            },
        },
        None => AnthropicUsage {
            input_tokens: 0,
            output_tokens: 0,
            cache_creation_input_tokens: 0,
            cache_read_input_tokens: 0,
        },
    }
}

/// The first choice of an answer.
fn choice_of(event: &Json) -> (r: Option<&Json>)
    ensures
        json::opt_model_ref(r) == first_choice(event@),
{
    match event.array_at("choices") {
        Some(choices) => {
            proof {
                json::models_at(choices@);
            }
            if choices.len() > 0 {
                Some(&choices[0])
            } else {
                None
            }
        },
        None => None,
    }
}

/// The tool-call pieces that an event carries.
fn calls_of(event: &Json) -> (r: Option<&Vec<Json>>)
    ensures
        event_calls(event@) == (match json::opt_array_ref(r) {
            Some(calls) => calls,
            None => Seq::<JsonModel>::empty(),
        }),
{
    match event.get("error") {
        Some(_) => None,
        None => match choice_of(event) {
            Some(choice) => match choice.get("delta") {
                Some(delta) => delta.array_at("tool_calls"),
                None => None,
            },
            None => None,
        },
    }
}

/// How many tool-call pieces an event carries.
pub fn call_count(event: &Json) -> (r: usize)
    ensures
        r == event_calls(event@).len(),
{
    match calls_of(event) {
        Some(calls) => {
            proof {
                json::models_at(calls@);
            }
            calls.len()
        },
        None => 0,
    }
}

impl ChatStreamReducer {
    pub fn new() -> (r: ChatStreamReducer)
        ensures
            r@ == initial_state(),
    {
        ChatStreamReducer {
            next_block_index: 0,
            open_block: None,
            seen_tools: Vec::new(),
            usage: AnthropicUsage {
                input_tokens: 0,
                output_tokens: 0,
                cache_creation_input_tokens: 0,
                cache_read_input_tokens: 0,
            },
            stop_reason: None,
        }
    }

    fn close_open_block(&mut self, out: &mut Vec<AnthropicEvent>)
        ensures
            final(self)@ == closed(old(self)@).0,
            events::event_models(final(out)@) == events::event_models(old(out)@) + closed(
                old(self)@,
            ).1,
    {
        match self.open_block {
            Some(block) => {
                let index: usize = match block {
                    OpenBlock::Text(index) => index,
                    OpenBlock::Tool { block, .. } => block,
                };
                self.open_block = None;
                out.push(AnthropicEvent::BlockStop { index });
            },
            None => {},
        }
        assert(events::event_models(out@) =~= events::event_models(old(out)@) + closed(
            old(self)@,
        ).1);
    }

    fn ensure_text_block(&mut self, out: &mut Vec<AnthropicEvent>) -> (r: usize)
        ensures
            final(self)@ == with_text_block(old(self)@).0,
            events::event_models(final(out)@) == events::event_models(old(out)@) + with_text_block(
                old(self)@,
            ).1,
            final(self)@.open == Some(OpenBlock::Text(r)),
    {
        match self.open_block {
            Some(OpenBlock::Text(index)) => {
                assert(events::event_models(out@) =~= events::event_models(old(out)@)
                    + with_text_block(old(self)@).1);
                return index;
            },
            _ => {},
        }
        self.close_open_block(out);
        let index: usize = self.next_block_index;
        self.next_block_index = next_index(index);
        self.open_block = Some(OpenBlock::Text(index));
        let block = Object::new().with("type", Json::text("text")).with("text", Json::text(""));
        let event = AnthropicEvent::BlockStart { index, block: Json::Object(block) };
        proof {
            events::event_models_push(out@, event);
            assert(event@ == EventModel::BlockStart { index, block: text_start() });
        }
        out.push(event);
        assert(events::event_models(out@) =~= events::event_models(old(out)@) + with_text_block(
            old(self)@,
        ).1);
        index
    }

    /// Takes a piece of a tool call in; `fresh` is for its identity if it has none.
    fn process_tool_call_delta(&mut self, call: &Json, fresh: &str, out: &mut Vec<AnthropicEvent>)
        ensures
            final(self)@ == on_call(old(self)@, call@, fresh@).0,
            events::event_models(final(out)@) == events::event_models(old(out)@) + on_call(
                old(self)@,
                call@,
                fresh@,
            ).1,
    {
        let upstream: usize = match call.u64_at("index") {
            Some(n) => if n <= usize::MAX as u64 {
                n as usize
            } else {
                0
            },
            None => 0,
        };
        let mut seen: bool = false;
        let mut i: usize = 0;
        while i < self.seen_tools.len()
            invariant
                i <= self.seen_tools.len(),
                *self == *old(self),
                *out == *old(out),
                seen == self.seen_tools@.take(i as int).contains(upstream),
            decreases self.seen_tools.len() - i,
        {
            proof {
                let s = self.seen_tools@;
                assert(s.take(i + 1) =~= s.take(i as int).push(s[i as int]));
                assert(s.take(i + 1)[i as int] == s[i as int]);
                if s.take(i as int).contains(upstream) {
                    let k = choose|k: int| 0 <= k < i && s.take(i as int)[k] == upstream;
                    assert(s.take(i + 1)[k] == upstream);
                }
            }
            if self.seen_tools[i] == upstream {
                seen = true;
            }
            i = i + 1;
        }
        assert(self.seen_tools@.take(self.seen_tools@.len() as int) =~= self.seen_tools@);
        if !seen {
            self.close_open_block(out);
            let block: usize = self.next_block_index;
            self.next_block_index = next_index(block);
            let id = call_identity(call, fresh);
            let name = function_name(call);
            self.seen_tools.push(upstream);
            self.open_block = Some(OpenBlock::Tool { upstream, block });
            let start = Object::new().with("type", Json::text("tool_use")).with(
                "id",
                Json::Str(id),
            ).with("name", Json::Str(name)).with("input", Json::Object(Object::new()));
            let event = AnthropicEvent::BlockStart { index: block, block: Json::Object(start) };
            proof {
                events::event_models_push(out@, event);
                assert(event@ == EventModel::BlockStart {
                    index: block,
                    block: tool_start(call_id(call@, fresh@), call_name(call@)),
                });
            }
            out.push(event);
        }
        assert(events::event_models(out@) =~= events::event_models(old(out)@) + with_tool_block(
            old(self)@,
            call@,
            fresh@,
        ).1);
        match function_arguments(call) {
            Some(arguments) => {
                if !arguments.is_empty() {
                    match self.open_block {
                        Some(OpenBlock::Tool { upstream: open, block }) => {
                            if open == upstream {
                                let delta = Object::new().with(
                                    "type",
                                    Json::text("input_json_delta"),
                                ).with("partial_json", Json::text(arguments));
                                let event = AnthropicEvent::BlockDelta {
                                    index: block,
                                    delta: Json::Object(delta),
                                };
                                proof {
                                    events::event_models_push(out@, event);
                                    assert(event@ == EventModel::BlockDelta {
                                        index: block,
                                        delta: arguments_delta(arguments@),
                                    });
                                }
                                out.push(event);
                            }
                        },
                        _ => {},
                    }
                }
            },
            None => {},
        }
        assert(events::event_models(out@) =~= events::event_models(old(out)@) + on_call(
            old(self)@,
            call@,
            fresh@,
        ).1);
    }

    /// Takes one event in and gives out the events that it causes; `fresh[i]` is for the
    /// identity of its tool call `i` if that has none.
    pub fn process_event(&mut self, event: &Json, fresh: &Vec<String>) -> (r: Vec<AnthropicEvent>)
        requires
            fresh@.len() >= event_calls(event@).len(),
        ensures
            (final(self)@, events::event_models(r@)) == step(
                old(self)@,
                event@,
                text::texts(fresh@),
            ),
    {
        let mut out: Vec<AnthropicEvent> = Vec::new();
        match event.get("usage") {
            Some(usage) => {
                match usage {
                    Json::Object(_) => {
                        self.usage = usage_from_value(Some(usage));
                    },
                    _ => {},
                }
            },
            None => {},
        }
        assert(self@ == with_usage(old(self)@, event@));
        match event.get("error") {
            Some(error) => {
                let message = str_or(error.str_at("message"), "upstream error");
                out.push(AnthropicEvent::Error { kind: text::owned("api_error"), message });
                assert(events::event_models(out@) =~= step(
                    old(self)@,
                    event@,
                    text::texts(fresh@),
                ).1);
                return out;
            },
            None => {},
        }
        let choice = match choice_of(event) {
            Some(c) => c,
            None => {
                assert(events::event_models(out@) =~= step(
                    old(self)@,
                    event@,
                    text::texts(fresh@),
                ).1);
                return out;
            },
        };
        match choice.str_at("finish_reason") {
            Some(reason) => {
                self.stop_reason = Some(
                    finish_reason::openai_finish_reason_to_anthropic_stop_reason(reason),
                );
            },
            None => {},
        }
        let delta = match choice.get("delta") {
            Some(d) => d,
            None => {
                assert(events::event_models(out@) =~= step(
                    old(self)@,
                    event@,
                    text::texts(fresh@),
                ).1);
                return out;
            },
        };
        let ghost st1 = self@;
        match delta.str_at("content") {
            Some(content) => {
                if !content.is_empty() {
                    let index = self.ensure_text_block(&mut out);
                    let piece = Object::new().with("type", Json::text("text_delta")).with(
                        "text",
                        Json::text(content),
                    );
                    out.push(AnthropicEvent::BlockDelta { index, delta: Json::Object(piece) });
                }
            },
            None => {},
        }
        assert(events::event_models(out@) =~= on_text(st1, event_text(event@)).1);
        assert(self@ == on_text(st1, event_text(event@)).0);
        let ghost st2 = self@;
        let ghost out2 = events::event_models(out@);
        match delta.array_at("tool_calls") {
            Some(calls) => {
                let ghost all = json::models(calls@);
                proof {
                    json::models_at(calls@);
                    assert(all == event_calls(event@));
                    assert(out2 + on_calls(st2, all.take(0), text::texts(fresh@)).1 =~= out2);
                }
                let mut i: usize = 0;
                while i < calls.len()
                    invariant
                        i <= calls.len(),
                        calls.len() <= fresh.len(),
                        all == json::models(calls@),
                        all.len() == calls.len(),
                        self@ == on_calls(st2, all.take(i as int), text::texts(fresh@)).0,
                        events::event_models(out@) == out2 + on_calls(
                            st2,
                            all.take(i as int),
                            text::texts(fresh@),
                        ).1,
                    decreases calls.len() - i,
                {
                    proof {
                        json::models_at(calls@);
                        assert(all.take(i + 1).drop_last() =~= all.take(i as int));
                        assert(all.take(i + 1).last() == calls@[i as int]@);
                    }
                    let ghost before = on_calls(st2, all.take(i as int), text::texts(fresh@)).1;
                    self.process_tool_call_delta(&calls[i], fresh[i].as_str(), &mut out);
                    assert(events::event_models(out@) =~= out2 + on_calls(
                        st2,
                        all.take(i + 1),
                        text::texts(fresh@),
                    ).1);
                    i = i + 1;
                }
                assert(all.take(all.len() as int) =~= all);
            },
            None => {
                assert(event_calls(event@) == Seq::<JsonModel>::empty());
                assert(events::event_models(out@) =~= out2 + on_calls(
                    st2,
                    seq![],
                    text::texts(fresh@),
                ).1);
            },
        }
        out
    }

    /// Ends the stream.
    pub fn finish_events(&mut self) -> (r: Vec<AnthropicEvent>)
        ensures
            events::event_models(r@) == finish(old(self)@),
            final(self)@ == closed(old(self)@).0,
    {
        let mut out: Vec<AnthropicEvent> = Vec::new();
        let ghost st = self@;
        self.close_open_block(&mut out);
        let stop_reason = match &self.stop_reason {
            Some(s) => s.clone(),
            None => text::owned("end_turn"),
        };
        out.push(AnthropicEvent::MessageDelta { stop_reason: Some(stop_reason), usage: self.usage });
        out.push(AnthropicEvent::MessageStop);
        assert(events::event_models(out@) =~= finish(st));
        out
    }
}

// ── Whole streams ───────────────────────────────────────────────────────────

/// The events that a list of frames writes.
pub open spec fn inputs_of(raws: Seq<Seq<char>>) -> Seq<JsonModel>
    decreases raws.len(),
{
    if raws.len() == 0 {
        seq![]
    } else {
        let before = inputs_of(raws.drop_last());
        match event_of_frame(raws.last()) {
            Some(e) => before.push(e),
            None => before,
        }
    }
}

/// Random identifiers, one for each tool call of each event.
pub open spec fn fresh_for(inputs: Seq<JsonModel>, fresh: Seq<Seq<Seq<char>>>) -> bool {
    fresh.len() == inputs.len() && forall|i: int|
        0 <= i < inputs.len() ==> ids::are_uuids(#[trigger] fresh[i], event_calls(inputs[i]).len())
}

proof fn inputs_of_add(a: Seq<Seq<char>>, b: Seq<Seq<char>>)
    ensures
        inputs_of(a + b) == inputs_of(a) + inputs_of(b),
    decreases b.len(),
{
    if b.len() == 0 {
        assert(a + b =~= a);
        assert(inputs_of(a) + inputs_of(b) =~= inputs_of(a));
    } else {
        inputs_of_add(a, b.drop_last());
        assert((a + b).drop_last() =~= a + b.drop_last());
        assert(inputs_of(a + b) =~= inputs_of(a) + inputs_of(b));
    }
}

/// Identifiers beyond those of the events do not matter.
proof fn run_extra(
    st: ChatState,
    inputs: Seq<JsonModel>,
    fresh: Seq<Seq<Seq<char>>>,
    more: Seq<Seq<Seq<char>>>,
)
    requires
        inputs.len() <= fresh.len(),
    ensures
        run(st, inputs, fresh + more) == run(st, inputs, fresh),
    decreases inputs.len(),
{
    if inputs.len() > 0 {
        run_extra(st, inputs.drop_last(), fresh, more);
        assert((fresh + more)[inputs.len() - 1] == fresh[inputs.len() - 1]);
    }
}

proof fn run_add(
    st: ChatState,
    a: Seq<JsonModel>,
    b: Seq<JsonModel>,
    fa: Seq<Seq<Seq<char>>>,
    fb: Seq<Seq<Seq<char>>>,
)
    requires
        fresh_for(a, fa),
        fresh_for(b, fb),
    ensures
        fresh_for(a + b, fa + fb),
        run(st, a + b, fa + fb) == ({
            let (st1, out1) = run(st, a, fa);
            let (st2, out2) = run(st1, b, fb);
            (st2, out1 + out2)
        }),
    decreases b.len(),
{
    assert forall|i: int| 0 <= i < (a + b).len() implies ids::are_uuids(
        #[trigger] (fa + fb)[i],
        event_calls((a + b)[i]).len(),
    ) by {
        if i < a.len() {
            assert(ids::are_uuids(fa[i], event_calls(a[i]).len()));
        } else {
            assert(ids::are_uuids(fb[i - a.len()], event_calls(b[i - a.len()]).len()));
        }
    }
    if b.len() == 0 {
        assert(a + b =~= a);
        assert(fa + fb =~= fa);
        assert(run(st, a, fa).1 + run(run(st, a, fa).0, b, fb).1 =~= run(st, a, fa).1);
    } else {
        let b0 = b.drop_last();
        let fb0 = fb.drop_last();
        assert forall|i: int| 0 <= i < b0.len() implies ids::are_uuids(
            #[trigger] fb0[i],
            event_calls(b0[i]).len(),
        ) by {
            assert(ids::are_uuids(fb[i], event_calls(b[i]).len()));
        }
        run_add(st, a, b0, fa, fb0);
        assert((a + b).drop_last() =~= a + b0);
        assert((fa + fb0) + seq![fb.last()] =~= fa + fb);
        run_extra(st, a + b0, fa + fb0, seq![fb.last()]);
        assert(fb0 + seq![fb.last()] =~= fb);
        let (st1, out1) = run(st, a, fa);
        run_extra(st1, b0, fb0, seq![fb.last()]);
        let (st2, out2) = run(st1, b0, fb0);
        let more = step(st2, b.last(), fb.last()).1;
        assert((out1 + out2) + more =~= out1 + (out2 + more));
    }
}

/// What an event sends in a run is what it sends after the run of those before it.
proof fn run_push(
    st: ChatState,
    inputs: Seq<JsonModel>,
    fresh: Seq<Seq<Seq<char>>>,
    input: JsonModel,
    f: Seq<Seq<char>>,
)
    requires
        fresh_for(inputs, fresh),
        ids::are_uuids(f, event_calls(input).len()),
    ensures
        fresh_for(inputs.push(input), fresh.push(f)),
        run(st, inputs.push(input), fresh.push(f)) == ({
            let (st1, out) = run(st, inputs, fresh);
            let (st2, more) = step(st1, input, f);
            (st2, out + more)
        }),
{
    let fs = fresh.push(f);
    assert(inputs.push(input).drop_last() =~= inputs);
    assert(fresh + seq![f] =~= fs);
    run_extra(st, inputs, fresh, seq![f]);
    assert forall|i: int| 0 <= i < inputs.push(input).len() implies ids::are_uuids(
        #[trigger] fs[i],
        event_calls(inputs.push(input)[i]).len(),
    ) by {
        if i < inputs.len() {
            assert(ids::are_uuids(fresh[i], event_calls(inputs[i]).len()));
        }
    }
}

/// An OpenAI byte stream in translation.
pub struct AnthropicStream {
    parser: SseParser,
    reducer: ChatStreamReducer,
}

/// From `st`, a list of events leads to `st2` and sends `out`, with some identifiers.
pub open spec fn leads_to(
    st: ChatState,
    inputs: Seq<JsonModel>,
    fresh: Seq<Seq<Seq<char>>>,
    st2: ChatState,
    out: Seq<EventModel>,
) -> bool {
    fresh_for(inputs, fresh) && run(st, inputs, fresh) == (st2, out)
}

impl AnthropicStream {
    /// The bytes that do not make an event yet, as text.
    pub closed spec fn pending(&self) -> Seq<char> {
        self.parser@
    }

    pub closed spec fn state(&self) -> ChatState {
        self.reducer@
    }

    pub fn new() -> (r: AnthropicStream)
        ensures
            r.pending() == Seq::<char>::empty(),
            r.state() == initial_state(),
    {
        AnthropicStream { parser: SseParser::new(), reducer: ChatStreamReducer::new() }
    }

    /// Takes the events of a list of frames in.
    fn take_frames(&mut self, raws: &Vec<String>) -> (out: Vec<AnthropicEvent>)
        ensures
            final(self).pending() == old(self).pending(),
            exists|fresh: Seq<Seq<Seq<char>>>|
                #[trigger] leads_to(
                    old(self).state(),
                    inputs_of(text::texts(raws@)),
                    fresh,
                    final(self).state(),
                    events::event_models(out@),
                ),
    {
        let ghost all = text::texts(raws@);
        let ghost st0 = self.state();
        let ghost mut fresh: Seq<Seq<Seq<char>>> = seq![];
        let mut out: Vec<AnthropicEvent> = Vec::new();
        let mut i: usize = 0;
        assert(events::event_models(out@) =~= seq![]);
        while i < raws.len()
            invariant
                i <= raws.len(),
                all == text::texts(raws@),
                self.pending() == old(self).pending(),
                leads_to(
                    st0,
                    inputs_of(all.take(i as int)),
                    fresh,
                    self.state(),
                    events::event_models(out@),
                ),
            decreases raws.len() - i,
        {
            let ghost seen = inputs_of(all.take(i as int));
            assert(all.take(i + 1).drop_last() =~= all.take(i as int));
            match parse_sse_event(raws[i].as_str()) {
                Some(event) => {
                    let n = call_count(&event);
                    let new_ids = ids::fresh_ids(n);
                    let ghost before = out@;
                    let mut more = self.reducer.process_event(&event, &new_ids);
                    let ghost more_before = more@;
                    out.append(&mut more);
                    proof {
                        assert(out@ =~= before + more_before);
                        events::event_models_add(before, more_before);
                        run_push(st0, seen, fresh, event@, text::texts(new_ids@));
                        fresh = fresh.push(text::texts(new_ids@));
                    }
                },
                None => {},
            }
            i = i + 1;
        }
        assert(all.take(all.len() as int) =~= all);
        out
    }

    /// Takes a chunk of bytes in and gives out the events that it causes.
    pub fn push(&mut self, chunk: &[u8]) -> (r: Vec<AnthropicEvent>)
        ensures
            final(self).pending() == sse::leftover(sse::pending_with(old(self).pending(), chunk@)),
            exists|fresh: Seq<Seq<Seq<char>>>|
                #[trigger] leads_to(
                    old(self).state(),
                    inputs_of(sse::frames(sse::pending_with(old(self).pending(), chunk@))),
                    fresh,
                    final(self).state(),
                    events::event_models(r@),
                ),
    {
        let raws = self.parser.push(chunk);
        let ghost inputs = inputs_of(text::texts(raws@));
        assert(self.state() == old(self).state());
        let out = self.take_frames(&raws);
        proof {
            let fresh = choose|fresh: Seq<Seq<Seq<char>>>|
                #[trigger] leads_to(
                    old(self).state(),
                    inputs,
                    fresh,
                    self.state(),
                    events::event_models(out@),
                );
            assert(leads_to(
                old(self).state(),
                inputs,
                fresh,
                self.state(),
                events::event_models(out@),
            ));
        }
        out
    }

    /// Ends the stream.
    pub fn finish(&mut self) -> (r: Vec<AnthropicEvent>)
        ensures
            exists|fresh: Seq<Seq<Seq<char>>>, st: ChatState, out: Seq<EventModel>|
                #[trigger] leads_to(
                    old(self).state(),
                    inputs_of(sse::last_frame(old(self).pending())),
                    fresh,
                    st,
                    out,
                ) && events::event_models(r@) == out + finish(st),
    {
        let mut raws: Vec<String> = Vec::new();
        match self.parser.finish() {
            Some(raw) => {
                raws.push(raw);
            },
            None => {},
        }
        assert(text::texts(raws@) =~= sse::last_frame(old(self).pending()));
        let mut out = self.take_frames(&raws);
        let ghost before = out@;
        let ghost st = self.state();
        let mut end = self.reducer.finish_events();
        let ghost end_before = end@;
        out.append(&mut end);
        proof {
            assert(out@ =~= before + end_before);
            events::event_models_add(before, end_before);
            let fresh = choose|fresh: Seq<Seq<Seq<char>>>|
                #[trigger] leads_to(
                    old(self).state(),
                    inputs_of(sse::last_frame(old(self).pending())),
                    fresh,
                    st,
                    events::event_models(before),
                );
            assert(leads_to(
                old(self).state(),
                inputs_of(sse::last_frame(old(self).pending())),
                fresh,
                st,
                events::event_models(before),
            ));
        }
        out
    }
}

/// The identity of a new message.
pub open spec fn is_message_id(id: Seq<char>) -> bool {
    exists|u: Seq<char>| #[trigger] ids::is_simple_uuid(u) && id == "msg_"@ + u
}

pub fn new_message_id() -> (r: String)
    ensures
        is_message_id(r@),
{
    let u = ids::fresh_id();
    text::concat("msg_", u.as_str())
}

/// `out` is the translation of a whole stream of events, with some identifiers.
pub open spec fn translates(
    model: Seq<char>,
    inputs: Seq<JsonModel>,
    id: Seq<char>,
    fresh: Seq<Seq<Seq<char>>>,
    out: Seq<EventModel>,
) -> bool {
    is_message_id(id) && fresh_for(inputs, fresh) && out == whole_stream(id, model, inputs, fresh)
}

/// The events that a whole OpenAI byte stream becomes.
pub fn translate_chat_stream(upstream: &Vec<Vec<u8>>, model: &str) -> (r: Vec<AnthropicEvent>)
    ensures
        exists|id: Seq<char>, fresh: Seq<Seq<Seq<char>>>|
            #[trigger] translates(
                model@,
                inputs_of(sse::all_frames(sse::body_text(sse::chunk_views(upstream@)))),
                id,
                fresh,
                events::event_models(r@),
            ),
        events::well_framed(events::event_models(r@)),
{
    let ghost chunks = sse::chunk_views(upstream@);
    let ghost st0 = initial_state();
    let ghost mut fresh: Seq<Seq<Seq<char>>> = seq![];
    let id = new_message_id();
    let ghost id_text = id@;
    let mut out: Vec<AnthropicEvent> = Vec::new();
    out.push(AnthropicEvent::MessageStart { id, model: text::owned(model) });
    let ghost start = events::event_models(out@);
    let ghost mut sent: Seq<EventModel> = seq![];
    let mut stream = AnthropicStream::new();
    let mut i: usize = 0;
    proof {
        assert(chunks.take(0).len() == 0);
        assert(text::find_from(Seq::<char>::empty(), sse::separator(), 0) is None);
        assert(sse::frames(seq![]) =~= seq![]);
        assert(sse::leftover(seq![]) =~= Seq::<char>::empty().skip(0));
        assert(start =~= seq![EventModel::MessageStart { id: id_text, model: model@ }]);
        assert(start + sent =~= start);
    }
    while i < upstream.len()
        invariant
            i <= upstream.len(),
            chunks == sse::chunk_views(upstream@),
            stream.pending() == sse::leftover(sse::body_text(chunks.take(i as int))),
            leads_to(
                st0,
                inputs_of(sse::frames(sse::body_text(chunks.take(i as int)))),
                fresh,
                stream.state(),
                sent,
            ),
            events::event_models(out@) == start + sent,
        decreases upstream.len() - i,
    {
        let ghost before = out@;
        let ghost sent_before = sent;
        let ghost st1 = stream.state();
        let ghost pend = stream.pending();
        let ghost body = sse::body_text(chunks.take(i as int));
        let ghost t = sse::strip_cr(text::lossy(chunks[i as int]));
        let mut more = stream.push(upstream[i].as_slice());
        let ghost more_before = more@;
        out.append(&mut more);
        proof {
            assert(chunks.take(i + 1).drop_last() =~= chunks.take(i as int));
            assert(chunks.take(i + 1).last() == upstream@[i as int]@);
            sse::framing_is_chunk_invariant(seq![], body, t);
            assert(Seq::<char>::empty() + (body + t) =~= body + t);
            assert(Seq::<char>::empty() + body =~= body);
            let a = sse::frames(body);
            let b = sse::frames(sse::leftover(body) + t);
            inputs_of_add(a, b);
            let fb = choose|fb: Seq<Seq<Seq<char>>>|
                #[trigger] leads_to(
                    st1,
                    inputs_of(b),
                    fb,
                    stream.state(),
                    events::event_models(more_before),
                );
            assert(sse::pending_with(pend, upstream@[i as int]@) == sse::leftover(body) + t);
            run_add(st0, inputs_of(a), inputs_of(b), fresh, fb);
            fresh = fresh + fb;
            sent = sent_before + events::event_models(more_before);
            assert(out@ =~= before + more_before);
            events::event_models_add(before, more_before);
            assert((start + sent_before) + events::event_models(more_before) =~= start + sent);
        }
        i = i + 1;
    }
    let ghost before = out@;
    let ghost st1 = stream.state();
    let mut end = stream.finish();
    let ghost end_before = end@;
    out.append(&mut end);
    proof {
        assert(chunks.take(chunks.len() as int) =~= chunks);
        let body = sse::body_text(chunks);
        let rest = sse::last_frame(sse::leftover(body));
        let (fb, st, last) = choose|
            fb: Seq<Seq<Seq<char>>>,
            st: ChatState,
            last: Seq<EventModel>,
        |
            #[trigger] leads_to(st1, inputs_of(rest), fb, st, last) && events::event_models(
                end_before,
            ) == last + finish(st);
        inputs_of_add(sse::frames(body), rest);
        run_add(st0, inputs_of(sse::frames(body)), inputs_of(rest), fresh, fb);
        assert(out@ =~= before + end_before);
        events::event_models_add(before, end_before);
        let inputs = inputs_of(sse::all_frames(body));
        assert(events::event_models(out@) =~= whole_stream(id_text, model@, inputs, fresh + fb));
        assert(translates(model@, inputs, id_text, fresh + fb, events::event_models(out@)));
        stream_is_well_framed(id_text, model@, inputs, fresh + fb);
    }
    out
}

// ── Laws ────────────────────────────────────────────────────────────────────

/// How a reader of the stream sees its state.
pub open spec fn framing_of(st: ChatState) -> events::Framing {
    events::Framing {
        open: match st.open {
            Some(b) => Some(block_index(b)),
            None => None,
        },
        next: st.next,
        ok: true,
    }
}

proof fn closed_is_framed(st: ChatState)
    ensures
        events::see_all(framing_of(st), closed(st).1) == framing_of(closed(st).0),
        closed(st).0.open is None,
        closed(st).0.next == st.next,
{
    reveal_with_fuel(events::see_all, 2);
    if st.open is Some {
        assert(closed(st).1.drop_last().len() == 0);
    }
}

proof fn see_all_push(f: events::Framing, s: Seq<EventModel>, e: EventModel)
    ensures
        events::see_all(f, s.push(e)) == events::see(events::see_all(f, s), e),
{
    assert(s.push(e).drop_last() =~= s);
}

proof fn on_text_is_framed(st: ChatState, t: Seq<char>)
    ensures
        events::see_all(framing_of(st), on_text(st, t).1) == framing_of(on_text(st, t).0),
{
    if t.len() > 0 {
        closed_is_framed(st);
        let (st1, out) = with_text_block(st);
        if !(st.open matches Some(OpenBlock::Text(_))) {
            see_all_push(
                framing_of(st),
                closed(st).1,
                EventModel::BlockStart { index: st.next, block: text_start() },
            );
        }
        let index = block_index(st1.open->Some_0);
        see_all_push(framing_of(st), out, EventModel::BlockDelta { index, delta: text_delta(t) });
    }
}

proof fn on_call_is_framed(st: ChatState, call: JsonModel, fresh: Seq<char>)
    ensures
        events::see_all(framing_of(st), on_call(st, call, fresh).1) == framing_of(
            on_call(st, call, fresh).0,
        ),
{
    closed_is_framed(st);
    let (st1, out) = with_tool_block(st, call, fresh);
    if !st.seen.contains(upstream_index(call)) {
        see_all_push(
            framing_of(st),
            closed(st).1,
            EventModel::BlockStart {
                index: st.next,
                block: tool_start(call_id(call, fresh), call_name(call)),
            },
        );
    }
    let more = on_call(st, call, fresh).1;
    if more != out {
        see_all_push(framing_of(st), out, more.last());
        assert(more =~= out.push(more.last()));
    }
}

proof fn on_calls_is_framed(st: ChatState, calls: Seq<JsonModel>, fresh: Seq<Seq<char>>)
    ensures
        events::see_all(framing_of(st), on_calls(st, calls, fresh).1) == framing_of(
            on_calls(st, calls, fresh).0,
        ),
    decreases calls.len(),
{
    if calls.len() > 0 {
        let (st1, out) = on_calls(st, calls.drop_last(), fresh);
        on_calls_is_framed(st, calls.drop_last(), fresh);
        on_call_is_framed(st1, calls.last(), fresh[calls.len() - 1]);
        events::see_all_add(
            framing_of(st),
            out,
            on_call(st1, calls.last(), fresh[calls.len() - 1]).1,
        );
    }
}

proof fn step_is_framed(st: ChatState, event: JsonModel, fresh: Seq<Seq<char>>)
    ensures
        events::see_all(framing_of(st), step(st, event, fresh).1) == framing_of(
            step(st, event, fresh).0,
        ),
{
    reveal_with_fuel(events::see_all, 2);
    let (st3, out) = step(st, event, fresh);
    if event.field("error"@) is Some {
        assert(out.drop_last().len() == 0);
    } else {
        let st0 = with_usage(st, event);
        let st1 = match first_choice(event) {
            Some(choice) => match choice.str_at("finish_reason"@) {
                Some(reason) => ChatState {
                    stop_reason: Some(finish_reason::stop_reason_of(reason)),
                    ..st0
                },
                None => st0,
            },
            None => st0,
        };
        assert(framing_of(st1) == framing_of(st));
        let (st2, a) = on_text(st1, event_text(event));
        on_text_is_framed(st1, event_text(event));
        on_calls_is_framed(st2, event_calls(event), fresh);
        events::see_all_add(framing_of(st1), a, on_calls(st2, event_calls(event), fresh).1);
    }
}

proof fn run_is_framed(st: ChatState, inputs: Seq<JsonModel>, fresh: Seq<Seq<Seq<char>>>)
    ensures
        events::see_all(framing_of(st), run(st, inputs, fresh).1) == framing_of(
            run(st, inputs, fresh).0,
        ),
    decreases inputs.len(),
{
    if inputs.len() > 0 {
        let (st1, out) = run(st, inputs.drop_last(), fresh);
        let f = fresh[inputs.len() - 1];
        run_is_framed(st, inputs.drop_last(), fresh);
        step_is_framed(st1, inputs.last(), f);
        events::see_all_add(framing_of(st), out, step(st1, inputs.last(), f).1);
    }
}

/// Whatever the upstream sends, the translated stream can be followed: its blocks come
/// strictly one after the other, each is closed before the next one opens and before the end,
/// and it ends with a stop reason.
pub proof fn stream_is_well_framed(
    id: Seq<char>,
    model: Seq<char>,
    inputs: Seq<JsonModel>,
    fresh: Seq<Seq<Seq<char>>>,
)
    ensures
        events::well_framed(whole_stream(id, model, inputs, fresh)),
{
    reveal_with_fuel(events::see_all, 3);
    let (st, out) = run(initial_state(), inputs, fresh);
    let first = seq![EventModel::MessageStart { id, model }];
    let f0 = events::no_block_yet();
    assert(f0 == framing_of(initial_state()));
    assert(first.drop_last().len() == 0);
    assert(events::see_all(f0, first) == f0);
    run_is_framed(initial_state(), inputs, fresh);
    events::see_all_add(f0, first, out);
    closed_is_framed(st);
    let tail = seq![
        EventModel::MessageDelta {
            stop_reason: Some(or_str(st.stop_reason, "end_turn"@)),
            usage: st.usage,
        },
        EventModel::MessageStop,
    ];
    events::see_all_add(framing_of(st), closed(st).1, tail);
    assert(tail.drop_last() =~= seq![tail[0]]);
    assert(seq![tail[0]].drop_last().len() == 0);
    events::see_all_add(f0, first + out, finish(st));
    let all = whole_stream(id, model, inputs, fresh);
    assert(all =~= (first + out) + finish(st));
    assert(all.last() == tail[1]);
    assert(all[all.len() - 2] == tail[0]);
    assert(all.first() == first[0]);
}

/// No error that the upstream reports is swallowed: each one becomes an error event.
pub proof fn errors_become_events(
    st: ChatState,
    inputs: Seq<JsonModel>,
    fresh: Seq<Seq<Seq<char>>>,
    i: int,
)
    requires
        0 <= i < inputs.len(),
        inputs[i].field("error"@) is Some,
    ensures
        run(st, inputs, fresh).1.contains(
            EventModel::Error {
                kind: "api_error"@,
                message: error_message(inputs[i].field("error"@)->Some_0),
            },
        ),
    decreases inputs.len(),
{
    let rest = inputs.drop_last();
    let event = EventModel::Error {
        kind: "api_error"@,
        message: error_message(inputs[i].field("error"@)->Some_0),
    };
    let (st1, out) = run(st, rest, fresh);
    let more = step(st1, inputs.last(), fresh[inputs.len() - 1]).1;
    let all = run(st, inputs, fresh).1;
    assert(all == out + more);
    if i == inputs.len() - 1 {
        assert(more[0] == event);
        assert(all[out.len() as int] == event);
    } else {
        errors_become_events(st, rest, fresh, i);
        let j = choose|j: int| 0 <= j < out.len() && out[j] == event;
        assert(all[j] == event);
    }
}

proof fn on_calls_keeps_usage(st: ChatState, calls: Seq<JsonModel>, fresh: Seq<Seq<char>>)
    ensures
        on_calls(st, calls, fresh).0.usage == st.usage,
    decreases calls.len(),
{
    if calls.len() > 0 {
        on_calls_keeps_usage(st, calls.drop_last(), fresh);
    }
}

/// A chunk without counts, or with null for them, leaves the counts that came before.
pub proof fn missing_counts_change_nothing(
    st: ChatState,
    event: JsonModel,
    fresh: Seq<Seq<char>>,
)
    requires
        !(event.field("usage"@) matches Some(JsonModel::Object(_))),
    ensures
        step(st, event, fresh).0.usage == st.usage,
{
    assert forall|s: ChatState| #[trigger]
        on_calls(s, event_calls(event), fresh).0.usage == s.usage by {
        on_calls_keeps_usage(s, event_calls(event), fresh);
    }
}

// ── Whole answers ───────────────────────────────────────────────────────────

/// The arguments of a tool call, from what their text parses to: an empty object where it is
/// not JSON.
pub open spec fn arguments_of(parsed: Option<JsonModel>) -> JsonModel {
    match parsed {
        Some(v) => v,
        None => JsonModel::Object(json::nothing()),
    }
}

pub fn arguments_or_empty(parsed: Option<Json>) -> (r: Json)
    ensures
        r@ == arguments_of(json::opt_model(parsed)),
{
    match parsed {
        Some(v) => v,
        None => Json::Object(Object::new()),
    }
}

/// The arguments that a text writes.
pub fn parse_tool_arguments(arguments: &str) -> (r: Json)
    ensures
        r@ == arguments_of(json::json_parse(arguments@)),
{
    arguments_or_empty(json::parse(arguments))
}

/// The block for a tool call of an answer.
pub open spec fn call_block(call: JsonModel, fresh: Seq<char>) -> types::BlockModel {
    types::tool_use_block(
        call_id(call, fresh),
        call_name(call),
        arguments_of(
            json::json_parse(or_str(call_function(call).str_at("arguments"@), "{}"@)),
        ),
    )
}

/// The text block of an answer, unless its text is empty.
pub open spec fn text_blocks(t: Option<Seq<char>>) -> Seq<types::BlockModel> {
    match t {
        Some(t) => if t.len() > 0 {
            seq![types::text_block(t)]
        } else {
            seq![]
        },
        None => seq![],
    }
}

pub open spec fn call_blocks(calls: Seq<JsonModel>, fresh: Seq<Seq<char>>) -> Seq<
    types::BlockModel,
> {
    Seq::new(calls.len(), |i: int| call_block(calls[i], fresh[i]))
}

/// The tool calls of the message of an answer.
pub open spec fn answer_calls(value: JsonModel) -> Seq<JsonModel> {
    match first_choice(value) {
        Some(choice) => match choice.field("message"@) {
            Some(message) => match message.array_at("tool_calls"@) {
                Some(calls) => calls,
                None => seq![],
            },
            None => seq![],
        },
        None => seq![],
    }
}

/// The Anthropic answer for an OpenAI one that has a choice with a message.
pub open spec fn answer_of(
    value: JsonModel,
    model: Seq<char>,
    id: Seq<char>,
    fresh: Seq<Seq<char>>,
) -> types::AnthropicResponseModel {
    let choice = first_choice(value)->Some_0;
    let message = choice.field("message"@)->Some_0;
    types::AnthropicResponseModel {
        id,
        kind: "message"@,
        role: "assistant"@,
        model,
        content: text_blocks(message.str_at("content"@)) + call_blocks(answer_calls(value), fresh),
        stop_reason: match choice.str_at("finish_reason"@) {
            Some(reason) => Some(finish_reason::stop_reason_of(reason)),
            None => None,
        },
        stop_sequence: None,
        usage: usage_of(value.field("usage"@)),
    }
}

/// The Anthropic answer for an OpenAI one; `id` is its identity, and `fresh[i]` is for the
/// identity of tool call `i` if that has none.
pub fn chat_response_with_ids(
    value: &Json,
    model: &str,
    id: String,
    fresh: &Vec<String>,
) -> (r: Result<AnthropicResponse, ConverterError>)
    requires
        fresh@.len() >= answer_calls(value@).len(),
    ensures
        match r {
            Ok(a) => first_choice(value@) is Some && first_choice(value@)->Some_0.field(
                "message"@,
            ) is Some && a@ == answer_of(value@, model@, id@, text::texts(fresh@)),
            Err(ConverterError::InvalidRequest(m)) => if first_choice(value@) is None {
                m@ == "custom OpenAI chat response had no choices"@
            } else {
                first_choice(value@)->Some_0.field("message"@) is None && m@
                    == "custom OpenAI chat response had no message"@
            },
            Err(_) => false,
        },
{
    let choice = match choice_of(value) {
        Some(c) => c,
        None => return Err(
            ConverterError::InvalidRequest(
                text::owned("custom OpenAI chat response had no choices"),
            ),
        ),
    };
    let message = match choice.get("message") {
        Some(m) => m,
        None => return Err(
            ConverterError::InvalidRequest(
                text::owned("custom OpenAI chat response had no message"),
            ),
        ),
    };
    let mut content: Vec<AnthropicContentBlock> = Vec::new();
    match message.str_at("content") {
        Some(t) => {
            if !t.is_empty() {
                content.push(AnthropicContentBlock::of_text(t));
            }
        },
        None => {},
    }
    let ghost head = types::block_models(content@);
    assert(head =~= text_blocks(message@.str_at("content"@)));
    match message.array_at("tool_calls") {
        Some(calls) => {
            let ghost all = json::models(calls@);
            let ghost names = text::texts(fresh@);
            proof {
                json::models_at(calls@);
                assert(all == answer_calls(value@));
                assert(head + call_blocks(all, names).take(0) =~= head);
            }
            let mut i: usize = 0;
            while i < calls.len()
                invariant
                    i <= calls.len(),
                    calls.len() <= fresh.len(),
                    all == json::models(calls@),
                    all.len() == calls.len(),
                    names == text::texts(fresh@),
                    types::block_models(content@) == head + call_blocks(all, names).take(i as int),
                decreases calls.len() - i,
            {
                proof {
                    json::models_at(calls@);
                }
                let call = &calls[i];
                let arguments = str_or(function_arguments(call), "{}");
                let block = AnthropicContentBlock::of_tool(
                    call_identity(call, fresh[i].as_str()),
                    function_name(call),
                    parse_tool_arguments(arguments.as_str()),
                );
                proof {
                    types::block_models_push(content@, block);
                    assert(block@ == call_block(all[i as int], names[i as int]));
                    assert(call_blocks(all, names).take(i + 1) =~= call_blocks(all, names).take(
                        i as int,
                    ).push(call_blocks(all, names)[i as int]));
                    assert(head + call_blocks(all, names).take(i + 1) =~= (head + call_blocks(
                        all,
                        names,
                    ).take(i as int)).push(block@));
                }
                content.push(block);
                i = i + 1;
            }
            assert(call_blocks(all, names).take(all.len() as int) =~= call_blocks(all, names));
        },
        None => {
            assert(answer_calls(value@) == Seq::<JsonModel>::empty());
            assert(types::block_models(content@) =~= head + call_blocks(
                answer_calls(value@),
                text::texts(fresh@),
            ));
        },
    }
    let stop_reason = match choice.str_at("finish_reason") {
        Some(reason) => Some(finish_reason::openai_finish_reason_to_anthropic_stop_reason(reason)),
        None => None,
    };
    Ok(
        AnthropicResponse {
            id,
            kind: text::owned("message"),
            role: text::owned("assistant"),
            model: text::owned(model),
            content,
            stop_reason,
            stop_sequence: None,
            usage: usage_from_value(value.get("usage")),
        },
    )
}

/// How many tool calls the message of an answer holds.
pub fn answer_call_count(value: &Json) -> (r: usize)
    ensures
        r == answer_calls(value@).len(),
{
    match choice_of(value) {
        Some(choice) => match choice.get("message") {
            Some(message) => match message.array_at("tool_calls") {
                Some(calls) => {
                    proof {
                        json::models_at(calls@);
                    }
                    calls.len()
                },
                None => 0,
            },
            None => 0,
        },
        None => 0,
    }
}

/// `a` is the Anthropic answer for `value`, with some identifiers.
pub open spec fn answers(
    value: JsonModel,
    model: Seq<char>,
    id: Seq<char>,
    fresh: Seq<Seq<char>>,
    a: types::AnthropicResponseModel,
) -> bool {
    is_message_id(id) && ids::are_uuids(fresh, answer_calls(value).len()) && a == answer_of(
        value,
        model,
        id,
        fresh,
    )
}

/// Whether an OpenAI answer holds what an Anthropic one needs.
pub open spec fn has_answer(value: JsonModel) -> bool {
    first_choice(value) is Some && first_choice(value)->Some_0.field("message"@) is Some
}

/// The Anthropic answer for an OpenAI one.
pub fn chat_response_from_value(value: &Json, model: &str) -> (r: Result<
    AnthropicResponse,
    ConverterError,
>)
    ensures
        match r {
            Ok(a) => has_answer(value@) && exists|id: Seq<char>, fresh: Seq<Seq<char>>|
                #[trigger] answers(value@, model@, id, fresh, a@),
            Err(ConverterError::InvalidRequest(m)) => if first_choice(value@) is None {
                m@ == "custom OpenAI chat response had no choices"@
            } else {
                !has_answer(value@) && m@ == "custom OpenAI chat response had no message"@
            },
            Err(_) => false,
        },
{
    let fresh = ids::fresh_ids(answer_call_count(value));
    let id = new_message_id();
    let ghost id_text = id@;
    let r = chat_response_with_ids(value, model, id, &fresh);
    proof {
        if r is Ok {
            assert(answers(value@, model@, id_text, text::texts(fresh@), r->Ok_0@));
        }
    }
    r
}

/// The bytes of a list of chunks.
pub open spec fn joined(chunks: Seq<Seq<u8>>) -> Seq<u8>
    decreases chunks.len(),
{
    if chunks.len() == 0 {
        seq![]
    } else {
        joined(chunks.drop_last()) + chunks.last()
    }
}

/// The JSON value that the bytes of a stream write.
pub fn read_json_body(upstream: &Vec<Vec<u8>>) -> (r: Result<Json, ConverterError>)
    ensures
        match r {
            Ok(v) => json::json_parse_bytes(joined(sse::chunk_views(upstream@))) == Some(v@),
            Err(ConverterError::Serialization(e)) => json::json_read_bytes(
                joined(sse::chunk_views(upstream@)),
            ) == Err::<JsonModel, Seq<char>>(json::error_words(e)),
            Err(_) => false,
        },
{
    let ghost chunks = sse::chunk_views(upstream@);
    let mut bytes = bytes::BytesMut::new();
    let mut i: usize = 0;
    while i < upstream.len()
        invariant
            i <= upstream.len(),
            chunks == sse::chunk_views(upstream@),
            buffer::buffer_bytes(bytes) == joined(chunks.take(i as int)),
        decreases upstream.len() - i,
    {
        assert(chunks.take(i + 1).drop_last() =~= chunks.take(i as int));
        assert(chunks.take(i + 1).last() == upstream@[i as int]@);
        bytes.extend_from_slice(upstream[i].as_slice());
        i = i + 1;
    }
    assert(chunks.take(chunks.len() as int) =~= chunks);
    match json::from_slice(buffer::as_slice(&bytes)) {
        Ok(v) => Ok(json::json_of(v)),
        Err(e) => Err(ConverterError::Serialization(e)),
    }
}

/// The Anthropic answer for the bytes of an OpenAI one.
pub fn accumulate_chat_response(upstream: &Vec<Vec<u8>>, model: &str) -> (r: Result<
    AnthropicResponse,
    ConverterError,
>)
    ensures
        match json::json_read_bytes(joined(sse::chunk_views(upstream@))) {
            Err(words) => r matches Err(ConverterError::Serialization(e)) && json::error_words(e)
                == words,
            Ok(value) => match r {
                Ok(a) => has_answer(value) && exists|id: Seq<char>, fresh: Seq<Seq<char>>|
                    #[trigger] answers(value, model@, id, fresh, a@),
                Err(ConverterError::InvalidRequest(m)) => if first_choice(value) is None {
                    m@ == "custom OpenAI chat response had no choices"@
                } else {
                    !has_answer(value) && m@ == "custom OpenAI chat response had no message"@
                },
                Err(_) => false,
            },
        },
{
    match read_json_body(upstream) {
        Ok(value) => chat_response_from_value(&value, model),
        Err(e) => Err(e),
    }
}

} // verus!
