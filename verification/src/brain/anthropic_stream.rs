//! A worker's answer streamed to an Anthropic client.
//!
//! The handler reads the worker's messages and the clock, hands them to [`AnthropicTurn`], and
//! writes the events that come back.
use vstd::prelude::*;

use crate::brain::holdback;
use crate::brain::protocol::{self, CallModel, DoneMessage, FinishReason, ToolCall};
use crate::brain::tool_calls::{self, Gathered, ToolEventModel, ToolStreamEvent};
use crate::converter::anthropic_events::{self as events, AnthropicEvent, EventModel};
use crate::converter::finish_reason;
use crate::converter::to_anthropic;
use crate::converter::types::AnthropicUsage;
use crate::json::{self, Json, JsonModel, Object};
use crate::text;

verus! {

/// Where a streamed answer stands.
#[verifier::ext_equal]
pub struct Turn {
    pub gathered: Gathered,
    /// Text that is held back, and whether a `<tool_call>` tag was seen in it.
    pub pending: Seq<char>,
    pub leaked: bool,
    /// Whether the text block, block 0, has been closed.
    pub text_closed: bool,
    /// The tool block that is open.
    pub tool_block: Option<usize>,
    pub next_block: usize,
}

pub open spec fn initial_turn() -> Turn {
    Turn {
        gathered: Gathered { text: seq![], calls: seq![], current: None, index: None },
        pending: seq![],
        leaked: false,
        text_closed: false,
        tool_block: None,
        next_block: 1,
    }
}

/// The events that open the message and its text block.
pub open spec fn opening(request_id: Seq<char>, model: Seq<char>) -> Seq<EventModel> {
    seq![
        EventModel::MessageStart { id: "msg_"@ + request_id, model },
        EventModel::BlockStart { index: 0, block: to_anthropic::text_start() },
    ]
}

/// Text goes to the text block.
pub open spec fn shown_text(t: Seq<char>) -> Seq<EventModel> {
    if t.len() > 0 {
        seq![EventModel::BlockDelta { index: 0, delta: to_anthropic::text_delta(t) }]
    } else {
        seq![]
    }
}

/// What a piece of text makes of what is held back, and what of it is shown.
pub open spec fn shown_of(st: Turn, t: Seq<char>) -> holdback::Shown {
    holdback::with_piece(
        holdback::Shown { shown: seq![], pending: st.pending, leaked: st.leaked },
        t,
    )
}

/// New text is shown but for what is held back; after a tag none is shown.
pub open spec fn on_text(st: Turn, t: Option<Seq<char>>) -> (Turn, Seq<EventModel>) {
    match t {
        None => (st, seq![]),
        Some(t) => {
            let s = shown_of(st, t);
            (Turn { pending: s.pending, leaked: s.leaked, ..st }, shown_text(s.shown))
        },
    }
}

/// What is held back is shown, unless a tag was seen.
pub open spec fn flushed(st: Turn) -> (Turn, Seq<EventModel>) {
    if st.leaked {
        (st, seq![])
    } else {
        (Turn { pending: seq![], ..st }, shown_text(st.pending))
    }
}

/// A tool call closes the block that is open and opens one of its own; its arguments go there.
pub open spec fn on_tool_event(st: Turn, e: ToolEventModel) -> (Turn, Seq<EventModel>) {
    match e {
        ToolEventModel::Started { id, name } => {
            let (st1, out) = match st.tool_block {
                Some(prev) => (st, seq![EventModel::BlockStop { index: prev }]),
                None => if st.text_closed {
                    (st, seq![])
                } else {
                    let (f, shown) = flushed(st);
                    (
                        Turn { text_closed: true, ..f },
                        shown.push(EventModel::BlockStop { index: 0 }),
                    )
                },
            };
            (
                Turn {
                    tool_block: Some(st.next_block),
                    next_block: events::succ(st.next_block),
                    ..st1
                },
                out.push(
                    EventModel::BlockStart {
                        index: st.next_block,
                        block: to_anthropic::tool_start(id, name),
                    },
                ),
            )
        },
        ToolEventModel::ArgsDelta(a) => match st.tool_block {
            Some(block) => (
                st,
                seq![
                    EventModel::BlockDelta { index: block, delta: to_anthropic::arguments_delta(a) },
                ],
            ),
            None => (st, seq![]),
        },
    }
}

pub open spec fn on_tool_events(st: Turn, es: Seq<ToolEventModel>) -> (Turn, Seq<EventModel>)
    decreases es.len(),
{
    if es.len() == 0 {
        (st, seq![])
    } else {
        let (st1, out) = on_tool_events(st, es.drop_last());
        let (st2, more) = on_tool_event(st1, es.last());
        (st2, out + more)
    }
}

/// What a line of the worker's output does.
pub open spec fn on_line(st: Turn, line: Seq<char>, fresh: Seq<Seq<char>>) -> (
    Turn,
    Seq<EventModel>,
) {
    let (g, es) = tool_calls::on_line(st.gathered, line, fresh);
    let (st1, out) = on_text(Turn { gathered: g, ..st }, tool_calls::line_text(line));
    let (st2, more) = on_tool_events(st1, es);
    (st2, out + more)
}

/// The block that is open is closed.
pub open spec fn closing(st: Turn) -> Seq<EventModel> {
    match st.tool_block {
        Some(block) => seq![EventModel::BlockStop { index: block }],
        None => if st.text_closed {
            seq![]
        } else {
            seq![EventModel::BlockStop { index: 0 }]
        },
    }
}

/// The whole block of a tool call that was written as text, from what its arguments parse to.
pub open spec fn call_block(block: usize, c: CallModel) -> Seq<EventModel> {
    let start = seq![
        EventModel::BlockStart { index: block, block: to_anthropic::tool_start(c.id, c.name) },
    ];
    let args = match json::json_parse(c.arguments) {
        Some(v) => seq![
            EventModel::BlockDelta {
                index: block,
                delta: to_anthropic::arguments_delta(json::json_text(v)),
            },
        ],
        None => Seq::<EventModel>::empty(),
    };
    start + args + seq![EventModel::BlockStop { index: block }]
}

/// The blocks of tool calls that were written as text, and the next index after them.
pub open spec fn call_blocks(next: usize, calls: Seq<CallModel>) -> (usize, Seq<EventModel>)
    decreases calls.len(),
{
    if calls.len() == 0 {
        (next, seq![])
    } else {
        let (n, out) = call_blocks(next, calls.drop_last());
        (events::succ(n), out + call_block(n, calls.last()))
    }
}

pub open spec fn usage(prompt: u32, completion: u32) -> AnthropicUsage {
    AnthropicUsage {
        input_tokens: prompt as u64,
        output_tokens: completion as u64,
        cache_creation_input_tokens: 0,
        cache_read_input_tokens: 0,
    }
}

/// The end of the message.
pub open spec fn ending(stop_reason: Seq<char>, u: AnthropicUsage) -> Seq<EventModel> {
    seq![
        EventModel::MessageDelta { stop_reason: Some(stop_reason), usage: u },
        EventModel::MessageStop,
    ]
}

/// The stop reason: tool calls count whatever the worker says of them.
pub open spec fn stop_reason_with(calls: Seq<CallModel>, reason: FinishReason) -> Seq<char> {
    if calls.len() > 0 {
        "tool_use"@
    } else {
        finish_reason::stop_reason_of(protocol::finish_word(reason))
    }
}

/// The events for the end of the worker's answer. `fallback` are the tool calls that were
/// written as text; they count where the worker gave none itself.
pub open spec fn on_done(
    st: Turn,
    reason: FinishReason,
    prompt: u32,
    completion: u32,
    fallback: Option<Seq<CallModel>>,
) -> Seq<EventModel> {
    let (st1, shown) = flushed(st);
    let calls = tool_calls::all_calls(st.gathered);
    let end = usage(prompt, completion);
    if calls.len() == 0 && fallback is Some {
        let parsed = fallback->Some_0;
        let close = if st.text_closed {
            Seq::<EventModel>::empty()
        } else {
            seq![EventModel::BlockStop { index: 0 }]
        };
        shown + close + call_blocks(st.next_block, parsed).1 + ending(
            stop_reason_with(parsed, reason),
            end,
        )
    } else {
        shown + closing(st1) + ending(stop_reason_with(calls, reason), end)
    }
}

/// The events for a worker that has gone silent: the answer is marked as incomplete.
pub open spec fn on_timeout(st: Turn) -> Seq<EventModel> {
    let (st1, shown) = flushed(st);
    shown + closing(st1) + ending("max_tokens"@, events::zero_usage())
}

/// A worker's answer on its way to an Anthropic client.
pub struct AnthropicTurn {
    full_text: String,
    tool_calls: Vec<ToolCall>,
    current_tool_call: Option<ToolCall>,
    current_tool_index: Option<u64>,
    pending_text: String,
    leaked: bool,
    text_closed: bool,
    tool_block: Option<usize>,
    next_block: usize,
}

impl View for AnthropicTurn {
    type V = Turn;

    closed spec fn view(&self) -> Turn {
        Turn {
            gathered: tool_calls::gathered(
                self.full_text,
                self.tool_calls@,
                self.current_tool_call,
                self.current_tool_index,
            ),
            pending: self.pending_text@,
            leaked: self.leaked,
            text_closed: self.text_closed,
            tool_block: self.tool_block,
            next_block: self.next_block,
        }
    }
}

pub fn next_index(n: usize) -> (r: usize)
    ensures
        r == events::succ(n),
{
    if n == usize::MAX {
        0
    } else {
        n + 1
    }
}

pub fn push_event(out: &mut Vec<AnthropicEvent>, e: AnthropicEvent)
    ensures
        events::event_models(final(out)@) == events::event_models(old(out)@).push(e@),
{
    proof {
        events::event_models_push(out@, e);
    }
    out.push(e);
}

pub fn push_text(out: &mut Vec<AnthropicEvent>, t: &str)
    ensures
        events::event_models(final(out)@) == events::event_models(old(out)@) + shown_text(t@),
{
    let ghost before = events::event_models(out@);
    if !t.is_empty() {
        let delta = Object::new().with("type", Json::text("text_delta")).with(
            "text",
            Json::text(t),
        );
        push_event(out, AnthropicEvent::BlockDelta { index: 0, delta: Json::Object(delta) });
    }
    assert(events::event_models(out@) =~= before + shown_text(t@));
}

pub fn push_tool_start(out: &mut Vec<AnthropicEvent>, index: usize, id: &str, name: &str)
    ensures
        events::event_models(final(out)@) == events::event_models(old(out)@).push(
            EventModel::BlockStart { index, block: to_anthropic::tool_start(id@, name@) },
        ),
{
    let block = Object::new().with("type", Json::text("tool_use")).with("id", Json::text(id)).with(
        "name",
        Json::text(name),
    ).with("input", Json::Object(Object::new()));
    push_event(out, AnthropicEvent::BlockStart { index, block: Json::Object(block) });
}

pub fn push_arguments(out: &mut Vec<AnthropicEvent>, index: usize, partial: &str)
    ensures
        events::event_models(final(out)@) == events::event_models(old(out)@).push(
            EventModel::BlockDelta { index, delta: to_anthropic::arguments_delta(partial@) },
        ),
{
    let delta = Object::new().with("type", Json::text("input_json_delta")).with(
        "partial_json",
        Json::text(partial),
    );
    push_event(out, AnthropicEvent::BlockDelta { index, delta: Json::Object(delta) });
}

pub fn push_ending(out: &mut Vec<AnthropicEvent>, stop_reason: String, u: AnthropicUsage)
    ensures
        events::event_models(final(out)@) == events::event_models(old(out)@) + ending(
            stop_reason@,
            u,
        ),
{
    let ghost before = events::event_models(out@);
    let ghost reason = stop_reason@;
    push_event(out, AnthropicEvent::MessageDelta { stop_reason: Some(stop_reason), usage: u });
    push_event(out, AnthropicEvent::MessageStop);
    assert(events::event_models(out@) =~= before + ending(reason, u));
}

/// The events for the blocks of tool calls that were written as text.
pub fn push_call_blocks(out: &mut Vec<AnthropicEvent>, next: usize, calls: &Vec<ToolCall>) -> (r: usize)
    ensures
        r == call_blocks(next, protocol::call_models(calls@)).0,
        events::event_models(final(out)@) == events::event_models(old(out)@) + call_blocks(
            next,
            protocol::call_models(calls@),
        ).1,
{
    let ghost all = protocol::call_models(calls@);
    let ghost before = events::event_models(out@);
    let mut n: usize = next;
    let mut i: usize = 0;
    assert(before + call_blocks(next, all.take(0)).1 =~= before);
    while i < calls.len()
        invariant
            i <= calls.len(),
            all == protocol::call_models(calls@),
            n == call_blocks(next, all.take(i as int)).0,
            events::event_models(out@) == before + call_blocks(next, all.take(i as int)).1,
        decreases calls.len() - i,
    {
        let call = &calls[i];
        proof {
            assert(all.take(i + 1).drop_last() =~= all.take(i as int));
            assert(all.take(i + 1).last() == call@);
        }
        let ghost mid = events::event_models(out@);
        push_tool_start(out, n, call.id.as_str(), call.function.name.as_str());
        match json::parse(call.function.arguments.as_str()) {
            Some(v) => {
                let args = json::render(&v);
                push_arguments(out, n, args.as_str());
            },
            None => {},
        }
        push_event(out, AnthropicEvent::BlockStop { index: n });
        proof {
            assert(events::event_models(out@) =~= mid + call_block(n, call@));
            assert(mid + call_block(n, call@) =~= before + call_blocks(next, all.take(i + 1)).1);
        }
        n = next_index(n);
        i = i + 1;
    }
    assert(all.take(all.len() as int) =~= all);
    n
}

impl AnthropicTurn {
    pub fn new() -> (r: AnthropicTurn)
        ensures
            r@ == initial_turn(),
    {
        let r = AnthropicTurn {
            full_text: String::new(),
            tool_calls: Vec::new(),
            current_tool_call: None,
            current_tool_index: None,
            pending_text: String::new(),
            leaked: false,
            text_closed: false,
            tool_block: None,
            next_block: 1,
        };
        assert(r@ =~= initial_turn()) by {
            assert(protocol::call_models(r.tool_calls@) =~= seq![]);
        }
        r
    }

    /// The events that open the message.
    pub fn open(request_id: &str, model: &str) -> (r: Vec<AnthropicEvent>)
        ensures
            events::event_models(r@) == opening(request_id@, model@),
    {
        let mut out: Vec<AnthropicEvent> = Vec::new();
        let block = Object::new().with("type", Json::text("text")).with("text", Json::text(""));
        push_event(
            &mut out,
            AnthropicEvent::MessageStart {
                id: text::concat("msg_", request_id),
                model: text::owned(model),
            },
        );
        push_event(&mut out, AnthropicEvent::BlockStart { index: 0, block: Json::Object(block) });
        assert(events::event_models(out@) =~= opening(request_id@, model@));
        out
    }

    fn flush(&mut self, out: &mut Vec<AnthropicEvent>)
        ensures
            final(self)@ == flushed(old(self)@).0,
            events::event_models(final(out)@) == events::event_models(old(out)@) + flushed(
                old(self)@,
            ).1,
    {
        if !self.leaked {
            push_text(out, self.pending_text.as_str());
            self.pending_text = String::new();
        } else {
            assert(events::event_models(out@) =~= events::event_models(old(out)@) + flushed(
                old(self)@,
            ).1);
        }
        assert(self@ =~= flushed(old(self)@).0);
    }

    fn take_text(&mut self, t: &Option<String>, out: &mut Vec<AnthropicEvent>)
        ensures
            final(self)@ == on_text(old(self)@, text::opt_text(*t)).0,
            events::event_models(final(out)@) == events::event_models(old(out)@) + on_text(
                old(self)@,
                text::opt_text(*t),
            ).1,
    {
        match t {
            Some(t) => {
                if !self.leaked {
                    self.pending_text.append(t.as_str());
                    if text::has_part(self.pending_text.as_str(), "<tool_call>") {
                        self.leaked = true;
                        self.pending_text = String::new();
                    } else {
                        let parts = holdback::hold_back(self.pending_text.as_str());
                        assert(Seq::<char>::empty() + parts.0@ =~= parts.0@);
                        push_text(out, parts.0.as_str());
                        self.pending_text = parts.1;
                    }
                }
            },
            None => {},
        }
        assert(self@ =~= on_text(old(self)@, text::opt_text(*t)).0);
        assert(events::event_models(out@) =~= events::event_models(old(out)@) + on_text(
            old(self)@,
            text::opt_text(*t),
        ).1);
    }

    fn take_tool_event(&mut self, e: &ToolStreamEvent, out: &mut Vec<AnthropicEvent>)
        ensures
            final(self)@ == on_tool_event(old(self)@, e@).0,
            events::event_models(final(out)@) == events::event_models(old(out)@) + on_tool_event(
                old(self)@,
                e@,
            ).1,
    {
        match e {
            ToolStreamEvent::Started { id, name } => {
                match self.tool_block {
                    Some(prev) => push_event(out, AnthropicEvent::BlockStop { index: prev }),
                    None => {
                        if !self.text_closed {
                            self.flush(out);
                            push_event(out, AnthropicEvent::BlockStop { index: 0 });
                            self.text_closed = true;
                        }
                    },
                }
                let block: usize = self.next_block;
                self.next_block = next_index(block);
                self.tool_block = Some(block);
                push_tool_start(out, block, id.as_str(), name.as_str());
            },
            ToolStreamEvent::ArgsDelta(args) => match self.tool_block {
                Some(block) => push_arguments(out, block, args.as_str()),
                None => {},
            },
        }
        assert(self@ =~= on_tool_event(old(self)@, e@).0);
        assert(events::event_models(out@) =~= events::event_models(old(out)@) + on_tool_event(
            old(self)@,
            e@,
        ).1);
    }

    /// Takes the new text and the tool events of a piece of the answer in, and gives out the
    /// events for the client.
    pub fn replay(&mut self, t: &Option<String>, es: &Vec<ToolStreamEvent>) -> (r: Vec<
        AnthropicEvent,
    >)
        ensures
            ({
                let (st1, out) = on_text(old(self)@, text::opt_text(*t));
                let (st2, more) = on_tool_events(st1, tool_calls::tool_event_models(es@));
                (final(self)@, events::event_models(r@)) == (st2, out + more)
            }),
    {
        let mut out: Vec<AnthropicEvent> = Vec::new();
        let ghost all = tool_calls::tool_event_models(es@);
        self.take_text(t, &mut out);
        let ghost st1 = self@;
        let ghost out1 = events::event_models(out@);
        assert(out1 =~= on_text(old(self)@, text::opt_text(*t)).1);
        let mut i: usize = 0;
        assert(out1 + on_tool_events(st1, all.take(0)).1 =~= out1);
        while i < es.len()
            invariant
                i <= es.len(),
                all == tool_calls::tool_event_models(es@),
                self@ == on_tool_events(st1, all.take(i as int)).0,
                events::event_models(out@) == out1 + on_tool_events(st1, all.take(i as int)).1,
            decreases es.len() - i,
        {
            proof {
                assert(all.take(i + 1).drop_last() =~= all.take(i as int));
                assert(all.take(i + 1).last() == es@[i as int]@);
            }
            let ghost mid = on_tool_events(st1, all.take(i as int)).1;
            let ghost st = self@;
            self.take_tool_event(&es[i], &mut out);
            assert((out1 + mid) + on_tool_event(st, es@[i as int]@).1 =~= out1 + on_tool_events(
                st1,
                all.take(i + 1),
            ).1);
            i = i + 1;
        }
        assert(all.take(all.len() as int) =~= all);
        out
    }

    /// Takes a line of the worker's output in, and gives out the events for the client.
    pub fn on_chunk(&mut self, line: &str) -> (r: Vec<AnthropicEvent>)
        ensures
            exists|fresh: Seq<Seq<char>>|
                #[trigger] tool_calls::fresh_for_line(line@, fresh) && (
                    final(self)@,
                    events::event_models(r@),
                ) == on_line(old(self)@, line@, fresh),
    {
        let got = tool_calls::accumulate_delta(
            line,
            &mut self.full_text,
            &mut self.tool_calls,
            &mut self.current_tool_call,
            &mut self.current_tool_index,
        );
        let ghost fresh = choose|fresh: Seq<Seq<char>>|
            #[trigger] tool_calls::fresh_for_line(line@, fresh) && (
                self@.gathered,
                tool_calls::tool_event_models(got.1@),
            ) == tool_calls::on_line(old(self)@.gathered, line@, fresh);
        proof {
            assert(self@ =~= Turn {
                gathered: tool_calls::on_line(old(self)@.gathered, line@, fresh).0,
                ..old(self)@
            });
        }
        let r = self.replay(&got.0, &got.1);
        assert(tool_calls::fresh_for_line(line@, fresh));
        r
    }

    /// All tool calls that the worker gave, that in progress last.
    fn settle(&mut self)
        ensures
            final(self)@ == (Turn {
                gathered: Gathered {
                    calls: tool_calls::all_calls(old(self)@.gathered),
                    current: None,
                    ..old(self)@.gathered
                },
                ..old(self)@
            }),
    {
        match self.current_tool_call.take() {
            Some(last) => {
                proof {
                    protocol::call_models_push(self.tool_calls@, last);
                }
                self.tool_calls.push(last);
            },
            None => {},
        }
        assert(self@ =~= Turn {
            gathered: Gathered {
                calls: tool_calls::all_calls(old(self)@.gathered),
                current: None,
                ..old(self)@.gathered
            },
            ..old(self)@
        });
    }

    /// The events for the end of the worker's answer, with the tool calls that the text holds.
    pub fn finish_with(&mut self, done: &DoneMessage, fallback: Option<Vec<ToolCall>>) -> (r: Vec<
        AnthropicEvent,
    >)
        ensures
            events::event_models(r@) == on_done(
                old(self)@,
                done.finish_reason,
                done.prompt_tokens,
                done.comp_tokens,
                protocol::opt_call_models(fallback),
            ),
    {
        let mut out: Vec<AnthropicEvent> = Vec::new();
        let ghost st = self@;
        self.flush(&mut out);
        let ghost shown = events::event_models(out@);
        assert(shown =~= flushed(st).1);
        self.settle();
        let ghost calls = tool_calls::all_calls(st.gathered);
        assert(protocol::call_models(self.tool_calls@) == calls);
        assert(protocol::call_models(self.tool_calls@).len() == self.tool_calls@.len());
        let u = AnthropicUsage {
            input_tokens: done.prompt_tokens as u64,
            output_tokens: done.comp_tokens as u64,
            cache_creation_input_tokens: 0,
            cache_read_input_tokens: 0,
        };
        if self.tool_calls.len() == 0 {
            match fallback {
                Some(parsed) => {
                    let ghost found = protocol::call_models(parsed@);
                    if !self.text_closed {
                        push_event(&mut out, AnthropicEvent::BlockStop { index: 0 });
                    }
                    let next: usize = self.next_block;
                    self.next_block = push_call_blocks(&mut out, next, &parsed);
                    let reason = if parsed.len() > 0 {
                        text::owned("tool_use")
                    } else {
                        finish_reason::openai_finish_reason_to_anthropic_stop_reason(
                            done.finish_reason.as_str(),
                        )
                    };
                    assert(found.len() == parsed@.len());
                    push_ending(&mut out, reason, u);
                    assert(events::event_models(out@) =~= on_done(
                        st,
                        done.finish_reason,
                        done.prompt_tokens,
                        done.comp_tokens,
                        Some(found),
                    ));
                    return out;
                },
                None => {},
            }
        }
        match self.tool_block {
            Some(block) => push_event(&mut out, AnthropicEvent::BlockStop { index: block }),
            None => {
                if !self.text_closed {
                    push_event(&mut out, AnthropicEvent::BlockStop { index: 0 });
                }
            },
        }
        let reason = if self.tool_calls.len() > 0 {
            text::owned("tool_use")
        } else {
            finish_reason::openai_finish_reason_to_anthropic_stop_reason(
                done.finish_reason.as_str(),
            )
        };
        push_ending(&mut out, reason, u);
        assert(events::event_models(out@) =~= on_done(
            st,
            done.finish_reason,
            done.prompt_tokens,
            done.comp_tokens,
            protocol::opt_call_models(fallback),
        ));
        out
    }

    /// The events for the end of the worker's answer. Where the worker gave no tool calls, those
    /// that it wrote as text count.
    pub fn on_done(&mut self, done: &DoneMessage) -> (r: Vec<AnthropicEvent>)
        ensures
            exists|id: Seq<char>|
                #[trigger] tool_calls::is_short_id("toolu_"@, id) && events::event_models(r@)
                    == on_done(
                    old(self)@,
                    done.finish_reason,
                    done.prompt_tokens,
                    done.comp_tokens,
                    tool_calls::calls_in(
                        json::json_parse(old(self)@.gathered.text),
                        tool_calls::tag_parse(old(self)@.gathered.text),
                        id,
                    ),
                ),
    {
        let fallback = tool_calls::parse_tool_calls_from_text(self.full_text.as_str());
        self.finish_with(done, fallback)
    }

    /// The events for a worker that has gone silent.
    pub fn on_timeout(&mut self) -> (r: Vec<AnthropicEvent>)
        ensures
            events::event_models(r@) == on_timeout(old(self)@),
    {
        let mut out: Vec<AnthropicEvent> = Vec::new();
        let ghost st = self@;
        self.flush(&mut out);
        match self.tool_block {
            Some(block) => push_event(&mut out, AnthropicEvent::BlockStop { index: block }),
            None => {
                if !self.text_closed {
                    push_event(&mut out, AnthropicEvent::BlockStop { index: 0 });
                }
            },
        }
        let u = AnthropicUsage {
            input_tokens: 0,
            output_tokens: 0,
            cache_creation_input_tokens: 0,
            cache_read_input_tokens: 0,
        };
        push_ending(&mut out, text::owned("max_tokens"), u);
        assert(events::event_models(out@) =~= on_timeout(st));
        out
    }

    /// The event for a worker that is gone.
    pub fn on_disconnect(&self) -> (r: Vec<AnthropicEvent>)
        ensures
            events::event_models(r@) == seq![EventModel::MessageStop],
    {
        let mut out: Vec<AnthropicEvent> = Vec::new();
        push_event(&mut out, AnthropicEvent::MessageStop);
        assert(events::event_models(out@) =~= seq![EventModel::MessageStop]);
        out
    }
}

// ── Laws ────────────────────────────────────────────────────────────────────

/// Everything that a list of lines sends.
pub open spec fn run(st: Turn, lines: Seq<Seq<char>>, fresh: Seq<Seq<Seq<char>>>) -> (
    Turn,
    Seq<EventModel>,
)
    decreases lines.len(),
{
    if lines.len() == 0 {
        (st, seq![])
    } else {
        let (st1, out) = run(st, lines.drop_last(), fresh);
        let (st2, more) = on_line(st1, lines.last(), fresh[lines.len() - 1]);
        (st2, out + more)
    }
}

/// How a reader of the stream sees its state: the open tool block, or the text block until it
/// is closed.
pub open spec fn framing_of(st: Turn) -> events::Framing {
    events::Framing {
        open: match st.tool_block {
            Some(b) => Some(b),
            None => if st.text_closed {
                None
            } else {
                Some(0)
            },
        },
        next: st.next_block,
        ok: true,
    }
}

/// Whether the text block is the one that is open, so that text has its place.
pub open spec fn text_has_place(st: Turn) -> bool {
    framing_of(st).open == Some(0usize)
}

/// Text is shown once the text block is closed, while the lines come.
pub open spec fn shows_late(st: Turn, lines: Seq<Seq<char>>, fresh: Seq<Seq<Seq<char>>>) -> bool
    decreases lines.len(),
{
    lines.len() > 0 && (shows_late(st, lines.drop_last(), fresh) || {
        let st1 = run(st, lines.drop_last(), fresh).0;
        !text_has_place(st1) && on_text(st1, tool_calls::line_text(lines.last())).1.len() > 0
    })
}

/// Text that was held back is shown at the end, once the text block is closed.
pub open spec fn flushes_late(st: Turn) -> bool {
    !text_has_place(st) && flushed(st).1.len() > 0
}

proof fn texts_are_framed(f: events::Framing, t: Seq<char>)
    ensures
        events::see_all_blocks(f, shown_text(t)) == f,
        events::deltas_in_place(f, shown_text(t)) == (shown_text(t).len() == 0 || f.open == Some(
            0usize,
        )),
{
    reveal_with_fuel(events::see_all_blocks, 2);
    reveal_with_fuel(events::deltas_in_place, 2);
    if t.len() > 0 {
        assert(shown_text(t).drop_last().len() == 0);
    }
}

proof fn on_text_is_framed(st: Turn, t: Option<Seq<char>>)
    ensures
        events::see_all_blocks(framing_of(st), on_text(st, t).1) == framing_of(st),
        framing_of(on_text(st, t).0) == framing_of(st),
        events::deltas_in_place(framing_of(st), on_text(st, t).1) == (on_text(st, t).1.len() == 0
            || text_has_place(st)),
{
    reveal_with_fuel(events::deltas_in_place, 1);
    if t is Some {
        texts_are_framed(framing_of(st), shown_of(st, t->Some_0).shown);
    }
}

/// Whether a block is open.
pub open spec fn has_open_block(st: Turn) -> bool {
    st.tool_block is Some || !st.text_closed
}

proof fn on_tool_event_is_framed(st: Turn, e: ToolEventModel)
    requires
        has_open_block(st),
    ensures
        events::see_all_blocks(framing_of(st), on_tool_event(st, e).1) == framing_of(
            on_tool_event(st, e).0,
        ),
        events::deltas_in_place(framing_of(st), on_tool_event(st, e).1),
        has_open_block(on_tool_event(st, e).0),
{
    reveal_with_fuel(events::see_all_blocks, 2);
    reveal_with_fuel(events::deltas_in_place, 4);
    let (st2, out) = on_tool_event(st, e);
    let f = framing_of(st);
    match e {
        ToolEventModel::Started { id, name } => {
            let start = EventModel::BlockStart {
                index: st.next_block,
                block: to_anthropic::tool_start(id, name),
            };
            match st.tool_block {
                Some(prev) => {
                    let stop = seq![EventModel::BlockStop { index: prev }];
                    assert(stop.drop_last().len() == 0);
                    assert(out == stop.push(start));
                    events::see_all_blocks_push(f, stop, start);
                    assert(stop.push(start).drop_last() =~= stop);
                },
                None => {
                    let shown = flushed(st).1;
                    if !st.leaked {
                        texts_are_framed(f, st.pending);
                    }
                    let stop = EventModel::BlockStop { index: 0 };
                    events::see_all_blocks_push(f, shown, stop);
                    events::see_all_blocks_push(f, shown.push(stop), start);
                    assert(shown.push(stop).drop_last() =~= shown);
                    assert(shown.push(stop).push(start).drop_last() =~= shown.push(stop));
                },
            }
        },
        ToolEventModel::ArgsDelta(a) => {
            if st.tool_block is Some {
                assert(out.drop_last().len() == 0);
            }
        },
    }
}

proof fn on_tool_events_is_framed(st: Turn, es: Seq<ToolEventModel>)
    requires
        has_open_block(st),
    ensures
        events::see_all_blocks(framing_of(st), on_tool_events(st, es).1) == framing_of(
            on_tool_events(st, es).0,
        ),
        events::deltas_in_place(framing_of(st), on_tool_events(st, es).1),
        has_open_block(on_tool_events(st, es).0),
    decreases es.len(),
{
    if es.len() > 0 {
        let (st1, out) = on_tool_events(st, es.drop_last());
        on_tool_events_is_framed(st, es.drop_last());
        on_tool_event_is_framed(st1, es.last());
        events::see_all_blocks_add(framing_of(st), out, on_tool_event(st1, es.last()).1);
        events::deltas_in_place_add(framing_of(st), out, on_tool_event(st1, es.last()).1);
    }
}

proof fn on_line_is_framed(st: Turn, line: Seq<char>, fresh: Seq<Seq<char>>)
    requires
        has_open_block(st),
    ensures
        events::see_all_blocks(framing_of(st), on_line(st, line, fresh).1) == framing_of(
            on_line(st, line, fresh).0,
        ),
        events::deltas_in_place(framing_of(st), on_line(st, line, fresh).1) == (text_has_place(st)
            || on_text(st, tool_calls::line_text(line)).1.len() == 0),
        has_open_block(on_line(st, line, fresh).0),
{
    let (g, es) = tool_calls::on_line(st.gathered, line, fresh);
    let st0 = Turn { gathered: g, ..st };
    let t = tool_calls::line_text(line);
    let (st1, out) = on_text(st0, t);
    on_text_is_framed(st0, t);
    on_tool_events_is_framed(st1, es);
    events::see_all_blocks_add(framing_of(st0), out, on_tool_events(st1, es).1);
    events::deltas_in_place_add(framing_of(st0), out, on_tool_events(st1, es).1);
    assert(out == on_text(st, t).1);
}

proof fn run_is_framed(st: Turn, lines: Seq<Seq<char>>, fresh: Seq<Seq<Seq<char>>>)
    requires
        has_open_block(st),
    ensures
        events::see_all_blocks(framing_of(st), run(st, lines, fresh).1) == framing_of(
            run(st, lines, fresh).0,
        ),
        events::deltas_in_place(framing_of(st), run(st, lines, fresh).1) == !shows_late(
            st,
            lines,
            fresh,
        ),
        has_open_block(run(st, lines, fresh).0),
    decreases lines.len(),
{
    if lines.len() > 0 {
        let (st1, out) = run(st, lines.drop_last(), fresh);
        let f = fresh[lines.len() - 1];
        run_is_framed(st, lines.drop_last(), fresh);
        on_line_is_framed(st1, lines.last(), f);
        events::see_all_blocks_add(framing_of(st), out, on_line(st1, lines.last(), f).1);
        events::deltas_in_place_add(framing_of(st), out, on_line(st1, lines.last(), f).1);
    }
}

proof fn call_blocks_are_framed(next: usize, calls: Seq<CallModel>)
    ensures
        events::see_all_blocks(
            events::Framing { open: None, next, ok: true },
            call_blocks(next, calls).1,
        ) == (events::Framing { open: None, next: call_blocks(next, calls).0, ok: true }),
        events::deltas_in_place(
            events::Framing { open: None, next, ok: true },
            call_blocks(next, calls).1,
        ),
    decreases calls.len(),
{
    let f = events::Framing { open: None, next, ok: true };
    if calls.len() > 0 {
        let (n, out) = call_blocks(next, calls.drop_last());
        call_blocks_are_framed(next, calls.drop_last());
        let c = calls.last();
        let g = events::Framing { open: None, next: n, ok: true };
        let block = call_block(n, c);
        reveal_with_fuel(events::see_all_blocks, 4);
        reveal_with_fuel(events::deltas_in_place, 4);
        assert(block.len() == 2 || block.len() == 3);
        if block.len() == 2 {
            assert(block.drop_last() =~= seq![block[0]]);
            assert(seq![block[0]].drop_last().len() == 0);
        } else {
            assert(block.drop_last() =~= seq![block[0], block[1]]);
            assert(seq![block[0], block[1]].drop_last() =~= seq![block[0]]);
            assert(seq![block[0]].drop_last().len() == 0);
        }
        events::see_all_blocks_add(f, out, block);
        events::deltas_in_place_add(f, out, block);
    }
}

proof fn ending_is_framed(f: events::Framing, reason: Seq<char>, u: AnthropicUsage)
    ensures
        events::see_all_blocks(f, ending(reason, u)) == f,
        events::deltas_in_place(f, ending(reason, u)),
{
    reveal_with_fuel(events::see_all_blocks, 3);
    reveal_with_fuel(events::deltas_in_place, 3);
    let e = ending(reason, u);
    assert(e.drop_last() =~= seq![e[0]]);
    assert(seq![e[0]].drop_last().len() == 0);
}

proof fn closing_is_framed(st: Turn)
    requires
        has_open_block(st),
    ensures
        events::see_all_blocks(framing_of(st), closing(st)) == (events::Framing {
            open: None,
            next: st.next_block,
            ok: true,
        }),
        events::deltas_in_place(framing_of(st), closing(st)),
{
    reveal_with_fuel(events::see_all_blocks, 2);
    reveal_with_fuel(events::deltas_in_place, 2);
    assert(closing(st).drop_last().len() == 0);
}

proof fn opening_is_framed(id: Seq<char>, model: Seq<char>)
    ensures
        events::see_all_blocks(events::no_block_yet(), opening(id, model)) == framing_of(
            initial_turn(),
        ),
        events::deltas_in_place(events::no_block_yet(), opening(id, model)),
{
    reveal_with_fuel(events::see_all_blocks, 3);
    reveal_with_fuel(events::deltas_in_place, 3);
    let o = opening(id, model);
    assert(o.drop_last() =~= seq![o[0]]);
    assert(seq![o[0]].drop_last().len() == 0);
}

proof fn whole_is_framed(
    id: Seq<char>,
    model: Seq<char>,
    lines: Seq<Seq<char>>,
    fresh: Seq<Seq<Seq<char>>>,
    body: Seq<EventModel>,
    reason: Seq<char>,
    u: AnthropicUsage,
)
    requires
        ({
            let st = run(initial_turn(), lines, fresh).0;
            let f = events::see_all_blocks(framing_of(st), body);
            f.ok && f.open is None
        }),
    ensures
        events::blocks_well_framed(
            opening(id, model) + run(initial_turn(), lines, fresh).1 + (body + ending(reason, u)),
        ),
        events::well_framed(
            opening(id, model) + run(initial_turn(), lines, fresh).1 + (body + ending(reason, u)),
        ) == (!shows_late(initial_turn(), lines, fresh) && events::deltas_in_place(
            framing_of(run(initial_turn(), lines, fresh).0),
            body,
        )),
{
    let (st, out) = run(initial_turn(), lines, fresh);
    let f0 = events::no_block_yet();
    let o = opening(id, model);
    let e = ending(reason, u);
    opening_is_framed(id, model);
    run_is_framed(initial_turn(), lines, fresh);
    events::see_all_blocks_add(f0, o, out);
    events::see_all_blocks_add(f0, o + out, body + e);
    events::see_all_blocks_add(framing_of(st), body, e);
    events::deltas_in_place_add(f0, o, out);
    events::deltas_in_place_add(f0, o + out, body + e);
    events::deltas_in_place_add(framing_of(st), body, e);
    events::well_framed_is_in_place(o + out + (body + e));
    ending_is_framed(events::see_all_blocks(framing_of(st), body), reason, u);
    let all = o + out + (body + e);
    assert(all.first() == o[0]);
    assert(all.last() == e[1]);
    assert(all[all.len() - 2] == e[0]);
}

/// Whatever the worker sends, a stream that the worker ends has its blocks strictly one after
/// the other, each closed once and before the next, and ends with a stop reason. It can be
/// followed in full exactly if no text is shown once the text block is closed: such text still
/// goes to that block.
pub proof fn finished_stream_is_well_framed(
    id: Seq<char>,
    model: Seq<char>,
    lines: Seq<Seq<char>>,
    fresh: Seq<Seq<Seq<char>>>,
    reason: FinishReason,
    prompt: u32,
    completion: u32,
    fallback: Option<Seq<CallModel>>,
)
    ensures
        ({
            let (st, out) = run(initial_turn(), lines, fresh);
            let all = opening(id, model) + out + on_done(st, reason, prompt, completion, fallback);
            &&& events::blocks_well_framed(all)
            &&& events::well_framed(all) <==> !shows_late(initial_turn(), lines, fresh)
                && !flushes_late(st)
        }),
{
    let (st, out) = run(initial_turn(), lines, fresh);
    run_is_framed(initial_turn(), lines, fresh);
    let f = framing_of(st);
    let (st1, shown) = flushed(st);
    if !st.leaked {
        texts_are_framed(f, st.pending);
    } else {
        reveal_with_fuel(events::see_all_blocks, 1);
        reveal_with_fuel(events::deltas_in_place, 1);
    }
    let calls = tool_calls::all_calls(st.gathered);
    run_keeps_calls(initial_turn(), lines, fresh);
    if calls.len() == 0 && fallback is Some {
        let parsed = fallback->Some_0;
        assert(st.tool_block is None);
        let close = closing(st1);
        closing_is_framed(st1);
        events::see_all_blocks_add(f, shown, close);
        events::deltas_in_place_add(f, shown, close);
        call_blocks_are_framed(st.next_block, parsed);
        let blocks = call_blocks(st.next_block, parsed).1;
        events::see_all_blocks_add(f, shown + close, blocks);
        events::deltas_in_place_add(f, shown + close, blocks);
        let r = stop_reason_with(parsed, reason);
        whole_is_framed(
            id,
            model,
            lines,
            fresh,
            shown + close + blocks,
            r,
            usage(prompt, completion),
        );
    } else {
        closing_is_framed(st1);
        events::see_all_blocks_add(f, shown, closing(st1));
        events::deltas_in_place_add(f, shown, closing(st1));
        whole_is_framed(
            id,
            model,
            lines,
            fresh,
            shown + closing(st1),
            stop_reason_with(calls, reason),
            usage(prompt, completion),
        );
    }
}

/// A stream that breaks off because the worker has gone silent is closed just as properly, and
/// can be followed in full in the same cases.
pub proof fn timed_out_stream_is_well_framed(
    id: Seq<char>,
    model: Seq<char>,
    lines: Seq<Seq<char>>,
    fresh: Seq<Seq<Seq<char>>>,
)
    ensures
        ({
            let (st, out) = run(initial_turn(), lines, fresh);
            let all = opening(id, model) + out + on_timeout(st);
            &&& events::blocks_well_framed(all)
            &&& events::well_framed(all) <==> !shows_late(initial_turn(), lines, fresh)
                && !flushes_late(st)
        }),
{
    let (st, out) = run(initial_turn(), lines, fresh);
    run_is_framed(initial_turn(), lines, fresh);
    let f = framing_of(st);
    let (st1, shown) = flushed(st);
    if !st.leaked {
        texts_are_framed(f, st.pending);
    } else {
        reveal_with_fuel(events::see_all_blocks, 1);
        reveal_with_fuel(events::deltas_in_place, 1);
    }
    closing_is_framed(st1);
    events::see_all_blocks_add(f, shown, closing(st1));
    events::deltas_in_place_add(f, shown, closing(st1));
    whole_is_framed(
        id,
        model,
        lines,
        fresh,
        shown + closing(st1),
        "max_tokens"@,
        events::zero_usage(),
    );
}

/// No text comes once a tool call has been started.
pub open spec fn text_comes_first(lines: Seq<Seq<char>>, fresh: Seq<Seq<Seq<char>>>) -> bool {
    forall|i: int|
        0 <= i < lines.len() && (#[trigger] run(
            initial_turn(),
            lines.take(i),
            fresh,
        )).0.tool_block is Some ==> json::or_empty(tool_calls::line_text(lines[i])).len() == 0
}

/// Once a tool call has been started, the text block is closed and nothing is left to be shown.
pub open spec fn nothing_is_left(st: Turn) -> bool {
    &&& st.tool_block is None ==> !st.text_closed
    &&& st.tool_block is Some ==> st.leaked || st.pending.len() == 0
}

proof fn tool_events_leave_nothing(st: Turn, es: Seq<ToolEventModel>)
    requires
        nothing_is_left(st),
    ensures
        nothing_is_left(on_tool_events(st, es).0),
    decreases es.len(),
{
    if es.len() > 0 {
        tool_events_leave_nothing(st, es.drop_last());
    }
}

proof fn first_text_is_never_late(lines: Seq<Seq<char>>, fresh: Seq<Seq<Seq<char>>>)
    requires
        text_comes_first(lines, fresh),
    ensures
        !shows_late(initial_turn(), lines, fresh),
        nothing_is_left(run(initial_turn(), lines, fresh).0),
    decreases lines.len(),
{
    if lines.len() > 0 {
        let rest = lines.drop_last();
        assert forall|i: int|
            0 <= i < rest.len() && (#[trigger] run(
                initial_turn(),
                rest.take(i),
                fresh,
            )).0.tool_block is Some implies json::or_empty(
            tool_calls::line_text(rest[i]),
        ).len() == 0 by {
            assert(rest.take(i) =~= lines.take(i));
            assert(run(initial_turn(), lines.take(i), fresh).0.tool_block is Some);
        }
        first_text_is_never_late(rest, fresh);
        let n = lines.len() - 1;
        assert(lines.take(n) =~= rest);
        let st = run(initial_turn(), rest, fresh).0;
        assert(run(initial_turn(), lines.take(n), fresh).0 == st);
        let t = tool_calls::line_text(lines.last());
        if st.tool_block is Some {
            assert(json::or_empty(tool_calls::line_text(lines[n])).len() == 0);
            if !st.leaked && t is Some {
                let p = st.pending + t->Some_0;
                holdback::held_bounds(p, holdback::TOOL_TAG_HOLDBACK as int);
                assert(p.len() == 0);
            }
        }
        let (g, es) = tool_calls::on_line(st.gathered, lines.last(), fresh[n]);
        let st0 = Turn { gathered: g, ..st };
        tool_events_leave_nothing(on_text(st0, t).0, es);
    }
}

/// A stream whose text comes before its tool calls can be followed in full, whether the worker
/// ends it or goes silent.
pub proof fn text_before_calls_is_well_framed(
    id: Seq<char>,
    model: Seq<char>,
    lines: Seq<Seq<char>>,
    fresh: Seq<Seq<Seq<char>>>,
    reason: FinishReason,
    prompt: u32,
    completion: u32,
    fallback: Option<Seq<CallModel>>,
)
    requires
        text_comes_first(lines, fresh),
    ensures
        ({
            let (st, out) = run(initial_turn(), lines, fresh);
            &&& events::well_framed(
                opening(id, model) + out + on_done(st, reason, prompt, completion, fallback),
            )
            &&& events::well_framed(opening(id, model) + out + on_timeout(st))
        }),
{
    first_text_is_never_late(lines, fresh);
    finished_stream_is_well_framed(
        id,
        model,
        lines,
        fresh,
        reason,
        prompt,
        completion,
        fallback,
    );
    timed_out_stream_is_well_framed(id, model, lines, fresh);
}

/// Where pieces of text lead, and all that they show.
pub open spec fn shown_by(st: Turn, pieces: Seq<Seq<char>>) -> (Turn, Seq<char>)
    decreases pieces.len(),
{
    if pieces.len() == 0 {
        (st, seq![])
    } else {
        let (st1, shown) = shown_by(st, pieces.drop_last());
        (on_text(st1, Some(pieces.last())).0, shown + shown_of(st1, pieces.last()).shown)
    }
}

proof fn shown_by_is_held_back(pieces: Seq<Seq<char>>)
    ensures
        ({
            let (st, shown) = shown_by(initial_turn(), pieces);
            holdback::with_pieces(holdback::nothing_shown(), pieces) == (holdback::Shown {
                shown,
                pending: st.pending,
                leaked: st.leaked,
            })
        }),
    decreases pieces.len(),
{
    if pieces.len() > 0 {
        shown_by_is_held_back(pieces.drop_last());
        let (st, shown) = shown_by(initial_turn(), pieces.drop_last());
        let p = st.pending + pieces.last();
        assert(shown + (Seq::<char>::empty() + holdback::showable(p)) =~= shown
            + holdback::showable(p));
        assert(shown + Seq::<char>::empty() =~= shown);
    }
}

/// As long as the answer is text, a client never sees a `<tool_call>` tag, however the worker
/// cuts the text into pieces, and also when what is held back is shown at the end.
pub proof fn client_never_sees_the_tag(pieces: Seq<Seq<char>>)
    ensures
        ({
            let (st, shown) = shown_by(initial_turn(), pieces);
            !text::contains(shown + st.pending, "<tool_call>"@)
        }),
{
    shown_by_is_held_back(pieces);
    holdback::tag_is_never_shown(pieces);
}

/// A tool block is open only once a tool call has been gathered.
pub open spec fn tool_block_has_call(st: Turn) -> bool {
    st.tool_block is Some ==> st.gathered.current is Some
}

proof fn events_need_current(st: Turn, es: Seq<ToolEventModel>)
    requires
        st.tool_block is Some ==> st.gathered.current is Some,
        (exists|i: int| 0 <= i < es.len() && #[trigger] es[i] is Started) ==> st.gathered.current is Some,
    ensures
        tool_block_has_call(on_tool_events(st, es).0),
        on_tool_events(st, es).0.gathered == st.gathered,
    decreases es.len(),
{
    if es.len() > 0 {
        let rest = es.drop_last();
        if exists|i: int| 0 <= i < rest.len() && #[trigger] rest[i] is Started {
            let i = choose|i: int| 0 <= i < rest.len() && #[trigger] rest[i] is Started;
            assert(es[i] is Started);
        }
        events_need_current(st, rest);
        if es.last() is Started {
            assert(es[es.len() - 1] is Started);
        }
    }
}

proof fn entries_keep_current(g: Gathered, entries: Seq<JsonModel>, fresh: Seq<Seq<char>>)
    ensures
        g.current is Some ==> tool_calls::on_entries(g, entries, fresh).0.current is Some,
        ({
            let (g2, es) = tool_calls::on_entries(g, entries, fresh);
            (exists|i: int| 0 <= i < es.len() && #[trigger] es[i] is Started) ==> g2.current is Some
        }),
    decreases entries.len(),
{
    if entries.len() > 0 {
        let (g1, out) = tool_calls::on_entries(g, entries.drop_last(), fresh);
        entries_keep_current(g, entries.drop_last(), fresh);
        let (g2, more) = tool_calls::on_entry(g1, entries.last(), fresh[entries.len() - 1]);
        let es = out + more;
        if exists|i: int| 0 <= i < es.len() && #[trigger] es[i] is Started {
            let i = choose|i: int| 0 <= i < es.len() && #[trigger] es[i] is Started;
            if i < out.len() {
                assert(out[i] is Started);
            } else {
                assert(more[i - out.len()] is Started);
            }
        }
    }
}

proof fn run_keeps_calls(st: Turn, lines: Seq<Seq<char>>, fresh: Seq<Seq<Seq<char>>>)
    requires
        tool_block_has_call(st),
    ensures
        tool_block_has_call(run(st, lines, fresh).0),
    decreases lines.len(),
{
    if lines.len() > 0 {
        run_keeps_calls(st, lines.drop_last(), fresh);
        let st0 = run(st, lines.drop_last(), fresh).0;
        let line = lines.last();
        let f = fresh[lines.len() - 1];
        let (g, es) = tool_calls::on_line(st0.gathered, line, f);
        if tool_calls::line_data(line) is Some && json::json_parse(
            tool_calls::line_data(line)->Some_0,
        ) is Some {
            let v = json::json_parse(tool_calls::line_data(line)->Some_0)->Some_0;
            let g0 = Gathered {
                text: st0.gathered.text + json::or_empty(tool_calls::new_text(v)),
                ..st0.gathered
            };
            entries_keep_current(g0, tool_calls::entries_of(v), f);
        }
        let st1 = on_text(Turn { gathered: g, ..st0 }, tool_calls::line_text(line)).0;
        events_need_current(st1, es);
    }
}

} // verus!
