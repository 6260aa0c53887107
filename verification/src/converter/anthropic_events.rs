//! The events of an Anthropic message stream.
use vstd::prelude::*;

use crate::converter::types::AnthropicUsage;
use crate::json::{self, Json, JsonModel, Object};
use crate::text;

verus! {

/// One event of an Anthropic message stream.
pub enum AnthropicEvent {
    MessageStart { id: String, model: String },
    BlockStart { index: usize, block: Json },
    BlockDelta { index: usize, delta: Json },
    BlockStop { index: usize },
    MessageDelta { stop_reason: Option<String>, usage: AnthropicUsage },
    MessageStop,
    Ping,
    Error { kind: String, message: String },
}

#[verifier::ext_equal]
pub enum EventModel {
    MessageStart { id: Seq<char>, model: Seq<char> },
    BlockStart { index: usize, block: JsonModel },
    BlockDelta { index: usize, delta: JsonModel },
    BlockStop { index: usize },
    MessageDelta { stop_reason: Option<Seq<char>>, usage: AnthropicUsage },
    MessageStop,
    Ping,
    Error { kind: Seq<char>, message: Seq<char> },
}

impl View for AnthropicEvent {
    type V = EventModel;

    open spec fn view(&self) -> EventModel {
        match *self {
            AnthropicEvent::MessageStart { id, model } => EventModel::MessageStart {
                id: id@,
                model: model@,
            },
            AnthropicEvent::BlockStart { index, block } => EventModel::BlockStart {
                index,
                block: block@,
            },
            AnthropicEvent::BlockDelta { index, delta } => EventModel::BlockDelta {
                index,
                delta: delta@,
            },
            AnthropicEvent::BlockStop { index } => EventModel::BlockStop { index },
            AnthropicEvent::MessageDelta { stop_reason, usage } => EventModel::MessageDelta {
                stop_reason: text::opt_text(stop_reason),
                usage,
            },
            AnthropicEvent::MessageStop => EventModel::MessageStop,
            AnthropicEvent::Ping => EventModel::Ping,
            AnthropicEvent::Error { kind, message } => EventModel::Error {
                kind: kind@,
                message: message@,
            },
        }
    }
}

pub open spec fn event_models(s: Seq<AnthropicEvent>) -> Seq<EventModel> {
    s.map_values(|e: AnthropicEvent| e@)
}

pub proof fn event_models_push(s: Seq<AnthropicEvent>, e: AnthropicEvent)
    ensures
        event_models(s.push(e)) == event_models(s).push(e@),
{
    assert(event_models(s.push(e)) =~= event_models(s).push(e@));
}

pub proof fn event_models_add(a: Seq<AnthropicEvent>, b: Seq<AnthropicEvent>)
    ensures
        event_models(a + b) == event_models(a) + event_models(b),
{
    assert(event_models(a + b) =~= event_models(a) + event_models(b));
}

// ── What the events hold ────────────────────────────────────────────────────

/// The text of an event.
pub open spec fn event_frame(name: Seq<char>, data: JsonModel) -> Seq<char> {
    "event: "@ + name + "\ndata: "@ + json::json_text(data) + "\n\n"@
}

pub open spec fn typed(kind: Seq<char>) -> Map<Seq<char>, JsonModel> {
    json::nothing().insert("type"@, JsonModel::Str(kind))
}

pub open spec fn usage_model(u: AnthropicUsage) -> JsonModel {
    JsonModel::Object(
        json::nothing().insert("input_tokens"@, json::number(u.input_tokens)).insert(
            "output_tokens"@,
            json::number(u.output_tokens),
        ).insert(
            "cache_creation_input_tokens"@,
            json::number(u.cache_creation_input_tokens),
        ).insert("cache_read_input_tokens"@, json::number(u.cache_read_input_tokens)),
    )
}

pub open spec fn zero_usage() -> AnthropicUsage {
    AnthropicUsage {
        input_tokens: 0,
        output_tokens: 0,
        cache_creation_input_tokens: 0,
        cache_read_input_tokens: 0,
    }
}

pub open spec fn event_name(e: EventModel) -> Seq<char> {
    match e {
        EventModel::MessageStart { .. } => "message_start"@,
        EventModel::BlockStart { .. } => "content_block_start"@,
        EventModel::BlockDelta { .. } => "content_block_delta"@,
        EventModel::BlockStop { .. } => "content_block_stop"@,
        EventModel::MessageDelta { .. } => "message_delta"@,
        EventModel::MessageStop => "message_stop"@,
        EventModel::Ping => "ping"@,
        EventModel::Error { .. } => "error"@,
    }
}

/// The data of an event.
pub open spec fn event_data(e: EventModel) -> JsonModel {
    let start = typed(event_name(e));
    JsonModel::Object(
        match e {
            EventModel::MessageStart { id, model } => start.insert(
                "message"@,
                JsonModel::Object(
                    json::nothing().insert("id"@, JsonModel::Str(id)).insert(
                        "type"@,
                        JsonModel::Str("message"@),
                    ).insert("role"@, JsonModel::Str("assistant"@)).insert(
                        "model"@,
                        JsonModel::Str(model),
                    ).insert("content"@, JsonModel::Array(seq![])).insert(
                        "stop_reason"@,
                        JsonModel::Null,
                    ).insert("stop_sequence"@, JsonModel::Null).insert(
                        "usage"@,
                        usage_model(zero_usage()),
                    ),
                ),
            ),
            EventModel::BlockStart { index, block } => start.insert(
                "index"@,
                json::number(index as u64),
            ).insert("content_block"@, block),
            EventModel::BlockDelta { index, delta } => start.insert(
                "index"@,
                json::number(index as u64),
            ).insert("delta"@, delta),
            EventModel::BlockStop { index } => start.insert("index"@, json::number(index as u64)),
            EventModel::MessageDelta { stop_reason, usage } => start.insert(
                "delta"@,
                JsonModel::Object(
                    json::nothing().insert("stop_reason"@, json::text_or_null(stop_reason)).insert(
                        "stop_sequence"@,
                        JsonModel::Null,
                    ),
                ),
            ).insert("usage"@, usage_model(usage)),
            EventModel::MessageStop => start,
            EventModel::Ping => start,
            EventModel::Error { kind, message } => start.insert(
                "error"@,
                JsonModel::Object(typed(kind).insert("message"@, JsonModel::Str(message))),
            ),
        },
    )
}

/// The text of an event.
pub open spec fn event_text(e: EventModel) -> Seq<char> {
    event_frame(event_name(e), event_data(e))
}

/// The text of a list of events.
pub open spec fn events_text(s: Seq<EventModel>) -> Seq<char>
    decreases s.len(),
{
    if s.len() == 0 {
        seq![]
    } else {
        events_text(s.drop_last()) + event_text(s.last())
    }
}

pub fn usage_json(u: &AnthropicUsage) -> (r: Json)
    ensures
        r@ == usage_model(*u),
{
    Json::Object(
        Object::new().with("input_tokens", Json::number(u.input_tokens)).with(
            "output_tokens",
            Json::number(u.output_tokens),
        ).with(
            "cache_creation_input_tokens",
            Json::number(u.cache_creation_input_tokens),
        ).with("cache_read_input_tokens", Json::number(u.cache_read_input_tokens)),
    )
}

fn frame(name: &str, data: Object) -> (r: String)
    ensures
        r@ == event_frame(name@, JsonModel::Object(data@)),
{
    let body = json::render(&Json::Object(data));
    let mut out = text::concat3("event: ", name, "\ndata: ");
    out.append(body.as_str());
    out.append("\n\n");
    out
}

/// The event that opens a message.
pub fn message_start(id: &str, model: &str) -> (r: String)
    ensures
        r@ == event_text(EventModel::MessageStart { id: id@, model: model@ }),
{
    let usage = AnthropicUsage {
        input_tokens: 0,
        output_tokens: 0,
        cache_creation_input_tokens: 0,
        cache_read_input_tokens: 0,
    };
    let message = Object::new().with("id", Json::text(id)).with(
        "type",
        Json::text("message"),
    ).with("role", Json::text("assistant")).with("model", Json::text(model)).with(
        "content",
        Json::Array(Vec::new()),
    ).with("stop_reason", Json::Null).with("stop_sequence", Json::Null).with(
        "usage",
        usage_json(&usage),
    );
    frame(
        "message_start",
        Object::new().with("type", Json::text("message_start")).with(
            "message",
            Json::Object(message),
        ),
    )
}

/// The event that opens the content block `index`.
pub fn content_block_start(index: usize, block: &Json) -> (r: String)
    ensures
        r@ == event_text(EventModel::BlockStart { index, block: block@ }),
{
    frame(
        "content_block_start",
        Object::new().with("type", Json::text("content_block_start")).with(
            "index",
            Json::number(index as u64),
        ).with("content_block", block.dup()),
    )
}

/// The event that continues the content block `index`.
pub fn content_block_delta(index: usize, delta: &Json) -> (r: String)
    ensures
        r@ == event_text(EventModel::BlockDelta { index, delta: delta@ }),
{
    frame(
        "content_block_delta",
        Object::new().with("type", Json::text("content_block_delta")).with(
            "index",
            Json::number(index as u64),
        ).with("delta", delta.dup()),
    )
}

/// The event that closes the content block `index`.
pub fn content_block_stop(index: usize) -> (r: String)
    ensures
        r@ == event_text(EventModel::BlockStop { index }),
{
    frame(
        "content_block_stop",
        Object::new().with("type", Json::text("content_block_stop")).with(
            "index",
            Json::number(index as u64),
        ),
    )
}

/// The event that says why a message ended, and what it took.
pub fn message_delta(stop_reason: &Option<String>, usage: &AnthropicUsage) -> (r: String)
    ensures
        r@ == event_text(
            EventModel::MessageDelta { stop_reason: text::opt_text(*stop_reason), usage: *usage },
        ),
{
    let delta = Object::new().with("stop_reason", Json::text_or_null(stop_reason)).with(
        "stop_sequence",
        Json::Null,
    );
    frame(
        "message_delta",
        Object::new().with("type", Json::text("message_delta")).with(
            "delta",
            Json::Object(delta),
        ).with("usage", usage_json(usage)),
    )
}

/// The event that closes a message.
pub fn message_stop() -> (r: String)
    ensures
        r@ == event_text(EventModel::MessageStop),
{
    frame("message_stop", Object::new().with("type", Json::text("message_stop")))
}

/// The event that keeps a connection alive.
pub fn ping() -> (r: String)
    ensures
        r@ == event_text(EventModel::Ping),
{
    frame("ping", Object::new().with("type", Json::text("ping")))
}

/// The event that reports an error.
pub fn error(kind: &str, message: &str) -> (r: String)
    ensures
        r@ == event_text(EventModel::Error { kind: kind@, message: message@ }),
{
    let detail = Object::new().with("type", Json::text(kind)).with("message", Json::text(message));
    frame(
        "error",
        Object::new().with("type", Json::text("error")).with("error", Json::Object(detail)),
    )
}

impl AnthropicEvent {
    /// The event as it is sent.
    pub fn render(&self) -> (r: String)
        ensures
            r@ == event_text(self@),
    {
        match self {
            AnthropicEvent::MessageStart { id, model } => message_start(
                id.as_str(),
                model.as_str(),
            ),
            AnthropicEvent::BlockStart { index, block } => content_block_start(*index, block),
            AnthropicEvent::BlockDelta { index, delta } => content_block_delta(*index, delta),
            AnthropicEvent::BlockStop { index } => content_block_stop(*index),
            AnthropicEvent::MessageDelta { stop_reason, usage } => message_delta(
                stop_reason,
                usage,
            ),
            AnthropicEvent::MessageStop => message_stop(),
            AnthropicEvent::Ping => ping(),
            AnthropicEvent::Error { kind, message } => error(kind.as_str(), message.as_str()),
        }
    }
}

/// The text of a list of events.
pub fn render_all(events: &Vec<AnthropicEvent>) -> (r: String)
    ensures
        r@ == events_text(event_models(events@)),
{
    let mut out = String::new();
    let ghost all = event_models(events@);
    let mut i: usize = 0;
    while i < events.len()
        invariant
            i <= events.len(),
            all == event_models(events@),
            out@ == events_text(all.take(i as int)),
        decreases events.len() - i,
    {
        assert(all.take(i + 1).drop_last() =~= all.take(i as int));
        assert(all.take(i + 1).last() == events@[i as int]@);
        let one = events[i].render();
        out.append(one.as_str());
        i = i + 1;
    }
    assert(all.take(all.len() as int) =~= all);
    out
}

// ── Framing ─────────────────────────────────────────────────────────────────

/// The index after `n`.
pub open spec fn succ(n: usize) -> usize {
    if n == usize::MAX {
        0
    } else {
        (n + 1) as usize
    }
}

/// What of a stream has been seen: the open content block, the index of the next one, and
/// whether all was in order.
pub struct Framing {
    pub open: Option<usize>,
    pub next: usize,
    pub ok: bool,
}

pub open spec fn no_block_yet() -> Framing {
    Framing { open: None, next: 0, ok: true }
}

/// A block starts only while none is open, with the next index; only the open block is
/// continued, and only the open block stops.
pub open spec fn see(f: Framing, e: EventModel) -> Framing {
    match e {
        EventModel::BlockStart { index, .. } => Framing {
            open: Some(index),
            next: succ(f.next),
            ok: f.ok && f.open is None && index == f.next,
        },
        EventModel::BlockDelta { index, .. } => Framing { ok: f.ok && f.open == Some(index), ..f },
        EventModel::BlockStop { index } => Framing {
            open: None,
            next: f.next,
            ok: f.ok && f.open == Some(index),
        },
        _ => f,
    }
}

pub open spec fn see_all(f: Framing, events: Seq<EventModel>) -> Framing
    decreases events.len(),
{
    if events.len() == 0 {
        f
    } else {
        see(see_all(f, events.drop_last()), events.last())
    }
}

pub proof fn see_all_add(f: Framing, a: Seq<EventModel>, b: Seq<EventModel>)
    ensures
        see_all(f, a + b) == see_all(see_all(f, a), b),
    decreases b.len(),
{
    if b.len() == 0 {
        assert(a + b =~= a);
    } else {
        see_all_add(f, a, b.drop_last());
        assert((a + b).drop_last() =~= a + b.drop_last());
    }
}

/// As [`see`], but a block may be continued at any time.
pub open spec fn see_blocks(f: Framing, e: EventModel) -> Framing {
    match e {
        EventModel::BlockDelta { .. } => f,
        _ => see(f, e),
    }
}

pub open spec fn see_all_blocks(f: Framing, events: Seq<EventModel>) -> Framing
    decreases events.len(),
{
    if events.len() == 0 {
        f
    } else {
        see_blocks(see_all_blocks(f, events.drop_last()), events.last())
    }
}

pub proof fn see_all_blocks_add(f: Framing, a: Seq<EventModel>, b: Seq<EventModel>)
    ensures
        see_all_blocks(f, a + b) == see_all_blocks(see_all_blocks(f, a), b),
    decreases b.len(),
{
    if b.len() == 0 {
        assert(a + b =~= a);
    } else {
        see_all_blocks_add(f, a, b.drop_last());
        assert((a + b).drop_last() =~= a + b.drop_last());
    }
}

pub proof fn see_all_blocks_push(f: Framing, s: Seq<EventModel>, e: EventModel)
    ensures
        see_all_blocks(f, s.push(e)) == see_blocks(see_all_blocks(f, s), e),
{
    assert(s.push(e).drop_last() =~= s);
}

/// A message stream whose blocks come strictly one after the other and are all closed, and
/// that ends with a stop reason and the end of the message.
pub open spec fn blocks_well_framed(events: Seq<EventModel>) -> bool {
    &&& events.len() >= 3
    &&& events.first() is MessageStart
    &&& events.last() is MessageStop
    &&& events[events.len() - 2] matches EventModel::MessageDelta { stop_reason: Some(_), .. }
    &&& see_all_blocks(no_block_yet(), events).ok
    &&& see_all_blocks(no_block_yet(), events).open is None
}

/// Only the block that is open is continued.
pub open spec fn deltas_in_place(f: Framing, events: Seq<EventModel>) -> bool
    decreases events.len(),
{
    events.len() > 0 ==> deltas_in_place(f, events.drop_last()) && match events.last() {
        EventModel::BlockDelta { index, .. } => see_all_blocks(f, events.drop_last()).open
            == Some(index),
        _ => true,
    }
}

pub proof fn deltas_in_place_add(f: Framing, a: Seq<EventModel>, b: Seq<EventModel>)
    ensures
        deltas_in_place(f, a + b) == (deltas_in_place(f, a) && deltas_in_place(
            see_all_blocks(f, a),
            b,
        )),
    decreases b.len(),
{
    if b.len() == 0 {
        assert(a + b =~= a);
    } else {
        deltas_in_place_add(f, a, b.drop_last());
        see_all_blocks_add(f, a, b.drop_last());
        assert((a + b).drop_last() =~= a + b.drop_last());
        assert((a + b).last() == b.last());
    }
}

proof fn seen_in_place(f: Framing, events: Seq<EventModel>)
    ensures
        see_all(f, events).open == see_all_blocks(f, events).open,
        see_all(f, events).next == see_all_blocks(f, events).next,
        see_all(f, events).ok == (see_all_blocks(f, events).ok && (f.ok ==> deltas_in_place(
            f,
            events,
        ))),
    decreases events.len(),
{
    if events.len() > 0 {
        seen_in_place(f, events.drop_last());
        seen_stays_bad(f, events.drop_last());
    }
}

proof fn seen_stays_bad(f: Framing, events: Seq<EventModel>)
    ensures
        !f.ok ==> !see_all_blocks(f, events).ok,
    decreases events.len(),
{
    if events.len() > 0 {
        seen_stays_bad(f, events.drop_last());
    }
}

/// A stream can be followed exactly if its blocks come one after the other and only the block
/// that is open is continued.
pub proof fn well_framed_is_in_place(events: Seq<EventModel>)
    ensures
        well_framed(events) <==> blocks_well_framed(events) && deltas_in_place(
            no_block_yet(),
            events,
        ),
{
    seen_in_place(no_block_yet(), events);
}

/// A message stream that a client can follow: it opens the message, its blocks come strictly
/// one after the other and are all closed, and it ends with a stop reason and the end of the
/// message.
pub open spec fn well_framed(events: Seq<EventModel>) -> bool {
    &&& events.len() >= 3
    &&& events.first() is MessageStart
    &&& events.last() is MessageStop
    &&& events[events.len() - 2] matches EventModel::MessageDelta { stop_reason: Some(_), .. }
    &&& see_all(no_block_yet(), events).ok
    &&& see_all(no_block_yet(), events).open is None
}

} // verus!
