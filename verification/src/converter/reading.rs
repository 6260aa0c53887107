//! What the two chat protocols say, read as their clients read them. Nothing here knows how the
//! one is turned into the other.
use vstd::prelude::*;

use crate::converter::anthropic_events::EventModel;
use crate::converter::to_openai::{self, FrameModel};
use crate::json::{self, JsonModel};

verus! {

// ── OpenAI streams ──────────────────────────────────────────────────────────

/// The first choice of a chunk or of an answer; null where there is none.
pub open spec fn choice(e: JsonModel) -> JsonModel {
    match e.array_at("choices"@) {
        Some(c) => if c.len() > 0 {
            c[0]
        } else {
            JsonModel::Null
        },
        None => JsonModel::Null,
    }
}

/// The text that a chunk brings.
pub open spec fn chunk_text(e: JsonModel) -> Seq<char> {
    json::or_empty(choice(e).field_or_null("delta"@).str_at("content"@))
}

/// The pieces of tool calls that a chunk brings.
pub open spec fn chunk_pieces(e: JsonModel) -> Seq<JsonModel> {
    match choice(e).field_or_null("delta"@).array_at("tool_calls"@) {
        Some(p) => p,
        None => seq![],
    }
}

/// What a stream brings, piece by piece.
pub enum Item {
    Text(Seq<char>),
    Piece(JsonModel),
}

/// What a chunk brings: nothing where it reports an error, and else its text before its pieces
/// of tool calls.
pub open spec fn chunk_items(e: JsonModel) -> Seq<Item> {
    if e.field("error"@) is Some {
        seq![]
    } else {
        seq![Item::Text(chunk_text(e))] + chunk_pieces(e).map_values(|p: JsonModel| Item::Piece(p))
    }
}

pub open spec fn stream_items(chunks: Seq<JsonModel>) -> Seq<Item>
    decreases chunks.len(),
{
    if chunks.len() == 0 {
        seq![]
    } else {
        stream_items(chunks.drop_last()) + chunk_items(chunks.last())
    }
}

/// All the text of a stream.
pub open spec fn items_text(its: Seq<Item>) -> Seq<char>
    decreases its.len(),
{
    if its.len() == 0 {
        seq![]
    } else {
        match its.last() {
            Item::Text(t) => items_text(its.drop_last()) + t,
            Item::Piece(_) => items_text(its.drop_last()),
        }
    }
}

/// The number of the tool call that a piece belongs to.
pub open spec fn piece_number(p: JsonModel) -> int {
    match p.unsigned_at("index"@) {
        Some(n) => n as int,
        None => 0,
    }
}

pub open spec fn piece_name(p: JsonModel) -> Option<Seq<char>> {
    p.field_or_null("function"@).str_at("name"@)
}

pub open spec fn piece_arguments(p: JsonModel) -> Seq<char> {
    json::or_empty(p.field_or_null("function"@).str_at("arguments"@))
}

/// The numbers of the tool calls, in the order in which they first come.
pub open spec fn call_order(its: Seq<Item>) -> Seq<int>
    decreases its.len(),
{
    if its.len() == 0 {
        seq![]
    } else {
        let before = call_order(its.drop_last());
        match its.last() {
            Item::Text(_) => before,
            Item::Piece(p) => if before.contains(piece_number(p)) {
                before
            } else {
                before.push(piece_number(p))
            },
        }
    }
}

/// The pieces that bring their tool calls, in the order in which they come.
pub open spec fn first_pieces(its: Seq<Item>) -> Seq<JsonModel>
    decreases its.len(),
{
    if its.len() == 0 {
        seq![]
    } else {
        let before = first_pieces(its.drop_last());
        match its.last() {
            Item::Text(_) => before,
            Item::Piece(p) => if call_order(its.drop_last()).contains(piece_number(p)) {
                before
            } else {
                before.push(p)
            },
        }
    }
}

/// The arguments of a tool call, put together from all its pieces.
pub open spec fn call_arguments(its: Seq<Item>, number: int) -> Seq<char>
    decreases its.len(),
{
    if its.len() == 0 {
        seq![]
    } else {
        let before = call_arguments(its.drop_last(), number);
        match its.last() {
            Item::Text(_) => before,
            Item::Piece(p) => if piece_number(p) == number {
                before + piece_arguments(p)
            } else {
                before
            },
        }
    }
}

/// The tool call that the last piece belongs to, unless text has come since.
pub open spec fn current_call(its: Seq<Item>) -> Option<int>
    decreases its.len(),
{
    if its.len() == 0 {
        None
    } else {
        match its.last() {
            Item::Text(t) => if t.len() > 0 {
                None
            } else {
                current_call(its.drop_last())
            },
            Item::Piece(p) => Some(piece_number(p)),
        }
    }
}

/// The pieces of each tool call come together: none comes after another call or text.
pub open spec fn calls_come_whole(its: Seq<Item>) -> bool
    decreases its.len(),
{
    its.len() > 0 ==> calls_come_whole(its.drop_last()) && match its.last() {
        Item::Text(_) => true,
        Item::Piece(p) => call_order(its.drop_last()).contains(piece_number(p)) ==> current_call(
            its.drop_last(),
        ) == Some(piece_number(p)),
    }
}

/// The numbers of the tool calls are such as the machine can count.
pub open spec fn numbers_fit(its: Seq<Item>) -> bool {
    forall|i: int|
        0 <= i < its.len() ==> ((#[trigger] its[i]) matches Item::Piece(p) ==> piece_number(p)
            <= usize::MAX)
}

/// What a stream says last of why it ended.
pub open spec fn last_finish(chunks: Seq<JsonModel>) -> Option<Seq<char>>
    decreases chunks.len(),
{
    if chunks.len() == 0 {
        None
    } else {
        let e = chunks.last();
        match choice(e).str_at("finish_reason"@) {
            Some(r) => if e.field("error"@) is Some {
                last_finish(chunks.drop_last())
            } else {
                Some(r)
            },
            None => last_finish(chunks.drop_last()),
        }
    }
}

/// The counts of tokens that a stream gives last; null where it gives none.
pub open spec fn last_counts(chunks: Seq<JsonModel>) -> JsonModel
    decreases chunks.len(),
{
    if chunks.len() == 0 {
        JsonModel::Null
    } else {
        match chunks.last().field("usage"@) {
            Some(JsonModel::Object(u)) => JsonModel::Object(u),
            _ => last_counts(chunks.drop_last()),
        }
    }
}

pub open spec fn count_at(counts: JsonModel, key: Seq<char>) -> u64 {
    match counts.unsigned_at(key) {
        Some(n) => n,
        None => 0,
    }
}

// ── Anthropic streams ───────────────────────────────────────────────────────

/// A tool call as a client puts it together.
#[verifier::ext_equal]
pub struct ReadCall {
    /// The content block of an Anthropic stream, or the index of a call of an OpenAI stream.
    pub place: int,
    pub id: Option<Seq<char>>,
    pub name: Option<Seq<char>>,
    pub arguments: Seq<char>,
}

/// What a client has read of a stream.
#[verifier::ext_equal]
pub struct ReadAnswer {
    pub text: Seq<char>,
    pub calls: Seq<ReadCall>,
}

pub open spec fn nothing_read() -> ReadAnswer {
    ReadAnswer { text: seq![], calls: seq![] }
}

/// An event as a client takes it in: a tool-use block starts a call, text goes to the text, and
/// a piece of input goes to the call of its block, which is the last one.
pub open spec fn take_event(r: ReadAnswer, e: EventModel) -> ReadAnswer {
    match e {
        EventModel::BlockStart { index, block } => if block.str_at("type"@) == Some("tool_use"@) {
            ReadAnswer {
                calls: r.calls.push(
                    ReadCall {
                        place: index as int,
                        id: block.str_at("id"@),
                        name: block.str_at("name"@),
                        arguments: seq![],
                    },
                ),
                ..r
            }
        } else {
            r
        },
        EventModel::BlockDelta { index, delta } => if delta.str_at("type"@) == Some("text_delta"@) {
            ReadAnswer { text: r.text + json::or_empty(delta.str_at("text"@)), ..r }
        } else if delta.str_at("type"@) == Some("input_json_delta"@) && r.calls.len() > 0
            && r.calls.last().place == index {
            let last = r.calls.last();
            ReadAnswer {
                calls: r.calls.drop_last().push(
                    ReadCall {
                        arguments: last.arguments + json::or_empty(delta.str_at("partial_json"@)),
                        ..last
                    },
                ),
                ..r
            }
        } else {
            r
        },
        _ => r,
    }
}

pub open spec fn take_events(r: ReadAnswer, es: Seq<EventModel>) -> ReadAnswer
    decreases es.len(),
{
    if es.len() == 0 {
        r
    } else {
        take_event(take_events(r, es.drop_last()), es.last())
    }
}

pub proof fn take_events_add(r: ReadAnswer, a: Seq<EventModel>, b: Seq<EventModel>)
    ensures
        take_events(r, a + b) == take_events(take_events(r, a), b),
    decreases b.len(),
{
    if b.len() == 0 {
        assert(a + b =~= a);
    } else {
        take_events_add(r, a, b.drop_last());
        assert((a + b).drop_last() =~= a + b.drop_last());
        assert((a + b).last() == b.last());
    }
}

pub proof fn take_events_push(r: ReadAnswer, a: Seq<EventModel>, e: EventModel)
    ensures
        take_events(r, a.push(e)) == take_event(take_events(r, a), e),
{
    assert(a.push(e).drop_last() =~= a);
}

/// What a client reads of a whole Anthropic stream.
pub open spec fn read_events(es: Seq<EventModel>) -> ReadAnswer {
    take_events(nothing_read(), es)
}

// ── Anthropic streams as they come in ───────────────────────────────────────

/// The text that an event brings.
pub open spec fn event_said(e: to_openai::EventModel) -> Seq<char> {
    let delta = e.data.field_or_null("delta"@);
    if e.event_type == "content_block_delta"@ && delta.str_at("type"@) == Some("text_delta"@) {
        json::or_empty(delta.str_at("text"@))
    } else {
        seq![]
    }
}

pub open spec fn events_said(es: Seq<to_openai::EventModel>) -> Seq<char>
    decreases es.len(),
{
    if es.len() == 0 {
        seq![]
    } else {
        events_said(es.drop_last()) + event_said(es.last())
    }
}

/// The content block that an event is about.
pub open spec fn event_block(e: to_openai::EventModel) -> u64 {
    count_at(e.data, "index"@)
}

/// The event starts a tool call.
pub open spec fn starts_call(e: to_openai::EventModel) -> bool {
    e.event_type == "content_block_start"@ && e.data.field_or_null("content_block"@).str_at(
        "type"@,
    ) == Some("tool_use"@)
}

/// The piece of input that an event brings for a tool call.
pub open spec fn event_input(e: to_openai::EventModel) -> Option<Seq<char>> {
    let delta = e.data.field_or_null("delta"@);
    if e.event_type == "content_block_delta"@ && delta.str_at("type"@) == Some(
        "input_json_delta"@,
    ) {
        delta.str_at("partial_json"@)
    } else {
        None
    }
}

/// The content blocks that are tool calls, in the order in which they first come.
pub open spec fn call_blocks(es: Seq<to_openai::EventModel>) -> Seq<u64>
    decreases es.len(),
{
    if es.len() == 0 {
        seq![]
    } else {
        let before = call_blocks(es.drop_last());
        let e = es.last();
        if (starts_call(e) || event_input(e) is Some) && !before.contains(event_block(e)) {
            before.push(event_block(e))
        } else {
            before
        }
    }
}

/// The input of the tool call in a content block, put together from all its pieces.
pub open spec fn block_input(es: Seq<to_openai::EventModel>, block: u64) -> Seq<char>
    decreases es.len(),
{
    if es.len() == 0 {
        seq![]
    } else {
        let before = block_input(es.drop_last(), block);
        match event_input(es.last()) {
            Some(p) => if event_block(es.last()) == block {
                before + p
            } else {
                before
            },
            None => before,
        }
    }
}

/// What the start of the tool call in a content block says under a key, if it has started;
/// `default` where it does not say it.
pub open spec fn block_start_says(
    es: Seq<to_openai::EventModel>,
    block: u64,
    key: Seq<char>,
    default: Seq<char>,
) -> Option<Seq<char>>
    decreases es.len(),
{
    if es.len() == 0 {
        None
    } else {
        let e = es.last();
        if starts_call(e) && event_block(e) == block {
            match e.data.field_or_null("content_block"@).str_at(key) {
                Some(s) => Some(s),
                None => Some(default),
            }
        } else {
            block_start_says(es.drop_last(), block, key, default)
        }
    }
}

/// The reasons that a stream gives for its end.
pub open spec fn stop_reasons(es: Seq<to_openai::EventModel>) -> Seq<Seq<char>>
    decreases es.len(),
{
    if es.len() == 0 {
        seq![]
    } else {
        let before = stop_reasons(es.drop_last());
        let e = es.last();
        match e.data.field_or_null("delta"@).str_at("stop_reason"@) {
            Some(r) => if e.event_type == "message_delta"@ {
                before.push(r)
            } else {
                before
            },
            None => before,
        }
    }
}

/// The count of tokens that a stream gives last under a key.
pub open spec fn event_count(es: Seq<to_openai::EventModel>, key: Seq<char>) -> u64
    decreases es.len(),
{
    if es.len() == 0 {
        0
    } else {
        let e = es.last();
        let before = event_count(es.drop_last(), key);
        if e.event_type == "message_start"@ {
            match e.data.field_or_null("message"@).field("usage"@) {
                Some(u) => count_at(u, key),
                None => before,
            }
        } else if e.event_type == "message_delta"@ {
            match e.data.field_or_null("usage"@).unsigned_at(key) {
                Some(n) => n,
                None => before,
            }
        } else {
            before
        }
    }
}

// ── OpenAI streams as they go out ───────────────────────────────────────────

/// A piece of a tool call as a client takes it in: at a new index a call starts, and at a known
/// one it goes on.
pub open spec fn take_piece(calls: Seq<ReadCall>, p: JsonModel) -> Seq<ReadCall> {
    let k = count_at(p, "index"@) as int;
    let id = p.str_at("id"@);
    let name = p.field_or_null("function"@).str_at("name"@);
    let arguments = json::or_empty(p.field_or_null("function"@).str_at("arguments"@));
    if k == calls.len() {
        calls.push(ReadCall { place: k, id, name, arguments })
    } else if k < calls.len() {
        let c = calls[k];
        calls.update(
            k,
            ReadCall {
                place: k,
                id: if id is Some {
                    id
                } else {
                    c.id
                },
                name: if name is Some {
                    name
                } else {
                    c.name
                },
                arguments: c.arguments + arguments,
            },
        )
    } else {
        calls
    }
}

pub open spec fn take_pieces(calls: Seq<ReadCall>, ps: Seq<JsonModel>) -> Seq<ReadCall>
    decreases ps.len(),
{
    if ps.len() == 0 {
        calls
    } else {
        take_piece(take_pieces(calls, ps.drop_last()), ps.last())
    }
}

/// A frame as a client takes it in.
pub open spec fn take_frame(r: ReadAnswer, f: FrameModel) -> ReadAnswer {
    match f {
        FrameModel::Chunk { delta, .. } => ReadAnswer {
            text: r.text + json::or_empty(delta.str_at("content"@)),
            calls: match delta.array_at("tool_calls"@) {
                Some(ps) => take_pieces(r.calls, ps),
                None => r.calls,
            },
        },
        _ => r,
    }
}

pub open spec fn take_frames(r: ReadAnswer, fs: Seq<FrameModel>) -> ReadAnswer
    decreases fs.len(),
{
    if fs.len() == 0 {
        r
    } else {
        take_frame(take_frames(r, fs.drop_last()), fs.last())
    }
}

pub proof fn take_frames_add(r: ReadAnswer, a: Seq<FrameModel>, b: Seq<FrameModel>)
    ensures
        take_frames(r, a + b) == take_frames(take_frames(r, a), b),
    decreases b.len(),
{
    if b.len() == 0 {
        assert(a + b =~= a);
    } else {
        take_frames_add(r, a, b.drop_last());
        assert((a + b).drop_last() =~= a + b.drop_last());
        assert((a + b).last() == b.last());
    }
}

/// What a client reads of a whole OpenAI stream.
pub open spec fn read_frames(fs: Seq<FrameModel>) -> ReadAnswer {
    take_frames(nothing_read(), fs)
}

/// The reasons that the frames give for the end.
pub open spec fn finish_reasons(fs: Seq<FrameModel>) -> Seq<Seq<char>>
    decreases fs.len(),
{
    if fs.len() == 0 {
        seq![]
    } else {
        let before = finish_reasons(fs.drop_last());
        match fs.last() {
            FrameModel::Chunk { finish_reason: Some(r), .. } => before.push(r),
            _ => before,
        }
    }
}

pub proof fn finish_reasons_add(a: Seq<FrameModel>, b: Seq<FrameModel>)
    ensures
        finish_reasons(a + b) == finish_reasons(a) + finish_reasons(b),
    decreases b.len(),
{
    if b.len() == 0 {
        assert(a + b =~= a);
        assert(finish_reasons(a) + finish_reasons(b) =~= finish_reasons(a));
    } else {
        finish_reasons_add(a, b.drop_last());
        assert((a + b).drop_last() =~= a + b.drop_last());
        assert((a + b).last() == b.last());
        assert(finish_reasons(a + b) =~= finish_reasons(a) + finish_reasons(b));
    }
}

/// The counts of tokens that the frames give: of the prompt and of the answer.
pub open spec fn frame_counts(fs: Seq<FrameModel>) -> Seq<(u64, u64)>
    decreases fs.len(),
{
    if fs.len() == 0 {
        seq![]
    } else {
        let before = frame_counts(fs.drop_last());
        match fs.last() {
            FrameModel::Usage { prompt_tokens, completion_tokens, .. } => before.push(
                (prompt_tokens, completion_tokens),
            ),
            _ => before,
        }
    }
}

pub proof fn frame_counts_add(a: Seq<FrameModel>, b: Seq<FrameModel>)
    ensures
        frame_counts(a + b) == frame_counts(a) + frame_counts(b),
    decreases b.len(),
{
    if b.len() == 0 {
        assert(a + b =~= a);
        assert(frame_counts(a) + frame_counts(b) =~= frame_counts(a));
    } else {
        frame_counts_add(a, b.drop_last());
        assert((a + b).drop_last() =~= a + b.drop_last());
        assert((a + b).last() == b.last());
        assert(frame_counts(a + b) =~= frame_counts(a) + frame_counts(b));
    }
}

/// The frame belongs to the answer with this identity, of this model.
pub open spec fn is_of_answer(f: FrameModel, answer: Seq<char>, of_model: Seq<char>) -> bool {
    match f {
        FrameModel::Chunk { id, model, .. } => id == answer && model == of_model,
        FrameModel::Usage { id, model, .. } => id == answer && model == of_model,
        _ => true,
    }
}

// ── Reasons ─────────────────────────────────────────────────────────────────

/// The word of Anthropic for what OpenAI calls `reason`.
pub open spec fn in_anthropic_words(reason: Seq<char>) -> Seq<char> {
    if reason == "stop"@ || reason == "content_filter"@ {
        "end_turn"@
    } else if reason == "length"@ {
        "max_tokens"@
    } else if reason == "tool_calls"@ || reason == "function_call"@ {
        "tool_use"@
    } else {
        reason
    }
}

/// The word of OpenAI for what Anthropic calls `reason`.
pub open spec fn in_openai_words(reason: Seq<char>) -> Seq<char> {
    if reason == "end_turn"@ || reason == "stop_sequence"@ {
        "stop"@
    } else if reason == "max_tokens"@ {
        "length"@
    } else if reason == "tool_use"@ {
        "tool_calls"@
    } else {
        reason
    }
}

} // verus!
