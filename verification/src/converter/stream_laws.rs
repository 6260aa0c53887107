//! That a stream keeps what it says when it is turned from the one protocol into the other.
use vstd::prelude::*;

use crate::converter::anthropic_events::{self as events, EventModel};
use crate::converter::builders;
use crate::converter::finish_reason;
use crate::converter::reading::{self, Item, ReadAnswer, ReadCall};
use crate::converter::to_anthropic::{self, ChatState, OpenBlock};
use crate::converter::to_openai::{self, FrameModel, OpenAiState};
use crate::json::{self, JsonModel};
use crate::text;

verus! {

// ── OpenAI streams to Anthropic streams ─────────────────────────────────────

/// The deltas and the blocks that are sent, as a client reads them.
proof fn deltas_are_read(t: Seq<char>, id: Seq<char>, name: Seq<char>)
    ensures
        to_anthropic::text_delta(t).str_at("type"@) == Some("text_delta"@),
        to_anthropic::text_delta(t).str_at("text"@) == Some(t),
        to_anthropic::arguments_delta(t).str_at("type"@) == Some("input_json_delta"@),
        to_anthropic::arguments_delta(t).str_at("partial_json"@) == Some(t),
        to_anthropic::text_start().str_at("type"@) == Some("text"@),
        to_anthropic::tool_start(id, name).str_at("type"@) == Some("tool_use"@),
        to_anthropic::tool_start(id, name).str_at("id"@) == Some(id),
        to_anthropic::tool_start(id, name).str_at("name"@) == Some(name),
        "text"@ != "tool_use"@,
        "text_delta"@ != "input_json_delta"@,
{
    reveal_strlit("type");
    reveal_strlit("text");
    reveal_strlit("id");
    reveal_strlit("name");
    reveal_strlit("input");
    reveal_strlit("partial_json");
    reveal_strlit("tool_use");
    reveal_strlit("text_delta");
    reveal_strlit("input_json_delta");
    assert("type"@.len() == 4 && "text"@.len() == 4 && "id"@.len() == 2 && "name"@.len() == 4);
    assert("input"@.len() == 5 && "partial_json"@.len() == 12 && "tool_use"@.len() == 8);
    assert("text_delta"@.len() == 10 && "input_json_delta"@.len() == 16);
    assert("type"@[1] == 'y' && "text"@[1] == 'e' && "name"@[1] == 'a');
}

/// The first piece of a tool call gives it its identity and its name; where there is no
/// identity a new one is made.
pub open spec fn is_named_after(c: ReadCall, first: JsonModel) -> bool {
    &&& match first.str_at("id"@) {
        Some(id) => c.id == Some(id),
        None => c.id matches Some(id) && text::starts_with(id, "toolu_"@),
    }
    &&& match reading::piece_name(first) {
        Some(name) => c.name == Some(name),
        None => c.name == Some("tool"@),
    }
}

/// The client has read the text, and the calls with their names.
spec fn is_told(st: ChatState, its: Seq<Item>, r: ReadAnswer) -> bool {
    let order = reading::call_order(its);
    &&& r.text == reading::items_text(its)
    &&& r.calls.len() == order.len()
    &&& st.seen.len() == order.len()
    &&& reading::first_pieces(its).len() == order.len()
    &&& forall|k: int| 0 <= k < order.len() ==> st.seen[k] == #[trigger] order[k]
    &&& forall|k: int|
        0 <= k < order.len() ==> is_named_after(
            #[trigger] r.calls[k],
            reading::first_pieces(its)[k],
        )
}

/// The client has read the arguments, and the open block is that of the current call.
spec fn has_arguments(st: ChatState, its: Seq<Item>, r: ReadAnswer) -> bool {
    let order = reading::call_order(its);
    &&& forall|k: int|
        0 <= k < order.len() ==> (#[trigger] r.calls[k]).arguments == reading::call_arguments(
            its,
            order[k],
        )
    &&& forall|j: int, k: int|
        0 <= j < k < order.len() ==> #[trigger] order[j] != #[trigger] order[k]
    &&& match reading::current_call(its) {
        Some(n) => {
            &&& order.len() > 0
            &&& order.last() == n
            &&& st.open matches Some(OpenBlock::Tool { upstream, block }) && upstream == n
                && r.calls.last().place == block
        },
        None => !(st.open matches Some(OpenBlock::Tool { .. })),
    }
}

proof fn unknown_call_has_no_arguments(its: Seq<Item>, n: int)
    requires
        !reading::call_order(its).contains(n),
    ensures
        reading::call_arguments(its, n) == Seq::<char>::empty(),
    decreases its.len(),
{
    if its.len() > 0 {
        let rest = its.drop_last();
        let before = reading::call_order(rest);
        match its.last() {
            Item::Text(_) => {},
            Item::Piece(p) => {
                let m = reading::piece_number(p);
                if !before.contains(m) {
                    let all = before.push(m);
                    assert(all[before.len() as int] == m);
                    if before.contains(n) {
                        let k = choose|k: int| 0 <= k < before.len() && before[k] == n;
                        assert(all[k] == n);
                    }
                }
            },
        }
        unknown_call_has_no_arguments(rest, n);
    }
}

proof fn text_is_told(st: ChatState, its: Seq<Item>, r: ReadAnswer, t: Seq<char>)
    requires
        is_told(st, its, r),
    ensures
        ({
            let (st2, out) = to_anthropic::on_text(st, t);
            let r2 = reading::take_events(r, out);
            &&& is_told(st2, its.push(Item::Text(t)), r2)
            &&& has_arguments(st, its, r) ==> has_arguments(st2, its.push(Item::Text(t)), r2)
        }),
{
    reveal_with_fuel(reading::take_events, 4);
    deltas_are_read(t, t, t);
    let all = its.push(Item::Text(t));
    assert(all.drop_last() =~= its);
    let (st2, out) = to_anthropic::on_text(st, t);
    let r2 = reading::take_events(r, out);
    if t.len() == 0 {
        assert(r.text + t =~= r.text);
    } else {
        let (st1, before) = to_anthropic::with_text_block(st);
        let (st0, close) = to_anthropic::closed(st);
        assert(out.drop_last() =~= before);
        if !(st.open matches Some(OpenBlock::Text(_))) {
            assert(before.drop_last() =~= close);
            if close.len() > 0 {
                assert(close.drop_last() =~= seq![]);
            }
        }
        assert(reading::take_events(r, before) == r);
    }
    assert(r2.calls == r.calls);
    assert forall|k: int| 0 <= k < reading::call_order(all).len() implies (
    #[trigger] r.calls[k]).arguments == r2.calls[k].arguments by {}
}

proof fn piece_is_told(st: ChatState, its: Seq<Item>, r: ReadAnswer, p: JsonModel, fresh: Seq<char>)
    requires
        is_told(st, its, r),
        reading::piece_number(p) <= usize::MAX,
    ensures
        ({
            let (st2, out) = to_anthropic::on_call(st, p, fresh);
            let r2 = reading::take_events(r, out);
            &&& is_told(st2, its.push(Item::Piece(p)), r2)
            &&& has_arguments(st, its, r) && reading::calls_come_whole(its.push(Item::Piece(p)))
                ==> has_arguments(st2, its.push(Item::Piece(p)), r2)
        }),
{
    reveal_with_fuel(reading::take_events, 4);
    let all = its.push(Item::Piece(p));
    assert(all.drop_last() =~= its);
    let n = reading::piece_number(p);
    let order = reading::call_order(its);
    let firsts = reading::first_pieces(its);
    let (st2, out) = to_anthropic::on_call(st, p, fresh);
    let (st1, before) = to_anthropic::with_tool_block(st, p, fresh);
    let args = reading::piece_arguments(p);
    deltas_are_read(args, to_anthropic::call_id(p, fresh), to_anthropic::call_name(p));
    assert(to_anthropic::upstream_index(p) == n);
    assert(order.contains(n) == st.seen.contains(n as usize)) by {
        if order.contains(n) {
            let k = choose|k: int| 0 <= k < order.len() && order[k] == n;
            assert(st.seen[k] == order[k]);
        }
        if st.seen.contains(n as usize) {
            let k = choose|k: int| 0 <= k < st.seen.len() && st.seen[k] == n as usize;
            assert(order[k] == n);
        }
    }
    let r1 = reading::take_events(r, before);
    let r2 = reading::take_events(r, out);
    if order.contains(n) {
        assert(r1 == r);
    } else {
        let (st0, close) = to_anthropic::closed(st);
        assert(before.drop_last() =~= close);
        if close.len() > 0 {
            assert(close.drop_last() =~= seq![]);
        }
        assert(reading::take_events(r, close) == r);
        let c = r1.calls.last();
        assert(r1.calls.drop_last() =~= r.calls);
        assert(r1.calls.len() == r.calls.len() + 1);
        assert forall|k: int| 0 <= k < order.len() implies r1.calls[k] == r.calls[k] by {}
        let id = to_anthropic::call_id(p, fresh);
        assert(text::starts_with("toolu_"@ + fresh, "toolu_"@)) by {
            assert(("toolu_"@ + fresh).take("toolu_"@.len() as int) =~= "toolu_"@);
        }
        assert(is_named_after(c, p));
        assert forall|k: int| 0 <= k <= order.len() implies is_named_after(
            #[trigger] r1.calls[k],
            firsts.push(p)[k],
        ) by {
            if k < order.len() {
                assert(r1.calls[k] == r.calls[k]);
                assert(firsts.push(p)[k] == firsts[k]);
            }
        }
        unknown_call_has_no_arguments(its, n);
    }
    let sends = st1.open matches Some(OpenBlock::Tool { upstream, block }) && args.len() > 0
        && upstream == n;
    if sends {
        assert(out.drop_last() =~= before);
    } else {
        assert(out == before);
    }
    let order2 = reading::call_order(all);
    assert(r2.calls.len() == r1.calls.len());
    assert forall|k: int| 0 <= k < order2.len() implies is_named_after(
        #[trigger] r2.calls[k],
        reading::first_pieces(all)[k],
    ) by {
        assert(r2.calls[k].id == r1.calls[k].id && r2.calls[k].name == r1.calls[k].name);
        assert(is_named_after(r1.calls[k], reading::first_pieces(all)[k]));
    }
    assert forall|k: int| 0 <= k < order2.len() implies st2.seen[k] == #[trigger] order2[k] by {
        if k < order.len() {
            assert(st.seen[k] == order[k]);
        }
    }
    if has_arguments(st, its, r) && reading::calls_come_whole(all) {
        let last = order2.len() - 1;
        if order.contains(n) {
            assert(reading::current_call(its) == Some(n));
            assert(order.last() == n);
        }
        assert(order2.last() == n);
        assert forall|j: int, k: int| 0 <= j < k < order2.len() implies #[trigger] order2[j]
            != #[trigger] order2[k] by {
            if k < order.len() {
                assert(order[j] != order[k]);
            } else {
                assert(order.contains(order[j]));
            }
        }
        assert forall|k: int| 0 <= k < order2.len() implies (#[trigger] r2.calls[k]).arguments
            == reading::call_arguments(all, order2[k]) by {
            if k < last {
                assert(order2[k] != order2[last]);
                assert(r2.calls[k] == r.calls[k]);
                assert(order2[k] == order[k]);
            } else {
                let got = r1.calls[last].arguments;
                assert(got == reading::call_arguments(its, n));
                if args.len() == 0 {
                    assert(got + args =~= got);
                }
            }
        }
    }
}

proof fn pieces_are_told(
    st: ChatState,
    its: Seq<Item>,
    r: ReadAnswer,
    pieces: Seq<JsonModel>,
    fresh: Seq<Seq<char>>,
)
    requires
        is_told(st, its, r),
        forall|i: int|
            0 <= i < pieces.len() ==> reading::piece_number(#[trigger] pieces[i]) <= usize::MAX,
    ensures
        ({
            let (st2, out) = to_anthropic::on_calls(st, pieces, fresh);
            let all = its + pieces.map_values(|p: JsonModel| Item::Piece(p));
            let r2 = reading::take_events(r, out);
            &&& is_told(st2, all, r2)
            &&& has_arguments(st, its, r) && reading::calls_come_whole(all) ==> has_arguments(
                st2,
                all,
                r2,
            )
        }),
    decreases pieces.len(),
{
    let all = its + pieces.map_values(|p: JsonModel| Item::Piece(p));
    if pieces.len() == 0 {
        assert(all =~= its);
    } else {
        let rest = pieces.drop_last();
        assert forall|i: int| 0 <= i < rest.len() implies reading::piece_number(
            #[trigger] rest[i],
        ) <= usize::MAX by {
            assert(rest[i] == pieces[i]);
        }
        pieces_are_told(st, its, r, rest, fresh);
        let before = its + rest.map_values(|p: JsonModel| Item::Piece(p));
        let (st1, out) = to_anthropic::on_calls(st, rest, fresh);
        let p = pieces.last();
        assert(pieces[pieces.len() - 1] == p);
        let more = to_anthropic::on_call(st1, p, fresh[pieces.len() - 1]).1;
        assert(all =~= before.push(Item::Piece(p)));
        assert(all.drop_last() =~= before);
        piece_is_told(
            st1,
            before,
            reading::take_events(r, out),
            p,
            fresh[pieces.len() - 1],
        );
        reading::take_events_add(r, out, more);
    }
}

proof fn whole_start_is_whole(its: Seq<Item>, more: Seq<Item>)
    requires
        reading::calls_come_whole(its + more),
    ensures
        reading::calls_come_whole(its),
    decreases more.len(),
{
    if more.len() == 0 {
        assert(its + more =~= its);
    } else {
        assert((its + more).drop_last() =~= its + more.drop_last());
        whole_start_is_whole(its, more.drop_last());
    }
}

proof fn chunk_is_told(
    st: ChatState,
    its: Seq<Item>,
    r: ReadAnswer,
    e: JsonModel,
    fresh: Seq<Seq<char>>,
)
    requires
        is_told(st, its, r),
        reading::numbers_fit(reading::chunk_items(e)),
    ensures
        ({
            let (st2, out) = to_anthropic::step(st, e, fresh);
            let all = its + reading::chunk_items(e);
            let r2 = reading::take_events(r, out);
            &&& is_told(st2, all, r2)
            &&& has_arguments(st, its, r) && reading::calls_come_whole(all) ==> has_arguments(
                st2,
                all,
                r2,
            )
        }),
{
    let more = reading::chunk_items(e);
    let all = its + more;
    if e.field("error"@) is Some {
        reveal_with_fuel(reading::take_events, 2);
        assert(all =~= its);
        let out = to_anthropic::step(st, e, fresh).1;
        assert(out.drop_last() =~= seq![]);
    } else {
        let t = reading::chunk_text(e);
        let pieces = reading::chunk_pieces(e);
        assert(t == to_anthropic::event_text(e));
        assert(pieces =~= to_anthropic::event_calls(e));
        let st0 = to_anthropic::with_usage(st, e);
        let st1 = match to_anthropic::first_choice(e) {
            Some(c) => match c.str_at("finish_reason"@) {
                Some(_) => ChatState {
                    stop_reason: to_anthropic::step(st, e, fresh).0.stop_reason,
                    ..st0
                },
                None => st0,
            },
            None => st0,
        };
        steps_keep_the_rest(st, e, fresh);
        text_is_told(st1, its, r, t);
        let (st2, out) = to_anthropic::on_text(st1, t);
        let mid = its.push(Item::Text(t));
        let tail = pieces.map_values(|p: JsonModel| Item::Piece(p));
        assert forall|i: int| 0 <= i < pieces.len() implies reading::piece_number(
            #[trigger] pieces[i],
        ) <= usize::MAX by {
            assert(more[i + 1] == Item::Piece(pieces[i]));
        }
        assert(all =~= mid + tail);
        pieces_are_told(st2, mid, reading::take_events(r, out), pieces, fresh);
        let calls = to_anthropic::on_calls(st2, pieces, fresh);
        reading::take_events_add(r, out, calls.1);
    }
}

/// What text and calls do does not depend on the reason and the counts, and leaves them.
proof fn steps_keep_the_rest(st: ChatState, e: JsonModel, fresh: Seq<Seq<char>>)
    requires
        e.field("error"@) is None,
    ensures
        to_anthropic::step(st, e, fresh).0.stop_reason == (match reading::choice(e).str_at(
            "finish_reason"@,
        ) {
            Some(r) => Some(finish_reason::stop_reason_of(r)),
            None => st.stop_reason,
        }),
        to_anthropic::step(st, e, fresh).0.usage == to_anthropic::with_usage(st, e).usage,
{
    let st0 = to_anthropic::with_usage(st, e);
    let st1 = match to_anthropic::first_choice(e) {
        Some(c) => match c.str_at("finish_reason"@) {
            Some(r) => ChatState {
                stop_reason: Some(finish_reason::stop_reason_of(r)),
                ..st0
            },
            None => st0,
        },
        None => st0,
    };
    let st2 = to_anthropic::on_text(st1, to_anthropic::event_text(e)).0;
    calls_keep_the_rest(st2, to_anthropic::event_calls(e), fresh);
}

proof fn calls_keep_the_rest(st: ChatState, calls: Seq<JsonModel>, fresh: Seq<Seq<char>>)
    ensures
        to_anthropic::on_calls(st, calls, fresh).0.stop_reason == st.stop_reason,
        to_anthropic::on_calls(st, calls, fresh).0.usage == st.usage,
    decreases calls.len(),
{
    if calls.len() > 0 {
        calls_keep_the_rest(st, calls.drop_last(), fresh);
    }
}

proof fn run_is_told(inputs: Seq<JsonModel>, fresh: Seq<Seq<Seq<char>>>)
    requires
        reading::numbers_fit(reading::stream_items(inputs)),
    ensures
        ({
            let (st, out) = to_anthropic::run(to_anthropic::initial_state(), inputs, fresh);
            let its = reading::stream_items(inputs);
            let r = reading::read_events(out);
            &&& is_told(st, its, r)
            &&& reading::calls_come_whole(its) ==> has_arguments(st, its, r)
        }),
    decreases inputs.len(),
{
    if inputs.len() > 0 {
        let rest = inputs.drop_last();
        let its = reading::stream_items(rest);
        let more = reading::chunk_items(inputs.last());
        let all = reading::stream_items(inputs);
        assert forall|i: int| 0 <= i < its.len() implies ((#[trigger] its[i]) matches Item::Piece(p)
            ==> reading::piece_number(p) <= usize::MAX) by {
            assert(all[i] == its[i]);
        }
        assert forall|i: int| 0 <= i < more.len() implies ((#[trigger] more[i]) matches Item::Piece(
            p,
        ) ==> reading::piece_number(p) <= usize::MAX) by {
            assert(all[its.len() + i] == more[i]);
        }
        run_is_told(rest, fresh);
        if reading::calls_come_whole(all) {
            whole_start_is_whole(its, more);
        }
        let (st, out) = to_anthropic::run(to_anthropic::initial_state(), rest, fresh);
        let f = fresh[inputs.len() - 1];
        chunk_is_told(st, its, reading::read_events(out), inputs.last(), f);
        reading::take_events_add(
            reading::nothing_read(),
            out,
            to_anthropic::step(st, inputs.last(), f).1,
        );
    }
}

proof fn frame_says_nothing(
    id: Seq<char>,
    model: Seq<char>,
    inputs: Seq<JsonModel>,
    fresh: Seq<Seq<Seq<char>>>,
)
    ensures
        reading::read_events(to_anthropic::whole_stream(id, model, inputs, fresh))
            == reading::read_events(
            to_anthropic::run(to_anthropic::initial_state(), inputs, fresh).1,
        ),
{
    reveal_with_fuel(reading::take_events, 4);
    let (st, out) = to_anthropic::run(to_anthropic::initial_state(), inputs, fresh);
    let start = seq![EventModel::MessageStart { id, model }];
    let none = reading::nothing_read();
    assert(start.drop_last() =~= seq![]);
    reading::take_events_add(none, start, out);
    reading::take_events_add(none, start + out, to_anthropic::finish(st));
    let end = to_anthropic::finish(st);
    let close = to_anthropic::closed(st).1;
    let r = reading::take_events(none, out);
    assert(end.drop_last().drop_last() =~= close);
    if close.len() > 0 {
        assert(close.drop_last() =~= seq![]);
    }
}

/// The text that events bring.
spec fn told_text(es: Seq<EventModel>) -> Seq<char>
    decreases es.len(),
{
    if es.len() == 0 {
        seq![]
    } else {
        match es.last() {
            EventModel::BlockDelta { delta, .. } => if delta.str_at("type"@) == Some(
                "text_delta"@,
            ) {
                told_text(es.drop_last()) + json::or_empty(delta.str_at("text"@))
            } else {
                told_text(es.drop_last())
            },
            _ => told_text(es.drop_last()),
        }
    }
}

proof fn told_text_is_read(r: ReadAnswer, es: Seq<EventModel>)
    ensures
        reading::take_events(r, es).text == r.text + told_text(es),
    decreases es.len(),
{
    if es.len() == 0 {
        assert(r.text + told_text(es) =~= r.text);
    } else {
        told_text_is_read(r, es.drop_last());
        assert(reading::take_events(r, es).text =~= r.text + told_text(es));
    }
}

proof fn told_text_add(a: Seq<EventModel>, b: Seq<EventModel>)
    ensures
        told_text(a + b) == told_text(a) + told_text(b),
    decreases b.len(),
{
    if b.len() == 0 {
        assert(a + b =~= a);
        assert(told_text(a) + told_text(b) =~= told_text(a));
    } else {
        told_text_add(a, b.drop_last());
        assert((a + b).drop_last() =~= a + b.drop_last());
        assert((a + b).last() == b.last());
        assert(told_text(a + b) =~= told_text(a) + told_text(b));
    }
}

proof fn told_text_push(a: Seq<EventModel>, e: EventModel)
    ensures
        !(e is BlockDelta) ==> told_text(a.push(e)) == told_text(a),
        e matches EventModel::BlockDelta { delta, .. } ==> told_text(a.push(e)) == told_text(a) + (
        if delta.str_at("type"@) == Some("text_delta"@) {
            json::or_empty(delta.str_at("text"@))
        } else {
            seq![]
        }),
{
    assert(a.push(e).drop_last() =~= a);
    assert(told_text(a) + Seq::<char>::empty() =~= told_text(a));
}

proof fn closing_tells_no_text(st: ChatState)
    ensures
        told_text(to_anthropic::closed(st).1) == Seq::<char>::empty(),
{
    let out = to_anthropic::closed(st).1;
    if out.len() > 0 {
        assert(out =~= Seq::<EventModel>::empty().push(out[0]));
        told_text_push(Seq::empty(), out[0]);
    }
}

proof fn text_tells_itself(st: ChatState, t: Seq<char>)
    ensures
        told_text(to_anthropic::on_text(st, t).1) == t,
{
    if t.len() > 0 {
        let (st1, out) = to_anthropic::with_text_block(st);
        deltas_are_read(t, seq![], seq![]);
        closing_tells_no_text(st);
        let close = to_anthropic::closed(st).1;
        if out.len() > 0 {
            told_text_push(
                close,
                EventModel::BlockStart { index: st.next, block: to_anthropic::text_start() },
            );
        }
        assert(told_text(out) =~= Seq::<char>::empty());
        let index = to_anthropic::block_index(st1.open->Some_0);
        told_text_push(
            out,
            EventModel::BlockDelta { index, delta: to_anthropic::text_delta(t) },
        );
        assert(told_text(to_anthropic::on_text(st, t).1) =~= t);
    } else {
        assert(t =~= Seq::<char>::empty());
    }
}

proof fn call_tells_no_text(st: ChatState, call: JsonModel, fresh: Seq<char>)
    ensures
        told_text(to_anthropic::on_call(st, call, fresh).1) == Seq::<char>::empty(),
{
    let (st1, out) = to_anthropic::with_tool_block(st, call, fresh);
    let id = to_anthropic::call_id(call, fresh);
    let name = to_anthropic::call_name(call);
    closing_tells_no_text(st);
    let close = to_anthropic::closed(st).1;
    told_text_push(
        close,
        EventModel::BlockStart { index: st.next, block: to_anthropic::tool_start(id, name) },
    );
    assert(told_text(out) =~= Seq::<char>::empty());
    let args = match to_anthropic::call_function(call).str_at("arguments"@) {
        Some(a) => a,
        None => seq![],
    };
    deltas_are_read(args, id, name);
    match st1.open {
        Some(OpenBlock::Tool { upstream, block }) => {
            told_text_push(
                out,
                EventModel::BlockDelta {
                    index: block,
                    delta: to_anthropic::arguments_delta(args),
                },
            );
        },
        _ => {},
    }
    assert(told_text(to_anthropic::on_call(st, call, fresh).1) =~= Seq::<char>::empty());
}

proof fn calls_tell_no_text(st: ChatState, calls: Seq<JsonModel>, fresh: Seq<Seq<char>>)
    ensures
        told_text(to_anthropic::on_calls(st, calls, fresh).1) == Seq::<char>::empty(),
    decreases calls.len(),
{
    if calls.len() > 0 {
        calls_tell_no_text(st, calls.drop_last(), fresh);
        let (st1, out) = to_anthropic::on_calls(st, calls.drop_last(), fresh);
        call_tells_no_text(st1, calls.last(), fresh[calls.len() - 1]);
        told_text_add(
            out,
            to_anthropic::on_call(st1, calls.last(), fresh[calls.len() - 1]).1,
        );
        assert(told_text(to_anthropic::on_calls(st, calls, fresh).1) =~= Seq::<char>::empty());
    }
}

proof fn items_text_add(a: Seq<Item>, b: Seq<Item>)
    ensures
        reading::items_text(a + b) == reading::items_text(a) + reading::items_text(b),
    decreases b.len(),
{
    if b.len() == 0 {
        assert(a + b =~= a);
        assert(reading::items_text(a) + reading::items_text(b) =~= reading::items_text(a));
    } else {
        items_text_add(a, b.drop_last());
        assert((a + b).drop_last() =~= a + b.drop_last());
        assert((a + b).last() == b.last());
        assert(reading::items_text(a + b) =~= reading::items_text(a) + reading::items_text(b));
    }
}

proof fn pieces_hold_no_text(ps: Seq<JsonModel>)
    ensures
        reading::items_text(ps.map_values(|p: JsonModel| Item::Piece(p))) == Seq::<char>::empty(),
    decreases ps.len(),
{
    let its = ps.map_values(|p: JsonModel| Item::Piece(p));
    if ps.len() > 0 {
        pieces_hold_no_text(ps.drop_last());
        assert(its.drop_last() =~= ps.drop_last().map_values(|p: JsonModel| Item::Piece(p)));
    }
}

proof fn chunk_holds_its_text(e: JsonModel)
    ensures
        e.field("error"@) is None ==> reading::items_text(reading::chunk_items(e))
            == reading::chunk_text(e),
        e.field("error"@) is Some ==> reading::items_text(reading::chunk_items(e)) == Seq::<
            char,
        >::empty(),
{
    if e.field("error"@) is None {
        let first = seq![Item::Text(reading::chunk_text(e))];
        let ps = reading::chunk_pieces(e).map_values(|p: JsonModel| Item::Piece(p));
        items_text_add(first, ps);
        pieces_hold_no_text(reading::chunk_pieces(e));
        reveal_with_fuel(reading::items_text, 2);
        assert(first.drop_last() =~= seq![]);
        assert(reading::items_text(first + ps) =~= reading::chunk_text(e));
    }
}

proof fn run_tells_the_text(inputs: Seq<JsonModel>, fresh: Seq<Seq<Seq<char>>>)
    ensures
        told_text(to_anthropic::run(to_anthropic::initial_state(), inputs, fresh).1)
            == reading::items_text(reading::stream_items(inputs)),
    decreases inputs.len(),
{
    if inputs.len() > 0 {
        let rest = inputs.drop_last();
        let e = inputs.last();
        let f = fresh[inputs.len() - 1];
        run_tells_the_text(rest, fresh);
        let (st, out) = to_anthropic::run(to_anthropic::initial_state(), rest, fresh);
        let more = to_anthropic::step(st, e, f).1;
        told_text_add(out, more);
        items_text_add(reading::stream_items(rest), reading::chunk_items(e));
        chunk_holds_its_text(e);
        if e.field("error"@) is Some {
            assert(more =~= Seq::<EventModel>::empty().push(more[0]));
            told_text_push(Seq::empty(), more[0]);
        } else {
            let st0 = to_anthropic::with_usage(st, e);
            let st1 = match to_anthropic::first_choice(e) {
                Some(choice) => match choice.str_at("finish_reason"@) {
                    Some(reason) => ChatState {
                        stop_reason: Some(finish_reason::stop_reason_of(reason)),
                        ..st0
                    },
                    None => st0,
                },
                None => st0,
            };
            let t = to_anthropic::event_text(e);
            assert(t =~= reading::chunk_text(e));
            text_tells_itself(st1, t);
            let (st2, a) = to_anthropic::on_text(st1, t);
            calls_tell_no_text(st2, to_anthropic::event_calls(e), f);
            let b = to_anthropic::on_calls(st2, to_anthropic::event_calls(e), f).1;
            told_text_add(a, b);
            assert(told_text(more) =~= t);
        }
    }
}

/// No text is lost, made up or put out of order, wherever it comes in the stream: what a client
/// reads is all the text that the chunks bring, one after the other.
pub proof fn all_text_is_told(
    id: Seq<char>,
    model: Seq<char>,
    inputs: Seq<JsonModel>,
    fresh: Seq<Seq<Seq<char>>>,
)
    ensures
        reading::read_events(to_anthropic::whole_stream(id, model, inputs, fresh)).text
            == reading::items_text(reading::stream_items(inputs)),
{
    let (st, out) = to_anthropic::run(to_anthropic::initial_state(), inputs, fresh);
    let start = seq![EventModel::MessageStart { id, model }];
    let end = to_anthropic::finish(st);
    let close = to_anthropic::closed(st).1;
    run_tells_the_text(inputs, fresh);
    closing_tells_no_text(st);
    assert(start =~= Seq::<EventModel>::empty().push(start[0]));
    told_text_push(Seq::empty(), start[0]);
    let last = end.last();
    let delta = end[end.len() - 2];
    assert(end =~= close.push(delta).push(last));
    told_text_push(close, delta);
    told_text_push(close.push(delta), last);
    told_text_add(start, out);
    told_text_add(start + out, end);
    told_text_is_read(reading::nothing_read(), start + out + end);
    assert(told_text(start + out + end) =~= told_text(out));
    assert(reading::nothing_read().text + told_text(out) =~= told_text(out));
}

/// Every tool call of the chunks is told once, in the order in which they come, with the
/// identity and the name that its first piece gives. Where the pieces of each call come
/// together, its arguments are all that its pieces bring.
pub proof fn all_calls_are_told(
    id: Seq<char>,
    model: Seq<char>,
    inputs: Seq<JsonModel>,
    fresh: Seq<Seq<Seq<char>>>,
)
    requires
        reading::numbers_fit(reading::stream_items(inputs)),
    ensures
        ({
            let its = reading::stream_items(inputs);
            let calls = reading::read_events(
                to_anthropic::whole_stream(id, model, inputs, fresh),
            ).calls;
            &&& calls.len() == reading::call_order(its).len()
            &&& forall|k: int|
                0 <= k < calls.len() ==> is_named_after(
                    #[trigger] calls[k],
                    reading::first_pieces(its)[k],
                )
            &&& reading::calls_come_whole(its) ==> forall|k: int|
                0 <= k < calls.len() ==> (#[trigger] calls[k]).arguments == reading::call_arguments(
                    its,
                    reading::call_order(its)[k],
                )
        }),
{
    run_is_told(inputs, fresh);
    frame_says_nothing(id, model, inputs, fresh);
}

proof fn words_agree(reason: Seq<char>)
    ensures
        finish_reason::stop_reason_of(reason) == reading::in_anthropic_words(reason),
        finish_reason::finish_reason_of(reason) == reading::in_openai_words(reason),
{
    reveal_strlit("stop");
    reveal_strlit("length");
    reveal_strlit("tool_calls");
    reveal_strlit("function_call");
    reveal_strlit("content_filter");
    reveal_strlit("end_turn");
    reveal_strlit("max_tokens");
    reveal_strlit("tool_use");
    reveal_strlit("stop_sequence");
    assert("stop"@.len() == 4 && "length"@.len() == 6 && "tool_calls"@.len() == 10);
    assert("function_call"@.len() == 13 && "content_filter"@.len() == 14);
    assert("end_turn"@.len() == 8 && "max_tokens"@.len() == 10 && "tool_use"@.len() == 8);
    assert("stop_sequence"@.len() == 13 && "end_turn"@[0] == 'e' && "tool_use"@[0] == 't');
}

/// Both protocols give the same reasons in words of their own.
pub proof fn reasons_mean_the_same(reason: Seq<char>)
    ensures
        finish_reason::stop_reason_of(reason) == reading::in_anthropic_words(reason),
        finish_reason::finish_reason_of(reason) == reading::in_openai_words(reason),
{
    words_agree(reason);
}

proof fn run_ends_as_told(inputs: Seq<JsonModel>, fresh: Seq<Seq<Seq<char>>>)
    ensures
        ({
            let st = to_anthropic::run(to_anthropic::initial_state(), inputs, fresh).0;
            let counts = reading::last_counts(inputs);
            &&& st.stop_reason == match reading::last_finish(inputs) {
                Some(r) => Some(reading::in_anthropic_words(r)),
                None => None,
            }
            &&& st.usage.input_tokens == reading::count_at(counts, "prompt_tokens"@)
            &&& st.usage.output_tokens == reading::count_at(counts, "completion_tokens"@)
            &&& st.usage.cache_read_input_tokens == reading::count_at(
                counts.field_or_null("prompt_tokens_details"@),
                "cached_tokens"@,
            )
            &&& st.usage.cache_creation_input_tokens == 0
        }),
    decreases inputs.len(),
{
    if inputs.len() > 0 {
        let rest = inputs.drop_last();
        let e = inputs.last();
        run_ends_as_told(rest, fresh);
        let st = to_anthropic::run(to_anthropic::initial_state(), rest, fresh).0;
        let f = fresh[inputs.len() - 1];
        if e.field("error"@) is None {
            steps_keep_the_rest(st, e, f);
        }
        match reading::choice(e).str_at("finish_reason"@) {
            Some(r) => words_agree(r),
            None => {},
        }
    }
}

/// The end of a translated stream gives the reason that the chunks give last, in the words of
/// Anthropic, and the counts of tokens that they give last.
pub proof fn ending_is_told(
    id: Seq<char>,
    model: Seq<char>,
    inputs: Seq<JsonModel>,
    fresh: Seq<Seq<Seq<char>>>,
)
    ensures
        ({
            let all = to_anthropic::whole_stream(id, model, inputs, fresh);
            let counts = reading::last_counts(inputs);
            &&& all.len() >= 3
            &&& all[0] == EventModel::MessageStart { id, model }
            &&& all[all.len() - 2] matches EventModel::MessageDelta { stop_reason, usage }
            &&& stop_reason == Some(
                match reading::last_finish(inputs) {
                    Some(r) => reading::in_anthropic_words(r),
                    None => "end_turn"@,
                },
            )
            &&& usage.input_tokens == reading::count_at(counts, "prompt_tokens"@)
            &&& usage.output_tokens == reading::count_at(counts, "completion_tokens"@)
            &&& usage.cache_read_input_tokens == reading::count_at(
                counts.field_or_null("prompt_tokens_details"@),
                "cached_tokens"@,
            )
        }),
{
    run_ends_as_told(inputs, fresh);
    let (st, out) = to_anthropic::run(to_anthropic::initial_state(), inputs, fresh);
    let all = to_anthropic::whole_stream(id, model, inputs, fresh);
    let end = to_anthropic::finish(st);
    assert(all[all.len() - 2] == end[end.len() - 2]);
}

// ── Anthropic streams to OpenAI streams ─────────────────────────────────────

proof fn keys_differ()
    ensures
        "tool_calls"@ != "content"@,
        "tool_calls"@ != "role"@,
        "content"@ != "role"@,
        "index"@ != "id"@,
        "index"@ != "type"@,
        "index"@ != "function"@,
        "id"@ != "type"@,
        "id"@ != "function"@,
        "type"@ != "function"@,
        "name"@ != "arguments"@,
{
    reveal_strlit("tool_calls");
    reveal_strlit("content");
    reveal_strlit("role");
    reveal_strlit("index");
    reveal_strlit("id");
    reveal_strlit("type");
    reveal_strlit("function");
    reveal_strlit("name");
    reveal_strlit("arguments");
    assert("tool_calls"@.len() == 10 && "content"@.len() == 7 && "role"@.len() == 4);
    assert("index"@.len() == 5 && "id"@.len() == 2 && "type"@.len() == 4);
    assert("function"@.len() == 8 && "name"@.len() == 4 && "arguments"@.len() == 9);
}

proof fn kinds_differ()
    ensures
        "message_start"@ != "content_block_start"@,
        "message_start"@ != "content_block_delta"@,
        "message_start"@ != "message_delta"@,
        "message_start"@ != "message_stop"@,
        "content_block_start"@ != "content_block_delta"@,
        "content_block_start"@ != "message_delta"@,
        "content_block_start"@ != "message_stop"@,
        "content_block_delta"@ != "message_delta"@,
        "content_block_delta"@ != "message_stop"@,
        "message_delta"@ != "message_stop"@,
        "message_delta"@ != "ping"@,
        "message_delta"@ != "error"@,
        "text_delta"@ != "input_json_delta"@,
{
    reveal_strlit("message_start");
    reveal_strlit("message_delta");
    reveal_strlit("message_stop");
    reveal_strlit("content_block_start");
    reveal_strlit("content_block_delta");
    reveal_strlit("ping");
    reveal_strlit("error");
    reveal_strlit("text_delta");
    reveal_strlit("input_json_delta");
    assert("message_start"@.len() == 13 && "message_delta"@.len() == 13);
    assert("message_start"@[8] == 's' && "message_delta"@[8] == 'd');
    assert("message_stop"@.len() == 12 && "ping"@.len() == 4 && "error"@.len() == 5);
    assert("content_block_start"@.len() == 19 && "content_block_delta"@.len() == 19);
    assert("content_block_start"@[14] == 's' && "content_block_delta"@[14] == 'd');
    assert("text_delta"@.len() == 10 && "input_json_delta"@.len() == 16);
}

/// A client has read of the frames what the events say.
spec fn is_passed_on(st: OpenAiState, es: Seq<to_openai::EventModel>, r: ReadAnswer) -> bool {
    let blocks = reading::call_blocks(es);
    &&& st.tools == blocks
    &&& blocks.len() <= es.len()
    &&& r.text == reading::events_said(es)
    &&& r.calls.len() == blocks.len()
    &&& forall|k: int|
        0 <= k < blocks.len() ==> is_passed_call(#[trigger] r.calls[k], es, blocks[k], k)
}

/// The call at the index `k` is that of a content block, whole.
pub open spec fn is_passed_call(
    c: ReadCall,
    es: Seq<to_openai::EventModel>,
    block: u64,
    k: int,
) -> bool {
    &&& c.place == k
    &&& c.id == reading::block_start_says(es, block, "id"@, "tool_call"@)
    &&& c.name == reading::block_start_says(es, block, "name"@, "tool"@)
    &&& c.arguments == reading::block_input(es, block)
}

proof fn unknown_block_is_blank(es: Seq<to_openai::EventModel>, b: u64)
    requires
        !reading::call_blocks(es).contains(b),
    ensures
        reading::block_input(es, b) == Seq::<char>::empty(),
        forall|key: Seq<char>, d: Seq<char>|
            #[trigger] reading::block_start_says(es, b, key, d) is None,
    decreases es.len(),
{
    if es.len() > 0 {
        let rest = es.drop_last();
        let e = es.last();
        let before = reading::call_blocks(rest);
        if before.contains(b) {
            let k = choose|k: int| 0 <= k < before.len() && before[k] == b;
            assert(reading::call_blocks(es)[k] == b);
        }
        if (reading::starts_call(e) || reading::event_input(e) is Some) && reading::event_block(e)
            == b {
            assert(before.push(b)[before.len() as int] == b);
        }
        unknown_block_is_blank(rest, b);
        assert forall|key: Seq<char>, d: Seq<char>|
            #[trigger] reading::block_start_says(es, b, key, d) is None by {
            assert(reading::block_start_says(rest, b, key, d) is None);
        }
    }
}

proof fn blocks_are_distinct(es: Seq<to_openai::EventModel>)
    ensures
        forall|j: int, k: int|
            0 <= j < k < reading::call_blocks(es).len() ==> #[trigger] reading::call_blocks(es)[j]
                != #[trigger] reading::call_blocks(es)[k],
    decreases es.len(),
{
    if es.len() > 0 {
        let before = reading::call_blocks(es.drop_last());
        blocks_are_distinct(es.drop_last());
        assert forall|j: int, k: int|
            0 <= j < k < reading::call_blocks(es).len() implies #[trigger] reading::call_blocks(
            es,
        )[j] != #[trigger] reading::call_blocks(es)[k] by {
            if k < before.len() {
                assert(before[j] != before[k]);
            } else {
                assert(before.contains(before[j]));
            }
        }
    }
}

/// A chunk with a piece of a tool call, as a client reads it.
proof fn piece_is_read(index: int, id: Seq<char>, name: Seq<char>, partial: Seq<char>)
    requires
        0 <= index <= u64::MAX,
    ensures
        ({
            let d = to_openai::tool_start_delta(index, id, name);
            &&& d.str_at("content"@) is None
            &&& d.array_at("tool_calls"@) matches Some(ps) && ps.len() == 1 && {
                let p = ps[0];
                &&& reading::count_at(p, "index"@) == index
                &&& p.str_at("id"@) == Some(id)
                &&& p.field_or_null("function"@).str_at("name"@) == Some(name)
                &&& p.field_or_null("function"@).str_at("arguments"@) == Some(""@)
            }
        }),
        ({
            let d = to_openai::tool_arguments_delta(index, partial);
            &&& d.str_at("content"@) is None
            &&& d.array_at("tool_calls"@) matches Some(ps) && ps.len() == 1 && {
                let p = ps[0];
                &&& reading::count_at(p, "index"@) == index
                &&& p.str_at("id"@) is None
                &&& p.field_or_null("function"@).str_at("name"@) is None
                &&& p.field_or_null("function"@).str_at("arguments"@) == Some(partial)
            }
        }),
{
    keys_differ();
}

proof fn call_piece_is_passed_on(
    st: OpenAiState,
    es: Seq<to_openai::EventModel>,
    r: ReadAnswer,
    e: to_openai::EventModel,
)
    requires
        is_passed_on(st, es, r),
        es.len() < u64::MAX,
        reading::starts_call(e) || reading::event_input(e) is Some,
    ensures
        ({
            let (st2, out) = to_openai::step(st, e);
            is_passed_on(st2, es.push(e), reading::take_frames(r, out))
        }),
{
    reveal_with_fuel(reading::take_frames, 2);
    reveal_with_fuel(reading::take_pieces, 2);
    kinds_differ();
    let all = es.push(e);
    assert(all.drop_last() =~= es);
    let b = reading::event_block(e);
    let blocks = reading::call_blocks(es);
    let k = to_openai::tool_index(st.tools, b);
    to_openai::tool_index_is_place(st.tools, b);
    blocks_are_distinct(es);
    let block = e.data.field_or_null("content_block"@);
    let id = to_openai::or_str(block.str_at("id"@), "tool_call"@);
    let name = to_openai::or_str(block.str_at("name"@), "tool"@);
    let partial = json::or_empty(e.data.field_or_null("delta"@).str_at("partial_json"@));
    piece_is_read(k, id, name, partial);
    reveal_strlit("");
    assert(""@ =~= seq![]);
    let (st2, out) = to_openai::step(st, e);
    assert(out.len() == 1);
    assert(out.drop_last() =~= seq![]);
    let delta = out[0]->Chunk_delta;
    let ps = delta.array_at("tool_calls"@)->Some_0;
    assert(ps.drop_last() =~= seq![]);
    let r2 = reading::take_frames(r, out);
    assert(r2.calls == reading::take_piece(r.calls, ps[0]));
    assert(r.text + Seq::<char>::empty() =~= r.text);
    let now = reading::call_blocks(all);
    if !blocks.contains(b) {
        unknown_block_is_blank(es, b);
        assert(k == blocks.len());
    }
    assert forall|j: int| 0 <= j < now.len() implies is_passed_call(
        #[trigger] r2.calls[j],
        all,
        now[j],
        j,
    ) by {
        if j < blocks.len() {
            assert(is_passed_call(r.calls[j], es, blocks[j], j));
            if j != k {
                if blocks.contains(b) {
                    assert(blocks[j] != blocks[k]);
                } else {
                    assert(blocks[j] != b);
                }
                assert(r2.calls[j] == r.calls[j]);
                assert(now[j] == blocks[j] && now[j] != b);
            } else {
                assert(now[j] == b);
                assert(r.calls[j].arguments + Seq::<char>::empty() =~= r.calls[j].arguments);
                if reading::starts_call(e) {
                    assert(reading::event_input(e) is None);
                    assert(r2.calls[j].id == Some(id) && r2.calls[j].name == Some(name));
                    assert(r2.calls[j].arguments == r.calls[j].arguments);
                } else {
                    assert(r2.calls[j].id == r.calls[j].id);
                    assert(r2.calls[j].name == r.calls[j].name);
                    assert(r2.calls[j].arguments == r.calls[j].arguments + partial);
                }
            }
        } else {
            assert(Seq::<char>::empty() + partial =~= partial);
            assert(now[j] == b && j == k);
            assert(reading::block_start_says(es, b, "id"@, "tool_call"@) is None);
            assert(reading::block_start_says(es, b, "name"@, "tool"@) is None);
            if reading::starts_call(e) {
                assert(reading::event_input(e) is None);
                assert(r2.calls[j].id == Some(id) && r2.calls[j].name == Some(name));
                assert(r2.calls[j].arguments == Seq::<char>::empty());
            } else {
                assert(r2.calls[j].id is None && r2.calls[j].name is None);
                assert(r2.calls[j].arguments == partial);
            }
        }
    }
}

proof fn event_is_passed_on(
    st: OpenAiState,
    es: Seq<to_openai::EventModel>,
    r: ReadAnswer,
    e: to_openai::EventModel,
)
    requires
        is_passed_on(st, es, r),
        es.len() < u64::MAX,
    ensures
        ({
            let (st2, out) = to_openai::step(st, e);
            is_passed_on(st2, es.push(e), reading::take_frames(r, out))
        }),
{
    if reading::starts_call(e) || reading::event_input(e) is Some {
        call_piece_is_passed_on(st, es, r, e);
    } else {
        reveal_with_fuel(reading::take_frames, 2);
        kinds_differ();
        keys_differ();
        let all = es.push(e);
        assert(all.drop_last() =~= es);
        let (st2, out) = to_openai::step(st, e);
        let r2 = reading::take_frames(r, out);
        reveal_strlit("");
        assert(""@ =~= seq![]);
        assert(r.text + Seq::<char>::empty() =~= r.text);
        end_says_nothing(st, r);
        if out.len() == 1 {
            assert(out.drop_last() =~= seq![]);
        }
        assert(r2.calls == r.calls);
        assert(r2.text == r.text + reading::event_said(e));
        assert(st2.tools == st.tools);
        let blocks = reading::call_blocks(es);
        assert forall|j: int| 0 <= j < blocks.len() implies is_passed_call(
            #[trigger] r2.calls[j],
            all,
            blocks[j],
            j,
        ) by {
            assert(is_passed_call(r.calls[j], es, blocks[j], j));
        }
    }
}

proof fn end_says_nothing(st: OpenAiState, r: ReadAnswer)
    ensures
        reading::take_frames(r, to_openai::finalized(st).1) == r,
        to_openai::finalized(st).0.tools == st.tools,
{
    reveal_with_fuel(reading::take_frames, 4);
    let out = to_openai::finalized(st).1;
    assert(r.text + Seq::<char>::empty() =~= r.text);
    if out.len() > 0 {
        let a = out.drop_last();
        if a.len() > 0 {
            let b = a.drop_last();
            if b.len() > 0 {
                assert(b.drop_last() =~= seq![]);
            }
        }
    }
}

proof fn events_are_passed_on(model: Seq<char>, es: Seq<to_openai::EventModel>)
    requires
        es.len() <= u64::MAX,
    ensures
        ({
            let (st, out) = to_openai::run(to_openai::initial_state(model), es);
            is_passed_on(st, es, reading::read_frames(out))
        }),
    decreases es.len(),
{
    if es.len() > 0 {
        let rest = es.drop_last();
        events_are_passed_on(model, rest);
        let (st, out) = to_openai::run(to_openai::initial_state(model), rest);
        event_is_passed_on(st, rest, reading::read_frames(out), es.last());
        assert(rest.push(es.last()) =~= es);
        reading::take_frames_add(
            reading::nothing_read(),
            out,
            to_openai::step(st, es.last()).1,
        );
    }
}

/// What a client reads of the frames is what the events say: all their text, and for the k-th
/// content block that is a tool call one call at the index k, counted from zero, with the
/// identity and the name that the block starts with, and all the input that comes for it,
/// wherever that comes.
pub proof fn text_and_calls_are_passed_on(model: Seq<char>, es: Seq<to_openai::EventModel>)
    requires
        es.len() <= u64::MAX,
    ensures
        ({
            let r = reading::read_frames(to_openai::whole_stream(model, es));
            let blocks = reading::call_blocks(es);
            &&& r.text == reading::events_said(es)
            &&& r.calls.len() == blocks.len()
            &&& forall|k: int|
                0 <= k < blocks.len() ==> is_passed_call(#[trigger] r.calls[k], es, blocks[k], k)
        }),
{
    events_are_passed_on(model, es);
    let (st, out) = to_openai::run(to_openai::initial_state(model), es);
    end_says_nothing(st, reading::read_frames(out));
    reading::take_frames_add(reading::nothing_read(), out, to_openai::finalized(st).1);
}

proof fn kinds_differ_more()
    ensures
        "message_stop"@ != "ping"@,
        "message_stop"@ != "error"@,
        "message_start"@ != "ping"@,
        "message_start"@ != "error"@,
        "ping"@ != "error"@,
{
    reveal_strlit("message_start");
    reveal_strlit("message_stop");
    reveal_strlit("ping");
    reveal_strlit("error");
    assert("message_start"@.len() == 13 && "message_stop"@.len() == 12);
    assert("ping"@.len() == 4 && "error"@.len() == 5);
}

/// The words of OpenAI for a list of reasons.
pub open spec fn all_in_openai_words(reasons: Seq<Seq<char>>) -> Seq<Seq<char>> {
    reasons.map_values(|r: Seq<char>| reading::in_openai_words(r))
}

/// What has been sent of an unfinished stream, besides text and calls.
spec fn is_under_way(st: OpenAiState, es: Seq<to_openai::EventModel>, out: Seq<FrameModel>) -> bool {
    let reasons = all_in_openai_words(reading::stop_reasons(es));
    &&& reading::finish_reasons(out) == reasons
    &&& st.finish_sent == (reasons.len() > 0)
    &&& !st.done_sent
    &&& st.input_tokens == reading::event_count(es, "input_tokens"@)
    &&& st.output_tokens == reading::event_count(es, "output_tokens"@)
    &&& reading::frame_counts(out).len() == 0
}

proof fn step_is_under_way(
    st: OpenAiState,
    es: Seq<to_openai::EventModel>,
    out: Seq<FrameModel>,
    e: to_openai::EventModel,
)
    requires
        is_under_way(st, es, out),
        e.event_type != "message_stop"@,
    ensures
        is_under_way(to_openai::step(st, e).0, es.push(e), out + to_openai::step(st, e).1),
{
    reveal_with_fuel(reading::finish_reasons, 2);
    reveal_with_fuel(reading::frame_counts, 2);
    kinds_differ();
    kinds_differ_more();
    let all = es.push(e);
    assert(all.drop_last() =~= es);
    let (st2, more) = to_openai::step(st, e);
    reading::finish_reasons_add(out, more);
    reading::frame_counts_add(out, more);
    if more.len() == 1 {
        assert(more.drop_last() =~= seq![]);
    }
    let before = reading::stop_reasons(es);
    match e.data.field_or_null("delta"@).str_at("stop_reason"@) {
        Some(r) => {
            words_agree(r);
            if e.event_type == "message_delta"@ {
                assert(all_in_openai_words(before.push(r)) =~= all_in_openai_words(before).push(
                    reading::in_openai_words(r),
                ));
                assert(reading::finish_reasons(more) =~= seq![reading::in_openai_words(r)]);
            }
        },
        None => {},
    }
    assert(reading::finish_reasons(out + more) =~= all_in_openai_words(reading::stop_reasons(all)));
}

proof fn run_is_under_way(model: Seq<char>, es: Seq<to_openai::EventModel>)
    requires
        forall|i: int| 0 <= i < es.len() ==> (#[trigger] es[i]).event_type != "message_stop"@,
    ensures
        ({
            let (st, out) = to_openai::run(to_openai::initial_state(model), es);
            is_under_way(st, es, out)
        }),
    decreases es.len(),
{
    if es.len() > 0 {
        let rest = es.drop_last();
        assert forall|i: int| 0 <= i < rest.len() implies (#[trigger] rest[i]).event_type
            != "message_stop"@ by {
            assert(rest[i] == es[i]);
        }
        run_is_under_way(model, rest);
        let (st, out) = to_openai::run(to_openai::initial_state(model), rest);
        assert(es[es.len() - 1].event_type != "message_stop"@);
        step_is_under_way(st, rest, out, es.last());
        assert(rest.push(es.last()) =~= es);
    } else {
        assert(all_in_openai_words(reading::stop_reasons(es)) =~= seq![]);
    }
}

proof fn end_is_told(st: OpenAiState, es: Seq<to_openai::EventModel>, out: Seq<FrameModel>)
    requires
        is_under_way(st, es, out),
    ensures
        is_ending(es, out + to_openai::finalized(st).1),
        to_openai::finalized(to_openai::finalized(st).0).1.len() == 0,
{
    reveal_with_fuel(reading::finish_reasons, 4);
    reveal_with_fuel(reading::frame_counts, 4);
    let more = to_openai::finalized(st).1;
    reading::finish_reasons_add(out, more);
    reading::frame_counts_add(out, more);
    let a = more.drop_last();
    assert(more.last() == FrameModel::Done);
    if a.len() > 0 {
        let b = a.drop_last();
        if b.len() > 0 {
            assert(b.drop_last() =~= seq![]);
        }
    }
    assert((out + more).last() == more.last());
    let p = reading::event_count(es, "input_tokens"@);
    let c = reading::event_count(es, "output_tokens"@);
    if p > 0 || c > 0 {
        assert(reading::frame_counts(more) =~= seq![(p, c)]);
    } else {
        assert(reading::frame_counts(more) =~= seq![]);
    }
    if st.finish_sent {
        assert(reading::finish_reasons(more) =~= seq![]);
    } else {
        assert(reading::finish_reasons(more) =~= seq!["stop"@]);
    }
    assert(reading::finish_reasons(out + more) =~= reading::finish_reasons(out)
        + reading::finish_reasons(more));
    assert(reading::frame_counts(out + more) =~= reading::frame_counts(more));
}

/// How the frames of a stream end: with the reasons that the events give, in the words of
/// OpenAI, or with `stop` where they give none; with the counts of tokens that the events give
/// last, unless these are zero; and with the mark of the end.
pub open spec fn is_ending(es: Seq<to_openai::EventModel>, all: Seq<FrameModel>) -> bool {
    let reasons = all_in_openai_words(reading::stop_reasons(es));
    let p = reading::event_count(es, "input_tokens"@);
    let c = reading::event_count(es, "output_tokens"@);
    &&& all.len() > 0
    &&& all.last() is Done
    &&& reading::finish_reasons(all) == if reasons.len() > 0 {
        reasons
    } else {
        seq!["stop"@]
    }
    &&& reading::frame_counts(all) == if p > 0 || c > 0 {
        seq![(p, c)]
    } else {
        seq![]
    }
}

/// A stream that ends with its `message_stop`, or breaks off before it, is ended as its events
/// say.
pub proof fn ending_is_passed_on(model: Seq<char>, es: Seq<to_openai::EventModel>)
    requires
        forall|i: int| 0 <= i < es.len() - 1 ==> (#[trigger] es[i]).event_type != "message_stop"@,
    ensures
        is_ending(es, to_openai::whole_stream(model, es)),
{
    let start = to_openai::initial_state(model);
    if es.len() > 0 && es.last().event_type == "message_stop"@ {
        kinds_differ();
        kinds_differ_more();
        let rest = es.drop_last();
        assert forall|i: int| 0 <= i < rest.len() implies (#[trigger] rest[i]).event_type
            != "message_stop"@ by {
            assert(rest[i] == es[i]);
        }
        run_is_under_way(model, rest);
        let (st, out) = to_openai::run(start, rest);
        end_is_told(st, rest, out);
        let (st2, more) = to_openai::finalized(st);
        assert(to_openai::step(st, es.last()) == (st2, more));
        assert(to_openai::whole_stream(model, es) =~= out + more);
        assert(reading::stop_reasons(es) == reading::stop_reasons(rest));
        assert(reading::event_count(es, "input_tokens"@) == reading::event_count(
            rest,
            "input_tokens"@,
        ));
        assert(reading::event_count(es, "output_tokens"@) == reading::event_count(
            rest,
            "output_tokens"@,
        ));
    } else {
        assert forall|i: int| 0 <= i < es.len() implies (#[trigger] es[i]).event_type
            != "message_stop"@ by {}
        run_is_under_way(model, es);
        let (st, out) = to_openai::run(start, es);
        end_is_told(st, es, out);
    }
}

proof fn run_is_of_answer(model: Seq<char>, es: Seq<to_openai::EventModel>, id: Seq<char>)
    requires
        es.len() > 0,
        es[0].event_type == "message_start"@,
        es[0].data.field_or_null("message"@).str_at("id"@) == Some(id),
        forall|i: int| 1 <= i < es.len() ==> (#[trigger] es[i]).event_type != "message_start"@,
    ensures
        ({
            let (st, out) = to_openai::run(to_openai::initial_state(model), es);
            &&& st.id == id
            &&& st.model == model
            &&& forall|i: int|
                0 <= i < out.len() ==> reading::is_of_answer(#[trigger] out[i], id, model)
        }),
    decreases es.len(),
{
    let rest = es.drop_last();
    let e = es.last();
    let start = to_openai::initial_state(model);
    let (st, out) = to_openai::run(start, rest);
    let (st2, more) = to_openai::step(st, e);
    kinds_differ();
    kinds_differ_more();
    if es.len() == 1 {
        assert(rest =~= seq![]);
        assert(e == es[0]);
        assert(out =~= seq![]);
    } else {
        assert forall|i: int| 1 <= i < rest.len() implies (#[trigger] rest[i]).event_type
            != "message_start"@ by {
            assert(rest[i] == es[i]);
        }
        assert(rest[0] == es[0]);
        run_is_of_answer(model, rest, id);
        assert(es[es.len() - 1].event_type != "message_start"@);
    }
    assert(st2.id == id && st2.model == model);
    assert forall|i: int| 0 <= i < more.len() implies reading::is_of_answer(
        #[trigger] more[i],
        id,
        model,
    ) by {}
    let all = out + more;
    assert forall|i: int| 0 <= i < all.len() implies reading::is_of_answer(
        #[trigger] all[i],
        id,
        model,
    ) by {
        if i < out.len() {
            assert(all[i] == out[i]);
        } else {
            assert(all[i] == more[i - out.len()]);
        }
    }
}

/// All frames of a stream belong to one answer: they carry the identity that the message starts
/// with, and the model that was asked for.
pub proof fn frames_belong_together(
    model: Seq<char>,
    es: Seq<to_openai::EventModel>,
    id: Seq<char>,
    i: int,
)
    requires
        es.len() > 0,
        es[0].event_type == "message_start"@,
        es[0].data.field_or_null("message"@).str_at("id"@) == Some(id),
        forall|k: int| 1 <= k < es.len() ==> (#[trigger] es[k]).event_type != "message_start"@,
        0 <= i < to_openai::whole_stream(model, es).len(),
    ensures
        reading::is_of_answer(to_openai::whole_stream(model, es)[i], id, model),
{
    run_is_of_answer(model, es, id);
    let (st, out) = to_openai::run(to_openai::initial_state(model), es);
    if i >= out.len() {
        let end = to_openai::finalized(st).1;
        assert(to_openai::whole_stream(model, es)[i] == end[i - out.len()]);
    }
}

// ── What goes over the wire ─────────────────────────────────────────────────

/// A chunk as OpenAI writes it.
pub open spec fn is_chunk(
    j: JsonModel,
    id: Seq<char>,
    model: Seq<char>,
    created: u64,
    delta: JsonModel,
    finish: Option<Seq<char>>,
) -> bool {
    &&& j.str_at("id"@) == Some(id)
    &&& j.str_at("object"@) == Some("chat.completion.chunk"@)
    &&& j.unsigned_at("created"@) == Some(created)
    &&& j.str_at("model"@) == Some(model)
    &&& j.array_at("choices"@) matches Some(cs) && cs.len() == 1
    &&& reading::choice(j).unsigned_at("index"@) == Some(0u64)
    &&& reading::choice(j).field("delta"@) == Some(delta)
    &&& reading::choice(j).field("finish_reason"@) == Some(
        match finish {
            Some(r) => JsonModel::Str(r),
            None => JsonModel::Null,
        },
    )
}

/// A chunk with counts of tokens as OpenAI writes it.
pub open spec fn is_counts_chunk(
    j: JsonModel,
    id: Seq<char>,
    model: Seq<char>,
    created: u64,
    prompt: u64,
    completion: u64,
) -> bool {
    let u = j.field_or_null("usage"@);
    &&& j.str_at("id"@) == Some(id)
    &&& j.str_at("object"@) == Some("chat.completion.chunk"@)
    &&& j.unsigned_at("created"@) == Some(created)
    &&& j.str_at("model"@) == Some(model)
    &&& j.array_at("choices"@) == Some(Seq::<JsonModel>::empty())
    &&& u.unsigned_at("prompt_tokens"@) == Some(prompt)
    &&& u.unsigned_at("completion_tokens"@) == Some(completion)
    &&& prompt + completion <= u64::MAX ==> u.unsigned_at("total_tokens"@) == Some(
        (prompt + completion) as u64,
    )
}

proof fn chunk_keys_differ()
    ensures
        "id"@ != "object"@,
        "id"@ != "created"@,
        "id"@ != "model"@,
        "id"@ != "choices"@,
        "id"@ != "usage"@,
        "object"@ != "created"@,
        "object"@ != "model"@,
        "object"@ != "choices"@,
        "object"@ != "usage"@,
        "created"@ != "model"@,
        "created"@ != "choices"@,
        "created"@ != "usage"@,
        "model"@ != "choices"@,
        "model"@ != "usage"@,
        "choices"@ != "usage"@,
        "index"@ != "delta"@,
        "index"@ != "finish_reason"@,
        "delta"@ != "finish_reason"@,
        "prompt_tokens"@ != "completion_tokens"@,
        "prompt_tokens"@ != "total_tokens"@,
        "completion_tokens"@ != "total_tokens"@,
{
    reveal_strlit("id");
    reveal_strlit("object");
    reveal_strlit("created");
    reveal_strlit("model");
    reveal_strlit("choices");
    reveal_strlit("usage");
    reveal_strlit("index");
    reveal_strlit("delta");
    reveal_strlit("finish_reason");
    reveal_strlit("prompt_tokens");
    reveal_strlit("completion_tokens");
    reveal_strlit("total_tokens");
    assert("id"@.len() == 2 && "object"@.len() == 6 && "created"@.len() == 7);
    assert("model"@.len() == 5 && "choices"@.len() == 7 && "usage"@.len() == 5);
    assert("created"@[1] == 'r' && "choices"@[1] == 'h');
    assert("model"@[0] == 'm' && "usage"@[0] == 'u');
    assert("index"@.len() == 5 && "delta"@.len() == 5 && "finish_reason"@.len() == 13);
    assert("index"@[0] == 'i' && "delta"@[0] == 'd');
    assert("prompt_tokens"@.len() == 13 && "completion_tokens"@.len() == 17);
    assert("total_tokens"@.len() == 12);
}

/// Every frame is written as an OpenAI client expects it: a line of data, the JSON of which
/// holds what the frame holds, and a blank line.
pub proof fn frames_are_written(f: FrameModel, created: u64)
    ensures
        match f {
            FrameModel::Chunk { id, model, delta, finish_reason } => exists|j: JsonModel|
                #[trigger] is_chunk(j, id, model, created, delta, finish_reason)
                    && to_openai::frame_text(f, created) == "data: "@ + json::json_text(j)
                    + "\n\n"@,
            FrameModel::Usage { id, model, prompt_tokens, completion_tokens } => exists|
                j: JsonModel,
            |
                #[trigger] is_counts_chunk(j, id, model, created, prompt_tokens, completion_tokens)
                    && to_openai::frame_text(f, created) == "data: "@ + json::json_text(j)
                    + "\n\n"@,
            FrameModel::Error(e) => exists|j: JsonModel|
                #[trigger] j.field("error"@) == Some(e) && to_openai::frame_text(f, created)
                    == "data: "@ + json::json_text(j) + "\n\n"@,
            FrameModel::Ping => to_openai::frame_text(f, created) == ": ping\n\n"@,
            FrameModel::Done => to_openai::frame_text(f, created) == "data: [DONE]\n\n"@,
        },
{
    chunk_keys_differ();
    match f {
        FrameModel::Chunk { id, model, delta, finish_reason } => {
            let j = builders::chunk_model(id, model, delta, finish_reason, created);
            assert(is_chunk(j, id, model, created, delta, finish_reason));
        },
        FrameModel::Usage { id, model, prompt_tokens, completion_tokens } => {
            let j = builders::usage_chunk_model(
                id,
                model,
                prompt_tokens,
                completion_tokens,
                created,
            );
            assert(is_counts_chunk(j, id, model, created, prompt_tokens, completion_tokens));
        },
        FrameModel::Error(e) => {
            let j = JsonModel::Object(json::nothing().insert("error"@, e));
            assert(j.field("error"@) == Some(e));
        },
        _ => {},
    }
}

/// The data of an event as Anthropic writes it.
pub open spec fn is_event_data(e: EventModel, name: Seq<char>, d: JsonModel) -> bool {
    &&& d.str_at("type"@) == Some(name)
    &&& match e {
        EventModel::MessageStart { id, model } => {
            let m = d.field_or_null("message"@);
            &&& name == "message_start"@
            &&& m.str_at("id"@) == Some(id)
            &&& m.str_at("type"@) == Some("message"@)
            &&& m.str_at("role"@) == Some("assistant"@)
            &&& m.str_at("model"@) == Some(model)
            &&& m.array_at("content"@) == Some(Seq::<JsonModel>::empty())
        },
        EventModel::BlockStart { index, block } => {
            &&& name == "content_block_start"@
            &&& d.unsigned_at("index"@) == Some(index as u64)
            &&& d.field("content_block"@) == Some(block)
        },
        EventModel::BlockDelta { index, delta } => {
            &&& name == "content_block_delta"@
            &&& d.unsigned_at("index"@) == Some(index as u64)
            &&& d.field("delta"@) == Some(delta)
        },
        EventModel::BlockStop { index } => {
            &&& name == "content_block_stop"@
            &&& d.unsigned_at("index"@) == Some(index as u64)
        },
        EventModel::MessageDelta { stop_reason, usage } => {
            let u = d.field_or_null("usage"@);
            &&& name == "message_delta"@
            &&& d.field_or_null("delta"@).field("stop_reason"@) == Some(
                match stop_reason {
                    Some(r) => JsonModel::Str(r),
                    None => JsonModel::Null,
                },
            )
            &&& u.unsigned_at("input_tokens"@) == Some(usage.input_tokens)
            &&& u.unsigned_at("output_tokens"@) == Some(usage.output_tokens)
            &&& u.unsigned_at("cache_read_input_tokens"@) == Some(usage.cache_read_input_tokens)
        },
        EventModel::MessageStop => name == "message_stop"@,
        EventModel::Ping => name == "ping"@,
        EventModel::Error { kind, message } => {
            &&& name == "error"@
            &&& d.field_or_null("error"@).str_at("type"@) == Some(kind)
            &&& d.field_or_null("error"@).str_at("message"@) == Some(message)
        },
    }
}

proof fn event_keys_differ()
    ensures
        "type"@ != "index"@,
        "type"@ != "content_block"@,
        "type"@ != "delta"@,
        "type"@ != "message"@,
        "type"@ != "usage"@,
        "type"@ != "error"@,
        "type"@ != "id"@,
        "type"@ != "role"@,
        "type"@ != "model"@,
        "type"@ != "content"@,
        "type"@ != "stop_reason"@,
        "type"@ != "stop_sequence"@,
        "index"@ != "content_block"@,
        "index"@ != "delta"@,
        "delta"@ != "usage"@,
        "id"@ != "role"@,
        "id"@ != "model"@,
        "id"@ != "content"@,
        "id"@ != "stop_reason"@,
        "id"@ != "stop_sequence"@,
        "id"@ != "usage"@,
        "role"@ != "model"@,
        "role"@ != "content"@,
        "role"@ != "stop_reason"@,
        "role"@ != "stop_sequence"@,
        "role"@ != "usage"@,
        "model"@ != "content"@,
        "model"@ != "stop_reason"@,
        "model"@ != "stop_sequence"@,
        "model"@ != "usage"@,
        "content"@ != "stop_reason"@,
        "content"@ != "stop_sequence"@,
        "content"@ != "usage"@,
        "stop_reason"@ != "stop_sequence"@,
        "input_tokens"@ != "output_tokens"@,
        "input_tokens"@ != "cache_creation_input_tokens"@,
        "input_tokens"@ != "cache_read_input_tokens"@,
        "output_tokens"@ != "cache_creation_input_tokens"@,
        "output_tokens"@ != "cache_read_input_tokens"@,
        "cache_creation_input_tokens"@ != "cache_read_input_tokens"@,
{
    reveal_strlit("type");
    reveal_strlit("index");
    reveal_strlit("content_block");
    reveal_strlit("delta");
    reveal_strlit("message");
    reveal_strlit("usage");
    reveal_strlit("error");
    reveal_strlit("id");
    reveal_strlit("role");
    reveal_strlit("model");
    reveal_strlit("content");
    reveal_strlit("stop_reason");
    reveal_strlit("stop_sequence");
    reveal_strlit("input_tokens");
    reveal_strlit("output_tokens");
    reveal_strlit("cache_creation_input_tokens");
    reveal_strlit("cache_read_input_tokens");
    assert("type"@.len() == 4 && "index"@.len() == 5 && "content_block"@.len() == 13);
    assert("delta"@.len() == 5 && "message"@.len() == 7 && "usage"@.len() == 5);
    assert("error"@.len() == 5 && "id"@.len() == 2 && "role"@.len() == 4);
    assert("model"@.len() == 5 && "content"@.len() == 7 && "stop_reason"@.len() == 11);
    assert("stop_sequence"@.len() == 13 && "input_tokens"@.len() == 12);
    assert("output_tokens"@.len() == 13 && "cache_creation_input_tokens"@.len() == 27);
    assert("cache_read_input_tokens"@.len() == 23);
    assert("type"@[0] == 't' && "role"@[0] == 'r' && "index"@[0] == 'i' && "delta"@[0] == 'd');
    assert("usage"@[0] == 'u' && "model"@[0] == 'm');
}

/// Every event is written as an Anthropic client expects it: its name, a line of data whose
/// JSON has the name for its type and holds what the event holds, and a blank line.
pub proof fn events_are_written(e: EventModel)
    ensures
        exists|name: Seq<char>, d: JsonModel|
            #[trigger] is_event_data(e, name, d) && events::event_text(e) == "event: "@ + name
                + "\ndata: "@ + json::json_text(d) + "\n\n"@,
{
    event_keys_differ();
    let d = events::event_data(e);
    assert(is_event_data(e, events::event_name(e), d));
}

// ── Beginnings and errors ───────────────────────────────────────────────────

/// An error that the upstream reports is told to an Anthropic client in its own words.
pub proof fn errors_are_told_in_their_words(
    id: Seq<char>,
    model: Seq<char>,
    inputs: Seq<JsonModel>,
    fresh: Seq<Seq<Seq<char>>>,
    i: int,
    message: Seq<char>,
)
    requires
        0 <= i < inputs.len(),
        inputs[i].field_or_null("error"@).str_at("message"@) == Some(message),
    ensures
        to_anthropic::whole_stream(id, model, inputs, fresh).contains(
            EventModel::Error { kind: "api_error"@, message },
        ),
{
    let st = to_anthropic::initial_state();
    let e = EventModel::Error { kind: "api_error"@, message };
    assert(inputs[i].field("error"@) == Some(inputs[i].field_or_null("error"@)));
    to_anthropic::errors_become_events(st, inputs, fresh, i);
    let out = to_anthropic::run(st, inputs, fresh).1;
    assert(out.contains(e));
    let k = choose|k: int| 0 <= k < out.len() && out[k] == e;
    assert(to_anthropic::whole_stream(id, model, inputs, fresh)[k + 1] == e);
}

/// An error that the upstream reports is passed on to a chat client as it is.
pub proof fn errors_are_passed_on_as_they_are(
    model: Seq<char>,
    es: Seq<to_openai::EventModel>,
    i: int,
    error: JsonModel,
)
    requires
        0 <= i < es.len(),
        es[i].event_type == "error"@,
        es[i].data.field("error"@) == Some(error),
    ensures
        to_openai::whole_stream(model, es).contains(FrameModel::Error(error)),
{
    to_openai::errors_are_forwarded(model, es, i);
}

proof fn frames_only_grow(st: to_openai::OpenAiState, es: Seq<to_openai::EventModel>)
    requires
        es.len() > 0,
    ensures
        to_openai::run(st, es.take(1)).1.is_prefix_of(to_openai::run(st, es).1),
    decreases es.len(),
{
    let all = to_openai::run(st, es).1;
    let first = to_openai::run(st, es.take(1)).1;
    if es.len() == 1 {
        assert(es.take(1) =~= es);
        assert(first =~= all.subrange(0, first.len() as int));
    } else {
        let rest = es.drop_last();
        frames_only_grow(st, rest);
        assert(rest.take(1) =~= es.take(1));
        let before = to_openai::run(st, rest).1;
        assert(first == before.subrange(0, first.len() as int));
        assert(first =~= all.subrange(0, first.len() as int));
    }
}

/// A chat stream opens by saying that the assistant speaks.
pub proof fn answer_opens_with_its_role(model: Seq<char>, es: Seq<to_openai::EventModel>)
    requires
        es.len() > 0,
        es[0].event_type == "message_start"@,
    ensures
        to_openai::whole_stream(model, es).len() > 0,
        to_openai::whole_stream(model, es)[0] matches FrameModel::Chunk {
            delta,
            finish_reason,
            ..
        } && delta.str_at("role"@) == Some("assistant"@) && finish_reason is None,
{
    let st = to_openai::initial_state(model);
    let one = es.take(1);
    assert(one.drop_last() =~= seq![]);
    assert(one.last() == es[0]);
    reveal_with_fuel(to_openai::run, 2);
    frames_only_grow(st, es);
    let first = to_openai::run(st, one).1;
    let step = to_openai::on_message_start(st, es[0].data).1;
    assert(first =~= step);
    let all = to_openai::run(st, es).1;
    assert(first == all.subrange(0, first.len() as int));
    assert(all[0] == all.subrange(0, first.len() as int)[0]);
    assert(to_openai::whole_stream(model, es)[0] == all[0]);
    reveal_strlit("role");
    reveal_strlit("content");
    assert("role"@.len() == 4 && "content"@.len() == 7);
}

} // verus!
