//! That a client gets what the worker said, whichever way it asked for the answer.
use vstd::prelude::*;

use crate::brain::anthropic_blocking;
use crate::brain::anthropic_stream::{self, Turn};
use crate::brain::chat_blocking::{self, ChatResponse, Collected};
use crate::brain::chat_stream;
use crate::brain::holdback;
use crate::brain::protocol::{self, CallModel, DoneMessage, FinishReason};
use crate::brain::tool_calls::{self, Gathered, ToolEventModel};
use crate::converter::anthropic_events::EventModel;
use crate::converter::answer_laws::{uses, words, Use};
use crate::converter::reading::{self, ReadAnswer, ReadCall};
use crate::converter::stream_laws;
use crate::converter::to_anthropic;
use crate::converter::types::AnthropicUsage;
use crate::json::{self, JsonModel};
use crate::text;

verus! {

pub(crate) proof fn event_words_differ()
    ensures
        "type"@ != "text"@,
        "type"@ != "id"@,
        "type"@ != "name"@,
        "type"@ != "input"@,
        "type"@ != "partial_json"@,
        "text"@ != "id"@,
        "text"@ != "name"@,
        "text"@ != "input"@,
        "text"@ != "partial_json"@,
        "id"@ != "name"@,
        "id"@ != "input"@,
        "id"@ != "partial_json"@,
        "name"@ != "input"@,
        "name"@ != "partial_json"@,
        "input"@ != "partial_json"@,
        "text"@ != "tool_use"@,
        "text_delta"@ != "input_json_delta"@,
{
    reveal_strlit("type");
    reveal_strlit("text");
    reveal_strlit("id");
    reveal_strlit("name");
    reveal_strlit("input");
    reveal_strlit("partial_json");
    reveal_strlit("tool_use");
    reveal_strlit("text_delta");
    reveal_strlit("input_json_delta");
    assert("type"@.len() == 4 && "text"@.len() == 4);
    assert("id"@.len() == 2 && "name"@.len() == 4);
    assert("input"@.len() == 5 && "partial_json"@.len() == 12);
    assert("tool_use"@.len() == 8 && "text_delta"@.len() == 10);
    assert("input_json_delta"@.len() == 16);
    assert("name"@[0] == 'n' && "text"@[0] == 't');
    assert("text"@[1] == 'e' && "type"@[0] == 't');
    assert("type"@[1] == 'y');
}

// ── What a worker says ──────────────────────────────────────────────────────

/// The line of the worker's stream holds the chunk, as this text.
pub open spec fn holds(line: Seq<char>, data: Seq<char>, v: JsonModel) -> bool {
    &&& line == "data: "@ + data
    &&& data.len() > 0
    &&& !text::is_space(data[0])
    &&& !text::is_space(data.last())
    &&& data != "[DONE]"@
    &&& json::json_parse(data) == Some(v)
}

/// The line of the worker's stream holds the chunk, whatever its text is.
pub open spec fn is_line_of(line: Seq<char>, v: JsonModel) -> bool {
    exists|data: Seq<char>| #[trigger] holds(line, data, v)
}

/// The lines of the worker's stream hold the chunks.
pub open spec fn carry(lines: Seq<Seq<char>>, vs: Seq<JsonModel>) -> bool {
    &&& lines.len() == vs.len()
    &&& forall|i: int|
        0 <= i < lines.len() ==> #[trigger] is_line_of(lines[i], vs[i])
}

/// All the text of the chunks.
pub open spec fn said(vs: Seq<JsonModel>) -> Seq<char>
    decreases vs.len(),
{
    if vs.len() == 0 {
        seq![]
    } else {
        said(vs.drop_last()) + reading::chunk_text(vs.last())
    }
}

/// A tool call as the worker makes it, piece by piece.
#[verifier::ext_equal]
pub struct Spoken {
    pub number: Option<u64>,
    pub name: Seq<char>,
    pub arguments: Seq<char>,
}

/// A piece goes on with the last call where it has the number of that call, and else starts one.
pub open spec fn with_piece(calls: Seq<Spoken>, p: JsonModel) -> Seq<Spoken> {
    if calls.len() > 0 && calls.last().number == p.unsigned_at("index"@) {
        let c = calls.last();
        calls.drop_last().push(
            Spoken { arguments: c.arguments + reading::piece_arguments(p), ..c },
        )
    } else {
        calls.push(
            Spoken {
                number: p.unsigned_at("index"@),
                name: json::or_empty(reading::piece_name(p)),
                arguments: reading::piece_arguments(p),
            },
        )
    }
}

pub open spec fn with_pieces(calls: Seq<Spoken>, ps: Seq<JsonModel>) -> Seq<Spoken>
    decreases ps.len(),
{
    if ps.len() == 0 {
        calls
    } else {
        with_piece(with_pieces(calls, ps.drop_last()), ps.last())
    }
}

/// The tool calls of the chunks.
pub open spec fn spoken(vs: Seq<JsonModel>) -> Seq<Spoken>
    decreases vs.len(),
{
    if vs.len() == 0 {
        seq![]
    } else {
        with_pieces(spoken(vs.drop_last()), reading::chunk_pieces(vs.last()))
    }
}

/// A piece as OpenAI defines it: it has the number of its call, and the name exactly where it
/// is the first of its call.
pub open spec fn is_piece(calls: Seq<Spoken>, p: JsonModel) -> bool {
    &&& p.unsigned_at("index"@) is Some
    &&& p.field("function"@) is Some
    &&& reading::piece_name(p) is Some <==> !(calls.len() > 0 && calls.last().number
        == p.unsigned_at("index"@))
}

pub open spec fn are_pieces(calls: Seq<Spoken>, ps: Seq<JsonModel>) -> bool
    decreases ps.len(),
{
    ps.len() > 0 ==> are_pieces(calls, ps.drop_last()) && is_piece(
        with_pieces(calls, ps.drop_last()),
        ps.last(),
    )
}

/// The tool calls of the chunks come as OpenAI defines it.
pub open spec fn well_spoken(vs: Seq<JsonModel>) -> bool
    decreases vs.len(),
{
    vs.len() > 0 ==> well_spoken(vs.drop_last()) && are_pieces(
        spoken(vs.drop_last()),
        reading::chunk_pieces(vs.last()),
    )
}

/// The calls are those that were spoken, in their order, with their names and arguments.
pub open spec fn are_spoken(cs: Seq<CallModel>, sp: Seq<Spoken>) -> bool {
    &&& cs.len() == sp.len()
    &&& forall|i: int|
        0 <= i < cs.len() ==> (#[trigger] cs[i]).name == sp[i].name && cs[i].arguments
            == sp[i].arguments && cs[i].call_type == "function"@
}

// ── Lines ───────────────────────────────────────────────────────────────────

proof fn line_is_read(line: Seq<char>, data: Seq<char>, v: JsonModel)
    requires
        holds(line, data, v),
    ensures
        tool_calls::line_data(line) == Some(data),
{
    let p = "data: "@;
    assert(line.subrange(0, p.len() as int) =~= p);
    assert(line.skip(p.len() as int) =~= data);
    assert(line.subrange(p.len() as int, line.len() as int) =~= data);
    assert(text::without_prefix(line, p) == data);
    reveal_with_fuel(text::trim_start, 1);
    reveal_with_fuel(text::trim_end, 1);
    assert(text::trim(data) == data);
}

proof fn text_is_read(v: JsonModel)
    ensures
        json::or_empty(tool_calls::new_text(v)) == reading::chunk_text(v),
        tool_calls::entries_of(v) == reading::chunk_pieces(v),
{
    assert(json::or_empty(tool_calls::new_text(v)) =~= reading::chunk_text(v));
}

// ── Gathering calls by their numbers ────────────────────────────────────────

spec fn gathers(g: Gathered, sp: Seq<Spoken>) -> bool {
    &&& are_spoken(tool_calls::all_calls(g), sp)
    &&& g.current is None <==> sp.len() == 0
    &&& g.current is None ==> g.calls.len() == 0
    &&& sp.len() > 0 ==> g.index == sp.last().number && g.index is Some
}

proof fn entry_is_gathered(g: Gathered, sp: Seq<Spoken>, p: JsonModel, fresh: Seq<char>)
    requires
        gathers(g, sp),
        is_piece(sp, p),
    ensures
        gathers(tool_calls::on_entry(g, p, fresh).0, with_piece(sp, p)),
        tool_calls::on_entry(g, p, fresh).0.text == g.text,
{
    let g2 = tool_calls::on_entry(g, p, fresh).0;
    let f = p.field_or_null("function"@);
    assert(p.field("function"@) == Some(f));
    let after = with_piece(sp, p);
    let was = tool_calls::all_calls(g);
    let cs = tool_calls::all_calls(g2);
    let args = reading::piece_arguments(p);
    let starts = !(sp.len() > 0 && sp.last().number == p.unsigned_at("index"@));
    if starts {
        assert(g2.calls == was);
        let c = g2.current->Some_0;
        assert(c.arguments =~= args);
        assert(cs =~= was.push(c));
    } else {
        let c = g2.current->Some_0;
        let old_c = g.current->Some_0;
        assert(was.last() == old_c);
        assert(was[was.len() - 1] == old_c);
        assert(c.arguments =~= old_c.arguments + args);
        assert(cs =~= was.drop_last().push(c));
    }
    assert forall|i: int| 0 <= i < cs.len() implies (#[trigger] cs[i]).name == after[i].name
        && cs[i].arguments == after[i].arguments && cs[i].call_type == "function"@ by {
        if i < was.len() {
            assert(was[i].name == sp[i].name);
        }
    }
}

proof fn entries_are_gathered(
    g: Gathered,
    sp: Seq<Spoken>,
    ps: Seq<JsonModel>,
    fresh: Seq<Seq<char>>,
)
    requires
        gathers(g, sp),
        are_pieces(sp, ps),
    ensures
        gathers(tool_calls::on_entries(g, ps, fresh).0, with_pieces(sp, ps)),
        tool_calls::on_entries(g, ps, fresh).0.text == g.text,
    decreases ps.len(),
{
    if ps.len() > 0 {
        entries_are_gathered(g, sp, ps.drop_last(), fresh);
        entry_is_gathered(
            tool_calls::on_entries(g, ps.drop_last(), fresh).0,
            with_pieces(sp, ps.drop_last()),
            ps.last(),
            fresh[ps.len() - 1],
        );
    }
}

/// What is gathered from the lines of a worker.
pub open spec fn gathered_from(lines: Seq<Seq<char>>, fresh: Seq<Seq<Seq<char>>>) -> Gathered
    decreases lines.len(),
{
    if lines.len() == 0 {
        Gathered { text: seq![], calls: seq![], current: None, index: None }
    } else {
        tool_calls::on_line(
            gathered_from(lines.drop_last(), fresh),
            lines.last(),
            fresh[lines.len() - 1],
        ).0
    }
}

proof fn carry_before(lines: Seq<Seq<char>>, vs: Seq<JsonModel>)
    requires
        carry(lines, vs),
        lines.len() > 0,
    ensures
        carry(lines.drop_last(), vs.drop_last()),
        is_line_of(lines.last(), vs.last()),
{
    let a = lines.drop_last();
    let b = vs.drop_last();
    assert forall|i: int| 0 <= i < a.len() implies #[trigger] is_line_of(a[i], b[i]) by {
        assert(is_line_of(lines[i], vs[i]));
    }
    assert(is_line_of(lines[lines.len() - 1], vs[lines.len() - 1]));
}

proof fn lines_are_gathered(lines: Seq<Seq<char>>, vs: Seq<JsonModel>, fresh: Seq<Seq<Seq<char>>>)
    requires
        carry(lines, vs),
        well_spoken(vs),
    ensures
        gathers(gathered_from(lines, fresh), spoken(vs)),
        gathered_from(lines, fresh).text == said(vs),
    decreases lines.len(),
{
    if lines.len() > 0 {
        carry_before(lines, vs);
        lines_are_gathered(lines.drop_last(), vs.drop_last(), fresh);
        let data = choose|data: Seq<char>| #[trigger] holds(lines.last(), data, vs.last());
        line_is_read(lines.last(), data, vs.last());
        text_is_read(vs.last());
        let g = gathered_from(lines.drop_last(), fresh);
        let g1 = Gathered { text: g.text + reading::chunk_text(vs.last()), ..g };
        assert(gathers(g1, spoken(vs.drop_last()))) by {
            assert(tool_calls::all_calls(g1) == tool_calls::all_calls(g));
        }
        entries_are_gathered(
            g1,
            spoken(vs.drop_last()),
            reading::chunk_pieces(vs.last()),
            fresh[lines.len() - 1],
        );
    }
}

// ── Anthropic clients that wait ─────────────────────────────────────────────

pub(crate) proof fn use_blocks_are_uses(cs: Seq<CallModel>)
    ensures
        words(anthropic_blocking::use_blocks(cs)) == Seq::<char>::empty(),
        uses(anthropic_blocking::use_blocks(cs)) == cs.map_values(|c: CallModel| use_of(c)),
    decreases cs.len(),
{
    event_words_differ();
    let bs = anthropic_blocking::use_blocks(cs);
    let us = cs.map_values(|c: CallModel| use_of(c));
    if cs.len() == 0 {
        assert(us =~= seq![]);
        assert(bs =~= seq![]);
    } else {
        let rest = cs.drop_last();
        use_blocks_are_uses(rest);
        assert(bs.drop_last() =~= anthropic_blocking::use_blocks(rest));
        assert(us =~= rest.map_values(|c: CallModel| use_of(c)).push(use_of(cs.last())));
    }
}

/// The tool that a call uses: its input is what the arguments of the call stand for.
pub open spec fn use_of(c: CallModel) -> Use {
    Use {
        id: c.id,
        name: c.name,
        input: match json::json_parse(c.arguments) {
            Some(input) => input,
            None => JsonModel::Object(json::nothing()),
        },
    }
}

/// A client that waits for an Anthropic answer reads what the worker said: its calls, each with
/// its name and the input that its arguments stand for, or else all its text; and why and after
/// how many tokens it ended.
pub proof fn waiting_client_reads_what_was_said(
    lines: Seq<Seq<char>>,
    vs: Seq<JsonModel>,
    fresh: Seq<Seq<Seq<char>>>,
    done: DoneMessage,
    request_id: Seq<char>,
    model: Seq<char>,
)
    requires
        carry(lines, vs),
        well_spoken(vs),
    ensures
        ({
            let out = anthropic_blocking::answer(
                gathered_from(lines, fresh),
                Some(done),
                None,
                request_id,
                model,
            );
            let sp = spoken(vs);
            &&& out.id == "msg_"@ + request_id
            &&& out.model == model
            &&& out.role == "assistant"@
            &&& out.kind == "message"@
            &&& uses(out.content).len() == sp.len()
            &&& forall|i: int|
                0 <= i < sp.len() ==> (#[trigger] uses(out.content)[i]).name == sp[i].name
                    && uses(out.content)[i].input == (match json::json_parse(sp[i].arguments) {
                    Some(input) => input,
                    None => JsonModel::Object(json::nothing()),
                })
            &&& sp.len() == 0 ==> words(out.content) == said(vs)
            &&& sp.len() > 0 ==> out.stop_reason == Some("tool_use"@)
            &&& sp.len() == 0 ==> out.stop_reason == Some(
                reading::in_anthropic_words(reason_word(done.finish_reason)),
            )
            &&& out.usage.input_tokens == done.prompt_tokens
            &&& out.usage.output_tokens == done.comp_tokens
        }),
{
    lines_are_gathered(lines, vs, fresh);
    let g = gathered_from(lines, fresh);
    let cs = tool_calls::all_calls(g);
    let out = anthropic_blocking::answer(g, Some(done), None, request_id, model);
    reasons_have_words(done.finish_reason);
    stream_laws::reasons_mean_the_same(protocol::finish_word(done.finish_reason));
    if cs.len() > 0 {
        use_blocks_are_uses(cs);
        assert forall|i: int| 0 <= i < spoken(vs).len() implies (
        #[trigger] uses(out.content)[i]).name == spoken(vs)[i].name && uses(out.content)[i].input
            == (match json::json_parse(spoken(vs)[i].arguments) {
            Some(input) => input,
            None => JsonModel::Object(json::nothing()),
        }) by {
            assert(cs[i].name == spoken(vs)[i].name);
        }
    } else {
        event_words_differ();
        reveal_with_fuel(words, 2);
        reveal_with_fuel(uses, 2);
        let bs = seq![anthropic_blocking::text_block(g.text)];
        assert(out.content == bs);
        assert(bs.drop_last() =~= seq![]);
        assert(words(bs) =~= g.text);
    }
}

/// OpenAI's word for the end of an answer.
pub open spec fn reason_word(r: FinishReason) -> Seq<char> {
    match r {
        FinishReason::Stop => "stop"@,
        FinishReason::ToolCalls => "tool_calls"@,
        FinishReason::Length => "length"@,
        FinishReason::ContentFilter => "content_filter"@,
        FinishReason::Error => "stop"@,
    }
}

proof fn reasons_have_words(r: FinishReason)
    ensures
        protocol::finish_word(r) == reason_word(r),
{
}

// ── Anthropic clients that follow ───────────────────────────────────────────

/// A client has read the calls.
pub open spec fn has_read(rs: Seq<ReadCall>, cs: Seq<CallModel>) -> bool {
    &&& rs.len() == cs.len()
    &&& forall|i: int|
        0 <= i < rs.len() ==> (#[trigger] rs[i]).id == Some(cs[i].id) && rs[i].name == Some(
            cs[i].name,
        ) && rs[i].arguments == cs[i].arguments
}

/// What of the text is held back.
spec fn waiting(st: Turn) -> Seq<char> {
    if st.leaked {
        seq![]
    } else {
        st.pending
    }
}

spec fn in_step(st: Turn, r: ReadAnswer, cs: Seq<CallModel>) -> bool {
    &&& has_read(r.calls, cs)
    &&& st.tool_block is Some <==> cs.len() > 0
    &&& st.tool_block matches Some(b) ==> r.calls.last().place == b
}

pub(crate) proof fn shown_text_is_read(r: ReadAnswer, t: Seq<char>)
    ensures
        reading::take_events(r, anthropic_stream::shown_text(t)) == (ReadAnswer {
            text: r.text + t,
            ..r
        }),
{
    event_words_differ();
    reveal_with_fuel(reading::take_events, 2);
    let es = anthropic_stream::shown_text(t);
    if t.len() > 0 {
        assert(es.drop_last() =~= seq![]);
        let d = to_anthropic::text_delta(t);
        assert(d.str_at("type"@) == Some("text_delta"@));
        assert(d.str_at("text"@) == Some(t));
    } else {
        assert(r.text + t =~= r.text);
    }
}

proof fn tool_event_is_read(st: Turn, e: ToolEventModel, r: ReadAnswer, cs: Seq<CallModel>)
    requires
        in_step(st, r, cs),
        e is ArgsDelta ==> cs.len() > 0,
    ensures
        ({
            let (st2, out) = anthropic_stream::on_tool_event(st, e);
            let r2 = reading::take_events(r, out);
            &&& in_step(st2, r2, tool_calls::replayed(cs, seq![e]))
            &&& st2.leaked == st.leaked
            &&& st2.gathered == st.gathered
            &&& r2.text + waiting(st2) == r.text + waiting(st)
        }),
{
    event_words_differ();
    reveal_with_fuel(tool_calls::replayed, 2);
    assert(seq![e].drop_last() =~= seq![]);
    let cs2 = tool_calls::replayed(cs, seq![e]);
    let (st2, out) = anthropic_stream::on_tool_event(st, e);
    let r2 = reading::take_events(r, out);
    match e {
        ToolEventModel::Started { id, name } => {
            let start = EventModel::BlockStart {
                index: st.next_block,
                block: to_anthropic::tool_start(id, name),
            };
            let b = to_anthropic::tool_start(id, name);
            assert(b.str_at("type"@) == Some("tool_use"@));
            assert(b.str_at("id"@) == Some(id));
            assert(b.str_at("name"@) == Some(name));
            let before = out.drop_last();
            assert(out =~= before.push(start));
            reading::take_events_push(r, before, start);
            let r1 = reading::take_events(r, before);
            match st.tool_block {
                Some(prev) => {
                    reveal_with_fuel(reading::take_events, 2);
                    assert(before =~= seq![EventModel::BlockStop { index: prev }]);
                    assert(before.drop_last() =~= seq![]);
                    assert(r1 == r);
                },
                None => {
                    if st.text_closed {
                        assert(before =~= seq![]);
                        assert(r1 == r);
                    } else {
                        let (f, shown) = anthropic_stream::flushed(st);
                        assert(before =~= shown.push(EventModel::BlockStop { index: 0 }));
                        reading::take_events_push(
                            r,
                            shown,
                            EventModel::BlockStop { index: 0 },
                        );
                        if st.leaked {
                            assert(r1 == r);
                        } else {
                            shown_text_is_read(r, st.pending);
                            assert(r1.text =~= r.text + st.pending);
                        }
                    }
                },
            }
            assert(r1.calls == r.calls);
            assert(cs2 =~= cs.push(tool_calls::started(id, name)));
            assert forall|i: int| 0 <= i < r2.calls.len() implies (#[trigger] r2.calls[i]).id
                == Some(cs2[i].id) && r2.calls[i].name == Some(cs2[i].name) && r2.calls[i].arguments
                == cs2[i].arguments by {
                if i < r.calls.len() {
                    assert(r.calls[i].id == Some(cs[i].id));
                }
            }
            assert(r2.text + waiting(st2) =~= r.text + waiting(st));
        },
        ToolEventModel::ArgsDelta(a) => {
            let block = st.tool_block->Some_0;
            let d = to_anthropic::arguments_delta(a);
            reveal_with_fuel(reading::take_events, 2);
            assert(out.drop_last() =~= seq![]);
            assert(d.str_at("type"@) == Some("input_json_delta"@));
            assert(d.str_at("partial_json"@) == Some(a));
            let last = r.calls.last();
            assert(r2.calls =~= r.calls.drop_last().push(
                ReadCall { arguments: last.arguments + a, ..last },
            ));
            assert(r.calls[r.calls.len() - 1].id == Some(cs[cs.len() - 1].id));
            assert forall|i: int| 0 <= i < r2.calls.len() implies (#[trigger] r2.calls[i]).id
                == Some(cs2[i].id) && r2.calls[i].name == Some(cs2[i].name) && r2.calls[i].arguments
                == cs2[i].arguments by {
                assert(r.calls[i].id == Some(cs[i].id));
            }
            assert(has_read(r2.calls, cs2));
            assert(cs2.len() == cs.len());
            assert(r2.calls.last().place == block);
        },
    }
}

/// Pieces of arguments come only where a call has been started.
spec fn in_order(has_calls: bool, es: Seq<ToolEventModel>) -> bool
    decreases es.len(),
{
    es.len() > 0 ==> in_order(has_calls, es.drop_last()) && (es.last() is ArgsDelta ==> has_calls
        || exists|i: int| 0 <= i < es.len() - 1 && (#[trigger] es[i]) is Started)
}

proof fn replayed_len(cs: Seq<CallModel>, es: Seq<ToolEventModel>)
    ensures
        tool_calls::replayed(cs, es).len() >= cs.len(),
        (exists|i: int| 0 <= i < es.len() && (#[trigger] es[i]) is Started)
            ==> tool_calls::replayed(cs, es).len() > 0,
    decreases es.len(),
{
    if es.len() > 0 {
        let rest = es.drop_last();
        replayed_len(cs, rest);
        if exists|i: int| 0 <= i < es.len() && (#[trigger] es[i]) is Started {
            let i = choose|i: int| 0 <= i < es.len() && (#[trigger] es[i]) is Started;
            if i < rest.len() {
                assert(rest[i] is Started);
            }
        }
    }
}

proof fn tool_events_are_read(
    st: Turn,
    es: Seq<ToolEventModel>,
    r: ReadAnswer,
    cs: Seq<CallModel>,
)
    requires
        in_step(st, r, cs),
        in_order(cs.len() > 0, es),
    ensures
        ({
            let (st2, out) = anthropic_stream::on_tool_events(st, es);
            let r2 = reading::take_events(r, out);
            &&& in_step(st2, r2, tool_calls::replayed(cs, es))
            &&& st2.leaked == st.leaked
            &&& st2.gathered == st.gathered
            &&& r2.text + waiting(st2) == r.text + waiting(st)
        }),
    decreases es.len(),
{
    if es.len() > 0 {
        let rest = es.drop_last();
        tool_events_are_read(st, rest, r, cs);
        let (st1, out) = anthropic_stream::on_tool_events(st, rest);
        let r1 = reading::take_events(r, out);
        let cs1 = tool_calls::replayed(cs, rest);
        replayed_len(cs, rest);
        if es.last() is ArgsDelta && cs.len() == 0 {
            let i = choose|i: int| 0 <= i < es.len() - 1 && (#[trigger] es[i]) is Started;
            assert(rest[i] is Started);
        }
        tool_event_is_read(st1, es.last(), r1, cs1);
        let more = anthropic_stream::on_tool_event(st1, es.last()).1;
        reading::take_events_add(r, out, more);
        reveal_with_fuel(tool_calls::replayed, 2);
        assert(seq![es.last()].drop_last() =~= seq![]);
    }
}

spec fn any_started(es: Seq<ToolEventModel>) -> bool {
    exists|i: int| 0 <= i < es.len() && (#[trigger] es[i]) is Started
}

proof fn in_order_push(has: bool, es: Seq<ToolEventModel>, e: ToolEventModel)
    requires
        in_order(has, es),
        e is ArgsDelta ==> has || any_started(es),
    ensures
        in_order(has, es.push(e)),
        any_started(es) ==> any_started(es.push(e)),
        e is Started ==> any_started(es.push(e)),
{
    let all = es.push(e);
    assert(all.drop_last() =~= es);
    if any_started(es) {
        let i = choose|i: int| 0 <= i < es.len() && (#[trigger] es[i]) is Started;
        assert(all[i] is Started);
    }
    if e is Started {
        assert(all[es.len() as int] is Started);
    }
}

proof fn entries_come_in_order(
    g: Gathered,
    sp: Seq<Spoken>,
    ps: Seq<JsonModel>,
    fresh: Seq<Seq<char>>,
)
    requires
        gathers(g, sp),
        are_pieces(sp, ps),
    ensures
        in_order(sp.len() > 0, tool_calls::on_entries(g, ps, fresh).1),
        with_pieces(sp, ps).len() > 0 ==> sp.len() > 0 || any_started(
            tool_calls::on_entries(g, ps, fresh).1,
        ),
    decreases ps.len(),
{
    if ps.len() > 0 {
        let rest = ps.drop_last();
        let p = ps.last();
        let f = fresh[ps.len() - 1];
        entries_come_in_order(g, sp, rest, fresh);
        entries_are_gathered(g, sp, rest, fresh);
        let (g1, out) = tool_calls::on_entries(g, rest, fresh);
        let sp1 = with_pieces(sp, rest);
        let fun = p.field_or_null("function"@);
        assert(p.field("function"@) == Some(fun));
        let id = tool_calls::short_id("toolu_"@, f);
        let (g2, a) = tool_calls::on_name(g1, fun.str_at("name"@), p.unsigned_at("index"@), id);
        let b = tool_calls::on_arguments(g2, json::or_empty(fun.str_at("arguments"@))).1;
        let has = sp.len() > 0;
        if a.len() > 0 {
            in_order_push(has, out, a[0]);
            assert(out + a =~= out.push(a[0]));
        } else {
            assert(out + a =~= out);
        }
        if b.len() > 0 {
            in_order_push(has, out + a, b[0]);
            assert(out + (a + b) =~= (out + a).push(b[0]));
        } else {
            assert(out + (a + b) =~= out + a);
        }
    }
}

proof fn suffix_has_no_tag(whole: Seq<char>, part: Seq<char>, before: Seq<char>, tag: Seq<char>)
    requires
        whole == before + part,
        !text::contains(whole, tag),
    ensures
        !text::contains(part, tag),
{
    if text::contains(part, tag) {
        text::find_from_is_first(part, tag, 0);
        let k = text::find(part, tag)->Some_0;
        assert(whole.subrange(before.len() + k, before.len() + k + tag.len()) =~= part.subrange(
            k,
            k + tag.len(),
        ));
        assert(text::occurs_at(whole, tag, before.len() + k));
        text::find_from_is_first(whole, tag, 0);
    }
}

proof fn prefix_has_no_tag(whole: Seq<char>, part: Seq<char>, after: Seq<char>, tag: Seq<char>)
    requires
        whole == part + after,
        !text::contains(whole, tag),
    ensures
        !text::contains(part, tag),
{
    if text::contains(part, tag) {
        text::find_from_is_first(part, tag, 0);
        let k = text::find(part, tag)->Some_0;
        assert(whole.subrange(k, k + tag.len()) =~= part.subrange(k, k + tag.len()));
        assert(text::occurs_at(whole, tag, k));
        text::find_from_is_first(whole, tag, 0);
    }
}

proof fn stream_keeps_step(
    lines: Seq<Seq<char>>,
    vs: Seq<JsonModel>,
    fresh: Seq<Seq<Seq<char>>>,
)
    requires
        carry(lines, vs),
        well_spoken(vs),
    ensures
        ({
            let (st, out) = anthropic_stream::run(anthropic_stream::initial_turn(), lines, fresh);
            let r = reading::read_events(out);
            &&& st.gathered == gathered_from(lines, fresh)
            &&& in_step(st, r, tool_calls::all_calls(st.gathered))
            &&& !text::contains(said(vs), "<tool_call>"@) ==> !st.leaked && r.text + st.pending
                == said(vs)
        }),
    decreases lines.len(),
{
    let start = anthropic_stream::initial_turn();
    let tag = "<tool_call>"@;
    if lines.len() == 0 {
        assert(Seq::<char>::empty() + Seq::<char>::empty() =~= Seq::<char>::empty());
    } else {
        let rest = lines.drop_last();
        let v = vs.last();
        carry_before(lines, vs);
        stream_keeps_step(rest, vs.drop_last(), fresh);
        lines_are_gathered(rest, vs.drop_last(), fresh);
        lines_are_gathered(lines, vs, fresh);
        let data = choose|data: Seq<char>| #[trigger] holds(lines.last(), data, v);
        line_is_read(lines.last(), data, v);
        text_is_read(v);
        let f = fresh[lines.len() - 1];
        let (st, out) = anthropic_stream::run(start, rest, fresh);
        let r = reading::read_events(out);
        let cs = tool_calls::all_calls(st.gathered);
        let (g, es) = tool_calls::on_line(st.gathered, lines.last(), f);
        let g0 = Gathered { text: st.gathered.text + reading::chunk_text(v), ..st.gathered };
        assert(tool_calls::all_calls(g0) == cs);
        assert(gathers(g0, spoken(vs.drop_last())));
        let ps = reading::chunk_pieces(v);
        entries_come_in_order(g0, spoken(vs.drop_last()), ps, f);
        tool_calls::events_replay_to_the_calls(g0, ps, f);
        let t = tool_calls::new_text(v);
        let (st1, a) = anthropic_stream::on_text(Turn { gathered: g, ..st }, t);
        let (st2, b) = anthropic_stream::on_tool_events(st1, es);
        let r1 = reading::take_events(r, a);
        reading::take_events_add(reading::nothing_read(), out, a);
        reading::take_events_add(reading::nothing_read(), out + a, b);
        assert(out + (a + b) =~= out + a + b);
        match t {
            Some(piece) => {
                let s = anthropic_stream::shown_of(st, piece);
                shown_text_is_read(r, s.shown);
                if !st.leaked {
                    let p = st.pending + piece;
                    holdback::held_bounds(p, holdback::TOOL_TAG_HOLDBACK as int);
                    assert(holdback::showable(p) + holdback::kept(p) =~= p);
                }
            },
            None => {},
        }
        assert(r1.calls == r.calls);
        assert(in_step(st1, r1, cs));
        tool_events_are_read(st1, es, r1, cs);
        if !text::contains(said(vs), tag) {
            prefix_has_no_tag(said(vs), said(vs.drop_last()), reading::chunk_text(v), tag);
            match t {
                Some(piece) => {
                    let p = st.pending + piece;
                    assert(said(vs) =~= r.text + p);
                    suffix_has_no_tag(said(vs), p, r.text, tag);
                    let s = anthropic_stream::shown_of(st, piece);
                    assert(s.shown =~= holdback::showable(p));
                    assert(r1.text + st1.pending =~= r.text + (holdback::showable(p)
                        + holdback::kept(p)));
                },
                None => {
                    assert(reading::chunk_text(v).len() == 0);
                    assert(said(vs) =~= said(vs.drop_last()));
                },
            }
        }
    }
}

pub(crate) proof fn opening_says_nothing(request_id: Seq<char>, model: Seq<char>)
    ensures
        reading::read_events(anthropic_stream::opening(request_id, model))
            == reading::nothing_read(),
{
    event_words_differ();
    reveal_with_fuel(reading::take_events, 3);
    let es = anthropic_stream::opening(request_id, model);
    assert(es.drop_last() =~= seq![es[0]]);
    assert(es.drop_last().drop_last() =~= seq![]);
    assert(to_anthropic::text_start().str_at("type"@) == Some("text"@));
}

pub(crate) proof fn closing_words_say_nothing(r: ReadAnswer, reason: Seq<char>, u: AnthropicUsage)
    ensures
        reading::take_events(r, anthropic_stream::ending(reason, u)) == r,
{
    let b = anthropic_stream::ending(reason, u);
    reveal_with_fuel(reading::take_events, 3);
    assert(b.drop_last() =~= seq![b[0]]);
    assert(b.drop_last().drop_last() =~= seq![]);
}

proof fn closing_says_nothing(r: ReadAnswer, st: Turn, reason: Seq<char>, u: AnthropicUsage)
    ensures
        reading::take_events(
            r,
            anthropic_stream::closing(st) + anthropic_stream::ending(reason, u),
        ) == r,
{
    let a = anthropic_stream::closing(st);
    let b = anthropic_stream::ending(reason, u);
    reading::take_events_add(r, a, b);
    reveal_with_fuel(reading::take_events, 3);
    if a.len() > 0 {
        assert(a.drop_last() =~= seq![]);
    }
    assert(b.drop_last() =~= seq![b[0]]);
    assert(b.drop_last().drop_last() =~= seq![]);
}

/// A client that follows an Anthropic stream reads what the worker said: each call with its
/// name and its arguments, and all the text, unless the text holds the tag of a call.
pub proof fn following_client_reads_what_was_said(
    lines: Seq<Seq<char>>,
    vs: Seq<JsonModel>,
    fresh: Seq<Seq<Seq<char>>>,
    request_id: Seq<char>,
    model: Seq<char>,
    reason: FinishReason,
    prompt: u32,
    completion: u32,
)
    requires
        carry(lines, vs),
        well_spoken(vs),
    ensures
        ({
            let (st, out) = anthropic_stream::run(anthropic_stream::initial_turn(), lines, fresh);
            let r = reading::read_events(
                anthropic_stream::opening(request_id, model) + out + anthropic_stream::on_done(
                    st,
                    reason,
                    prompt,
                    completion,
                    None,
                ),
            );
            let sp = spoken(vs);
            &&& r.calls.len() == sp.len()
            &&& forall|i: int|
                0 <= i < sp.len() ==> (#[trigger] r.calls[i]).name == Some(sp[i].name)
                    && r.calls[i].arguments == sp[i].arguments && r.calls[i].id is Some
            &&& !text::contains(said(vs), "<tool_call>"@) ==> r.text == said(vs)
        }),
{
    let (st, out) = anthropic_stream::run(anthropic_stream::initial_turn(), lines, fresh);
    let open = anthropic_stream::opening(request_id, model);
    let end = anthropic_stream::on_done(st, reason, prompt, completion, None);
    stream_keeps_step(lines, vs, fresh);
    lines_are_gathered(lines, vs, fresh);
    opening_says_nothing(request_id, model);
    reading::take_events_add(reading::nothing_read(), open, out);
    reading::take_events_add(reading::nothing_read(), open + out, end);
    let r0 = reading::read_events(out);
    let (st1, shown) = anthropic_stream::flushed(st);
    let calls = tool_calls::all_calls(st.gathered);
    let tail = anthropic_stream::closing(st1) + anthropic_stream::ending(
        anthropic_stream::stop_reason_with(calls, reason),
        anthropic_stream::usage(prompt, completion),
    );
    assert(end =~= shown + tail);
    reading::take_events_add(r0, shown, tail);
    if !st.leaked {
        shown_text_is_read(r0, st.pending);
    }
    let r1 = reading::take_events(r0, shown);
    closing_says_nothing(
        r1,
        st1,
        anthropic_stream::stop_reason_with(calls, reason),
        anthropic_stream::usage(prompt, completion),
    );
    assert(r1.calls == r0.calls);
    assert forall|i: int| 0 <= i < spoken(vs).len() implies (#[trigger] r1.calls[i]).name == Some(
        spoken(vs)[i].name,
    ) && r1.calls[i].arguments == spoken(vs)[i].arguments && r1.calls[i].id is Some by {
        assert(r0.calls[i].id == Some(calls[i].id));
        assert(calls[i].name == spoken(vs)[i].name);
    }
}

// ── Chat clients that wait ──────────────────────────────────────────────────

/// What is collected from the lines of a worker.
pub open spec fn collected_from(lines: Seq<Seq<char>>, fresh: Seq<Seq<Seq<char>>>) -> Collected
    decreases lines.len(),
{
    if lines.len() == 0 {
        Collected { text: seq![], calls: seq![], current: None }
    } else {
        chat_blocking::on_line(
            collected_from(lines.drop_last(), fresh),
            lines.last(),
            fresh[lines.len() - 1],
        )
    }
}

spec fn collects(c: Collected, sp: Seq<Spoken>) -> bool {
    &&& are_spoken(chat_blocking::all_calls(c), sp)
    &&& c.current is None <==> sp.len() == 0
}

proof fn entry_is_collected(c: Collected, sp: Seq<Spoken>, p: JsonModel, fresh: Seq<char>)
    requires
        collects(c, sp),
        is_piece(sp, p),
    ensures
        collects(chat_blocking::on_entry(c, p, fresh), with_piece(sp, p)),
        chat_blocking::on_entry(c, p, fresh).text == c.text,
{
    let c2 = chat_blocking::on_entry(c, p, fresh);
    let f = p.field_or_null("function"@);
    assert(p.field("function"@) == Some(f));
    let after = with_piece(sp, p);
    let was = chat_blocking::all_calls(c);
    let cs = chat_blocking::all_calls(c2);
    let args = reading::piece_arguments(p);
    let last = c2.current->Some_0;
    if reading::piece_name(p) is Some {
        assert(c2.calls == was);
        assert(last.arguments =~= args);
        assert(cs =~= was.push(last));
    } else {
        let before = c.current->Some_0;
        assert(was[was.len() - 1] == before);
        assert(last.arguments =~= before.arguments + args);
        assert(cs =~= was.drop_last().push(last));
    }
    assert forall|i: int| 0 <= i < cs.len() implies (#[trigger] cs[i]).name == after[i].name
        && cs[i].arguments == after[i].arguments && cs[i].call_type == "function"@ by {
        if i < was.len() {
            assert(was[i].name == sp[i].name);
        }
    }
}

proof fn entries_are_collected(
    c: Collected,
    sp: Seq<Spoken>,
    ps: Seq<JsonModel>,
    fresh: Seq<Seq<char>>,
)
    requires
        collects(c, sp),
        are_pieces(sp, ps),
    ensures
        collects(chat_blocking::on_entries(c, ps, fresh), with_pieces(sp, ps)),
        chat_blocking::on_entries(c, ps, fresh).text == c.text,
    decreases ps.len(),
{
    if ps.len() > 0 {
        entries_are_collected(c, sp, ps.drop_last(), fresh);
        entry_is_collected(
            chat_blocking::on_entries(c, ps.drop_last(), fresh),
            with_pieces(sp, ps.drop_last()),
            ps.last(),
            fresh[ps.len() - 1],
        );
    }
}

proof fn lines_are_collected(lines: Seq<Seq<char>>, vs: Seq<JsonModel>, fresh: Seq<Seq<Seq<char>>>)
    requires
        carry(lines, vs),
        well_spoken(vs),
    ensures
        collects(collected_from(lines, fresh), spoken(vs)),
        collected_from(lines, fresh).text == said(vs),
    decreases lines.len(),
{
    if lines.len() > 0 {
        carry_before(lines, vs);
        lines_are_collected(lines.drop_last(), vs.drop_last(), fresh);
        let data = choose|data: Seq<char>| #[trigger] holds(lines.last(), data, vs.last());
        line_is_read(lines.last(), data, vs.last());
        text_is_read(vs.last());
        let c = collected_from(lines.drop_last(), fresh);
        let c1 = Collected { text: c.text + reading::chunk_text(vs.last()), ..c };
        assert(collects(c1, spoken(vs.drop_last()))) by {
            assert(chat_blocking::all_calls(c1) == chat_blocking::all_calls(c));
        }
        entries_are_collected(
            c1,
            spoken(vs.drop_last()),
            reading::chunk_pieces(vs.last()),
            fresh[lines.len() - 1],
        );
    }
}

/// A client that waits for a chat answer reads what the worker said: its calls, each with its
/// name and arguments, and its text, unless the text itself is read as a call.
pub proof fn waiting_chat_client_reads_what_was_said(
    lines: Seq<Seq<char>>,
    vs: Seq<JsonModel>,
    fresh: Seq<Seq<Seq<char>>>,
    whole: Option<JsonModel>,
    tag: Option<JsonModel>,
    id: Seq<char>,
)
    requires
        carry(lines, vs),
        well_spoken(vs),
        whole matches Some(v) ==> v.field("tool_calls"@) is None,
        tag is None,
    ensures
        ({
            let c = collected_from(lines, fresh);
            let (content, calls) = chat_blocking::answered(
                c,
                tool_calls::answer_in(c.text, whole, tag, id),
            );
            let sp = spoken(vs);
            &&& content == Some(said(vs))
            &&& sp.len() == 0 ==> calls is None
            &&& sp.len() > 0 ==> calls is Some && are_spoken(calls->Some_0, sp)
        }),
{
    lines_are_collected(lines, vs, fresh);
}

// ── Ends of streams ─────────────────────────────────────────────────────────

/// The reason that a stream is said to end for: calls, or what the worker said.
pub open spec fn reason_told(has_calls: bool, reason: FinishReason) -> Seq<char> {
    if has_calls {
        "tool_use"@
    } else {
        reading::in_anthropic_words(reason_word(reason))
    }
}

/// An Anthropic stream ends with the reason and the token counts that the worker gave; a stream
/// with calls ends because of them.
pub proof fn stream_ends_as_told(
    st: Turn,
    reason: FinishReason,
    prompt: u32,
    completion: u32,
    fallback: Option<Seq<CallModel>>,
)
    ensures
        ({
            let out = anthropic_stream::on_done(st, reason, prompt, completion, fallback);
            let own = tool_calls::all_calls(st.gathered);
            let has_calls = own.len() > 0 || (fallback matches Some(f) && f.len() > 0);
            &&& out.len() >= 2
            &&& out.last() is MessageStop
            &&& out[out.len() - 2] matches EventModel::MessageDelta { stop_reason, usage } && {
                &&& stop_reason == Some(reason_told(has_calls, reason))
                &&& usage.input_tokens == prompt
                &&& usage.output_tokens == completion
            }
        }),
{
    let out = anthropic_stream::on_done(st, reason, prompt, completion, fallback);
    stream_laws::reasons_mean_the_same(protocol::finish_word(reason));
    let own = tool_calls::all_calls(st.gathered);
    let calls = if own.len() == 0 && fallback is Some {
        fallback->Some_0
    } else {
        own
    };
    let end = anthropic_stream::ending(
        anthropic_stream::stop_reason_with(calls, reason),
        anthropic_stream::usage(prompt, completion),
    );
    assert(out.last() == end[1]);
    assert(out[out.len() - 2] == end[0]);
}

/// An Anthropic stream opens with the name of the message and its model.
pub proof fn stream_opens_with_its_name(request_id: Seq<char>, model: Seq<char>)
    ensures
        anthropic_stream::opening(request_id, model).len() > 0,
        anthropic_stream::opening(request_id, model)[0] == (EventModel::MessageStart {
            id: "msg_"@ + request_id,
            model,
        }),
{
}

/// The answer of a worker that has gone silent is marked as cut off.
pub proof fn silent_stream_is_cut_off(st: Turn)
    ensures
        ({
            let out = anthropic_stream::on_timeout(st);
            &&& out.len() >= 2
            &&& out.last() is MessageStop
            &&& out[out.len() - 2] matches EventModel::MessageDelta { stop_reason, usage }
                && stop_reason == Some("max_tokens"@)
        }),
{
    let out = anthropic_stream::on_timeout(st);
    assert(out.last() is MessageStop);
}

// ── Calls that stand in the text ────────────────────────────────────────────

/// The arguments of a call that was read out of the text.
pub open spec fn arguments_told(arguments: Seq<char>) -> Seq<char> {
    match json::json_parse(arguments) {
        Some(v) => json::json_text(v),
        None => seq![],
    }
}

proof fn call_block_is_read(r: ReadAnswer, block: usize, c: CallModel)
    ensures
        reading::take_events(r, anthropic_stream::call_block(block, c)) == (ReadAnswer {
            calls: r.calls.push(
                ReadCall {
                    place: block as int,
                    id: Some(c.id),
                    name: Some(c.name),
                    arguments: arguments_told(c.arguments),
                },
            ),
            ..r
        }),
{
    event_words_differ();
    let es = anthropic_stream::call_block(block, c);
    let start = EventModel::BlockStart { index: block, block: to_anthropic::tool_start(c.id, c.name) };
    let stop = EventModel::BlockStop { index: block };
    let b = to_anthropic::tool_start(c.id, c.name);
    assert(b.str_at("type"@) == Some("tool_use"@));
    assert(b.str_at("id"@) == Some(c.id));
    assert(b.str_at("name"@) == Some(c.name));
    let none = Seq::<EventModel>::empty();
    reading::take_events_push(r, none, start);
    let r1 = reading::take_event(r, start);
    match json::json_parse(c.arguments) {
        Some(v) => {
            let t = json::json_text(v);
            let delta = EventModel::BlockDelta {
                index: block,
                delta: to_anthropic::arguments_delta(t),
            };
            let d = to_anthropic::arguments_delta(t);
            assert(d.str_at("type"@) == Some("input_json_delta"@));
            assert(d.str_at("partial_json"@) == Some(t));
            assert(es =~= none.push(start).push(delta).push(stop));
            reading::take_events_push(r, none.push(start), delta);
            reading::take_events_push(r, none.push(start).push(delta), stop);
            let r2 = reading::take_event(r1, delta);
            assert(r2.calls =~= r.calls.push(
                ReadCall {
                    place: block as int,
                    id: Some(c.id),
                    name: Some(c.name),
                    arguments: seq![] + t,
                },
            ));
            assert(Seq::<char>::empty() + t =~= t);
        },
        None => {
            assert(es =~= none.push(start).push(stop));
            reading::take_events_push(r, none.push(start), stop);
        },
    }
}

proof fn call_blocks_are_read(r: ReadAnswer, next: usize, cs: Seq<CallModel>)
    ensures
        ({
            let out = reading::take_events(r, anthropic_stream::call_blocks(next, cs).1);
            &&& out.text == r.text
            &&& out.calls.len() == r.calls.len() + cs.len()
            &&& forall|i: int|
                0 <= i < cs.len() ==> (#[trigger] out.calls[r.calls.len() + i]).id == Some(cs[i].id)
                    && out.calls[r.calls.len() + i].name == Some(cs[i].name)
                    && out.calls[r.calls.len() + i].arguments == arguments_told(cs[i].arguments)
        }),
    decreases cs.len(),
{
    if cs.len() > 0 {
        let rest = cs.drop_last();
        call_blocks_are_read(r, next, rest);
        let (n, out) = anthropic_stream::call_blocks(next, rest);
        let r1 = reading::take_events(r, out);
        call_block_is_read(r1, n, cs.last());
        reading::take_events_add(r, out, anthropic_stream::call_block(n, cs.last()));
        let r2 = reading::take_events(r, anthropic_stream::call_blocks(next, cs).1);
        assert forall|i: int| 0 <= i < cs.len() implies (#[trigger] r2.calls[r.calls.len() + i]).id
            == Some(cs[i].id) && r2.calls[r.calls.len() + i].name == Some(cs[i].name)
            && r2.calls[r.calls.len() + i].arguments == arguments_told(cs[i].arguments) by {
            if i < rest.len() {
                assert(r1.calls[r.calls.len() + i].id == Some(rest[i].id));
                assert(rest[i] == cs[i]);
            }
        }
    }
}

/// Calls that the worker wrote into its text reach a client that follows: each with its
/// identity, its name and its arguments, written anew.
pub proof fn calls_in_the_text_are_read(
    st: Turn,
    reason: FinishReason,
    prompt: u32,
    completion: u32,
    cs: Seq<CallModel>,
)
    requires
        tool_calls::all_calls(st.gathered).len() == 0,
    ensures
        ({
            let r = reading::read_events(
                anthropic_stream::on_done(st, reason, prompt, completion, Some(cs)),
            );
            &&& r.calls.len() == cs.len()
            &&& forall|i: int|
                0 <= i < cs.len() ==> (#[trigger] r.calls[i]).id == Some(cs[i].id)
                    && r.calls[i].name == Some(cs[i].name) && r.calls[i].arguments
                    == arguments_told(cs[i].arguments)
        }),
{
    let none = reading::nothing_read();
    let (st1, shown) = anthropic_stream::flushed(st);
    let close = if st.text_closed {
        Seq::<EventModel>::empty()
    } else {
        seq![EventModel::BlockStop { index: 0 }]
    };
    let blocks = anthropic_stream::call_blocks(st.next_block, cs).1;
    let end = anthropic_stream::ending(
        anthropic_stream::stop_reason_with(cs, reason),
        anthropic_stream::usage(prompt, completion),
    );
    if !st.leaked {
        shown_text_is_read(none, st.pending);
    }
    let r0 = reading::take_events(none, shown);
    reading::take_events_add(none, shown, close);
    reveal_with_fuel(reading::take_events, 3);
    if close.len() > 0 {
        assert(close.drop_last() =~= seq![]);
    }
    assert(reading::take_events(none, shown + close) == r0);
    reading::take_events_add(none, shown + close, blocks);
    call_blocks_are_read(r0, st.next_block, cs);
    let r1 = reading::take_events(r0, blocks);
    reading::take_events_add(none, shown + close + blocks, end);
    assert(end.drop_last() =~= seq![end[0]]);
    assert(end.drop_last().drop_last() =~= seq![]);
    assert(reading::take_events(r1, end) == r1);
    assert forall|i: int| 0 <= i < cs.len() implies (#[trigger] r1.calls[i]).id == Some(cs[i].id)
        && r1.calls[i].name == Some(cs[i].name) && r1.calls[i].arguments == arguments_told(
        cs[i].arguments,
    ) by {
        assert(r1.calls[r0.calls.len() + i].id == Some(cs[i].id));
    }
}

// ── Chat clients that follow ────────────────────────────────────────────────

/// The answer to a chat client that waits names the request, the model and the time, holds the
/// text and the calls, and tells why it ended and what it cost.
pub proof fn waiting_chat_answer_is_written(
    r: ChatResponse,
    content: Option<Seq<char>>,
    calls: Option<Seq<CallModel>>,
    done: DoneMessage,
    request_id: Seq<char>,
    model: Seq<char>,
    created: u64,
)
    requires
        chat_blocking::is_answer(r, (content, calls), Some(done), request_id, model, created),
    ensures
        r.id@ == "chatcmpl-"@ + request_id,
        r.model@ == model,
        r.created == created,
        r.choices@.len() == 1,
        text::opt_text(r.choices@[0].message.content) == content,
        protocol::opt_call_models(r.choices@[0].message.tool_calls) == calls,
        calls is Some ==> r.choices@[0].finish_reason@ == "tool_calls"@,
        calls is None ==> r.choices@[0].finish_reason@ == reason_word(done.finish_reason),
        r.usage.prompt_tokens == done.prompt_tokens,
        r.usage.completion_tokens == done.comp_tokens,
        done.prompt_tokens + done.comp_tokens <= u32::MAX ==> r.usage.total_tokens
            == done.prompt_tokens + done.comp_tokens,
{
}

/// Two values differ at most in a field.
pub open spec fn alike_but(a: JsonModel, b: JsonModel, key: Seq<char>) -> bool {
    forall|k: Seq<char>| k != key ==> #[trigger] a.field(k) == b.field(k)
}

/// The chunk is the worker's, but that calls may have been given an identity: its text, its
/// reason and all else are untouched, and so are the number, name and arguments of each piece.
pub open spec fn same_but_for_identity(out: JsonModel, v: JsonModel) -> bool {
    let ps = reading::chunk_pieces(v);
    let qs = reading::chunk_pieces(out);
    &&& alike_but(out, v, "choices"@)
    &&& reading::chunk_text(out) == reading::chunk_text(v)
    &&& reading::choice(out).field("finish_reason"@) == reading::choice(v).field("finish_reason"@)
    &&& out.array_at("choices"@)->Some_0.len() == v.array_at("choices"@)->Some_0.len()
    &&& forall|i: int|
        1 <= i < v.array_at("choices"@)->Some_0.len() ==> (#[trigger] out.array_at(
            "choices"@,
        )->Some_0[i]) == v.array_at("choices"@)->Some_0[i]
    &&& qs.len() == ps.len()
    &&& forall|i: int|
        0 <= i < qs.len() ==> (#[trigger] qs[i]).unsigned_at("index"@) == ps[i].unsigned_at(
            "index"@,
        ) && reading::piece_name(qs[i]) == reading::piece_name(ps[i])
            && reading::piece_arguments(qs[i]) == reading::piece_arguments(ps[i]) && (
        ps[i].field("id"@) is Some ==> qs[i] == ps[i])
}

proof fn chat_words_differ()
    ensures
        "id"@ != "index"@,
        "id"@ != "function"@,
        "type"@ != "index"@,
        "type"@ != "function"@,
        "id"@ != "type"@,
        "content"@ != "tool_calls"@,
        "delta"@ != "finish_reason"@,
{
    reveal_strlit("id");
    reveal_strlit("index");
    reveal_strlit("type");
    reveal_strlit("function");
    reveal_strlit("content");
    reveal_strlit("tool_calls");
    reveal_strlit("delta");
    reveal_strlit("finish_reason");
    assert("id"@.len() == 2 && "index"@.len() == 5 && "type"@.len() == 4 && "function"@.len() == 8);
    assert("content"@.len() == 7 && "tool_calls"@.len() == 10 && "delta"@.len() == 5);
    assert("finish_reason"@.len() == 13);
}

proof fn pieces_keep_what_they_say(g: Gathered, ps: Seq<JsonModel>, fresh: Seq<Seq<char>>)
    ensures
        ({
            let qs = chat_stream::on_entries(g, ps, fresh).1;
            &&& qs.len() == ps.len()
            &&& forall|i: int|
                0 <= i < qs.len() ==> (#[trigger] qs[i]).unsigned_at("index"@) == ps[i].unsigned_at(
                    "index"@,
                ) && reading::piece_name(qs[i]) == reading::piece_name(ps[i])
                    && reading::piece_arguments(qs[i]) == reading::piece_arguments(ps[i]) && (
                ps[i].field("id"@) is Some ==> qs[i] == ps[i])
        }),
    decreases ps.len(),
{
    if ps.len() > 0 {
        chat_words_differ();
        let rest = ps.drop_last();
        pieces_keep_what_they_say(g, rest, fresh);
        let (g1, before) = chat_stream::on_entries(g, rest, fresh);
        let qs = chat_stream::on_entries(g, ps, fresh).1;
        assert forall|i: int| 0 <= i < qs.len() implies (#[trigger] qs[i]).unsigned_at("index"@)
            == ps[i].unsigned_at("index"@) && reading::piece_name(qs[i]) == reading::piece_name(
            ps[i],
        ) && reading::piece_arguments(qs[i]) == reading::piece_arguments(ps[i]) && (ps[i].field(
            "id"@,
        ) is Some ==> qs[i] == ps[i]) by {
            if i < rest.len() {
                assert(qs[i] == before[i]);
                assert(rest[i] == ps[i]);
            } else {
                let p = ps.last();
                assert(p == ps[i]);
                let q = qs[i];
                if q != p {
                    assert(q.field("index"@) == p.field("index"@));
                    assert(q.field("function"@) == p.field("function"@));
                }
            }
        }
    }
}

/// A chat client that follows gets the worker's chunks as they are, but that a call without an
/// identity is given one.
pub proof fn chunks_are_passed_on(g: Gathered, v: JsonModel, fresh: Seq<Seq<char>>)
    ensures
        chat_stream::on_chunk(g, v, fresh).1 matches Some(out) ==> same_but_for_identity(out, v),
{
    let ps = chat_stream::entries_of(v);
    pieces_keep_what_they_say(g, ps, fresh);
    let qs = chat_stream::on_entries(g, ps, fresh).1;
    if qs != ps {
        chat_words_differ();
        if ps.len() == 0 {
            assert(qs =~= ps);
        }
        let choices = v.array_at("choices"@)->Some_0;
        let delta = choices[0].field("delta"@)->Some_0;
        assert(ps == reading::chunk_pieces(v));
        let out = chat_stream::with_entries(v, qs);
        let delta2 = chat_stream::set_field(delta, "tool_calls"@, JsonModel::Array(qs));
        let choice2 = chat_stream::set_field(choices[0], "delta"@, delta2);
        assert(v is Object);
        assert(choices[0] is Object);
        assert(delta is Object);
        assert(out.array_at("choices"@) == Some(choices.update(0, choice2)));
        assert(reading::choice(out) == choice2);
        assert(choice2.field("delta"@) == Some(delta2));
        assert(delta2.array_at("tool_calls"@) == Some(qs));
        assert(delta2.str_at("content"@) == delta.str_at("content"@));
        assert(reading::chunk_pieces(out) == qs);
    }
}

proof fn chat_entry_is_gathered(g: Gathered, sp: Seq<Spoken>, p: JsonModel, fresh: Seq<char>)
    requires
        gathers(g, sp),
        is_piece(sp, p),
    ensures
        gathers(chat_stream::on_entry(g, p, fresh).0, with_piece(sp, p)),
        chat_stream::on_entry(g, p, fresh).0.text == g.text,
{
    let g2 = chat_stream::on_entry(g, p, fresh).0;
    let f = p.field_or_null("function"@);
    assert(p.field("function"@) == Some(f));
    assert(chat_stream::entry_name(p) == reading::piece_name(p));
    assert(chat_stream::entry_arguments(p) =~= reading::piece_arguments(p));
    let after = with_piece(sp, p);
    let was = tool_calls::all_calls(g);
    let cs = tool_calls::all_calls(g2);
    let args = reading::piece_arguments(p);
    let c = g2.current->Some_0;
    if !(sp.len() > 0 && sp.last().number == p.unsigned_at("index"@)) {
        assert(g2.calls == was);
        assert(c.arguments =~= args);
        assert(cs =~= was.push(c));
    } else {
        let old_c = g.current->Some_0;
        assert(was[was.len() - 1] == old_c);
        assert(c.arguments =~= old_c.arguments + args);
        assert(cs =~= was.drop_last().push(c));
    }
    assert forall|i: int| 0 <= i < cs.len() implies (#[trigger] cs[i]).name == after[i].name
        && cs[i].arguments == after[i].arguments && cs[i].call_type == "function"@ by {
        if i < was.len() {
            assert(was[i].name == sp[i].name);
        }
    }
}

proof fn chat_entries_are_gathered(
    g: Gathered,
    sp: Seq<Spoken>,
    ps: Seq<JsonModel>,
    fresh: Seq<Seq<char>>,
)
    requires
        gathers(g, sp),
        are_pieces(sp, ps),
    ensures
        gathers(chat_stream::on_entries(g, ps, fresh).0, with_pieces(sp, ps)),
        chat_stream::on_entries(g, ps, fresh).0.text == g.text,
    decreases ps.len(),
{
    if ps.len() > 0 {
        chat_entries_are_gathered(g, sp, ps.drop_last(), fresh);
        chat_entry_is_gathered(
            chat_stream::on_entries(g, ps.drop_last(), fresh).0,
            with_pieces(sp, ps.drop_last()),
            ps.last(),
            fresh[ps.len() - 1],
        );
    }
}

/// What is gathered from the chunks that a chat client follows.
pub open spec fn chat_gathered_from(vs: Seq<JsonModel>, fresh: Seq<Seq<Seq<char>>>) -> Gathered
    decreases vs.len(),
{
    if vs.len() == 0 {
        Gathered { text: seq![], calls: seq![], current: None, index: None }
    } else {
        let g = chat_gathered_from(vs.drop_last(), fresh);
        chat_stream::on_chunk(
            Gathered { text: g.text + tool_calls::delta_content(vs.last()), ..g },
            vs.last(),
            fresh[vs.len() - 1],
        ).0
    }
}

proof fn chat_chunks_are_gathered(vs: Seq<JsonModel>, fresh: Seq<Seq<Seq<char>>>)
    requires
        well_spoken(vs),
    ensures
        gathers(chat_gathered_from(vs, fresh), spoken(vs)),
        chat_gathered_from(vs, fresh).text == said(vs),
    decreases vs.len(),
{
    if vs.len() > 0 {
        chat_chunks_are_gathered(vs.drop_last(), fresh);
        let v = vs.last();
        let g = chat_gathered_from(vs.drop_last(), fresh);
        assert(tool_calls::delta_content(v) =~= reading::chunk_text(v));
        assert(chat_stream::entries_of(v) =~= reading::chunk_pieces(v));
        let g1 = Gathered { text: g.text + reading::chunk_text(v), ..g };
        assert(tool_calls::all_calls(g1) == tool_calls::all_calls(g));
        chat_entries_are_gathered(
            g1,
            spoken(vs.drop_last()),
            reading::chunk_pieces(v),
            fresh[vs.len() - 1],
        );
    }
}

/// What the gateway itself keeps of a chat stream is what the worker said: all its text, and its
/// calls with their names and arguments.
pub proof fn chat_stream_is_kept(vs: Seq<JsonModel>, fresh: Seq<Seq<Seq<char>>>)
    requires
        well_spoken(vs),
    ensures
        chat_gathered_from(vs, fresh).text == said(vs),
        are_spoken(tool_calls::all_calls(chat_gathered_from(vs, fresh)), spoken(vs)),
{
    chat_chunks_are_gathered(vs, fresh);
}

/// The last chunk of a chat answer names the answer, its model and why it ended.
pub proof fn last_chunk_is_written(request_id: Seq<char>, model: Seq<char>, reason: Seq<char>)
    ensures
        ({
            let v = JsonModel::Object(chat_stream::final_chunk(request_id, model, reason));
            &&& v.str_at("id"@) == Some("chatcmpl-"@ + request_id)
            &&& v.str_at("object"@) == Some("chat.completion.chunk"@)
            &&& v.str_at("model"@) == Some(model)
            &&& reading::choice(v).str_at("finish_reason"@) == Some(reason)
            &&& reading::choice(v).unsigned_at("index"@) == Some(0u64)
            &&& reading::chunk_text(v).len() == 0
            &&& reading::chunk_pieces(v).len() == 0
        }),
{
    chat_words_differ();
    reveal_strlit("id");
    reveal_strlit("object");
    reveal_strlit("model");
    reveal_strlit("choices");
    reveal_strlit("index");
    reveal_strlit("delta");
    reveal_strlit("finish_reason");
    assert("id"@.len() == 2 && "object"@.len() == 6 && "model"@.len() == 5 && "choices"@.len() == 7);
    assert("index"@.len() == 5 && "index"@[0] == 'i' && "delta"@.len() == 5 && "delta"@[0] == 'd');
    assert("finish_reason"@.len() == 13);
    let v = JsonModel::Object(chat_stream::final_chunk(request_id, model, reason));
    let c = reading::choice(v);
    assert(c.field("delta"@) == Some(JsonModel::Object(json::nothing())));
}

} // verus!
