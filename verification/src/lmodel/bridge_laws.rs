//! That a worker passes the model server's stream on in full.
use vstd::prelude::*;

use crate::brain::protocol;
use crate::brain::turn_laws::{holds, is_line_of};
use crate::buffer;
use crate::converter::reading;
use crate::json::JsonModel;
use crate::lmodel::bridge::{self, Passed, Tally};
use crate::text;

verus! {

/// The bytes of a stream whose lines are these.
pub open spec fn written(pieces: Seq<Seq<u8>>) -> Seq<u8>
    decreases pieces.len(),
{
    if pieces.len() == 0 {
        seq![]
    } else {
        pieces[0].push(10) + written(pieces.skip(1))
    }
}

/// The bytes are those of the line of a chunk: what is read of them, without the blanks around
/// it, is the line, which holds the chunk.
pub open spec fn is_piece(piece: Seq<u8>, line: Seq<char>, v: JsonModel) -> bool {
    &&& !piece.contains(10)
    &&& text::trim(text::lossy(piece.push(10))) == line
    &&& is_line_of(line, v)
}

pub open spec fn are_pieces(pieces: Seq<Seq<u8>>, lines: Seq<Seq<char>>, vs: Seq<JsonModel>) -> bool {
    &&& pieces.len() == lines.len() == vs.len()
    &&& forall|i: int|
        0 <= i < pieces.len() ==> #[trigger] is_piece(pieces[i], lines[i], vs[i])
}

/// The chunk says that the answer has ended.
pub open spec fn ends(v: JsonModel) -> bool {
    reading::choice(v).str_at("finish_reason"@) is Some
}

/// Only the last chunk may say that the answer has ended.
pub open spec fn ends_last(vs: Seq<JsonModel>) -> bool {
    forall|i: int| 0 <= i < vs.len() - 1 ==> !ends(#[trigger] vs[i])
}

/// What a chunk says of a count of tokens, or else what was said before.
pub open spec fn told(before: u32, v: JsonModel, key: Seq<char>) -> u32 {
    match v.field_or_null("usage"@).unsigned_at(key) {
        Some(n) => (n % 0x1_0000_0000) as u32,
        None => before,
    }
}

/// What the chunks say last of a count of tokens.
pub open spec fn told_last(before: u32, vs: Seq<JsonModel>, key: Seq<char>) -> u32
    decreases vs.len(),
{
    if vs.len() == 0 {
        before
    } else {
        told(told_last(before, vs.drop_last(), key), vs.last(), key)
    }
}

proof fn told_first(before: u32, vs: Seq<JsonModel>, key: Seq<char>)
    requires
        vs.len() > 0,
    ensures
        told_last(before, vs, key) == told_last(told(before, vs[0], key), vs.skip(1), key),
    decreases vs.len(),
{
    if vs.len() == 1 {
        assert(vs.drop_last() =~= seq![]);
        assert(vs.skip(1) =~= seq![]);
        reveal_with_fuel(told_last, 2);
    } else {
        told_first(before, vs.drop_last(), key);
        assert(vs.drop_last().skip(1) =~= vs.skip(1).drop_last());
        assert(vs.skip(1).last() == vs.last());
        assert(vs.drop_last()[0] == vs[0]);
    }
}

/// The chunk brings pieces of tool calls, even if none.
pub open spec fn has_calls(v: JsonModel) -> bool {
    !(reading::choice(v).field_or_null("delta"@).field_or_null("tool_calls"@) is Null)
}

proof fn line_is_passed(t: Tally, line: Seq<char>, v: JsonModel)
    requires
        is_line_of(line, v),
        !(v.field("choices"@) is Some) || v.array_at("choices"@) is Some,
    ensures
        ({
            let (p, t2, end) = bridge::on_line(t, line);
            &&& p == Some(Passed { line, is_tool_call: has_calls(v) })
            &&& end == ends(v)
            &&& t2.prompt_tokens == told(t.prompt_tokens, v, "prompt_tokens"@)
            &&& t2.comp_tokens == told(t.comp_tokens, v, "completion_tokens"@)
            &&& !ends(v) ==> t2.reason == t.reason
            &&& ends(v) ==> t2.reason == bridge::reason_of(
                reading::choice(v).str_at("finish_reason"@)->Some_0,
            )
        }),
{
    let data = choose|data: Seq<char>| #[trigger] holds(line, data, v);
    let p = "data: "@;
    assert(line.subrange(0, p.len() as int) =~= p);
    assert(line.skip(p.len() as int) =~= data);
    reveal_strlit("data: ");
    reveal_strlit("data: [DONE]");
    reveal_strlit("[DONE]");
    assert("data: [DONE]"@ =~= p + "[DONE]"@);
    if line == "data: [DONE]"@ {
        assert(line.skip(p.len() as int) =~= "[DONE]"@);
        assert(data == "[DONE]"@);
    }
    assert(text::strip_prefix(line, p) == Some(data));
    assert(bridge::tally_after(t, v).prompt_tokens == told(t.prompt_tokens, v, "prompt_tokens"@));
}

/// A chunk as OpenAI defines it: its choices are a list.
pub open spec fn is_chunk(v: JsonModel) -> bool {
    v.array_at("choices"@) is Some
}

/// All chunks of the model server's stream are passed on, each as the line it came as, in their
/// order, up to the end; the end is known by the reason that the last one gives; and the counts
/// of tokens are those that were given last.
pub proof fn stream_is_passed_on(
    t: Tally,
    pieces: Seq<Seq<u8>>,
    lines: Seq<Seq<char>>,
    vs: Seq<JsonModel>,
)
    requires
        are_pieces(pieces, lines, vs),
        forall|i: int| 0 <= i < vs.len() ==> is_chunk(#[trigger] vs[i]),
        ends_last(vs),
    ensures
        ({
            let d = bridge::drained(t, written(pieces));
            &&& d.passed.len() == lines.len()
            &&& forall|i: int|
                0 <= i < lines.len() ==> (#[trigger] d.passed[i]).line == lines[i]
                    && d.passed[i].is_tool_call == has_calls(vs[i])
            &&& d.tally.prompt_tokens == told_last(t.prompt_tokens, vs, "prompt_tokens"@)
            &&& d.tally.comp_tokens == told_last(t.comp_tokens, vs, "completion_tokens"@)
            &&& d.ended == (vs.len() > 0 && ends(vs.last()))
            &&& d.ended ==> d.tally.reason == bridge::reason_of(
                reading::choice(vs.last()).str_at("finish_reason"@)->Some_0,
            )
            &&& d.rest.len() == 0
        }),
    decreases pieces.len(),
{
    let body = written(pieces);
    if pieces.len() == 0 {
        assert(body =~= Seq::<u8>::empty());
        buffer::position_is_first(body, 10);
    } else {
        assert(is_piece(pieces[0], lines[0], vs[0]));
        let k = pieces[0].len() as int;
        assert(body[k] == 10);
        assert forall|j: int| 0 <= j < k implies body[j] != 10 by {
            assert(body[j] == pieces[0][j]);
            assert(pieces[0].contains(body[j]));
        }
        buffer::position_hits(body, 10, k);
        assert(body.take(k + 1) =~= pieces[0].push(10));
        let rest = pieces.skip(1);
        assert(body.skip(k + 1) =~= written(rest));
        let data = choose|data: Seq<char>| #[trigger] holds(lines[0], data, vs[0]);
        assert(lines[0].len() > 0);
        assert(is_chunk(vs[0]));
        line_is_passed(t, lines[0], vs[0]);
        let (p, t1, end) = bridge::on_line(t, lines[0]);
        told_first(t.prompt_tokens, vs, "prompt_tokens"@);
        told_first(t.comp_tokens, vs, "completion_tokens"@);
        let d = bridge::drained(t, body);
        if end {
            assert(vs.len() == 1) by {
                if vs.len() > 1 {
                    assert(!ends(vs[0]));
                }
            }
            assert(rest =~= seq![]);
            assert(vs.skip(1) =~= seq![]);
        } else {
            let more_lines = lines.skip(1);
            let more = vs.skip(1);
            assert forall|i: int| 0 <= i < rest.len() implies #[trigger] is_piece(
                rest[i],
                more_lines[i],
                more[i],
            ) by {
                assert(is_piece(pieces[i + 1], lines[i + 1], vs[i + 1]));
            }
            assert forall|i: int| 0 <= i < more.len() implies is_chunk(#[trigger] more[i]) by {
                assert(is_chunk(vs[i + 1]));
            }
            assert forall|i: int| 0 <= i < more.len() - 1 implies !ends(#[trigger] more[i]) by {
                assert(!ends(vs[i + 1]));
            }
            stream_is_passed_on(t1, rest, more_lines, more);
            let after = bridge::drained(t1, written(rest));
            assert(d.passed =~= seq![p->Some_0] + after.passed);
            assert forall|i: int| 0 <= i < lines.len() implies (#[trigger] d.passed[i]).line
                == lines[i] && d.passed[i].is_tool_call == has_calls(vs[i]) by {
                if i > 0 {
                    assert(d.passed[i] == after.passed[i - 1]);
                    assert(after.passed[i - 1].line == more_lines[i - 1]);
                }
            }
            if vs.len() > 1 {
                assert(more.last() == vs.last());
            }
        }
    }
}

/// The reasons that OpenAI knows for the end of an answer are told to the gateway as they are.
pub proof fn reasons_survive(word: Seq<char>)
    requires
        word == "stop"@ || word == "length"@ || word == "tool_calls"@ || word == "content_filter"@,
    ensures
        protocol::finish_word(bridge::reason_of(word)) == word,
{
    reveal_strlit("stop");
    reveal_strlit("length");
    reveal_strlit("tool_calls");
    reveal_strlit("content_filter");
    assert("stop"@.len() == 4 && "length"@.len() == 6 && "tool_calls"@.len() == 10
        && "content_filter"@.len() == 14);
}

} // verus!
