//! That rounds with hosted tools lose nothing of what is said, called and found.
use vstd::prelude::*;

use crate::brain::anthropic_blocking;
use crate::brain::anthropic_stream;
use crate::brain::hosted_tools::{self, ActionModel, LoopModel};
use crate::brain::protocol::{self, CallModel, ContentModel, FinishReason, ToolModel};
use crate::brain::turn_laws::{
    closing_words_say_nothing, event_words_differ, has_read, opening_says_nothing,
    reason_told, shown_text_is_read, use_blocks_are_uses, use_of,
};
use crate::converter::anthropic_events::EventModel;
use crate::converter::answer_laws::{uses, words, words_add};
use crate::converter::reading::{self, ReadAnswer, ReadCall};
use crate::converter::stream_laws;
use crate::converter::to_anthropic;
use crate::converter::types::AnthropicUsage;
use crate::json::{self, JsonModel};
use crate::text;

verus! {

// ── What is delivered ───────────────────────────────────────────────────────

proof fn whole_block_is_read(r: ReadAnswer, block: usize, c: CallModel)
    ensures
        reading::take_events(r, hosted_tools::whole_block(block, c)) == (ReadAnswer {
            calls: r.calls.push(
                ReadCall {
                    place: block as int,
                    id: Some(c.id),
                    name: Some(c.name),
                    arguments: c.arguments,
                },
            ),
            ..r
        }),
{
    event_words_differ();
    let es = hosted_tools::whole_block(block, c);
    let b = to_anthropic::tool_start(c.id, c.name);
    assert(b.str_at("type"@) == Some("tool_use"@));
    assert(b.str_at("id"@) == Some(c.id));
    assert(b.str_at("name"@) == Some(c.name));
    let d = to_anthropic::arguments_delta(c.arguments);
    assert(d.str_at("type"@) == Some("input_json_delta"@));
    assert(d.str_at("partial_json"@) == Some(c.arguments));
    let none = Seq::<EventModel>::empty();
    assert(es =~= none.push(es[0]).push(es[1]).push(es[2]));
    reading::take_events_push(r, none, es[0]);
    reading::take_events_push(r, none.push(es[0]), es[1]);
    reading::take_events_push(r, none.push(es[0]).push(es[1]), es[2]);
    let r1 = reading::take_event(r, es[0]);
    let r2 = reading::take_event(r1, es[1]);
    assert(Seq::<char>::empty() + c.arguments =~= c.arguments);
    assert(r2.calls =~= r.calls.push(
        ReadCall {
            place: block as int,
            id: Some(c.id),
            name: Some(c.name),
            arguments: c.arguments,
        },
    ));
}

proof fn whole_blocks_are_read(r: ReadAnswer, next: usize, cs: Seq<CallModel>)
    requires
        r.calls.len() == 0,
    ensures
        ({
            let out = reading::take_events(r, hosted_tools::whole_blocks(next, cs).1);
            out.text == r.text && has_read(out.calls, cs)
        }),
    decreases cs.len(),
{
    if cs.len() > 0 {
        let rest = cs.drop_last();
        whole_blocks_are_read(r, next, rest);
        let (n, out) = hosted_tools::whole_blocks(next, rest);
        let r1 = reading::take_events(r, out);
        whole_block_is_read(r1, n, cs.last());
        reading::take_events_add(r, out, hosted_tools::whole_block(n, cs.last()));
        let r2 = reading::take_events(r, hosted_tools::whole_blocks(next, cs).1);
        assert forall|i: int| 0 <= i < r2.calls.len() implies (#[trigger] r2.calls[i]).id == Some(
            cs[i].id,
        ) && r2.calls[i].name == Some(cs[i].name) && r2.calls[i].arguments == cs[i].arguments by {
            if i < rest.len() {
                assert(r1.calls[i].id == Some(rest[i].id));
                assert(rest[i] == cs[i]);
            }
        }
    }
}

/// A client that follows reads the text and the calls of the round that ended the request.
pub proof fn delivered_stream_says_the_outcome(
    request_id: Seq<char>,
    model: Seq<char>,
    said: Seq<char>,
    calls: Seq<CallModel>,
    reason: FinishReason,
    usage: AnthropicUsage,
)
    ensures
        ({
            let r = reading::read_events(
                hosted_tools::delivered(request_id, model, said, calls, reason, usage),
            );
            r.text == said && has_read(r.calls, calls)
        }),
{
    let none = reading::nothing_read();
    let a = anthropic_stream::opening(request_id, model);
    let b = anthropic_stream::shown_text(said);
    let c = seq![EventModel::BlockStop { index: 0 }];
    let d = hosted_tools::whole_blocks(1, calls).1;
    let e = anthropic_stream::ending(anthropic_stream::stop_reason_with(calls, reason), usage);
    opening_says_nothing(request_id, model);
    reading::take_events_add(none, a, b);
    shown_text_is_read(none, said);
    assert(Seq::<char>::empty() + said =~= said);
    reading::take_events_add(none, a + b, c);
    reveal_with_fuel(reading::take_events, 2);
    assert(c.drop_last() =~= seq![]);
    reading::take_events_add(none, a + b + c, d);
    let r = reading::take_events(none, a + b + c);
    whole_blocks_are_read(r, 1, calls);
    reading::take_events_add(none, a + b + c + d, e);
    closing_words_say_nothing(
        reading::take_events(r, d),
        anthropic_stream::stop_reason_with(calls, reason),
        usage,
    );
}

/// What is delivered ends with the reason of the round that ended the request, or because of its
/// calls, and with the tokens of all rounds.
pub proof fn delivered_stream_ends_as_told(
    request_id: Seq<char>,
    model: Seq<char>,
    said: Seq<char>,
    calls: Seq<CallModel>,
    reason: FinishReason,
    usage: AnthropicUsage,
)
    ensures
        ({
            let out = hosted_tools::delivered(request_id, model, said, calls, reason, usage);
            &&& out.len() >= 2
            &&& out.last() is MessageStop
            &&& out[out.len() - 2] == (EventModel::MessageDelta {
                stop_reason: Some(reason_told(calls.len() > 0, reason)),
                usage,
            })
        }),
{
    stream_laws::reasons_mean_the_same(protocol::finish_word(reason));
    let out = hosted_tools::delivered(request_id, model, said, calls, reason, usage);
    let end = anthropic_stream::ending(anthropic_stream::stop_reason_with(calls, reason), usage);
    assert(out.last() == end[1]);
    assert(out[out.len() - 2] == end[0]);
}

/// A client that waits reads the text and the calls of the round that ended the request.
pub proof fn outcome_blocks_say_the_outcome(said: Seq<char>, calls: Seq<CallModel>)
    ensures
        words(hosted_tools::outcome_blocks(said, calls)) == said,
        uses(hosted_tools::outcome_blocks(said, calls)) == calls.map_values(
            |c: CallModel| use_of(c),
        ),
{
    event_words_differ();
    use_blocks_are_uses(calls);
    let tail = anthropic_blocking::use_blocks(calls);
    if !(calls.len() > 0 && said.len() == 0) {
        let head = seq![anthropic_blocking::text_block(said)];
        words_add(head, tail);
        reveal_with_fuel(words, 2);
        reveal_with_fuel(uses, 2);
        assert(head.drop_last() =~= seq![]);
        assert(words(head) =~= said);
        assert(words(head + tail) =~= said);
        assert(uses(head + tail) =~= uses(tail));
    } else {
        assert(words(tail) =~= said);
    }
}

// ── What a round adds ───────────────────────────────────────────────────────

/// After a round the worker is told all that it was told before, what it said and called then,
/// and what came of each call, under the identity of that call.
pub proof fn round_is_remembered(
    st: LoopModel,
    said: Seq<char>,
    calls: Seq<CallModel>,
    results: Seq<Seq<char>>,
)
    requires
        results.len() == calls.len(),
    ensures
        ({
            let next = hosted_tools::with_results(st, said, calls, results);
            let n = st.messages.len() as int;
            &&& next.messages.len() == n + 1 + calls.len()
            &&& next.messages.take(n) == st.messages
            &&& next.messages[n].role == "assistant"@
            &&& next.messages[n].content == ContentModel::Text(said)
            &&& next.messages[n].tool_calls == Some(calls)
            &&& forall|i: int|
                0 <= i < calls.len() ==> (#[trigger] next.messages[n + 1 + i]).role == "tool"@
                    && next.messages[n + 1 + i].tool_call_id == Some(calls[i].id)
                    && next.messages[n + 1 + i].content == ContentModel::Text(results[i])
            &&& next.round == st.round + 1
            &&& next.prompt_tokens == st.prompt_tokens
            &&& next.comp_tokens == st.comp_tokens
        }),
{
    let next = hosted_tools::with_results(st, said, calls, results);
    assert(next.messages.take(st.messages.len() as int) =~= st.messages);
}

// ── What is run ─────────────────────────────────────────────────────────────

/// The tools that the worker is offered for the gateway to run are the tools that the gateway
/// runs, and no other.
pub proof fn offered_tools_are_run(name: Seq<char>, args: Option<JsonModel>)
    ensures
        hosted_tools::is_hosted(name) <==> exists|i: int|
            0 <= i < hosted_tools::hosted_tools().len()
                && (#[trigger] hosted_tools::hosted_tools()[i]).name == name,
        hosted_tools::is_hosted(name) <==> !(hosted_tools::action(name, args) is Unknown),
{
    let ts = hosted_tools::hosted_tools();
    assert(ts.len() == 2);
    if name == "web_search"@ {
        assert(ts[0].name == name);
    }
    if name == "web_fetch"@ {
        assert(ts[1].name == name);
    }
}

/// What a call asks to be searched for is searched for, and what it asks to be fetched is
/// fetched: each tool reads the argument that its description asks for.
pub proof fn calls_are_run_as_asked(args: JsonModel, asked: Seq<char>)
    ensures
        args.str_at("query"@) == Some(asked) ==> hosted_tools::action("web_search"@, Some(args))
            == ActionModel::Search(asked),
        args.str_at("url"@) == Some(asked) ==> hosted_tools::action("web_fetch"@, Some(args))
            == ActionModel::Fetch(asked),
        demands(hosted_tools::hosted_tools()[0], "query"@),
        demands(hosted_tools::hosted_tools()[1], "url"@),
{
    reveal_strlit("web_search");
    reveal_strlit("web_fetch");
    assert("web_search"@.len() == 10 && "web_fetch"@.len() == 9);
    reveal_strlit("type");
    reveal_strlit("properties");
    reveal_strlit("required");
    assert("type"@.len() == 4 && "properties"@.len() == 10 && "required"@.len() == 8);
    let ts = hosted_tools::hosted_tools();
    let p = ts[0].parameters->Some_0;
    assert(p.array_at("required"@) == Some(seq![JsonModel::Str("query"@)]));
    assert(p.field_or_null("properties"@).field("query"@) is Some);
    let q = ts[1].parameters->Some_0;
    assert(q.array_at("required"@) == Some(seq![JsonModel::Str("url"@)]));
    assert(q.field_or_null("properties"@).field("url"@) is Some);
}

/// The schema of the tool has the field, and demands it alone.
pub open spec fn demands(t: ToolModel, field: Seq<char>) -> bool {
    t.parameters matches Some(p) && p.array_at("required"@) == Some(seq![JsonModel::Str(field)])
        && p.field_or_null("properties"@).field(field) is Some
}

// ── What is found ───────────────────────────────────────────────────────────

proof fn listing_grows(results: Seq<JsonModel>, k: int)
    requires
        0 <= k <= results.len(),
    ensures
        hosted_tools::listing(results.take(k)).is_prefix_of(hosted_tools::listing(results)),
    decreases results.len() - k,
{
    if k < results.len() {
        listing_grows(results, k + 1);
        assert(results.take(k + 1).drop_last() =~= results.take(k));
        let a = hosted_tools::listing(results.take(k));
        let b = hosted_tools::listing(results.take(k + 1));
        let c = hosted_tools::listing(results);
        assert(a =~= b.subrange(0, a.len() as int));
        assert(b == c.subrange(0, b.len() as int));
        assert(a =~= c.subrange(0, a.len() as int));
    } else {
        assert(results.take(k) =~= results);
        let c = hosted_tools::listing(results);
        assert(c =~= c.subrange(0, c.len() as int));
    }
}

/// The places of a result in the text of a search: its title, its address and its extract.
pub open spec fn stands(t: Seq<char>, v: JsonModel, a: int, b: int, c: int) -> bool {
    &&& 0 <= a < b < c
    &&& text::occurs_at(t, json::or_empty(v.str_at("title"@)), a)
    &&& text::occurs_at(t, json::or_empty(v.str_at("url"@)), b)
    &&& text::occurs_at(t, json::or_empty(v.str_at("content"@)), c)
}

/// Each result of a search, up to the limit, is told with its title, its address and its
/// extract, in this order.
pub proof fn results_are_told(body: JsonModel, i: int)
    requires
        body.array_at("results"@) is Some,
        0 <= i < body.array_at("results"@)->Some_0.len(),
        i < hosted_tools::MAX_SEARCH_RESULTS,
        body.array_at("results"@)->Some_0[i].str_at("title"@) is Some,
    ensures
        exists|a: int, b: int, c: int| #[trigger]
            stands(
                hosted_tools::search_text(body),
                body.array_at("results"@)->Some_0[i],
                a,
                b,
                c,
            ),
{
    let all = body.array_at("results"@)->Some_0;
    let v = all[i];
    let shown = if all.len() <= hosted_tools::MAX_SEARCH_RESULTS {
        all
    } else {
        all.take(hosted_tools::MAX_SEARCH_RESULTS as int)
    };
    let whole = hosted_tools::listing(shown);
    assert(hosted_tools::search_text(body) == whole);
    assert(shown[i] == v);
    listing_grows(shown, i + 1);
    assert(shown.take(i + 1).drop_last() =~= shown.take(i));
    assert(shown.take(i + 1).last() == v);
    let before = hosted_tools::listing(shown.take(i));
    let entry = hosted_tools::listed((i + 1) as nat, v);
    let upto = hosted_tools::listing(shown.take(i + 1));
    assert(upto == before + entry);
    let tail = whole.skip(upto.len() as int);
    assert(whole =~= before + entry + tail);
    entry_stands(before, (i + 1) as nat, v, tail);
}

proof fn entry_stands(before: Seq<char>, n: nat, v: JsonModel, tail: Seq<char>)
    requires
        v.str_at("title"@) is Some,
    ensures
        exists|a: int, b: int, c: int| #[trigger]
            stands(before + hosted_tools::listed(n, v) + tail, v, a, b, c),
{
    let title = json::or_empty(v.str_at("title"@));
    let url = json::or_empty(v.str_at("url"@));
    let content = json::or_empty(v.str_at("content"@));
    reveal_strlit("");
    reveal_strlit("\n");
    assert(""@ =~= Seq::<char>::empty());
    assert("\n"@.len() == 1);
    let number = text::dec(n) + ". "@;
    let whole = before + hosted_tools::listed(n, v) + tail;
    assert(hosted_tools::listed(n, v) == number + title + "\n"@ + url + "\n"@ + content
        + "\n\n"@);
    three_stand(before, number, title, "\n"@, url, content, "\n\n"@, tail);
    let a = (before.len() + number.len()) as int;
    let b = a + title.len() + 1;
    let c = b + url.len() + 1;
    assert(stands(whole, v, a, b, c));
}

proof fn three_stand(
    before: Seq<char>,
    number: Seq<char>,
    x: Seq<char>,
    nl: Seq<char>,
    y: Seq<char>,
    z: Seq<char>,
    end: Seq<char>,
    tail: Seq<char>,
)
    ensures
        ({
            let whole = before + (number + x + nl + y + nl + z + end) + tail;
            let a = (before.len() + number.len()) as int;
            let b = a + x.len() + nl.len();
            let c = b + y.len() + nl.len();
            &&& text::occurs_at(whole, x, a)
            &&& text::occurs_at(whole, y, b)
            &&& text::occurs_at(whole, z, c)
        }),
{
    let whole = before + (number + x + nl + y + nl + z + end) + tail;
    let a = (before.len() + number.len()) as int;
    let b = a + x.len() + nl.len();
    let c = b + y.len() + nl.len();
    assert(whole.subrange(a, a + x.len()) =~= x);
    assert(whole.subrange(b, b + y.len()) =~= y);
    assert(whole.subrange(c, c + z.len()) =~= z);
}

} // verus!
