//! Tool calls in the output of a worker.
use vstd::prelude::*;

use crate::brain::messages;
use crate::brain::protocol::{self, CallModel, ToolCall, ToolCallFunction};
use crate::converter::to_anthropic::{self, str_or};
use crate::ids;
use crate::json::{self, Json, JsonModel, Object};
use crate::text;

verus! {

// ── A line of a worker's stream ─────────────────────────────────────────────

/// The data of a line: without the `data: ` in front and the blanks around. None where there
/// is none, or where it marks the end.
pub open spec fn line_data(line: Seq<char>) -> Option<Seq<char>> {
    let data = text::trim(text::without_prefix(line, "data: "@));
    if data.len() == 0 || data == "[DONE]"@ {
        None
    } else {
        Some(data)
    }
}

pub fn data_of_line(line: &str) -> (r: Option<String>)
    ensures
        text::opt_text(r) == line_data(line@),
{
    let rest = text::drop_prefix(line, "data: ");
    let data = text::trimmed(rest.as_str());
    if data.as_str().is_empty() || text::str_eq(data.as_str(), "[DONE]") {
        None
    } else {
        Some(data)
    }
}

/// The delta of the first choice.
pub open spec fn first_delta(v: JsonModel) -> Option<JsonModel> {
    match v.field("choices"@) {
        Some(choices) => match choices.item(0) {
            Some(choice) => choice.field("delta"@),
            None => None,
        },
        None => None,
    }
}

pub fn delta_of(v: &Json) -> (r: Option<&Json>)
    ensures
        json::opt_model_ref(r) == first_delta(v@),
{
    match v.get("choices") {
        Some(choices) => match choices.item(0) {
            Some(choice) => choice.get("delta"),
            None => None,
        },
        None => None,
    }
}

// ── Gathering ───────────────────────────────────────────────────────────────

/// What a piece of a worker's output does to the tool calls, for replay to a client.
pub enum ToolStreamEvent {
    /// A new tool call began.
    Started { id: String, name: String },
    /// More of the arguments of the current tool call came.
    ArgsDelta(String),
}

#[verifier::ext_equal]
pub enum ToolEventModel {
    Started { id: Seq<char>, name: Seq<char> },
    ArgsDelta(Seq<char>),
}

impl View for ToolStreamEvent {
    type V = ToolEventModel;

    open spec fn view(&self) -> ToolEventModel {
        match *self {
            ToolStreamEvent::Started { id, name } => ToolEventModel::Started {
                id: id@,
                name: name@,
            },
            ToolStreamEvent::ArgsDelta(a) => ToolEventModel::ArgsDelta(a@),
        }
    }
}

pub open spec fn tool_event_models(s: Seq<ToolStreamEvent>) -> Seq<ToolEventModel> {
    s.map_values(|e: ToolStreamEvent| e@)
}

pub proof fn tool_event_models_push(s: Seq<ToolStreamEvent>, e: ToolStreamEvent)
    ensures
        tool_event_models(s.push(e)) == tool_event_models(s).push(e@),
{
    assert(tool_event_models(s.push(e)) =~= tool_event_models(s).push(e@));
}

/// What has been gathered: all text, the finished tool calls, the one in progress, and its
/// number if the worker gave one.
#[verifier::ext_equal]
pub struct Gathered {
    pub text: Seq<char>,
    pub calls: Seq<CallModel>,
    pub current: Option<CallModel>,
    pub index: Option<u64>,
}

pub open spec fn gathered(
    text: String,
    calls: Seq<ToolCall>,
    current: Option<ToolCall>,
    index: Option<u64>,
) -> Gathered {
    Gathered {
        text: text@,
        calls: protocol::call_models(calls),
        current: messages::opt_call(current),
        index,
    }
}

/// Whether a name announces a new tool call, or is an echo of the current one. Numbers decide
/// where both have one; otherwise a call that has arguments already is not announced again.
pub open spec fn announces_new(g: Gathered, index: Option<u64>) -> bool {
    match g.current {
        None => true,
        Some(cur) => match (g.index, index) {
            (Some(a), Some(b)) => a != b,
            _ => cur.arguments.len() > 0,
        },
    }
}

/// The identity that is made from random digits for a tool call.
pub open spec fn short_id(prefix: Seq<char>, fresh: Seq<char>) -> Seq<char> {
    prefix + fresh.take(8)
}

/// All tool calls, that in progress last.
pub open spec fn all_calls(g: Gathered) -> Seq<CallModel> {
    match g.current {
        Some(c) => g.calls.push(c),
        None => g.calls,
    }
}

/// A call that starts without arguments.
pub open spec fn started(id: Seq<char>, name: Seq<char>) -> CallModel {
    CallModel { id, call_type: "function"@, name, arguments: seq![] }
}

/// A name starts a call, unless it is an echo.
pub open spec fn on_name(g: Gathered, name: Option<Seq<char>>, index: Option<u64>, id: Seq<char>) -> (
    Gathered,
    Seq<ToolEventModel>,
) {
    match name {
        Some(name) => if announces_new(g, index) {
            (
                Gathered { calls: all_calls(g), current: Some(started(id, name)), index, ..g },
                seq![ToolEventModel::Started { id, name }],
            )
        } else {
            (g, seq![])
        },
        None => (g, seq![]),
    }
}

/// Arguments go to the call in progress.
pub open spec fn on_arguments(g: Gathered, args: Seq<char>) -> (Gathered, Seq<ToolEventModel>) {
    if args.len() == 0 {
        (g, seq![])
    } else {
        (
            Gathered {
                current: match g.current {
                    Some(c) => Some(CallModel { arguments: c.arguments + args, ..c }),
                    None => None,
                },
                ..g
            },
            seq![ToolEventModel::ArgsDelta(args)],
        )
    }
}

/// What one entry of a `tool_calls` list does; `fresh` is for the identity of a new call.
pub open spec fn on_entry(g: Gathered, entry: JsonModel, fresh: Seq<char>) -> (
    Gathered,
    Seq<ToolEventModel>,
) {
    match entry.field("function"@) {
        Some(f) => {
            let (g1, out) = on_name(
                g,
                f.str_at("name"@),
                entry.unsigned_at("index"@),
                short_id("toolu_"@, fresh),
            );
            let (g2, more) = on_arguments(g1, json::or_empty(f.str_at("arguments"@)));
            (g2, out + more)
        },
        None => (g, seq![]),
    }
}

pub open spec fn on_entries(g: Gathered, entries: Seq<JsonModel>, fresh: Seq<Seq<char>>) -> (
    Gathered,
    Seq<ToolEventModel>,
)
    decreases entries.len(),
{
    if entries.len() == 0 {
        (g, seq![])
    } else {
        let (g1, out) = on_entries(g, entries.drop_last(), fresh);
        let (g2, more) = on_entry(g1, entries.last(), fresh[entries.len() - 1]);
        (g2, out + more)
    }
}

/// The entries of the `tool_calls` list of a delta.
pub open spec fn entries_of(v: JsonModel) -> Seq<JsonModel> {
    match first_delta(v) {
        Some(d) => match d.array_at("tool_calls"@) {
            Some(entries) => entries,
            None => seq![],
        },
        None => seq![],
    }
}

/// The text of a delta, unless it is empty.
pub open spec fn new_text(v: JsonModel) -> Option<Seq<char>> {
    match first_delta(v) {
        Some(d) => match d.str_at("content"@) {
            Some(t) => if t.len() > 0 {
                Some(t)
            } else {
                None
            },
            None => None,
        },
        None => None,
    }
}

/// What one parsed piece of a worker's output does.
pub open spec fn on_value(g: Gathered, v: JsonModel, fresh: Seq<Seq<char>>) -> (
    Gathered,
    Seq<ToolEventModel>,
) {
    on_entries(
        Gathered {
            text: g.text + json::or_empty(new_text(v)),
            ..g
        },
        entries_of(v),
        fresh,
    )
}

fn is_new_call(current: &Option<ToolCall>, current_index: Option<u64>, index: Option<u64>) -> (r: bool)
    ensures
        forall|g: Gathered|
            g.current == messages::opt_call(*current) && g.index == current_index ==> r
                == #[trigger] announces_new(g, index),
{
    match current {
        None => true,
        Some(cur) => match (current_index, index) {
            (Some(a), Some(b)) => a != b,
            _ => !cur.function.arguments.as_str().is_empty(),
        },
    }
}

/// The first eight random digits behind a prefix.
pub fn short_id_of(prefix: &str, fresh: &str) -> (r: String)
    requires
        ids::is_simple_uuid(fresh@),
    ensures
        r@ == short_id(prefix@, fresh@),
{
    let chars = text::chars_of(fresh);
    let digits = text::slice_text(&chars, 0, 8);
    assert(digits@ =~= fresh@.take(8));
    text::concat(prefix, digits.as_str())
}

fn accumulate_entry(
    entry: &Json,
    fresh: &str,
    full_text: &String,
    tool_calls: &mut Vec<ToolCall>,
    current_tool_call: &mut Option<ToolCall>,
    current_tool_index: &mut Option<u64>,
    events: &mut Vec<ToolStreamEvent>,
)
    requires
        ids::is_simple_uuid(fresh@),
    ensures
        ({
            let g = gathered(
                *full_text,
                old(tool_calls)@,
                *old(current_tool_call),
                *old(current_tool_index),
            );
            let g2 = gathered(
                *full_text,
                final(tool_calls)@,
                *final(current_tool_call),
                *final(current_tool_index),
            );
            g2 == on_entry(g, entry@, fresh@).0 && tool_event_models(final(events)@)
                == tool_event_models(old(events)@) + on_entry(g, entry@, fresh@).1
        }),
{
    let ghost g = gathered(*full_text, tool_calls@, *current_tool_call, *current_tool_index);
    let ghost e0 = tool_event_models(events@);
    let function = match entry.get("function") {
        Some(f) => f,
        None => {
            assert(e0 + Seq::<ToolEventModel>::empty() =~= e0);
            return ;
        },
    };
    let index = entry.u64_at("index");
    let id = short_id_of("toolu_", fresh);
    let ghost name_text = function@.str_at("name"@);
    match function.str_at("name") {
        Some(name) => {
            if is_new_call(current_tool_call, *current_tool_index, index) {
                assert(announces_new(g, index));
                match current_tool_call.take() {
                    Some(prev) => {
                        proof {
                            protocol::call_models_push(tool_calls@, prev);
                        }
                        tool_calls.push(prev);
                    },
                    None => {},
                }
                let call = ToolCall {
                    id: id.clone(),
                    call_type: text::owned("function"),
                    function: ToolCallFunction { name: text::owned(name), arguments: String::new() },
                };
                assert(call@ =~= started(id@, name@));
                *current_tool_call = Some(call);
                *current_tool_index = index;
                let event = ToolStreamEvent::Started { id: id.clone(), name: text::owned(name) };
                proof {
                    tool_event_models_push(events@, event);
                }
                events.push(event);
            } else {
                assert(!announces_new(g, index));
            }
        },
        None => {},
    }
    let ghost (g1, out) = on_name(g, name_text, index, short_id("toolu_"@, fresh@));
    assert(gathered(*full_text, tool_calls@, *current_tool_call, *current_tool_index) == g1);
    assert(tool_event_models(events@) =~= e0 + out);
    match function.str_at("arguments") {
        Some(args) => {
            if !args.is_empty() {
                match current_tool_call.take() {
                    Some(cur) => {
                        let mut arguments = cur.function.arguments;
                        arguments.append(args);
                        *current_tool_call = Some(
                            ToolCall {
                                id: cur.id,
                                call_type: cur.call_type,
                                function: ToolCallFunction { name: cur.function.name, arguments },
                            },
                        );
                    },
                    None => {},
                }
                let event = ToolStreamEvent::ArgsDelta(text::owned(args));
                proof {
                    tool_event_models_push(events@, event);
                }
                events.push(event);
            }
        },
        None => {},
    }
    assert(tool_event_models(events@) =~= e0 + on_entry(g, entry@, fresh@).1);
}

/// Takes one parsed piece of a worker's output in; `fresh[i]` is for the identity of the tool
/// call that entry `i` of its list may start. Returns the new text, and what happened to the
/// tool calls.
pub fn accumulate_value(
    val: &Json,
    fresh: &Vec<String>,
    full_text: &mut String,
    tool_calls: &mut Vec<ToolCall>,
    current_tool_call: &mut Option<ToolCall>,
    current_tool_index: &mut Option<u64>,
) -> (r: (Option<String>, Vec<ToolStreamEvent>))
    requires
        fresh@.len() >= entries_of(val@).len(),
        forall|i: int| 0 <= i < fresh@.len() ==> ids::is_simple_uuid(#[trigger] fresh@[i]@),
    ensures
        text::opt_text(r.0) == new_text(val@),
        ({
            let g = gathered(
                *old(full_text),
                old(tool_calls)@,
                *old(current_tool_call),
                *old(current_tool_index),
            );
            let g2 = gathered(
                *final(full_text),
                final(tool_calls)@,
                *final(current_tool_call),
                *final(current_tool_index),
            );
            (g2, tool_event_models(r.1@)) == on_value(g, val@, text::texts(fresh@))
        }),
{
    let ghost g = gathered(*full_text, tool_calls@, *current_tool_call, *current_tool_index);
    let ghost names = text::texts(fresh@);
    let mut events: Vec<ToolStreamEvent> = Vec::new();
    assert(tool_event_models(events@) =~= seq![]);
    let delta = match delta_of(val) {
        Some(d) => d,
        None => {
            assert(g.text + Seq::<char>::empty() =~= g.text);
            return (None, events);
        },
    };
    let mut fresh_text: Option<String> = None;
    match delta.str_at("content") {
        Some(content) => {
            if !content.is_empty() {
                full_text.append(content);
                fresh_text = Some(text::owned(content));
            }
        },
        None => {},
    }
    let ghost g1 = gathered(*full_text, tool_calls@, *current_tool_call, *current_tool_index);
    assert(g1.text =~= g.text + json::or_empty(new_text(val@)));
    match delta.array_at("tool_calls") {
        Some(entries) => {
            let ghost all = json::models(entries@);
            proof {
                json::models_at(entries@);
            }
            let mut i: usize = 0;
            while i < entries.len()
                invariant
                    i <= entries.len(),
                    entries.len() <= fresh.len(),
                    all == json::models(entries@),
                    all.len() == entries.len(),
                    names == text::texts(fresh@),
                    forall|k: int|
                        0 <= k < fresh@.len() ==> ids::is_simple_uuid(#[trigger] fresh@[k]@),
                    (
                        gathered(*full_text, tool_calls@, *current_tool_call, *current_tool_index),
                        tool_event_models(events@),
                    ) == on_entries(g1, all.take(i as int), names),
                decreases entries.len() - i,
            {
                proof {
                    json::models_at(entries@);
                    assert(all.take(i + 1).drop_last() =~= all.take(i as int));
                    assert(all.take(i + 1).last() == entries@[i as int]@);
                }
                accumulate_entry(
                    &entries[i],
                    fresh[i].as_str(),
                    full_text,
                    tool_calls,
                    current_tool_call,
                    current_tool_index,
                    &mut events,
                );
                i = i + 1;
            }
            assert(all.take(all.len() as int) =~= all);
        },
        None => {},
    }
    (fresh_text, events)
}

/// How many entries the `tool_calls` list of a delta has.
pub fn entry_count(val: &Json) -> (r: usize)
    ensures
        r == entries_of(val@).len(),
{
    match delta_of(val) {
        Some(d) => match d.array_at("tool_calls") {
            Some(entries) => {
                proof {
                    json::models_at(entries@);
                }
                entries.len()
            },
            None => 0,
        },
        None => 0,
    }
}

/// Random identifiers for the entries of what a line writes, if it writes JSON.
pub open spec fn fresh_for_line(line: Seq<char>, fresh: Seq<Seq<char>>) -> bool {
    match line_data(line) {
        Some(data) => match json::json_parse(data) {
            Some(v) => ids::are_uuids(fresh, entries_of(v).len()),
            None => true,
        },
        None => true,
    }
}

/// What a line of a worker's output does. A line without JSON does nothing.
pub open spec fn on_line(g: Gathered, line: Seq<char>, fresh: Seq<Seq<char>>) -> (
    Gathered,
    Seq<ToolEventModel>,
) {
    match line_data(line) {
        Some(data) => match json::json_parse(data) {
            Some(v) => on_value(g, v, fresh),
            None => (g, seq![]),
        },
        None => (g, seq![]),
    }
}

/// The text of a line of a worker's output.
pub open spec fn line_text(line: Seq<char>) -> Option<Seq<char>> {
    match line_data(line) {
        Some(data) => match json::json_parse(data) {
            Some(v) => new_text(v),
            None => None,
        },
        None => None,
    }
}

/// Takes one line of a worker's output in. This alone decides whether a piece belongs to the
/// tool call in progress or starts another.
pub fn accumulate_delta(
    delta_line: &str,
    full_text: &mut String,
    tool_calls: &mut Vec<ToolCall>,
    current_tool_call: &mut Option<ToolCall>,
    current_tool_index: &mut Option<u64>,
) -> (r: (Option<String>, Vec<ToolStreamEvent>))
    ensures
        text::opt_text(r.0) == line_text(delta_line@),
        exists|fresh: Seq<Seq<char>>|
            #[trigger] fresh_for_line(delta_line@, fresh) && (
                gathered(
                    *final(full_text),
                    final(tool_calls)@,
                    *final(current_tool_call),
                    *final(current_tool_index),
                ),
                tool_event_models(r.1@),
            ) == on_line(
                gathered(
                    *old(full_text),
                    old(tool_calls)@,
                    *old(current_tool_call),
                    *old(current_tool_index),
                ),
                delta_line@,
                fresh,
            ),
{
    let events: Vec<ToolStreamEvent> = Vec::new();
    assert(tool_event_models(events@) =~= seq![]);
    let data = match data_of_line(delta_line) {
        Some(d) => d,
        None => {
            assert(fresh_for_line(delta_line@, seq![]));
            return (None, events);
        },
    };
    match json::parse(data.as_str()) {
        Some(val) => {
            let fresh = ids::fresh_ids(entry_count(&val));
            proof {
                assert forall|i: int| 0 <= i < fresh@.len() implies ids::is_simple_uuid(
                    #[trigger] fresh@[i]@,
                ) by {
                    assert(ids::is_simple_uuid(text::texts(fresh@)[i]));
                }
                assert(fresh_for_line(delta_line@, text::texts(fresh@)));
            }
            accumulate_value(
                &val,
                &fresh,
                full_text,
                tool_calls,
                current_tool_call,
                current_tool_index,
            )
        },
        None => {
            assert(fresh_for_line(delta_line@, seq![]));
            (None, events)
        },
    }
}

// ── Laws of gathering ───────────────────────────────────────────────────────

/// The tool calls that a client puts together from the events.
pub open spec fn replayed(calls: Seq<CallModel>, events: Seq<ToolEventModel>) -> Seq<CallModel>
    decreases events.len(),
{
    if events.len() == 0 {
        calls
    } else {
        let before = replayed(calls, events.drop_last());
        match events.last() {
            ToolEventModel::Started { id, name } => before.push(started(id, name)),
            ToolEventModel::ArgsDelta(a) => if before.len() > 0 {
                let c = before.last();
                before.drop_last().push(CallModel { arguments: c.arguments + a, ..c })
            } else {
                before
            },
        }
    }
}

proof fn replayed_add(calls: Seq<CallModel>, a: Seq<ToolEventModel>, b: Seq<ToolEventModel>)
    ensures
        replayed(calls, a + b) == replayed(replayed(calls, a), b),
    decreases b.len(),
{
    if b.len() == 0 {
        assert(a + b =~= a);
    } else {
        replayed_add(calls, a, b.drop_last());
        assert((a + b).drop_last() =~= a + b.drop_last());
    }
}

/// A gathering begins without calls, and then always has one in progress.
pub open spec fn is_reachable(g: Gathered) -> bool {
    g.current is None ==> g.calls.len() == 0
}

proof fn entry_replays(g: Gathered, entry: JsonModel, fresh: Seq<char>)
    requires
        is_reachable(g),
    ensures
        is_reachable(on_entry(g, entry, fresh).0),
        replayed(all_calls(g), on_entry(g, entry, fresh).1) == all_calls(
            on_entry(g, entry, fresh).0,
        ),
{
    reveal_with_fuel(replayed, 2);
    if entry.field("function"@) is Some {
        let f = entry.field("function"@)->Some_0;
        let id = short_id("toolu_"@, fresh);
        let (g1, out) = on_name(g, f.str_at("name"@), entry.unsigned_at("index"@), id);
        let args = json::or_empty(f.str_at("arguments"@));
        let (g2, more) = on_arguments(g1, args);
        if out.len() > 0 {
            assert(out.drop_last() =~= Seq::<ToolEventModel>::empty());
        }
        assert(replayed(all_calls(g), out) == all_calls(g1));
        if more.len() > 0 {
            assert(more.drop_last() =~= Seq::<ToolEventModel>::empty());
            let all = all_calls(g1);
            if g1.current is Some {
                assert(all.drop_last() =~= g1.calls);
            }
        }
        assert(replayed(all_calls(g1), more) =~= all_calls(g2));
        replayed_add(all_calls(g), out, more);
    }
}

/// What a client puts together from the events are the tool calls that were gathered: the two
/// cannot disagree about where one call ends and the next begins.
pub proof fn events_replay_to_the_calls(
    g: Gathered,
    entries: Seq<JsonModel>,
    fresh: Seq<Seq<char>>,
)
    requires
        is_reachable(g),
    ensures
        is_reachable(on_entries(g, entries, fresh).0),
        replayed(all_calls(g), on_entries(g, entries, fresh).1) == all_calls(
            on_entries(g, entries, fresh).0,
        ),
    decreases entries.len(),
{
    if entries.len() > 0 {
        let (g1, out) = on_entries(g, entries.drop_last(), fresh);
        events_replay_to_the_calls(g, entries.drop_last(), fresh);
        entry_replays(g1, entries.last(), fresh[entries.len() - 1]);
        replayed_add(all_calls(g), out, on_entry(g1, entries.last(), fresh[entries.len() - 1]).1);
    }
}

// ── Tool calls written as text ──────────────────────────────────────────────

/// What stands between the first `<tool_call>` and the first `</tool_call>`, where they come
/// in this order.
pub open spec fn tagged(s: Seq<char>) -> Option<Seq<char>> {
    match (text::find(s, "<tool_call>"@), text::find(s, "</tool_call>"@)) {
        (Some(start), Some(end)) => if start + 11 <= end {
            Some(s.subrange(start + 11, end))
        } else {
            None
        },
        _ => None,
    }
}

pub fn tagged_text(s: &str) -> (r: Option<String>)
    ensures
        text::opt_text(r) == tagged(s@),
{
    let chars = text::chars_of(s);
    let open = text::chars_of("<tool_call>");
    let close = text::chars_of("</tool_call>");
    proof {
        text::find_from_is_first(s@, "</tool_call>"@, 0);
    }
    match (text::find_chars(&chars, &open, 0), text::find_chars(&chars, &close, 0)) {
        (Some(start), Some(end)) => {
            if end >= 11 && start <= end - 11 {
                Some(text::slice_text(&chars, start + 11, end))
            } else {
                None
            }
        },
        _ => None,
    }
}

/// The tool call that a tagged value writes.
pub open spec fn call_of_tag(v: JsonModel, id: Seq<char>) -> CallModel {
    let arguments = match v.field("arguments"@) {
        Some(a) => a,
        None => match v.field("parameters"@) {
            Some(p) => p,
            None => JsonModel::Object(json::nothing()),
        },
    };
    CallModel {
        id,
        call_type: "function"@,
        name: to_anthropic::or_str(v.str_at("name"@), "unknown"@),
        arguments: json::json_text(arguments),
    }
}

/// The tool call that a tagged value writes.
pub fn call_from_tag(v: &Json, id: String) -> (r: ToolCall)
    ensures
        r@ == call_of_tag(v@, id@),
{
    let name = str_or(v.str_at("name"), "unknown");
    let arguments = match v.get("arguments") {
        Some(a) => json::render(a),
        None => match v.get("parameters") {
            Some(p) => json::render(p),
            None => json::render(&Json::Object(Object::new())),
        },
    };
    ToolCall {
        id,
        call_type: text::owned("function"),
        function: ToolCallFunction { name, arguments },
    }
}

/// What the tagged part of a text parses to.
pub open spec fn tag_parse(s: Seq<char>) -> Option<JsonModel> {
    match tagged(s) {
        Some(t) => json::json_parse(t),
        None => None,
    }
}

/// The tool calls of a text, from what it and its tagged part parse to: those of its
/// `tool_calls` field if it is JSON with one, or that of the tag.
pub open spec fn calls_in(
    whole: Option<JsonModel>,
    tag: Option<JsonModel>,
    id: Seq<char>,
) -> Option<Seq<CallModel>> {
    match whole {
        Some(v) if v.field("tool_calls"@) is Some => messages::call_list(
            v.field("tool_calls"@)->Some_0,
        ),
        _ => match tag {
            Some(t) => Some(seq![call_of_tag(t, id)]),
            None => None,
        },
    }
}

/// The tool calls of a text that has been parsed; `id` is for a call that has none.
pub fn calls_from_parsed(whole: &Option<Json>, tag: &Option<Json>, id: String) -> (r: Option<
    Vec<ToolCall>,
>)
    ensures
        protocol::opt_call_models(r) == calls_in(
            json::opt_model(*whole),
            json::opt_model(*tag),
            id@,
        ),
{
    match whole {
        Some(v) => match v.get("tool_calls") {
            Some(list) => return messages::calls_from_value(list),
            None => {},
        },
        None => {},
    }
    match tag {
        Some(t) => {
            let call = call_from_tag(t, id);
            let mut out: Vec<ToolCall> = Vec::new();
            out.push(call);
            assert(protocol::call_models(out@) =~= seq![call@]);
            Some(out)
        },
        None => None,
    }
}

fn parsed_tag(s: &str) -> (r: Option<Json>)
    ensures
        json::opt_model(r) == tag_parse(s@),
{
    match tagged_text(s) {
        Some(t) => json::parse(t.as_str()),
        None => None,
    }
}

/// An identity made from random digits.
pub open spec fn is_short_id(prefix: Seq<char>, id: Seq<char>) -> bool {
    exists|u: Seq<char>| #[trigger] ids::is_simple_uuid(u) && id == short_id(prefix, u)
}

pub fn new_short_id(prefix: &str) -> (r: String)
    ensures
        is_short_id(prefix@, r@),
{
    let u = ids::fresh_id();
    short_id_of(prefix, u.as_str())
}

/// The tool calls that a model wrote as text, for models that do not call tools natively.
pub fn parse_tool_calls_from_text(s: &str) -> (r: Option<Vec<ToolCall>>)
    ensures
        exists|id: Seq<char>|
            #[trigger] is_short_id("toolu_"@, id) && protocol::opt_call_models(r) == calls_in(
                json::json_parse(s@),
                tag_parse(s@),
                id,
            ),
{
    let id = new_short_id("toolu_");
    let whole = json::parse(s);
    let tag = parsed_tag(s);
    assert(is_short_id("toolu_"@, id@));
    calls_from_parsed(&whole, &tag, id)
}

/// The text and the tool calls of an answer, from what it and its tagged part parse to. Where
/// tool calls are found there is no text.
pub open spec fn answer_in(
    response: Seq<char>,
    whole: Option<JsonModel>,
    tag: Option<JsonModel>,
    id: Seq<char>,
) -> (Option<Seq<char>>, Option<Seq<CallModel>>) {
    match listed_calls(whole) {
        Some(calls) => (None, Some(calls)),
        None => match tag {
            Some(t) => (None, Some(seq![call_of_tag(t, id)])),
            None => (Some(response), None),
        },
    }
}

/// The tool calls of the `tool_calls` field, if it holds some.
pub open spec fn listed_calls(whole: Option<JsonModel>) -> Option<Seq<CallModel>> {
    match whole {
        Some(v) => match v.field("tool_calls"@) {
            Some(list) => match messages::call_list(list) {
                Some(calls) => if calls.len() > 0 {
                    Some(calls)
                } else {
                    None
                },
                None => None,
            },
            None => None,
        },
        None => None,
    }
}

/// The text and the tool calls of an answer that has been parsed.
pub fn answer_from_parsed(
    response: &str,
    whole: &Option<Json>,
    tag: &Option<Json>,
    id: String,
) -> (r: (Option<String>, Option<Vec<ToolCall>>))
    ensures
        (text::opt_text(r.0), protocol::opt_call_models(r.1)) == answer_in(
            response@,
            json::opt_model(*whole),
            json::opt_model(*tag),
            id@,
        ),
{
    match whole {
        Some(v) => match v.get("tool_calls") {
            Some(list) => match messages::calls_from_value(list) {
                Some(calls) => {
                    assert(protocol::call_models(calls@).len() == calls@.len());
                    if calls.len() > 0 {
                        return (None, Some(calls));
                    }
                },
                None => {},
            },
            None => {},
        },
        None => {},
    }
    match tag {
        Some(t) => {
            let call = call_from_tag(t, id);
            let mut out: Vec<ToolCall> = Vec::new();
            out.push(call);
            assert(protocol::call_models(out@) =~= seq![call@]);
            (None, Some(out))
        },
        None => (Some(text::owned(response)), None),
    }
}

/// The text and the tool calls of a whole answer.
pub fn parse_tool_calls_from_response(response: &str) -> (r: (Option<String>, Option<Vec<ToolCall>>))
    ensures
        exists|id: Seq<char>|
            #[trigger] is_short_id("call_"@, id) && (
                text::opt_text(r.0),
                protocol::opt_call_models(r.1),
            ) == answer_in(response@, json::json_parse(response@), tag_parse(response@), id),
{
    let id = new_short_id("call_");
    let whole = json::parse(response);
    let tag = parsed_tag(response);
    assert(is_short_id("call_"@, id@));
    answer_from_parsed(response, &whole, &tag, id)
}

/// The content of a delta.
pub open spec fn delta_content(v: JsonModel) -> Seq<char> {
    match first_delta(v) {
        Some(d) => json::or_empty(d.str_at("content"@)),
        None => seq![],
    }
}

/// The content of a parsed delta.
pub fn content_of_delta(v: &Json) -> (r: String)
    ensures
        r@ == delta_content(v@),
{
    match delta_of(v) {
        Some(d) => match d.str_at("content") {
            Some(t) => text::owned(t),
            None => String::new(),
        },
        None => String::new(),
    }
}

/// The content of a line of a worker's stream.
pub fn extract_delta_content(sse_line: &str) -> (r: String)
    ensures
        r@ == (match line_data(sse_line@) {
            Some(data) => match json::json_parse(data) {
                Some(v) => delta_content(v),
                None => Seq::<char>::empty(),
            },
            None => Seq::<char>::empty(),
        }),
{
    match data_of_line(sse_line) {
        Some(data) => match json::parse(data.as_str()) {
            Some(v) => content_of_delta(&v),
            None => String::new(),
        },
        None => String::new(),
    }
}

} // verus!
