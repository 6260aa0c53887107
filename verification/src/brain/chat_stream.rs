//! A worker's answer streamed to an OpenAI client.
//!
//! The handler reads the worker's messages and the clock, hands them to [`ChatTurn`], and
//! writes the text that comes back.
use vstd::prelude::*;

use crate::brain::protocol::{self, CallModel, DoneMessage, ToolCall, ToolCallFunction};
use crate::brain::tool_calls::{self, Gathered};
use crate::converter::builders;
use crate::ids;
use crate::json::{self, Json, JsonModel, Object};
use crate::text;

verus! {

// ── Entries ─────────────────────────────────────────────────────────────────

/// The name and the arguments that an entry of a `tool_calls` list gives.
pub open spec fn entry_name(entry: JsonModel) -> Option<Seq<char>> {
    match entry.field_of_field("function"@, "name"@) {
        Some(n) => n.str(),
        None => None,
    }
}

pub open spec fn entry_arguments(entry: JsonModel) -> Seq<char> {
    match entry.field_of_field("function"@, "arguments"@) {
        Some(a) => json::or_empty(a.str()),
        None => seq![],
    }
}

/// Whether an entry starts a new tool call. Numbers decide where both have one; otherwise an
/// entry with a name starts one once the current call has arguments.
pub open spec fn starts_new(g: Gathered, index: Option<u64>, has_name: bool) -> bool {
    match g.current {
        None => true,
        Some(cur) => match (g.index, index) {
            (Some(a), Some(b)) => a != b,
            _ => has_name && cur.arguments.len() > 0,
        },
    }
}

/// Whether an entry can be given an identity.
pub open spec fn lacks_identity(entry: JsonModel) -> bool {
    (entry is Object || entry is Null) && entry.field("id"@) is None
}

/// The entry with an identity and its kind.
pub open spec fn with_identity(entry: JsonModel, id: Seq<char>) -> JsonModel {
    let fields = match entry {
        JsonModel::Object(m) => m,
        _ => json::nothing(),
    };
    JsonModel::Object(
        fields.insert("id"@, JsonModel::Str(id)).insert("type"@, JsonModel::Str("function"@)),
    )
}

/// The identity of the call that an entry starts.
pub open spec fn identity_of(entry: JsonModel, fresh: Seq<char>) -> Seq<char> {
    match entry.str_at("id"@) {
        Some(id) => id,
        None => tool_calls::short_id("call_"@, fresh),
    }
}

/// What an entry does: where it starts a call and has no identity it gets one, and its
/// arguments go to the current call.
pub open spec fn on_entry(g: Gathered, entry: JsonModel, fresh: Seq<char>) -> (Gathered, JsonModel) {
    let name = entry_name(entry);
    let index = entry.unsigned_at("index"@);
    let is_new = starts_new(g, index, name is Some);
    let id = identity_of(entry, fresh);
    let g1 = if is_new {
        Gathered {
            calls: tool_calls::all_calls(g),
            current: Some(tool_calls::started(id, json::or_empty(name))),
            index,
            ..g
        }
    } else {
        g
    };
    let g2 = Gathered {
        current: match g1.current {
            Some(c) => Some(
                CallModel { arguments: c.arguments + entry_arguments(entry), ..c },
            ),
            None => None,
        },
        ..g1
    };
    (
        g2,
        if is_new && lacks_identity(entry) {
            with_identity(entry, id)
        } else {
            entry
        },
    )
}

pub open spec fn on_entries(g: Gathered, entries: Seq<JsonModel>, fresh: Seq<Seq<char>>) -> (
    Gathered,
    Seq<JsonModel>,
)
    decreases entries.len(),
{
    if entries.len() == 0 {
        (g, seq![])
    } else {
        let (g1, out) = on_entries(g, entries.drop_last(), fresh);
        let (g2, e) = on_entry(g1, entries.last(), fresh[entries.len() - 1]);
        (g2, out.push(e))
    }
}

/// The entries that a chunk carries.
pub open spec fn chunk_entries(v: JsonModel) -> Option<Seq<JsonModel>> {
    match v.array_at("choices"@) {
        Some(choices) => if choices.len() > 0 {
            match choices[0].field("delta"@) {
                Some(delta) => delta.array_at("tool_calls"@),
                None => None,
            }
        } else {
            None
        },
        None => None,
    }
}

pub open spec fn entries_of(v: JsonModel) -> Seq<JsonModel> {
    match chunk_entries(v) {
        Some(e) => e,
        None => seq![],
    }
}

/// The fields of an object, with one of them set.
pub open spec fn set_field(v: JsonModel, key: Seq<char>, value: JsonModel) -> JsonModel {
    match v {
        JsonModel::Object(m) => JsonModel::Object(m.insert(key, value)),
        other => other,
    }
}

/// The chunk with other entries.
pub open spec fn with_entries(v: JsonModel, entries: Seq<JsonModel>) -> JsonModel {
    let choices = v.array_at("choices"@)->Some_0;
    let delta = set_field(
        choices[0].field("delta"@)->Some_0,
        "tool_calls"@,
        JsonModel::Array(entries),
    );
    set_field(
        v,
        "choices"@,
        JsonModel::Array(choices.update(0, set_field(choices[0], "delta"@, delta))),
    )
}

/// What a chunk does, and what is sent on for it if that is not the chunk itself.
pub open spec fn on_chunk(g: Gathered, v: JsonModel, fresh: Seq<Seq<char>>) -> (
    Gathered,
    Option<JsonModel>,
) {
    let (g2, entries) = on_entries(g, entries_of(v), fresh);
    (
        g2,
        if entries == entries_of(v) {
            None
        } else {
            Some(with_entries(v, entries))
        },
    )
}

/// The data of a line, which may be empty or mark the end.
pub open spec fn raw_data(line: Seq<char>) -> Seq<char> {
    text::trim(text::without_prefix(line, "data: "@))
}

/// What is sent on for a line: the line itself, unless a tool call got an identity.
pub open spec fn forwarded(line: Seq<char>, changed: Option<JsonModel>) -> Seq<char> {
    builders::data_frame(
        match changed {
            Some(v) => json::json_text(v),
            None => raw_data(line),
        },
    )
}

/// A worker's answer on its way to an OpenAI client.
pub struct ChatTurn {
    full_response: String,
    tool_calls: Vec<ToolCall>,
    current_tool_call: Option<ToolCall>,
    current_tool_index: Option<u64>,
}

impl View for ChatTurn {
    type V = Gathered;

    closed spec fn view(&self) -> Gathered {
        tool_calls::gathered(
            self.full_response,
            self.tool_calls@,
            self.current_tool_call,
            self.current_tool_index,
        )
    }
}

pub open spec fn nothing_gathered() -> Gathered {
    Gathered { text: seq![], calls: seq![], current: None, index: None }
}

fn with_id(entry: &Json, id: &str) -> (r: Json)
    ensures
        r@ == with_identity(entry@, id@),
{
    let fields = match entry {
        Json::Object(o) => o.dup(),
        _ => Object::new(),
    };
    Json::Object(fields.with("id", Json::text(id)).with("type", Json::text("function")))
}

fn name_of<'a>(entry: &'a Json) -> (r: Option<&'a str>)
    ensures
        json::opt_str_ref(r) == entry_name(entry@),
{
    match entry.get_in("function", "name") {
        Some(n) => n.as_str(),
        None => None,
    }
}

fn set(v: &Json, key: &str, value: Json) -> (r: Json)
    ensures
        r@ == set_field(v@, key@, value@),
{
    match v {
        Json::Object(o) => Json::Object(o.dup().with(key, value)),
        other => other.dup(),
    }
}

fn entries_in(v: &Json) -> (r: Option<&Vec<Json>>)
    ensures
        json::opt_array_ref(r) == chunk_entries(v@),
{
    match v.array_at("choices") {
        Some(choices) => {
            proof {
                json::models_at(choices@);
            }
            if choices.len() > 0 {
                match choices[0].get("delta") {
                    Some(delta) => delta.array_at("tool_calls"),
                    None => None,
                }
            } else {
                None
            }
        },
        None => None,
    }
}

fn replace_entries(v: &Json, entries: Vec<Json>) -> (r: Json)
    requires
        chunk_entries(v@) is Some,
    ensures
        r@ == with_entries(v@, json::models(entries@)),
{
    match v.array_at("choices") {
        Some(choices) => {
            proof {
                json::models_at(choices@);
            }
            match choices[0].get("delta") {
                Some(delta) => {
                    let new_delta = set(delta, "tool_calls", Json::Array(entries));
                    let first = set(&choices[0], "delta", new_delta);
                    let mut list: Vec<Json> = Vec::new();
                    let ghost all = json::models(choices@);
                    let ghost changed = all.update(0, first@);
                    proof {
                        json::models_push(list@, first);
                        assert(json::models(list@.push(first)) =~= changed.take(1));
                    }
                    list.push(first);
                    let mut i: usize = 1;
                    while i < choices.len()
                        invariant
                            1 <= i <= choices.len(),
                            all == json::models(choices@),
                            all.len() == choices.len(),
                            changed.len() == all.len(),
                            forall|k: int| 1 <= k < all.len() ==> changed[k] == all[k],
                            json::models(list@) == changed.take(i as int),
                        decreases choices.len() - i,
                    {
                        let item = choices[i].dup();
                        proof {
                            json::models_at(choices@);
                            json::models_push(list@, item);
                            assert(changed.take(i + 1) =~= changed.take(i as int).push(item@));
                        }
                        list.push(item);
                        i = i + 1;
                    }
                    assert(changed.take(all.len() as int) =~= changed);
                    set(v, "choices", Json::Array(list))
                },
                None => v.dup(),
            }
        },
        None => v.dup(),
    }
}

impl ChatTurn {
    pub fn new() -> (r: ChatTurn)
        ensures
            r@ == nothing_gathered(),
    {
        let r = ChatTurn {
            full_response: String::new(),
            tool_calls: Vec::new(),
            current_tool_call: None,
            current_tool_index: None,
        };
        assert(r@ =~= nothing_gathered()) by {
            assert(protocol::call_models(r.tool_calls@) =~= seq![]);
        }
        r
    }

    /// Takes an entry in; returns the entry to send on if that is not the entry itself.
    fn take_entry(&mut self, entry: &Json, fresh: &str) -> (r: Option<Json>)
        requires
            ids::is_simple_uuid(fresh@),
        ensures
            ({
                let (g2, e) = on_entry(old(self)@, entry@, fresh@);
                final(self)@ == g2 && e == (match r {
                    Some(j) => j@,
                    None => entry@,
                }) && (r is Some <==> e != entry@)
            }),
    {
        let ghost g = self@;
        let name = name_of(entry);
        let index = entry.u64_at("index");
        let has_name = name.is_some();
        let is_new = match &self.current_tool_call {
            None => true,
            Some(cur) => match (self.current_tool_index, index) {
                (Some(a), Some(b)) => a != b,
                _ => has_name && !cur.function.arguments.as_str().is_empty(),
            },
        };
        assert(is_new == starts_new(g, index, has_name));
        let mut changed: Option<Json> = None;
        if is_new {
            match self.current_tool_call.take() {
                Some(prev) => {
                    proof {
                        protocol::call_models_push(self.tool_calls@, prev);
                    }
                    self.tool_calls.push(prev);
                },
                None => {},
            }
            self.current_tool_index = index;
            let id = match entry.str_at("id") {
                Some(id) => text::owned(id),
                None => tool_calls::short_id_of("call_", fresh),
            };
            assert(id@ == identity_of(entry@, fresh@));
            let plain = match entry {
                Json::Object(_) => true,
                Json::Null => true,
                _ => false,
            };
            if plain && entry.get("id").is_none() {
                changed = Some(with_id(entry, id.as_str()));
                proof {
                    let e = with_identity(entry@, id@);
                    reveal_strlit("id");
                    reveal_strlit("type");
                    assert("id"@.len() == 2 && "type"@.len() == 4);
                    assert(e.field("id"@) is Some);
                    assert(e != entry@);
                }
            }
            let name_text = match name {
                Some(n) => text::owned(n),
                None => String::new(),
            };
            let call = ToolCall {
                id,
                call_type: text::owned("function"),
                function: ToolCallFunction { name: name_text, arguments: String::new() },
            };
            assert(call@ =~= tool_calls::started(id@, json::or_empty(entry_name(entry@))));
            self.current_tool_call = Some(call);
        }
        let args = match entry.get_in("function", "arguments") {
            Some(a) => match a.as_str() {
                Some(t) => text::owned(t),
                None => String::new(),
            },
            None => String::new(),
        };
        assert(args@ =~= entry_arguments(entry@));
        match self.current_tool_call.take() {
            Some(cur) => {
                let mut arguments = cur.function.arguments;
                arguments.append(args.as_str());
                self.current_tool_call = Some(
                    ToolCall {
                        id: cur.id,
                        call_type: cur.call_type,
                        function: ToolCallFunction { name: cur.function.name, arguments },
                    },
                );
            },
            None => {},
        }
        assert(self@ =~= on_entry(g, entry@, fresh@).0);
        changed
    }

    /// Takes a parsed chunk in; `fresh[i]` is for the identity of the tool call that entry `i`
    /// may start. Returns what is to be sent on if that is not the chunk itself.
    pub fn take_value(&mut self, v: &Json, fresh: &Vec<String>) -> (r: Option<Json>)
        requires
            fresh@.len() >= entries_of(v@).len(),
            forall|i: int| 0 <= i < fresh@.len() ==> ids::is_simple_uuid(#[trigger] fresh@[i]@),
        ensures
            (final(self)@, json::opt_model(r)) == on_chunk(old(self)@, v@, text::texts(fresh@)),
    {
        let ghost g = self@;
        let ghost names = text::texts(fresh@);
        let entries = match entries_in(v) {
            Some(e) => e,
            None => {
                assert(entries_of(v@) =~= seq![]);
                return None;
            },
        };
        let ghost all = json::models(entries@);
        proof {
            json::models_at(entries@);
        }
        let mut out: Vec<Json> = Vec::new();
        let mut modified: bool = false;
        let mut i: usize = 0;
        assert(json::models(out@) =~= all.take(0));
        while i < entries.len()
            invariant
                i <= entries.len(),
                entries.len() <= fresh.len(),
                all == json::models(entries@),
                all.len() == entries.len(),
                names == text::texts(fresh@),
                forall|k: int| 0 <= k < fresh@.len() ==> ids::is_simple_uuid(#[trigger] fresh@[k]@),
                self@ == on_entries(g, all.take(i as int), names).0,
                json::models(out@) == on_entries(g, all.take(i as int), names).1,
                json::models(out@).len() == i,
                modified <==> json::models(out@) != all.take(i as int),
            decreases entries.len() - i,
        {
            proof {
                json::models_at(entries@);
                assert(all.take(i + 1).drop_last() =~= all.take(i as int));
                assert(all.take(i + 1).last() == entries@[i as int]@);
                assert(all.take(i + 1) =~= all.take(i as int).push(all[i as int]));
            }
            let ghost before = json::models(out@);
            let item = match self.take_entry(&entries[i], fresh[i].as_str()) {
                Some(changed) => {
                    modified = true;
                    changed
                },
                None => entries[i].dup(),
            };
            proof {
                json::models_push(out@, item);
                let after = before.push(item@);
                assert(after[i as int] == item@);
                assert(all.take(i + 1)[i as int] == all[i as int]);
                if before != all.take(i as int) {
                    assert(after.drop_last() =~= before);
                    assert(after != all.take(i + 1));
                }
            }
            out.push(item);
            i = i + 1;
        }
        assert(all.take(all.len() as int) =~= all);
        if modified {
            Some(replace_entries(v, out))
        } else {
            None
        }
    }

    /// Takes a line of the worker's output in, and gives out the text for the client.
    pub fn on_chunk(&mut self, line: &str) -> (r: String)
        ensures
            match json::json_parse(raw_data(line@)) {
                None => final(self)@ == old(self)@ && r@ == forwarded(line@, None),
                Some(v) => exists|fresh: Seq<Seq<char>>|
                    #[trigger] ids::are_uuids(fresh, entries_of(v).len()) && ({
                        let g = Gathered {
                            text: old(self)@.text + tool_calls::delta_content(v),
                            ..old(self)@
                        };
                        final(self)@ == on_chunk(g, v, fresh).0 && r@ == forwarded(
                            line@,
                            on_chunk(g, v, fresh).1,
                        )
                    }),
            },
    {
        let rest = text::drop_prefix(line, "data: ");
        let data = text::trimmed(rest.as_str());
        let mut changed: Option<Json> = None;
        match json::parse(data.as_str()) {
            Some(v) => {
                let content = tool_calls::content_of_delta(&v);
                self.full_response.append(content.as_str());
                let ghost g = Gathered {
                    text: old(self)@.text + tool_calls::delta_content(v@),
                    ..old(self)@
                };
                assert(self@ =~= g);
                let n: usize = match entries_in(&v) {
                    Some(entries) => {
                        proof {
                            json::models_at(entries@);
                        }
                        entries.len()
                    },
                    None => 0,
                };
                let fresh = ids::fresh_ids(n);
                proof {
                    assert forall|i: int| 0 <= i < fresh@.len() implies ids::is_simple_uuid(
                        #[trigger] fresh@[i]@,
                    ) by {
                        assert(ids::is_simple_uuid(text::texts(fresh@)[i]));
                    }
                    assert(ids::are_uuids(text::texts(fresh@), entries_of(v@).len()));
                }
                changed = self.take_value(&v, &fresh);
            },
            None => {},
        }
        let body = match &changed {
            Some(v) => json::render(v),
            None => data,
        };
        text::concat3("data: ", body.as_str(), "\n\n")
    }
}

// ── The end ─────────────────────────────────────────────────────────────────

/// The chunk that says why an answer ended.
pub open spec fn final_chunk(
    request_id: Seq<char>,
    model: Seq<char>,
    reason: Seq<char>,
) -> Map<Seq<char>, JsonModel> {
    json::nothing().insert("id"@, JsonModel::Str("chatcmpl-"@ + request_id)).insert(
        "object"@,
        JsonModel::Str("chat.completion.chunk"@),
    ).insert("model"@, JsonModel::Str(model)).insert(
        "choices"@,
        JsonModel::Array(
            seq![
                JsonModel::Object(
                    json::nothing().insert("index"@, json::number(0)).insert(
                        "delta"@,
                        JsonModel::Object(json::nothing()),
                    ).insert("finish_reason"@, JsonModel::Str(reason)),
                ),
            ],
        ),
    )
}

fn final_chunk_of(request_id: &str, model: &str, reason: &str) -> (r: Object)
    ensures
        r@ == final_chunk(request_id@, model@, reason@),
{
    let choice = Object::new().with("index", Json::number(0)).with(
        "delta",
        Json::Object(Object::new()),
    ).with("finish_reason", Json::text(reason));
    Object::new().with("id", Json::Str(text::concat("chatcmpl-", request_id))).with(
        "object",
        Json::text("chat.completion.chunk"),
    ).with("model", Json::text(model)).with("choices", builders::one(Json::Object(choice)))
}

/// The text for the end of the worker's answer.
pub fn done_text(request_id: &str, model: &str, done: &DoneMessage) -> (r: String)
    ensures
        r@ == builders::data_frame(
            json::json_text(
                JsonModel::Object(
                    final_chunk(request_id@, model@, protocol::finish_word(done.finish_reason)),
                ),
            ),
        ) + "data: [DONE]\n\n"@,
{
    let chunk = final_chunk_of(request_id, model, done.finish_reason.as_str());
    let mut out = builders::sse_event(&Json::Object(chunk));
    out.append("data: [DONE]\n\n");
    out
}

/// The text for a worker that has gone silent: the answer is marked as cut off.
pub fn timeout_text(request_id: &str, model: &str) -> (r: String)
    ensures
        r@ == builders::data_frame(
            json::json_text(
                JsonModel::Object(
                    final_chunk(request_id@, model@, "length"@).insert(
                        "error"@,
                        JsonModel::Str("worker_idle_timeout"@),
                    ),
                ),
            ),
        ) + "data: [DONE]\n\n"@,
{
    let chunk = final_chunk_of(request_id, model, "length").with(
        "error",
        Json::text("worker_idle_timeout"),
    );
    let mut out = builders::sse_event(&Json::Object(chunk));
    out.append("data: [DONE]\n\n");
    out
}

// ── Laws ────────────────────────────────────────────────────────────────────

/// The first entry of a stream that can have an identity is sent on with one, whatever the
/// worker left out.
pub proof fn first_call_gets_an_identity(entry: JsonModel, fresh: Seq<char>)
    requires
        entry is Object || entry is Null,
    ensures
        on_entry(nothing_gathered(), entry, fresh).1.field("id"@) is Some,
{
    reveal_strlit("id");
    reveal_strlit("type");
    assert("id"@.len() == 2 && "type"@.len() == 4);
}

/// No entry is dropped or added.
pub proof fn entries_keep_their_number(g: Gathered, entries: Seq<JsonModel>, fresh: Seq<Seq<char>>)
    ensures
        on_entries(g, entries, fresh).1.len() == entries.len(),
    decreases entries.len(),
{
    if entries.len() > 0 {
        entries_keep_their_number(g, entries.drop_last(), fresh);
    }
}

} // verus!
