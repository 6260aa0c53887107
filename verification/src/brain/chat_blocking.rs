//! A worker's answer gathered for an OpenAI client that waits for the whole of it.
use vstd::prelude::*;

use crate::brain::messages;
use crate::brain::protocol::{self, CallModel, DoneMessage, FinishReason, ToolCall, ToolCallFunction};
use crate::brain::tool_calls;
use crate::converter::responses;
use crate::ids;
use crate::json::{self, Json, JsonModel};
use crate::text;

verus! {

// ── The answer ──────────────────────────────────────────────────────────────

/// The answer to a chat request.
pub struct ChatResponse {
    pub id: String,
    pub object: String,
    pub created: u64,
    pub model: String,
    pub choices: Vec<Choice>,
    pub usage: Usage,
}

pub struct Choice {
    pub index: u32,
    pub message: AssistantMessage,
    pub finish_reason: String,
}

pub struct AssistantMessage {
    pub role: String,
    pub content: Option<String>,
    pub tool_calls: Option<Vec<ToolCall>>,
}

#[derive(Clone, Copy, PartialEq, Eq, Structural)]
pub struct Usage {
    pub prompt_tokens: u32,
    pub completion_tokens: u32,
    pub total_tokens: u32,
}

/// The list of models.
pub struct ModelsResponse {
    pub object: String,
    pub data: Vec<ModelObject>,
}

pub struct ModelObject {
    pub id: String,
    pub object: String,
    pub created: u64,
    pub owned_by: String,
}

pub open spec fn is_model_object(o: ModelObject, id: Seq<char>, created: u64) -> bool {
    o.id@ == id && o.object@ == "model"@ && o.created == created && o.owned_by@ == "brain"@
}

/// The list of models for these names.
pub fn models_response(model_ids: &Vec<String>, created: u64) -> (r: ModelsResponse)
    ensures
        r.object@ == "list"@,
        r.data@.len() == model_ids@.len(),
        forall|i: int|
            0 <= i < model_ids@.len() ==> is_model_object(
                #[trigger] r.data@[i],
                model_ids@[i]@,
                created,
            ),
{
    let mut data: Vec<ModelObject> = Vec::new();
    let mut i: usize = 0;
    while i < model_ids.len()
        invariant
            i <= model_ids.len(),
            data@.len() == i,
            forall|k: int|
                0 <= k < i ==> is_model_object(#[trigger] data@[k], model_ids@[k]@, created),
        decreases model_ids.len() - i,
    {
        data.push(
            ModelObject {
                id: model_ids[i].clone(),
                object: text::owned("model"),
                created,
                owned_by: text::owned("brain"),
            },
        );
        i = i + 1;
    }
    ModelsResponse { object: text::owned("list"), data }
}

// ── Gathering ───────────────────────────────────────────────────────────────

/// What has come so far: the text, the tool calls that are complete, and that in progress.
#[verifier::ext_equal]
pub struct Collected {
    pub text: Seq<char>,
    pub calls: Seq<CallModel>,
    pub current: Option<CallModel>,
}

pub open spec fn nothing_collected() -> Collected {
    Collected { text: seq![], calls: seq![], current: None }
}

/// All tool calls, that in progress last.
pub open spec fn all_calls(c: Collected) -> Seq<CallModel> {
    match c.current {
        Some(call) => c.calls.push(call),
        None => c.calls,
    }
}

/// What an entry of a `tool_calls` list does: a name starts a call, and arguments go to the call
/// in progress.
pub open spec fn on_entry(c: Collected, entry: JsonModel, fresh: Seq<char>) -> Collected {
    match entry.field("function"@) {
        Some(f) => {
            let c1 = match f.str_at("name"@) {
                Some(name) => Collected {
                    calls: all_calls(c),
                    current: Some(
                        tool_calls::started(tool_calls::short_id("call_"@, fresh), name),
                    ),
                    ..c
                },
                None => c,
            };
            Collected {
                current: match c1.current {
                    Some(call) => Some(
                        CallModel {
                            arguments: call.arguments + json::or_empty(f.str_at("arguments"@)),
                            ..call
                        },
                    ),
                    None => None,
                },
                ..c1
            }
        },
        None => c,
    }
}

pub open spec fn on_entries(c: Collected, entries: Seq<JsonModel>, fresh: Seq<Seq<char>>) -> Collected
    decreases entries.len(),
{
    if entries.len() == 0 {
        c
    } else {
        on_entry(
            on_entries(c, entries.drop_last(), fresh),
            entries.last(),
            fresh[entries.len() - 1],
        )
    }
}

/// What a parsed piece of the worker's output does.
pub open spec fn on_value(c: Collected, v: JsonModel, fresh: Seq<Seq<char>>) -> Collected {
    on_entries(
        Collected { text: c.text + json::or_empty(tool_calls::new_text(v)), ..c },
        tool_calls::entries_of(v),
        fresh,
    )
}

/// What a line of the worker's output does; one without JSON does nothing.
pub open spec fn on_line(c: Collected, line: Seq<char>, fresh: Seq<Seq<char>>) -> Collected {
    match tool_calls::line_data(line) {
        Some(data) => match json::json_parse(data) {
            Some(v) => on_value(c, v, fresh),
            None => c,
        },
        None => c,
    }
}

/// Why the answer ended, and what it took; what is told of a worker that never said so.
pub open spec fn ending(done: Option<DoneMessage>) -> (FinishReason, u32, u32) {
    match done {
        Some(d) => (d.finish_reason, d.prompt_tokens, d.comp_tokens),
        None => (FinishReason::Stop, 0, 0),
    }
}

/// The content and the tool calls of the answer: calls that the worker made as such take the
/// place of those that its text holds.
pub open spec fn answered(
    c: Collected,
    parsed: (Option<Seq<char>>, Option<Seq<CallModel>>),
) -> (Option<Seq<char>>, Option<Seq<CallModel>>) {
    (
        parsed.0,
        if all_calls(c).len() > 0 {
            Some(all_calls(c))
        } else {
            parsed.1
        },
    )
}

/// The answer for the client.
pub open spec fn is_answer(
    r: ChatResponse,
    answer: (Option<Seq<char>>, Option<Seq<CallModel>>),
    done: Option<DoneMessage>,
    request_id: Seq<char>,
    model: Seq<char>,
    created: u64,
) -> bool {
    let (reason, prompt, completion) = ending(done);
    &&& r.id@ == "chatcmpl-"@ + request_id
    &&& r.object@ == "chat.completion"@
    &&& r.created == created
    &&& r.model@ == model
    &&& r.choices@.len() == 1
    &&& r.choices@[0].index == 0
    &&& r.choices@[0].message.role@ == "assistant"@
    &&& text::opt_text(r.choices@[0].message.content) == answer.0
    &&& protocol::opt_call_models(r.choices@[0].message.tool_calls) == answer.1
    &&& r.choices@[0].finish_reason@ == protocol::finish_word(
        if answer.1 is Some {
            FinishReason::ToolCalls
        } else {
            reason
        },
    )
    &&& r.usage == (Usage {
        prompt_tokens: prompt,
        completion_tokens: completion,
        total_tokens: responses::low32(prompt + completion),
    })
}

/// A worker's answer on its way to an OpenAI client that waits for the whole of it.
pub struct ChatAnswer {
    full_response: String,
    tool_calls: Vec<ToolCall>,
    current_tool_call: Option<ToolCall>,
}

impl View for ChatAnswer {
    type V = Collected;

    closed spec fn view(&self) -> Collected {
        Collected {
            text: self.full_response@,
            calls: protocol::call_models(self.tool_calls@),
            current: messages::opt_call(self.current_tool_call),
        }
    }
}

/// The sum of the tokens, in 32 bits.
fn total(prompt: u32, completion: u32) -> (r: u32)
    ensures
        r == responses::low32(prompt + completion),
{
    prompt.wrapping_add(completion)
}

impl ChatAnswer {
    pub fn new() -> (r: ChatAnswer)
        ensures
            r@ == nothing_collected(),
    {
        let r = ChatAnswer {
            full_response: String::new(),
            tool_calls: Vec::new(),
            current_tool_call: None,
        };
        assert(r@ =~= nothing_collected()) by {
            assert(protocol::call_models(r.tool_calls@) =~= seq![]);
        }
        r
    }

    fn close_call(&mut self)
        ensures
            final(self)@ == (Collected {
                calls: all_calls(old(self)@),
                current: None,
                ..old(self)@
            }),
    {
        match self.current_tool_call.take() {
            Some(prev) => {
                proof {
                    protocol::call_models_push(self.tool_calls@, prev);
                }
                self.tool_calls.push(prev);
            },
            None => {},
        }
    }

    fn take_entry(&mut self, entry: &Json, fresh: &str)
        requires
            ids::is_simple_uuid(fresh@),
        ensures
            final(self)@ == on_entry(old(self)@, entry@, fresh@),
    {
        let ghost c = self@;
        let function = match entry.get("function") {
            Some(f) => f,
            None => return ,
        };
        match function.str_at("name") {
            Some(name) => {
                self.close_call();
                let call = ToolCall {
                    id: tool_calls::short_id_of("call_", fresh),
                    call_type: text::owned("function"),
                    function: ToolCallFunction {
                        name: text::owned(name),
                        arguments: String::new(),
                    },
                };
                assert(call@ =~= tool_calls::started(
                    tool_calls::short_id("call_"@, fresh@),
                    name@,
                ));
                self.current_tool_call = Some(call);
            },
            None => {},
        }
        let args = match function.str_at("arguments") {
            Some(a) => text::owned(a),
            None => String::new(),
        };
        assert(args@ =~= json::or_empty(function@.str_at("arguments"@)));
        match self.current_tool_call.take() {
            Some(cur) => {
                let mut arguments = cur.function.arguments;
                arguments.append(args.as_str());
                self.current_tool_call = Some(
                    ToolCall {
                        id: cur.id,
                        call_type: cur.call_type,
                        function: ToolCallFunction { name: cur.function.name, arguments },
                    },
                );
            },
            None => {},
        }
        assert(self@ =~= on_entry(c, entry@, fresh@));
    }

    /// Takes a parsed piece in; `fresh[i]` is for the identity of the tool call that entry `i`
    /// may start.
    pub fn take_value(&mut self, v: &Json, fresh: &Vec<String>)
        requires
            fresh@.len() >= tool_calls::entries_of(v@).len(),
            forall|i: int| 0 <= i < fresh@.len() ==> ids::is_simple_uuid(#[trigger] fresh@[i]@),
        ensures
            final(self)@ == on_value(old(self)@, v@, text::texts(fresh@)),
    {
        let ghost c = self@;
        let ghost names = text::texts(fresh@);
        let delta = match tool_calls::delta_of(v) {
            Some(d) => d,
            None => {
                assert(c.text + Seq::<char>::empty() =~= c.text);
                return ;
            },
        };
        match delta.str_at("content") {
            Some(content) => {
                self.full_response.append(content);
                assert(self@.text =~= c.text + json::or_empty(tool_calls::new_text(v@)));
            },
            None => {
                assert(self@.text =~= c.text + json::or_empty(tool_calls::new_text(v@)));
            },
        }
        let ghost c1 = self@;
        match delta.array_at("tool_calls") {
            Some(entries) => {
                let ghost all = json::models(entries@);
                proof {
                    json::models_at(entries@);
                }
                let mut i: usize = 0;
                while i < entries.len()
                    invariant
                        i <= entries.len(),
                        entries.len() <= fresh.len(),
                        all == json::models(entries@),
                        all.len() == entries.len(),
                        names == text::texts(fresh@),
                        forall|k: int|
                            0 <= k < fresh@.len() ==> ids::is_simple_uuid(#[trigger] fresh@[k]@),
                        self@ == on_entries(c1, all.take(i as int), names),
                    decreases entries.len() - i,
                {
                    proof {
                        json::models_at(entries@);
                        assert(all.take(i + 1).drop_last() =~= all.take(i as int));
                        assert(all.take(i + 1).last() == entries@[i as int]@);
                    }
                    self.take_entry(&entries[i], fresh[i].as_str());
                    i = i + 1;
                }
                assert(all.take(all.len() as int) =~= all);
            },
            None => {},
        }
    }

    /// Takes a line of the worker's output in.
    pub fn on_chunk(&mut self, line: &str)
        ensures
            exists|fresh: Seq<Seq<char>>|
                #[trigger] tool_calls::fresh_for_line(line@, fresh) && final(self)@ == on_line(
                    old(self)@,
                    line@,
                    fresh,
                ),
    {
        let data = match tool_calls::data_of_line(line) {
            Some(d) => d,
            None => {
                assert(tool_calls::fresh_for_line(line@, seq![]));
                return ;
            },
        };
        match json::parse(data.as_str()) {
            Some(v) => {
                let fresh = ids::fresh_ids(tool_calls::entry_count(&v));
                proof {
                    assert forall|i: int| 0 <= i < fresh@.len() implies ids::is_simple_uuid(
                        #[trigger] fresh@[i]@,
                    ) by {
                        assert(ids::is_simple_uuid(text::texts(fresh@)[i]));
                    }
                    assert(tool_calls::fresh_for_line(line@, text::texts(fresh@)));
                }
                self.take_value(&v, &fresh);
            },
            None => {
                assert(tool_calls::fresh_for_line(line@, seq![]));
            },
        }
    }

    /// The answer, once its text has been looked through for tool calls.
    pub fn finish_with(
        &mut self,
        parsed: (Option<String>, Option<Vec<ToolCall>>),
        done: &Option<DoneMessage>,
        request_id: &str,
        model: &str,
        created: u64,
    ) -> (r: ChatResponse)
        ensures
            is_answer(
                r,
                answered(
                    old(self)@,
                    (text::opt_text(parsed.0), protocol::opt_call_models(parsed.1)),
                ),
                *done,
                request_id@,
                model@,
                created,
            ),
            final(self)@ == (Collected {
                calls: all_calls(old(self)@),
                current: None,
                ..old(self)@
            }),
    {
        let ghost c = self@;
        self.close_call();
        assert(protocol::call_models(self.tool_calls@).len() == self.tool_calls@.len());
        let tool_calls = if self.tool_calls.len() > 0 {
            Some(protocol::dup_calls(&self.tool_calls))
        } else {
            parsed.1
        };
        let (reason, prompt, completion) = match done {
            Some(d) => (d.finish_reason, d.prompt_tokens, d.comp_tokens),
            None => (FinishReason::Stop, 0, 0),
        };
        let actual = if tool_calls.is_some() {
            FinishReason::ToolCalls
        } else {
            reason
        };
        let mut choices: Vec<Choice> = Vec::new();
        choices.push(
            Choice {
                index: 0,
                message: AssistantMessage {
                    role: text::owned("assistant"),
                    content: parsed.0,
                    tool_calls,
                },
                finish_reason: text::owned(actual.as_str()),
            },
        );
        ChatResponse {
            id: text::concat("chatcmpl-", request_id),
            object: text::owned("chat.completion"),
            created,
            model: text::owned(model),
            choices,
            usage: Usage {
                prompt_tokens: prompt,
                completion_tokens: completion,
                total_tokens: total(prompt, completion),
            },
        }
    }

    /// The answer: `done` is what the worker says at the end, unless it is gone.
    pub fn finish(
        &mut self,
        done: &Option<DoneMessage>,
        request_id: &str,
        model: &str,
        created: u64,
    ) -> (r: ChatResponse)
        ensures
            exists|id: Seq<char>|
                #[trigger] tool_calls::is_short_id("call_"@, id) && is_answer(
                    r,
                    answered(
                        old(self)@,
                        tool_calls::answer_in(
                            old(self)@.text,
                            json::json_parse(old(self)@.text),
                            tool_calls::tag_parse(old(self)@.text),
                            id,
                        ),
                    ),
                    *done,
                    request_id@,
                    model@,
                    created,
                ),
    {
        let parsed = tool_calls::parse_tool_calls_from_response(self.full_response.as_str());
        let ghost id = choose|id: Seq<char>|
            #[trigger] tool_calls::is_short_id("call_"@, id) && (
                text::opt_text(parsed.0),
                protocol::opt_call_models(parsed.1),
            ) == tool_calls::answer_in(
                self@.text,
                json::json_parse(self@.text),
                tool_calls::tag_parse(self@.text),
                id,
            );
        assert(tool_calls::is_short_id("call_"@, id));
        self.finish_with(parsed, done, request_id, model, created)
    }
}

// ── Laws ────────────────────────────────────────────────────────────────────

/// An answer says that it ended with tool calls exactly if it has some.
pub proof fn finish_reason_tells_of_calls(
    r: ChatResponse,
    answer: (Option<Seq<char>>, Option<Seq<CallModel>>),
    done: DoneMessage,
    request_id: Seq<char>,
    model: Seq<char>,
    created: u64,
)
    requires
        is_answer(r, answer, Some(done), request_id, model, created),
        done.finish_reason != FinishReason::ToolCalls,
    ensures
        r.choices@[0].finish_reason@ == "tool_calls"@ <==> r.choices@[0].message.tool_calls is Some,
{
    reveal_strlit("tool_calls");
    reveal_strlit("stop");
    reveal_strlit("length");
    reveal_strlit("content_filter");
    assert("tool_calls"@.len() == 10 && "stop"@.len() == 4 && "length"@.len() == 6
        && "content_filter"@.len() == 14);
}

/// Where the worker makes its calls as such, what its text looks like adds none.
pub proof fn echoed_calls_are_not_counted_twice(
    c: Collected,
    parsed: (Option<Seq<char>>, Option<Seq<CallModel>>),
)
    requires
        all_calls(c).len() > 0,
    ensures
        answered(c, parsed).1 == Some(all_calls(c)),
{
}

} // verus!
