//! A worker's answer gathered for an Anthropic client that waits for the whole of it.
use vstd::prelude::*;

use crate::brain::anthropic_stream;
use crate::brain::chat_blocking;
use crate::brain::chat_stream;
use crate::brain::protocol::{self, CallModel, DoneMessage, FinishReason, ToolCall};
use crate::brain::tool_calls::{self, Gathered};
use crate::converter::finish_reason;
use crate::converter::types::{
    self,
    AnthropicContentBlock,
    AnthropicResponse,
    AnthropicResponseModel,
    AnthropicUsage,
    BlockModel,
};
use crate::json::{self, Json, JsonModel, Object};
use crate::text;

verus! {

// ── The message ─────────────────────────────────────────────────────────────

pub open spec fn text_block(t: Seq<char>) -> BlockModel {
    BlockModel { kind: "text"@, text: Some(t), id: None, name: None, input: None }
}

/// The block for a tool call whose arguments parse to `parsed`; arguments that are no JSON
/// count as none.
pub open spec fn use_block(c: CallModel, parsed: Option<JsonModel>) -> BlockModel {
    BlockModel {
        kind: "tool_use"@,
        text: None,
        id: Some(c.id),
        name: Some(c.name),
        input: Some(
            match parsed {
                Some(v) => v,
                None => JsonModel::Object(json::nothing()),
            },
        ),
    }
}

pub open spec fn use_blocks(calls: Seq<CallModel>) -> Seq<BlockModel> {
    calls.map_values(|c: CallModel| use_block(c, json::json_parse(c.arguments)))
}

/// The whole message.
pub open spec fn message(
    request_id: Seq<char>,
    model: Seq<char>,
    content: Seq<BlockModel>,
    stop_reason: Seq<char>,
    usage: AnthropicUsage,
) -> AnthropicResponseModel {
    AnthropicResponseModel {
        id: "msg_"@ + request_id,
        kind: "message"@,
        role: "assistant"@,
        model,
        content,
        stop_reason: Some(stop_reason),
        stop_sequence: None,
        usage,
    }
}

/// The block for a tool call, once its arguments have been parsed.
pub fn tool_use_block(call: &ToolCall, parsed: Option<Json>) -> (r: AnthropicContentBlock)
    ensures
        r@ == use_block(call@, json::opt_model(parsed)),
{
    let input = match parsed {
        Some(v) => v,
        None => Json::Object(Object::new()),
    };
    AnthropicContentBlock {
        kind: text::owned("tool_use"),
        text: None,
        id: Some(call.id.clone()),
        name: Some(call.function.name.clone()),
        input: Some(input),
    }
}

/// Adds the block of each call.
pub fn push_use_blocks(out: &mut Vec<AnthropicContentBlock>, calls: &Vec<ToolCall>)
    ensures
        types::block_models(final(out)@) == types::block_models(old(out)@) + use_blocks(
            protocol::call_models(calls@),
        ),
{
    let ghost before = types::block_models(out@);
    let ghost all = use_blocks(protocol::call_models(calls@));
    let mut i: usize = 0;
    assert(before + all.take(0) =~= before);
    while i < calls.len()
        invariant
            i <= calls.len(),
            all == use_blocks(protocol::call_models(calls@)),
            types::block_models(out@) == before + all.take(i as int),
        decreases calls.len() - i,
    {
        let parsed = json::parse(calls[i].function.arguments.as_str());
        let block = tool_use_block(&calls[i], parsed);
        proof {
            types::block_models_push(out@, block);
            assert(all[i as int] == block@);
            assert(before + all.take(i + 1) =~= (before + all.take(i as int)).push(block@));
        }
        out.push(block);
        i = i + 1;
    }
    assert(all.take(all.len() as int) =~= all);
}

pub fn push_text_block(out: &mut Vec<AnthropicContentBlock>, t: &str)
    ensures
        types::block_models(final(out)@) == types::block_models(old(out)@).push(text_block(t@)),
{
    let block = AnthropicContentBlock {
        kind: text::owned("text"),
        text: Some(text::owned(t)),
        id: None,
        name: None,
        input: None,
    };
    proof {
        types::block_models_push(out@, block);
    }
    out.push(block);
}

/// Puts a message together.
pub fn message_of(
    request_id: &str,
    model: &str,
    content: Vec<AnthropicContentBlock>,
    stop_reason: String,
    usage: AnthropicUsage,
) -> (r: AnthropicResponse)
    ensures
        r@ == message(
            request_id@,
            model@,
            types::block_models(content@),
            stop_reason@,
            usage,
        ),
{
    AnthropicResponse {
        id: text::concat("msg_", request_id),
        kind: text::owned("message"),
        role: text::owned("assistant"),
        model: text::owned(model),
        content,
        stop_reason: Some(stop_reason),
        stop_sequence: None,
        usage,
    }
}

/// The stop reason of an answer with these calls.
pub fn stop_reason_for(calls: &Vec<ToolCall>, reason: FinishReason) -> (r: String)
    ensures
        r@ == anthropic_stream::stop_reason_with(protocol::call_models(calls@), reason),
{
    assert(protocol::call_models(calls@).len() == calls@.len());
    if calls.len() > 0 {
        text::owned("tool_use")
    } else {
        finish_reason::openai_finish_reason_to_anthropic_stop_reason(reason.as_str())
    }
}

// ── Gathering ───────────────────────────────────────────────────────────────

/// The tool calls that the worker made: the one in progress counts only if the worker said that
/// its answer is complete.
pub open spec fn made(g: Gathered, done: Option<DoneMessage>) -> Seq<CallModel> {
    if done is Some {
        tool_calls::all_calls(g)
    } else {
        g.calls
    }
}

/// The tool calls of the answer: where the worker made none, those that it wrote as text.
pub open spec fn counted(
    g: Gathered,
    done: Option<DoneMessage>,
    fallback: Option<Seq<CallModel>>,
) -> Seq<CallModel> {
    if made(g, done).len() > 0 {
        made(g, done)
    } else {
        match fallback {
            Some(calls) => calls,
            None => seq![],
        }
    }
}

/// The answer for the client: the tool calls, or else the text.
pub open spec fn answer(
    g: Gathered,
    done: Option<DoneMessage>,
    fallback: Option<Seq<CallModel>>,
    request_id: Seq<char>,
    model: Seq<char>,
) -> AnthropicResponseModel {
    let (reason, prompt, completion) = chat_blocking::ending(done);
    let calls = counted(g, done, fallback);
    message(
        request_id,
        model,
        if calls.len() > 0 {
            use_blocks(calls)
        } else {
            seq![text_block(g.text)]
        },
        anthropic_stream::stop_reason_with(calls, reason),
        anthropic_stream::usage(prompt, completion),
    )
}

/// A worker's answer on its way to an Anthropic client that waits for the whole of it.
pub struct AnthropicAnswer {
    full_text: String,
    tool_calls: Vec<ToolCall>,
    current_tool_call: Option<ToolCall>,
    current_tool_index: Option<u64>,
}

impl View for AnthropicAnswer {
    type V = Gathered;

    closed spec fn view(&self) -> Gathered {
        tool_calls::gathered(
            self.full_text,
            self.tool_calls@,
            self.current_tool_call,
            self.current_tool_index,
        )
    }
}

impl AnthropicAnswer {
    pub fn new() -> (r: AnthropicAnswer)
        ensures
            r@ == chat_stream::nothing_gathered(),
    {
        let r = AnthropicAnswer {
            full_text: String::new(),
            tool_calls: Vec::new(),
            current_tool_call: None,
            current_tool_index: None,
        };
        assert(r@ =~= chat_stream::nothing_gathered()) by {
            assert(protocol::call_models(r.tool_calls@) =~= seq![]);
        }
        r
    }

    /// Takes a line of the worker's output in.
    pub fn on_chunk(&mut self, line: &str)
        ensures
            exists|fresh: Seq<Seq<char>>|
                #[trigger] tool_calls::fresh_for_line(line@, fresh) && final(self)@
                    == tool_calls::on_line(old(self)@, line@, fresh).0,
    {
        let (_t, _e) = tool_calls::accumulate_delta(
            line,
            &mut self.full_text,
            &mut self.tool_calls,
            &mut self.current_tool_call,
            &mut self.current_tool_index,
        );
        let ghost fresh = choose|fresh: Seq<Seq<char>>|
            #[trigger] tool_calls::fresh_for_line(line@, fresh) && (
                self@,
                tool_calls::tool_event_models(_e@),
            ) == tool_calls::on_line(old(self)@, line@, fresh);
        assert(tool_calls::fresh_for_line(line@, fresh));
    }

    /// The text and the tool calls of the answer, once the worker is done.
    pub fn settle(&mut self) -> (r: (String, Vec<ToolCall>))
        ensures
            r.0@ == old(self)@.text,
            protocol::call_models(r.1@) == tool_calls::all_calls(old(self)@),
            final(self)@ == (Gathered {
                calls: tool_calls::all_calls(old(self)@),
                current: None,
                ..old(self)@
            }),
    {
        match self.current_tool_call.take() {
            Some(last) => {
                proof {
                    protocol::call_models_push(self.tool_calls@, last);
                }
                self.tool_calls.push(last);
            },
            None => {},
        }
        (self.full_text.clone(), protocol::dup_calls(&self.tool_calls))
    }

    /// The answer, with the tool calls that the text holds.
    pub fn finish_with(
        &mut self,
        done: &Option<DoneMessage>,
        fallback: Option<Vec<ToolCall>>,
        request_id: &str,
        model: &str,
    ) -> (r: AnthropicResponse)
        ensures
            r@ == answer(
                old(self)@,
                *done,
                protocol::opt_call_models(fallback),
                request_id@,
                model@,
            ),
    {
        let ghost g = self@;
        let (reason, prompt, completion) = match done {
            Some(d) => (d.finish_reason, d.prompt_tokens, d.comp_tokens),
            None => (FinishReason::Stop, 0, 0),
        };
        let own = if done.is_some() {
            self.settle().1
        } else {
            protocol::dup_calls(&self.tool_calls)
        };
        assert(protocol::call_models(own@) == made(g, *done));
        assert(protocol::call_models(own@).len() == own@.len());
        let calls = if own.len() > 0 {
            own
        } else {
            match fallback {
                Some(calls) => calls,
                None => own,
            }
        };
        assert(protocol::call_models(calls@) =~= counted(
            g,
            *done,
            protocol::opt_call_models(fallback),
        ));
        assert(protocol::call_models(calls@).len() == calls@.len());
        let mut content: Vec<AnthropicContentBlock> = Vec::new();
        assert(types::block_models(content@) =~= seq![]);
        if calls.len() > 0 {
            push_use_blocks(&mut content, &calls);
            assert(types::block_models(content@) =~= use_blocks(protocol::call_models(calls@)));
        } else {
            push_text_block(&mut content, self.full_text.as_str());
            assert(types::block_models(content@) =~= seq![text_block(g.text)]);
        }
        let stop_reason = stop_reason_for(&calls, reason);
        let usage = AnthropicUsage {
            input_tokens: prompt as u64,
            output_tokens: completion as u64,
            cache_creation_input_tokens: 0,
            cache_read_input_tokens: 0,
        };
        message_of(request_id, model, content, stop_reason, usage)
    }

    /// The answer: `done` is what the worker says at the end, unless it is gone. Where the worker
    /// made no tool calls, those that it wrote as text count.
    pub fn finish(&mut self, done: &Option<DoneMessage>, request_id: &str, model: &str) -> (r:
        AnthropicResponse)
        ensures
            exists|id: Seq<char>|
                #[trigger] tool_calls::is_short_id("toolu_"@, id) && r@ == answer(
                    old(self)@,
                    *done,
                    tool_calls::calls_in(
                        json::json_parse(old(self)@.text),
                        tool_calls::tag_parse(old(self)@.text),
                        id,
                    ),
                    request_id@,
                    model@,
                ),
    {
        let fallback = tool_calls::parse_tool_calls_from_text(self.full_text.as_str());
        self.finish_with(done, fallback, request_id, model)
    }
}

// ── Laws ────────────────────────────────────────────────────────────────────

/// The answer to a client that waits gives the same stop reason and the same usage as the stream
/// for one that does not.
pub proof fn waiting_and_streaming_agree(
    g: Gathered,
    done: DoneMessage,
    fallback: Option<Seq<CallModel>>,
    request_id: Seq<char>,
    model: Seq<char>,
    st: anthropic_stream::Turn,
)
    requires
        st.gathered == g,
    ensures
        ({
            let sent = anthropic_stream::on_done(
                st,
                done.finish_reason,
                done.prompt_tokens,
                done.comp_tokens,
                fallback,
            );
            let whole = answer(g, Some(done), fallback, request_id, model);
            sent.len() >= 2 && sent[sent.len() - 2] == (
            crate::converter::anthropic_events::EventModel::MessageDelta {
                stop_reason: whole.stop_reason,
                usage: whole.usage,
            })
        }),
{
}

} // verus!
