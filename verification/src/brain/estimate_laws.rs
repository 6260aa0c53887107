//! How large a prompt is taken to be.
use vstd::prelude::*;

use crate::brain::messages;
use crate::brain::plan;
use crate::brain::protocol::{self, CallModel, ContentModel, MsgModel, PartModel, ToolModel};
use crate::json;

verus! {

/// How many bytes a text has.
pub open spec fn utf8_size(s: Seq<char>) -> nat {
    vstd::utf8::encode_utf8(s).len()
}

pub open spec fn parts_bytes(ps: Seq<PartModel>) -> nat
    decreases ps.len(),
{
    if ps.len() == 0 {
        0
    } else {
        parts_bytes(ps.drop_last()) + match ps.last().text {
            Some(t) => utf8_size(t),
            None => 0,
        }
    }
}

pub open spec fn calls_bytes(cs: Seq<CallModel>) -> nat
    decreases cs.len(),
{
    if cs.len() == 0 {
        0
    } else {
        calls_bytes(cs.drop_last()) + utf8_size(cs.last().name) + utf8_size(cs.last().arguments)
    }
}

/// The bytes that the messages bring: what is said, who says it, and what is called.
pub open spec fn prompt_bytes(ms: Seq<MsgModel>) -> nat
    decreases ms.len(),
{
    if ms.len() == 0 {
        0
    } else {
        let m = ms.last();
        prompt_bytes(ms.drop_last()) + utf8_size(m.role) + (match m.content {
            ContentModel::Text(t) => utf8_size(t),
            ContentModel::Parts(ps) => parts_bytes(ps),
        }) + (match m.tool_calls {
            Some(cs) => calls_bytes(cs),
            None => 0,
        })
    }
}

/// The bytes that a tool brings.
pub open spec fn tool_bytes(t: ToolModel) -> nat {
    utf8_size(t.name) + (match t.description {
        Some(d) => utf8_size(d),
        None => 0,
    }) + (match t.parameters {
        Some(p) => utf8_size(json::json_text(p)),
        None => 0,
    })
}

proof fn parts_are_measured(ps: Seq<PartModel>)
    ensures
        protocol::parts_len(ps) == parts_bytes(ps),
    decreases ps.len(),
{
    if ps.len() > 0 {
        parts_are_measured(ps.drop_last());
    }
}

proof fn calls_are_measured(cs: Seq<CallModel>)
    ensures
        messages::calls_len(cs) == calls_bytes(cs),
    decreases cs.len(),
{
    if cs.len() > 0 {
        calls_are_measured(cs.drop_last());
    }
}

proof fn messages_are_measured(ms: Seq<MsgModel>)
    ensures
        messages::messages_len(ms) == prompt_bytes(ms),
    decreases ms.len(),
{
    if ms.len() > 0 {
        messages_are_measured(ms.drop_last());
        match ms.last().content {
            ContentModel::Parts(ps) => parts_are_measured(ps),
            _ => {},
        }
        match ms.last().tool_calls {
            Some(cs) => calls_are_measured(cs),
            None => {},
        }
    }
}

/// A prompt without tools is taken to be a token for each four bytes that its messages bring, a
/// part of four counting as four, and four tokens more for each message.
pub proof fn messages_are_estimated(ms: Seq<MsgModel>)
    ensures
        ({
            let n = messages::prompt_tokens(ms, None) - 4 * ms.len();
            4 * n >= prompt_bytes(ms) && 4 * n < prompt_bytes(ms) + 4
        }),
{
    messages_are_measured(ms);
}

/// A tool is taken to be a token for each four bytes that it brings, a part of four counting as
/// four, and four tokens more.
pub proof fn tools_are_estimated(ms: Seq<MsgModel>, ts: Seq<ToolModel>, t: ToolModel)
    ensures
        ({
            let n = messages::prompt_tokens(ms, Some(ts.push(t))) - messages::prompt_tokens(
                ms,
                Some(ts),
            ) - 4;
            4 * n >= tool_bytes(t) && 4 * n < tool_bytes(t) + 4
        }),
{
    assert(ts.push(t).drop_last() =~= ts);
    assert(messages::tool_len(t) == tool_bytes(t));
}

/// A longer conversation is never taken to be smaller.
pub proof fn estimates_grow(ms: Seq<MsgModel>, m: MsgModel, tools: Option<Seq<ToolModel>>)
    ensures
        messages::prompt_tokens(ms.push(m), tools) >= messages::prompt_tokens(ms, tools) + 4,
        plan::estimate(ms.push(m), tools) >= plan::estimate(ms, tools),
{
    assert(ms.push(m).drop_last() =~= ms);
}

} // verus!
