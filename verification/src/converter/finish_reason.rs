//! The one table between OpenAI's `finish_reason` and Anthropic's `stop_reason`.
use vstd::prelude::*;

use crate::text;

verus! {

/// The Anthropic stop reason for an OpenAI finish reason; an unknown one stays as it is.
pub open spec fn stop_reason_of(reason: Seq<char>) -> Seq<char> {
    if reason == "stop"@ {
        "end_turn"@
    } else if reason == "length"@ {
        "max_tokens"@
    } else if reason == "tool_calls"@ || reason == "function_call"@ {
        "tool_use"@
    } else if reason == "content_filter"@ {
        "end_turn"@
    } else {
        reason
    }
}

/// The OpenAI finish reason for an Anthropic stop reason; an unknown one stays as it is.
pub open spec fn finish_reason_of(reason: Seq<char>) -> Seq<char> {
    if reason == "end_turn"@ {
        "stop"@
    } else if reason == "max_tokens"@ {
        "length"@
    } else if reason == "tool_use"@ {
        "tool_calls"@
    } else if reason == "stop_sequence"@ {
        "stop"@
    } else {
        reason
    }
}

/// The reasons that OpenAI gives.
pub open spec fn is_openai_reason(r: Seq<char>) -> bool {
    r == "stop"@ || r == "length"@ || r == "tool_calls"@ || r == "function_call"@ || r
        == "content_filter"@
}

/// The reasons that Anthropic gives.
pub open spec fn is_anthropic_reason(r: Seq<char>) -> bool {
    r == "end_turn"@ || r == "max_tokens"@ || r == "tool_use"@ || r == "stop_sequence"@
}

/// No word of the one protocol is a word of the other, and no two words of one are equal.
proof fn reasons_differ()
    ensures
        !is_anthropic_reason("stop"@),
        !is_anthropic_reason("length"@),
        !is_anthropic_reason("tool_calls"@),
        !is_anthropic_reason("function_call"@),
        !is_anthropic_reason("content_filter"@),
        "end_turn"@ != "max_tokens"@,
        "end_turn"@ != "tool_use"@,
        "max_tokens"@ != "tool_use"@,
        "stop"@ != "length"@,
        "stop"@ != "tool_calls"@,
        "length"@ != "tool_calls"@,
        "stop_sequence"@ != "end_turn"@,
        "stop_sequence"@ != "max_tokens"@,
        "stop_sequence"@ != "tool_use"@,
{
    reveal_strlit("stop");
    reveal_strlit("length");
    reveal_strlit("tool_calls");
    reveal_strlit("function_call");
    reveal_strlit("content_filter");
    reveal_strlit("end_turn");
    reveal_strlit("max_tokens");
    reveal_strlit("tool_use");
    reveal_strlit("stop_sequence");
    assert("stop"@[0] == 's' && "length"@[0] == 'l' && "tool_calls"@[5] == 'c'
        && "function_call"@[0] == 'f' && "content_filter"@[0] == 'c');
    assert("stop"@.len() == 4 && "stop_sequence"@.len() == 13);
    assert("end_turn"@[0] == 'e' && "max_tokens"@[0] == 'm' && "tool_use"@[5] == 'u'
        && "stop_sequence"@[0] == 's');
}

/// Going to OpenAI and back keeps an Anthropic reason, but for `stop_sequence`, for which
/// OpenAI has no word, and for the words that OpenAI uses itself.
pub proof fn stop_reason_survives_round_trip(reason: Seq<char>)
    requires
        reason != "stop_sequence"@,
        !is_openai_reason(reason),
    ensures
        stop_reason_of(finish_reason_of(reason)) == reason,
{
    reasons_differ();
}

/// Going to Anthropic and back keeps an OpenAI reason, but for `function_call` and
/// `content_filter`, for which Anthropic has no word, and for the words that Anthropic uses
/// itself.
pub proof fn finish_reason_survives_round_trip(reason: Seq<char>)
    requires
        reason != "function_call"@,
        reason != "content_filter"@,
        !is_anthropic_reason(reason),
    ensures
        finish_reason_of(stop_reason_of(reason)) == reason,
{
    reasons_differ();
}

/// A reason that is in neither table passes through both unchanged.
pub proof fn unknown_reason_passes_through(reason: Seq<char>)
    requires
        !is_openai_reason(reason),
        !is_anthropic_reason(reason),
    ensures
        stop_reason_of(reason) == reason,
        finish_reason_of(reason) == reason,
{
}

/// A mapped stop reason never claims that a stop sequence was hit.
pub proof fn stop_reason_never_claims_stop_sequence(reason: Seq<char>)
    requires
        reason != "stop_sequence"@,
    ensures
        stop_reason_of(reason) != "stop_sequence"@,
{
    reasons_differ();
}

/// A mapped finish reason never claims that moderation filtered the output.
pub proof fn finish_reason_never_claims_filter(reason: Seq<char>)
    requires
        reason != "content_filter"@,
    ensures
        finish_reason_of(reason) != "content_filter"@,
{
    reveal_strlit("stop");
    reveal_strlit("length");
    reveal_strlit("tool_calls");
    reveal_strlit("content_filter");
    assert("stop"@[0] == 's' && "length"@[0] == 'l' && "tool_calls"@[0] == 't'
        && "content_filter"@[0] == 'c');
}

/// Map an OpenAI `finish_reason` to the Anthropic `stop_reason`. An unrecognized value passes
/// through unchanged, so that callers can tell what was mapped from what was not known.
pub fn openai_finish_reason_to_anthropic_stop_reason(reason: &str) -> (r: String)
    ensures
        r@ == stop_reason_of(reason@),
{
    if text::str_eq(reason, "stop") {
        text::owned("end_turn")
    } else if text::str_eq(reason, "length") {
        text::owned("max_tokens")
    } else if text::str_eq(reason, "tool_calls") || text::str_eq(reason, "function_call") {
        text::owned("tool_use")
    } else if text::str_eq(reason, "content_filter") {
        text::owned("end_turn")
    } else {
        text::owned(reason)
    }
}

/// Map an Anthropic `stop_reason` to the OpenAI `finish_reason`. An unrecognized value passes
/// through unchanged.
pub fn anthropic_stop_reason_to_openai_finish_reason(reason: &str) -> (r: String)
    ensures
        r@ == finish_reason_of(reason@),
{
    if text::str_eq(reason, "end_turn") {
        text::owned("stop")
    } else if text::str_eq(reason, "max_tokens") {
        text::owned("length")
    } else if text::str_eq(reason, "tool_use") {
        text::owned("tool_calls")
    } else if text::str_eq(reason, "stop_sequence") {
        text::owned("stop")
    } else {
        text::owned(reason)
    }
}

} // verus!
