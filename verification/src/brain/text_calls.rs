//! Tool calls that a model writes into its text.
use vstd::prelude::*;

use crate::brain::messages;
use crate::brain::protocol::CallModel;
use crate::brain::task_laws::is_full_call;
use crate::brain::tool_calls;
use crate::json::{self, JsonModel};
use crate::text;

verus! {

/// The text holds neither tag of a call.
pub open spec fn is_untagged(s: Seq<char>) -> bool {
    !s.contains('<')
}

proof fn tag_is_found(before: Seq<char>, tag: Seq<char>, after: Seq<char>)
    requires
        is_untagged(before),
        tag.len() > 0,
        tag[0] == '<',
    ensures
        text::find(before + tag + after, tag) == Some(before.len() as int),
{
    let s = before + tag + after;
    let k = before.len() as int;
    assert(s.subrange(k, k + tag.len()) =~= tag);
    assert forall|j: int| 0 <= j < k implies !#[trigger] text::occurs_at(s, tag, j) by {
        if text::occurs_at(s, tag, j) {
            assert(s.subrange(j, j + tag.len())[0] == s[j]);
            assert(s[j] == before[j]);
            assert(before.contains('<'));
        }
    }
    text::find_from_hits(s, tag, 0, k);
}

/// What stands between the tags of a call is read, whatever stands around them.
pub proof fn tagged_call_is_read(before: Seq<char>, body: Seq<char>, after: Seq<char>)
    requires
        is_untagged(before),
        is_untagged(body),
    ensures
        tool_calls::tagged(before + "<tool_call>"@ + body + "</tool_call>"@ + after) == Some(body),
        tool_calls::tag_parse(before + "<tool_call>"@ + body + "</tool_call>"@ + after)
            == json::json_parse(body),
{
    reveal_strlit("<tool_call>");
    reveal_strlit("</tool_call>");
    let open = "<tool_call>"@;
    let close = "</tool_call>"@;
    let s = before + open + body + close + after;
    assert(open.len() == 11 && open[0] == '<' && open[1] == 't');
    assert(close.len() == 12 && close[0] == '<' && close[1] == '/');
    tag_is_found(before, open, body + close + after);
    assert(s =~= before + open + (body + close + after));
    let k = (before.len() + open.len() + body.len()) as int;
    assert(s.subrange(k, k + close.len()) =~= close);
    assert forall|j: int| 0 <= j < k implies !#[trigger] text::occurs_at(s, close, j) by {
        if text::occurs_at(s, close, j) {
            let x = s.subrange(j, j + close.len());
            assert(x[0] == s[j] && x[1] == s[j + 1]);
            if j < before.len() {
                assert(s[j] == before[j]);
                assert(before.contains('<'));
            } else if j < before.len() + open.len() {
                let i = j - before.len();
                assert(s[j] == open[i]);
                if i == 0 {
                    assert(s[j + 1] == open[1]);
                }
            } else {
                assert(s[j] == body[j - before.len() - open.len()]);
                assert(body.contains('<'));
            }
        }
    }
    text::find_from_hits(s, close, 0, k);
    assert(s.subrange(before.len() as int + 11, k) =~= body);
}

/// A call between tags has the name and the arguments that stand there, the arguments under
/// either of their names.
pub proof fn tagged_call_is_taken(v: JsonModel, id: Seq<char>, name: Seq<char>, args: JsonModel)
    requires
        v.str_at("name"@) == Some(name),
        v.field("arguments"@) == Some(args) || (v.field("arguments"@) is None && v.field(
            "parameters"@,
        ) == Some(args)),
    ensures
        ({
            let (said, calls) = tool_calls::answer_in(seq![], None, Some(v), id);
            &&& said is None
            &&& calls == Some(
                seq![
                    CallModel {
                        id,
                        call_type: "function"@,
                        name,
                        arguments: json::json_text(args),
                    },
                ],
            )
        }),
{
}

proof fn listed_calls_are_read(items: Seq<JsonModel>)
    requires
        forall|i: int| 0 <= i < items.len() ==> is_full_call(#[trigger] items[i]),
    ensures
        messages::calls_of(items) matches Some(cs) && are_calls(cs, items),
    decreases items.len(),
{
    if items.len() > 0 {
        let rest = items.drop_last();
        assert forall|i: int| 0 <= i < rest.len() implies is_full_call(#[trigger] rest[i]) by {
            assert(rest[i] == items[i]);
        }
        listed_calls_are_read(rest);
        let c = items[items.len() - 1];
        assert(is_full_call(c));
        let f = c.field_or_null("function"@);
        assert(c.field("function"@) == Some(f));
        assert(messages::function_of(f) is Some);
        let before = messages::calls_of(rest)->Some_0;
        let cs = messages::calls_of(items)->Some_0;
        assert forall|i: int| 0 <= i < cs.len() implies is_call_of(#[trigger] cs[i], items[i]) by {
            if i < before.len() {
                assert(cs[i] == before[i]);
                assert(is_call_of(before[i], rest[i]));
            }
        }
    }
}

/// The call is the one that the value writes.
pub open spec fn is_call_of(c: CallModel, v: JsonModel) -> bool {
    &&& v.str_at("id"@) == Some(c.id)
    &&& v.str_at("type"@) == Some(c.call_type)
    &&& v.field_or_null("function"@).str_at("name"@) == Some(c.name)
    &&& v.field_or_null("function"@).str_at("arguments"@) == Some(c.arguments)
}

pub open spec fn are_calls(cs: Seq<CallModel>, vs: Seq<JsonModel>) -> bool {
    &&& cs.len() == vs.len()
    &&& forall|i: int| 0 <= i < cs.len() ==> is_call_of(#[trigger] cs[i], vs[i])
}

/// A text that is an object with a list of calls is taken as these calls, and not as text.
pub proof fn listed_calls_are_taken(
    response: Seq<char>,
    v: JsonModel,
    items: Seq<JsonModel>,
    tag: Option<JsonModel>,
    id: Seq<char>,
)
    requires
        v.array_at("tool_calls"@) == Some(items),
        items.len() > 0,
        forall|i: int| 0 <= i < items.len() ==> is_full_call(#[trigger] items[i]),
    ensures
        ({
            let (said, calls) = tool_calls::answer_in(response, Some(v), tag, id);
            said is None && calls is Some && are_calls(calls->Some_0, items)
        }),
{
    listed_calls_are_read(items);
    assert(v.field("tool_calls"@) == Some(JsonModel::Array(items)));
}

/// A text that is neither is taken as text.
pub proof fn plain_text_stays(response: Seq<char>, whole: Option<JsonModel>, id: Seq<char>)
    requires
        whole matches Some(v) ==> v.field("tool_calls"@) is None,
    ensures
        tool_calls::answer_in(response, whole, None, id) == (
            Some(response),
            None::<Seq<CallModel>>,
        ),
{
}

} // verus!
