//! The frames of an OpenAI chat-completion stream.
use vstd::prelude::*;

use crate::converter::sse;
use crate::json::{self, Json, JsonModel, Object};
use crate::text;

verus! {

/// The text of an event that carries `data`.
pub open spec fn data_frame(data: Seq<char>) -> Seq<char> {
    "data: "@ + data + "\n\n"@
}

/// An event with a text of one line is one event.
proof fn data_frame_is_one_frame(data: Seq<char>)
    requires
        forall|i: int| 0 <= i < data.len() ==> #[trigger] data[i] != '\n',
    ensures
        sse::frames(data_frame(data)) == seq!["data: "@ + data],
        sse::leftover(data_frame(data)) == Seq::<char>::empty(),
{
    reveal_strlit("data: ");
    reveal_strlit("\n\n");
    let s = data_frame(data);
    let k = (6 + data.len()) as int;
    let p = sse::separator();
    assert(s.len() == k + 2);
    assert(s.subrange(k, k + 2) =~= p);
    assert(text::occurs_at(s, p, k));
    assert forall|j: int| 0 <= j < k implies !#[trigger] text::occurs_at(s, p, j) by {
        if text::occurs_at(s, p, j) {
            assert(s.subrange(j, j + 2)[0] == s[j]);
            assert(s[j] == '\n');
            if j < 6 {
                assert(s[j] == "data: "@[j]);
            } else {
                assert(s[j] == data[j - 6]);
            }
        }
    }
    text::find_from_hits(s, p, 0, k);
    assert(s.subrange(0, k) =~= "data: "@ + data);
    assert(text::find_from(s, p, k + 2) is None);
    assert(sse::frames_from(s, k + 2) =~= Seq::<Seq<char>>::empty());
    assert(sse::frames(s) =~= seq!["data: "@ + data]);
    assert(s.skip(k + 2) =~= Seq::<char>::empty());
    assert(sse::leftover_from(s, k + 2) == s.skip(k + 2));
}

/// One event with a JSON value for its data.
pub fn sse_event(data: &Json) -> (r: String)
    ensures
        r@ == data_frame(json::json_text(data@)),
        sse::frames(r@) == seq!["data: "@ + json::json_text(data@)],
        sse::leftover(r@) == Seq::<char>::empty(),
{
    let body = json::render(data);
    proof {
        data_frame_is_one_frame(body@);
    }
    text::concat3("data: ", body.as_str(), "\n\n")
}

/// What a chunk of a chat completion holds.
pub open spec fn chunk_model(
    id: Seq<char>,
    model: Seq<char>,
    delta: JsonModel,
    finish_reason: Option<Seq<char>>,
    created: u64,
) -> JsonModel {
    JsonModel::Object(
        json::nothing().insert("id"@, JsonModel::Str(id)).insert(
            "object"@,
            JsonModel::Str("chat.completion.chunk"@),
        ).insert("created"@, json::number(created)).insert("model"@, JsonModel::Str(model)).insert(
            "choices"@,
            JsonModel::Array(
                seq![
                    JsonModel::Object(
                        json::nothing().insert("index"@, json::number(0)).insert(
                            "delta"@,
                            delta,
                        ).insert("finish_reason"@, json::text_or_null(finish_reason)),
                    ),
                ],
            ),
        ),
    )
}

/// A list of one value.
pub fn one(j: Json) -> (r: Json)
    ensures
        r@ == JsonModel::Array(seq![j@]),
{
    let ghost m = j@;
    let mut v: Vec<Json> = Vec::new();
    v.push(j);
    proof {
        assert(v@ =~= Seq::<Json>::empty().push(j));
        json::models_push(Seq::<Json>::empty(), j);
        assert(json::models(v@) =~= seq![m]);
    }
    Json::Array(v)
}

/// An empty list.
pub fn none() -> (r: Json)
    ensures
        r@ == JsonModel::Array(seq![]),
{
    Json::Array(Vec::new())
}

/// A chunk of a chat completion, as an event; `created` is its time in seconds.
pub fn chat_completion_chunk(
    id: &str,
    model: &str,
    delta: &Json,
    finish_reason: &Option<String>,
    created: u64,
) -> (r: String)
    ensures
        r@ == data_frame(
            json::json_text(
                chunk_model(id@, model@, delta@, text::opt_text(*finish_reason), created),
            ),
        ),
{
    let choice = Object::new().with("index", Json::number(0)).with("delta", delta.dup()).with(
        "finish_reason",
        Json::text_or_null(finish_reason),
    );
    let chunk = Object::new().with("id", Json::text(id)).with(
        "object",
        Json::text("chat.completion.chunk"),
    ).with("created", Json::number(created)).with("model", Json::text(model)).with(
        "choices",
        one(Json::Object(choice)),
    );
    sse_event(&Json::Object(chunk))
}

/// The event that ends a stream.
pub fn done() -> (r: String)
    ensures
        r@ == "data: [DONE]\n\n"@,
{
    text::owned("data: [DONE]\n\n")
}

/// The sum of two 64-bit counts, without the carry.
pub open spec fn wrapped_sum(a: u64, b: u64) -> u64 {
    ((a + b) % 0x1_0000_0000_0000_0000) as u64
}

/// What a usage chunk holds.
pub open spec fn usage_chunk_model(
    id: Seq<char>,
    model: Seq<char>,
    prompt_tokens: u64,
    completion_tokens: u64,
    created: u64,
) -> JsonModel {
    JsonModel::Object(
        json::nothing().insert("id"@, JsonModel::Str(id)).insert(
            "object"@,
            JsonModel::Str("chat.completion.chunk"@),
        ).insert("created"@, json::number(created)).insert("model"@, JsonModel::Str(model)).insert(
            "choices"@,
            JsonModel::Array(seq![]),
        ).insert(
            "usage"@,
            JsonModel::Object(
                json::nothing().insert("prompt_tokens"@, json::number(prompt_tokens)).insert(
                    "completion_tokens"@,
                    json::number(completion_tokens),
                ).insert(
                    "total_tokens"@,
                    json::number(wrapped_sum(prompt_tokens, completion_tokens)),
                ),
            ),
        ),
    )
}

/// The token counts of a chat completion, as an event.
pub fn usage_chunk(
    id: &str,
    model: &str,
    prompt_tokens: u64,
    completion_tokens: u64,
    created: u64,
) -> (r: String)
    ensures
        r@ == data_frame(
            json::json_text(
                usage_chunk_model(id@, model@, prompt_tokens, completion_tokens, created),
            ),
        ),
{
    let total: u64 = prompt_tokens.wrapping_add(completion_tokens);
    let usage = Object::new().with("prompt_tokens", Json::number(prompt_tokens)).with(
        "completion_tokens",
        Json::number(completion_tokens),
    ).with("total_tokens", Json::number(total));
    let chunk = Object::new().with("id", Json::text(id)).with(
        "object",
        Json::text("chat.completion.chunk"),
    ).with("created", Json::number(created)).with("model", Json::text(model)).with(
        "choices",
        none(),
    ).with("usage", Json::Object(usage));
    sse_event(&Json::Object(chunk))
}

} // verus!
