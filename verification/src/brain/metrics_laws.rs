//! What is counted of requests, and how it is shown.
use vstd::prelude::*;

use crate::brain::metrics::{self, Counts, Listing, Listings, MetricsModel, Shape, ValueModel};
use crate::brain::protocol::DoneMessage;
use crate::brain::turn::{self, Turn, TurnKind};
use crate::text;
use crate::text_laws;

verus! {

/// A count has grown by a number, and no other count has changed.
pub open spec fn grown(a: Counts, b: Counts, key: Seq<char>, by: nat) -> bool {
    &&& metrics::count_of(a, key) + by <= u64::MAX ==> metrics::count_of(b, key)
        == metrics::count_of(a, key) + by
    &&& forall|k: Seq<char>| k != key ==> #[trigger] metrics::count_of(b, k) == metrics::count_of(
        a,
        k,
    )
}

proof fn raising_grows(m: Counts, key: Seq<char>, by: u64)
    ensures
        grown(m, metrics::raised(m, key, by), key, by as nat),
{
}

/// A request is counted once, under its worker, its model and its status, and nothing else is
/// counted for it.
pub proof fn request_is_counted(
    m: MetricsModel,
    worker: Seq<char>,
    model: Seq<char>,
    status: u16,
)
    ensures
        ({
            let after = metrics::with_request(m, worker, model, status);
            let key = worker + ":"@ + model + ":"@ + text::dec(status as nat);
            &&& grown(m.requests, after.requests, key, 1)
            &&& after == (MetricsModel { requests: after.requests, ..m })
        }),
{
    raising_grows(m.requests, worker + ":"@ + model + ":"@ + text::dec(status as nat), 1);
}

/// The tokens of an answer that has ended are counted in full, where they are to be counted at
/// all: those of the prompt and those of the answer, each under the model.
pub proof fn tokens_are_counted(
    m: MetricsModel,
    t: Turn,
    telemetry: bool,
    model: Seq<char>,
    done: DoneMessage,
    rate: u64,
    now: u64,
)
    ensures
        ({
            let after = turn::counted_on_done(m, t, telemetry, model, done, rate, now);
            let key = "brain"@ + ":"@ + model;
            &&& telemetry ==> grown(
                m.prompt_tokens,
                after.prompt_tokens,
                key,
                done.prompt_tokens as nat,
            )
            &&& telemetry ==> grown(
                m.completion_tokens,
                after.completion_tokens,
                key,
                done.comp_tokens as nat,
            )
            &&& after.requests == m.requests
            &&& after.queue_depth == m.queue_depth
            &&& after.health == m.health
            &&& after.tool_calls == m.tool_calls
            &&& !telemetry ==> after == m
        }),
{
    let key = "brain"@ + ":"@ + model;
    raising_grows(m.prompt_tokens, key, done.prompt_tokens as u64);
    raising_grows(m.completion_tokens, key, done.comp_tokens as u64);
}

/// A worker that has gone silent on a chat request is counted as a failure of the gateway.
pub proof fn silence_is_counted(
    m: MetricsModel,
    t: Turn,
    model: Seq<char>,
    now: u64,
)
    requires
        t.kind == TurnKind::ChatStream || t.kind == TurnKind::ChatBlocking,
    ensures
        grown(
            m.requests,
            turn::counted_on_timeout(m, t, true, model, now).requests,
            "brain"@ + ":"@ + model + ":"@ + text::dec(504),
            1,
        ),
{
    raising_grows(m.requests, "brain"@ + ":"@ + model + ":"@ + text::dec(504), 1);
}

/// A name without a colon, such as can stand before one.
pub open spec fn is_label(s: Seq<char>) -> bool {
    !s.contains(':')
}

proof fn label_is_cut(a: Seq<char>, rest: Seq<char>)
    requires
        is_label(a),
    ensures
        text::cut_at(a + ":"@ + rest, ':') == Some((a, rest)),
{
    reveal_strlit(":");
    assert(":"@ =~= seq![':']);
    let s = a + ":"@ + rest;
    let k = a.len() as int;
    assert(s[k] == ':');
    assert forall|i: int| 0 <= i < k implies s[i] != ':' by {
        assert(s[i] == a[i]);
        assert(a.contains(s[i]));
    }
    text::span_of_is(s, ':', k);
    assert(s.take(k) =~= a);
    assert(s.skip(k + 1) =~= rest);
}

/// The count of a request is shown with the worker, the model and the status that it was counted
/// under, each under its label.
pub proof fn request_is_shown(
    name: Seq<char>,
    worker: Seq<char>,
    model: Seq<char>,
    status: Seq<char>,
    value: Seq<char>,
)
    requires
        is_label(worker),
        is_label(model),
    ensures
        metrics::sample(Shape::Request, name, metrics::key3(worker, model, status), value) == name
            + "{worker=\""@ + worker + "\",model=\""@ + model + "\",status=\""@ + status
            + "\"} "@ + value + "\n"@,
{
    let rest = model + ":"@ + status;
    assert(metrics::key3(worker, model, status) =~= worker + ":"@ + rest);
    label_is_cut(worker, rest);
    label_is_cut(model, status);
}

/// The count of a model is shown with the worker and the model that it was counted under.
pub proof fn model_is_shown(
    name: Seq<char>,
    worker: Seq<char>,
    model: Seq<char>,
    value: Seq<char>,
)
    requires
        is_label(worker),
    ensures
        metrics::sample(Shape::WorkerModel, name, metrics::key2(worker, model), value) == name
            + "{worker=\""@ + worker + "\",model=\""@ + model + "\"} "@ + value + "\n"@,
        metrics::sample(Shape::ToolStatus, name, metrics::key2(worker, model), value) == name
            + "{tool_name=\""@ + worker + "\",status=\""@ + model + "\"} "@ + value + "\n"@,
{
    label_is_cut(worker, model);
}

/// A bucket of the times to the first token is shown with its worker, its model and its bound.
pub proof fn bucket_is_shown(
    name: Seq<char>,
    worker: Seq<char>,
    model: Seq<char>,
    bound: Seq<char>,
    value: Seq<char>,
)
    requires
        is_label(worker),
        is_label(model),
        is_label(bound),
    ensures
        metrics::sample(Shape::Bucket, name, metrics::bucket_key(worker, model, bound), value)
            == name + "{worker=\""@ + worker + "\",model=\""@ + model + "\",le=\""@ + bound
            + "\"} "@ + value + "\n"@,
{
    reveal_strlit(":");
    reveal_strlit(":le:");
    reveal_strlit("le");
    let colon = seq![':'];
    assert(":"@ =~= colon);
    assert(":le:"@ =~= colon + "le"@ + colon);
    let parts = seq![worker, model, "le"@, bound];
    assert(!"le"@.contains(':'));
    text_laws::split_undoes_join(parts, ':');
    reveal_with_fuel(text::join, 4);
    assert(parts.drop_last() =~= seq![worker, model, "le"@]);
    assert(parts.drop_last().drop_last() =~= seq![worker, model]);
    assert(parts.drop_last().drop_last().drop_last() =~= seq![worker]);
    assert(text::join(parts, colon) =~= worker + colon + model + colon + "le"@ + colon + bound);
    assert(metrics::bucket_key(worker, model, bound) =~= text::join(parts, colon));
}

// ── The whole account ───────────────────────────────────────────────────────

proof fn stands_in(before: Seq<char>, part: Seq<char>, after: Seq<char>)
    ensures
        text::contains(before + part + after, part),
{
    let all = before + part + after;
    let k = before.len() as int;
    assert(all.subrange(k, k + part.len()) =~= part);
    assert(text::occurs_at(all, part, k));
    text::find_from_is_first(all, part, 0);
}

/// The text holds the counts, under the name and with the labels of the shape.
pub open spec fn shows(t: Seq<char>, shape: Shape, name: Seq<char>, l: Listing) -> bool {
    text::contains(t, metrics::samples(shape, name, ValueModel::Number, l))
}

/// Each count is shown under its own name: requests, times, depths of queues, tool calls, health
/// and tokens.
pub proof fn counts_are_shown(
    l: Listings,
    rates: Map<Seq<char>, Seq<char>>,
    ratios: Map<Seq<char>, Seq<char>>,
)
    ensures
        ({
            let t = metrics::prometheus(l, rates, ratios);
            &&& shows(t, Shape::Request, "brain_requests_total"@, l.requests)
            &&& shows(t, Shape::Bucket, "brain_ttft_ms_bucket"@, l.ttft)
            &&& shows(t, Shape::Worker, "brain_queue_depth"@, l.queue_depth)
            &&& shows(t, Shape::ToolStatus, "brain_tool_call_total"@, l.tool_calls)
            &&& shows(t, Shape::Worker, "brain_worker_health"@, l.health)
            &&& shows(t, Shape::WorkerModel, "brain_prompt_tokens_total"@, l.prompt_tokens)
            &&& shows(
                t,
                Shape::WorkerModel,
                "brain_completion_tokens_total"@,
                l.completion_tokens,
            )
        }),
{
    let n = ValueModel::Number;
    let whole = metrics::prometheus(l, rates, ratios);
    let p0 =
    "# HELP brain_requests_total Total requests by worker, model, status\n# TYPE brain_requests_total counter\n"@;
    let s0 = metrics::samples(Shape::Request, "brain_requests_total"@, n, l.requests);
    let p1 = p0 + s0
        + "# HELP brain_ttft_ms_bucket Time-to-first-token histogram\n# TYPE brain_ttft_ms_bucket histogram\n"@;
    let s1 = metrics::samples(Shape::Bucket, "brain_ttft_ms_bucket"@, n, l.ttft);
    let q0 = p1 + s1
        + "# HELP brain_tokens_per_sec Tokens-per-second by worker, model\n# TYPE brain_tokens_per_sec gauge\n"@;
    let q1 = q0 + metrics::samples(
        Shape::WorkerModel,
        "brain_tokens_per_sec"@,
        ValueModel::Given { texts: rates, default: "0.00"@ },
        l.rates,
    );
    let q2 = q1
        + "# HELP brain_cache_hit_ratio Cache hit ratio by worker\n# TYPE brain_cache_hit_ratio gauge\n"@;
    let q3 = q2 + metrics::samples(
        Shape::Worker,
        "brain_cache_hit_ratio"@,
        ValueModel::Given { texts: ratios, default: "0.0000"@ },
        l.cache,
    );
    let p2 = q3
        + "# HELP brain_queue_depth Current queue depth by worker\n# TYPE brain_queue_depth gauge\n"@;
    let s2 = metrics::samples(Shape::Worker, "brain_queue_depth"@, n, l.queue_depth);
    let p3 = p2 + s2
        + "# HELP brain_tool_call_total Tool call outcomes\n# TYPE brain_tool_call_total counter\n"@;
    let s3 = metrics::samples(Shape::ToolStatus, "brain_tool_call_total"@, n, l.tool_calls);
    let p4 = p3 + s3
        + "# HELP brain_worker_health Worker health gauge (1=healthy)\n# TYPE brain_worker_health gauge\n"@;
    let s4 = metrics::samples(Shape::Worker, "brain_worker_health"@, n, l.health);
    let p5 = p4 + s4
        + "# HELP brain_prompt_tokens_total Total prompt tokens\n# TYPE brain_prompt_tokens_total counter\n"@;
    let s5 = metrics::samples(
        Shape::WorkerModel,
        "brain_prompt_tokens_total"@,
        n,
        l.prompt_tokens,
    );
    let p6 = p5 + s5
        + "# HELP brain_completion_tokens_total Total completion tokens\n# TYPE brain_completion_tokens_total counter\n"@;
    let s6 = metrics::samples(
        Shape::WorkerModel,
        "brain_completion_tokens_total"@,
        n,
        l.completion_tokens,
    );
    assert(whole == p6 + s6);
    begins_itself(whole);
    part_of(p6, s6, whole);
    begins_sooner(
        p5 + s5,
        "# HELP brain_completion_tokens_total Total completion tokens\n# TYPE brain_completion_tokens_total counter\n"@,
        whole,
    );
    part_of(p5, s5, whole);
    begins_sooner(
        p4 + s4,
        "# HELP brain_prompt_tokens_total Total prompt tokens\n# TYPE brain_prompt_tokens_total counter\n"@,
        whole,
    );
    part_of(p4, s4, whole);
    begins_sooner(
        p3 + s3,
        "# HELP brain_worker_health Worker health gauge (1=healthy)\n# TYPE brain_worker_health gauge\n"@,
        whole,
    );
    part_of(p3, s3, whole);
    begins_sooner(
        p2 + s2,
        "# HELP brain_tool_call_total Tool call outcomes\n# TYPE brain_tool_call_total counter\n"@,
        whole,
    );
    part_of(p2, s2, whole);
    begins_sooner(
        q3,
        "# HELP brain_queue_depth Current queue depth by worker\n# TYPE brain_queue_depth gauge\n"@,
        whole,
    );
    begins_sooner(
        q2,
        metrics::samples(
            Shape::Worker,
            "brain_cache_hit_ratio"@,
            ValueModel::Given { texts: ratios, default: "0.0000"@ },
            l.cache,
        ),
        whole,
    );
    begins_sooner(
        q1,
        "# HELP brain_cache_hit_ratio Cache hit ratio by worker\n# TYPE brain_cache_hit_ratio gauge\n"@,
        whole,
    );
    begins_sooner(
        q0,
        metrics::samples(
            Shape::WorkerModel,
            "brain_tokens_per_sec"@,
            ValueModel::Given { texts: rates, default: "0.00"@ },
            l.rates,
        ),
        whole,
    );
    begins_sooner(
        p1 + s1,
        "# HELP brain_tokens_per_sec Tokens-per-second by worker, model\n# TYPE brain_tokens_per_sec gauge\n"@,
        whole,
    );
    part_of(p1, s1, whole);
    begins_sooner(
        p0 + s0,
        "# HELP brain_ttft_ms_bucket Time-to-first-token histogram\n# TYPE brain_ttft_ms_bucket histogram\n"@,
        whole,
    );
    part_of(p0, s0, whole);
}

proof fn begins_itself(whole: Seq<char>)
    ensures
        whole.is_prefix_of(whole),
{
    assert(whole =~= whole.subrange(0, whole.len() as int));
}

proof fn begins_sooner(a: Seq<char>, b: Seq<char>, whole: Seq<char>)
    requires
        (a + b).is_prefix_of(whole),
    ensures
        a.is_prefix_of(whole),
{
    let c = a + b;
    assert(c == whole.subrange(0, c.len() as int));
    assert(a =~= c.subrange(0, a.len() as int));
    assert(a =~= whole.subrange(0, a.len() as int));
}

proof fn part_of(before: Seq<char>, part: Seq<char>, whole: Seq<char>)
    requires
        (before + part).is_prefix_of(whole),
    ensures
        text::contains(whole, part),
        before.is_prefix_of(whole),
{
    begins_sooner(before, part, whole);
    let head = before + part;
    assert(whole =~= head + whole.skip(head.len() as int)) by {
        assert(head == whole.subrange(0, head.len() as int));
    }
    stands_in(before, part, whole.skip(head.len() as int));
}

} // verus!
