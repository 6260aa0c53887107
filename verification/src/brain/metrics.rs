//! Counters and gauges, and their Prometheus text.
use vstd::prelude::*;

use crate::converter::builders;
use crate::strmap::{self, StrMap};
use crate::text;

verus! {

/// The value for each key.
pub type Counts = Map<Seq<char>, u64>;

/// What the gateway counts, by the names of workers, models and tools.
pub struct Metrics {
    requests_total: StrMap<u64>,
    ttft_ms: StrMap<u64>,
    tokens_per_sec_sum: StrMap<u64>,
    tokens_per_sec_count: StrMap<u64>,
    cache_hits: StrMap<u64>,
    cache_total: StrMap<u64>,
    queue_depth: StrMap<u64>,
    tool_call_total: StrMap<u64>,
    worker_health: StrMap<u64>,
    prompt_tokens: StrMap<u64>,
    completion_tokens: StrMap<u64>,
}

#[verifier::ext_equal]
pub struct MetricsModel {
    /// `worker:model:status`.
    pub requests: Counts,
    /// `worker:model:le:bound`; each bucket counts what is in those below it as well.
    pub ttft: Counts,
    /// `worker:model`, in thousandths.
    pub rate_sum: Counts,
    pub rate_count: Counts,
    /// `worker`.
    pub cache_hits: Counts,
    pub cache_total: Counts,
    pub queue_depth: Counts,
    /// `tool:status`.
    pub tool_calls: Counts,
    /// `worker`; 1 is healthy.
    pub health: Counts,
    /// `worker:model`.
    pub prompt_tokens: Counts,
    pub completion_tokens: Counts,
}

impl View for Metrics {
    type V = MetricsModel;

    closed spec fn view(&self) -> MetricsModel {
        MetricsModel {
            requests: self.requests_total@,
            ttft: self.ttft_ms@,
            rate_sum: self.tokens_per_sec_sum@,
            rate_count: self.tokens_per_sec_count@,
            cache_hits: self.cache_hits@,
            cache_total: self.cache_total@,
            queue_depth: self.queue_depth@,
            tool_calls: self.tool_call_total@,
            health: self.worker_health@,
            prompt_tokens: self.prompt_tokens@,
            completion_tokens: self.completion_tokens@,
        }
    }
}

pub open spec fn nothing_counted() -> MetricsModel {
    let none = Map::<Seq<char>, u64>::empty();
    MetricsModel {
        requests: none,
        ttft: none,
        rate_sum: none,
        rate_count: none,
        cache_hits: none,
        cache_total: none,
        queue_depth: none,
        tool_calls: none,
        health: none,
        prompt_tokens: none,
        completion_tokens: none,
    }
}

/// The value for a key, zero where there is none.
pub open spec fn count_of(m: Counts, key: Seq<char>) -> u64 {
    if m.dom().contains(key) {
        m[key]
    } else {
        0
    }
}

/// The counts with one of them raised; counters wrap around.
pub open spec fn raised(m: Counts, key: Seq<char>, delta: u64) -> Counts {
    m.insert(key, builders::wrapped_sum(count_of(m, key), delta))
}

pub open spec fn key2(a: Seq<char>, b: Seq<char>) -> Seq<char> {
    a + ":"@ + b
}

pub open spec fn key3(a: Seq<char>, b: Seq<char>, c: Seq<char>) -> Seq<char> {
    a + ":"@ + b + ":"@ + c
}

/// The bounds of the buckets for the time to the first token, in milliseconds.
pub open spec fn buckets() -> Seq<u64> {
    seq![50, 100, 250, 500, 1000, 2500, 5000, 10000]
}

pub open spec fn bucket_key(worker: Seq<char>, model: Seq<char>, bound: Seq<char>) -> Seq<char> {
    worker + ":"@ + model + ":le:"@ + bound
}

/// The buckets of these bounds that `ms` is in, raised.
pub open spec fn bucketed(
    m: Counts,
    worker: Seq<char>,
    model: Seq<char>,
    ms: u64,
    bounds: Seq<u64>,
) -> Counts
    decreases bounds.len(),
{
    if bounds.len() == 0 {
        m
    } else {
        let before = bucketed(m, worker, model, ms, bounds.drop_last());
        if ms <= bounds.last() {
            raised(before, bucket_key(worker, model, text::dec(bounds.last() as nat)), 1)
        } else {
            before
        }
    }
}

/// A request more that was answered with a status.
pub open spec fn with_request(
    m: MetricsModel,
    worker: Seq<char>,
    model: Seq<char>,
    status: u16,
) -> MetricsModel {
    MetricsModel {
        requests: raised(m.requests, key3(worker, model, text::dec(status as nat)), 1),
        ..m
    }
}

/// A time to the first token more: it counts in all buckets that it is in.
pub open spec fn with_ttft(m: MetricsModel, worker: Seq<char>, model: Seq<char>, ms: u64) -> MetricsModel {
    MetricsModel {
        ttft: raised(
            bucketed(m.ttft, worker, model, ms, buckets()),
            bucket_key(worker, model, "+Inf"@),
            1,
        ),
        ..m
    }
}

/// A rate of tokens more.
pub open spec fn with_rate(
    m: MetricsModel,
    worker: Seq<char>,
    model: Seq<char>,
    thousandths: u64,
) -> MetricsModel {
    MetricsModel {
        rate_sum: raised(m.rate_sum, key2(worker, model), thousandths),
        rate_count: raised(m.rate_count, key2(worker, model), 1),
        ..m
    }
}

/// So many tokens more.
pub open spec fn with_tokens(
    m: MetricsModel,
    worker: Seq<char>,
    model: Seq<char>,
    prompt: u64,
    completion: u64,
) -> MetricsModel {
    MetricsModel {
        prompt_tokens: raised(m.prompt_tokens, key2(worker, model), prompt),
        completion_tokens: raised(m.completion_tokens, key2(worker, model), completion),
        ..m
    }
}

fn add_count(m: &mut StrMap<u64>, key: &str, delta: u64)
    requires
        old(m).wf(),
    ensures
        final(m).wf(),
        final(m)@ == raised(old(m)@, key@, delta),
{
    let before: u64 = read_count(m, key);
    m.insert(key, before.wrapping_add(delta));
}

fn read_count(m: &StrMap<u64>, key: &str) -> (r: u64)
    requires
        m.wf(),
    ensures
        r == count_of(m@, key@),
{
    match m.get(key) {
        Some(v) => *v,
        None => 0,
    }
}

fn joined(a: &str, b: &str) -> (r: String)
    ensures
        r@ == key2(a@, b@),
{
    text::concat3(a, ":", b)
}

impl Metrics {
    /// No key occurs twice.
    pub closed spec fn wf(&self) -> bool {
        &&& self.requests_total.wf()
        &&& self.ttft_ms.wf()
        &&& self.tokens_per_sec_sum.wf()
        &&& self.tokens_per_sec_count.wf()
        &&& self.cache_hits.wf()
        &&& self.cache_total.wf()
        &&& self.queue_depth.wf()
        &&& self.tool_call_total.wf()
        &&& self.worker_health.wf()
        &&& self.prompt_tokens.wf()
        &&& self.completion_tokens.wf()
    }

    pub fn new() -> (r: Metrics)
        ensures
            r.wf(),
            r@ == nothing_counted(),
    {
        Metrics {
            requests_total: StrMap::new(),
            ttft_ms: StrMap::new(),
            tokens_per_sec_sum: StrMap::new(),
            tokens_per_sec_count: StrMap::new(),
            cache_hits: StrMap::new(),
            cache_total: StrMap::new(),
            queue_depth: StrMap::new(),
            tool_call_total: StrMap::new(),
            worker_health: StrMap::new(),
            prompt_tokens: StrMap::new(),
            completion_tokens: StrMap::new(),
        }
    }

    /// Counts a request that was answered with a status.
    pub fn record_request(&mut self, worker_id: &str, model: &str, status: u16)
        requires
            old(self).wf(),
        ensures
            final(self).wf(),
            final(self)@ == with_request(old(self)@, worker_id@, model@, status),
    {
        let mut key = text::concat3(worker_id, ":", model);
        key.append(":");
        key.append(text::decimal(status as u64).as_str());
        add_count(&mut self.requests_total, key.as_str(), 1);
    }

    fn raise_bucket(&mut self, worker_id: &str, model: &str, bound: &str)
        requires
            old(self).wf(),
        ensures
            final(self).wf(),
            final(self)@ == (MetricsModel {
                ttft: raised(old(self)@.ttft, bucket_key(worker_id@, model@, bound@), 1),
                ..old(self)@
            }),
    {
        let mut key = text::concat3(worker_id, ":", model);
        key.append(":le:");
        key.append(bound);
        add_count(&mut self.ttft_ms, key.as_str(), 1);
    }

    /// Counts a time to the first token, in all buckets that it is in.
    pub fn record_ttft(&mut self, worker_id: &str, model: &str, ttft_ms: u64)
        requires
            old(self).wf(),
        ensures
            final(self).wf(),
            final(self)@ == with_ttft(old(self)@, worker_id@, model@, ttft_ms),
    {
        let bounds: [u64; 8] = [50, 100, 250, 500, 1000, 2500, 5000, 10000];
        let ghost all = bounds@;
        let ghost before = self@;
        assert(all =~= buckets());
        let mut i: usize = 0;
        assert(all.take(0) =~= seq![]);
        while i < 8
            invariant
                i <= 8,
                all == bounds@,
                all.len() == 8,
                self.wf(),
                self@ == (MetricsModel {
                    ttft: bucketed(
                        before.ttft,
                        worker_id@,
                        model@,
                        ttft_ms,
                        all.take(i as int),
                    ),
                    ..before
                }),
            decreases 8 - i,
        {
            assert(all.take(i + 1).drop_last() =~= all.take(i as int));
            let bound: u64 = bounds[i];
            assert(all.take(i + 1).last() == bound);
            if ttft_ms <= bound {
                self.raise_bucket(worker_id, model, text::decimal(bound).as_str());
            }
            i = i + 1;
        }
        assert(all.take(8) =~= all);
        self.raise_bucket(worker_id, model, "+Inf");
    }

    /// Counts a rate of tokens, in thousandths of a token per second.
    pub fn record_rate(&mut self, worker_id: &str, model: &str, thousandths: u64)
        requires
            old(self).wf(),
        ensures
            final(self).wf(),
            final(self)@ == with_rate(old(self)@, worker_id@, model@, thousandths),
    {
        let key = joined(worker_id, model);
        add_count(&mut self.tokens_per_sec_sum, key.as_str(), thousandths);
        add_count(&mut self.tokens_per_sec_count, key.as_str(), 1);
    }

    /// Counts how much of a prompt was cached.
    pub fn record_cache_ratio(&mut self, worker_id: &str, hits: u64, total: u64)
        requires
            old(self).wf(),
        ensures
            final(self).wf(),
            final(self)@ == (MetricsModel {
                cache_hits: raised(old(self)@.cache_hits, worker_id@, hits),
                cache_total: raised(old(self)@.cache_total, worker_id@, total),
                ..old(self)@
            }),
    {
        add_count(&mut self.cache_hits, worker_id, hits);
        add_count(&mut self.cache_total, worker_id, total);
    }

    /// Sets how many requests a worker has.
    pub fn set_queue_depth(&mut self, worker_id: &str, depth: u64)
        requires
            old(self).wf(),
        ensures
            final(self).wf(),
            final(self)@ == (MetricsModel {
                queue_depth: old(self)@.queue_depth.insert(worker_id@, depth),
                ..old(self)@
            }),
    {
        self.queue_depth.insert(worker_id, depth);
    }

    /// Counts a tool call and how it ended.
    pub fn record_tool_call(&mut self, tool_name: &str, status: &str)
        requires
            old(self).wf(),
        ensures
            final(self).wf(),
            final(self)@ == (MetricsModel {
                tool_calls: raised(old(self)@.tool_calls, key2(tool_name@, status@), 1),
                ..old(self)@
            }),
    {
        let key = joined(tool_name, status);
        add_count(&mut self.tool_call_total, key.as_str(), 1);
    }

    /// Sets whether a worker is healthy.
    pub fn set_worker_health(&mut self, worker_id: &str, healthy: bool)
        requires
            old(self).wf(),
        ensures
            final(self).wf(),
            final(self)@ == (MetricsModel {
                health: old(self)@.health.insert(
                    worker_id@,
                    if healthy {
                        1
                    } else {
                        0
                    },
                ),
                ..old(self)@
            }),
    {
        let value: u64 = if healthy {
            1
        } else {
            0
        };
        self.worker_health.insert(worker_id, value);
    }

    /// Counts tokens.
    pub fn record_tokens(&mut self, worker_id: &str, model: &str, prompt: u64, completion: u64)
        requires
            old(self).wf(),
        ensures
            final(self).wf(),
            final(self)@ == with_tokens(old(self)@, worker_id@, model@, prompt, completion),
    {
        let key = joined(worker_id, model);
        add_count(&mut self.prompt_tokens, key.as_str(), prompt);
        add_count(&mut self.completion_tokens, key.as_str(), completion);
    }
}

impl Default for Metrics {
    fn default() -> (r: Metrics)
        ensures
            r.wf(),
            r@ == nothing_counted(),
    {
        Metrics::new()
    }
}

// ── Prometheus text ─────────────────────────────────────────────────────────

/// The labels that a key stands for.
#[derive(Clone, Copy, PartialEq, Eq, Structural)]
pub enum Shape {
    Worker,
    WorkerModel,
    ToolStatus,
    Request,
    Bucket,
}

/// A line of two labels.
pub open spec fn two_labels(
    name: Seq<char>,
    first: Seq<char>,
    second: Seq<char>,
    key: Seq<char>,
    value: Seq<char>,
) -> Seq<char> {
    match text::cut_at(key, ':') {
        Some((a, b)) => name + first + a + second + b + "\"} "@ + value + "\n"@,
        None => seq![],
    }
}

/// The bound that a bucket's key names.
pub open spec fn bound_in(parts: Seq<Seq<char>>) -> Seq<char> {
    if parts.len() == 5 {
        parts[3] + ":"@ + parts[4]
    } else {
        parts[3]
    }
}

/// The line for a key and its value. A key of another form has none.
pub open spec fn sample(shape: Shape, name: Seq<char>, key: Seq<char>, value: Seq<char>) -> Seq<char> {
    match shape {
        Shape::Worker => name + "{worker=\""@ + key + "\"} "@ + value + "\n"@,
        Shape::WorkerModel => two_labels(name, "{worker=\""@, "\",model=\""@, key, value),
        Shape::ToolStatus => two_labels(name, "{tool_name=\""@, "\",status=\""@, key, value),
        Shape::Request => match text::cut_at(key, ':') {
            Some((worker, rest)) => match text::cut_at(rest, ':') {
                Some((model, status)) => name + "{worker=\""@ + worker + "\",model=\""@ + model
                    + "\",status=\""@ + status + "\"} "@ + value + "\n"@,
                None => seq![],
            },
            None => seq![],
        },
        Shape::Bucket => {
            let parts = text::split(key, ':');
            if parts.len() >= 4 {
                name + "{worker=\""@ + parts[0] + "\",model=\""@ + parts[1] + "\",le=\""@
                    + bound_in(parts) + "\"} "@ + value + "\n"@
            } else {
                seq![]
            }
        },
    }
}

fn push_two_labels(out: &mut String, name: &str, first: &str, second: &str, key: &str, value: &str)
    ensures
        final(out)@ == old(out)@ + two_labels(name@, first@, second@, key@, value@),
{
    let ghost before = out@;
    match text::cut_text(key, ':') {
        Some((a, b)) => {
            let mut line = text::concat3(name, first, a.as_str());
            line.append(second);
            line.append(b.as_str());
            line.append("\"} ");
            line.append(value);
            line.append("\n");
            out.append(line.as_str());
        },
        None => {},
    }
    assert(out@ =~= before + two_labels(name@, first@, second@, key@, value@));
}

fn push_sample(out: &mut String, shape: Shape, name: &str, key: &str, value: &str)
    ensures
        final(out)@ == old(out)@ + sample(shape, name@, key@, value@),
{
    let ghost before = out@;
    match shape {
        Shape::Worker => {
            let mut line = text::concat3(name, "{worker=\"", key);
            line.append("\"} ");
            line.append(value);
            line.append("\n");
            out.append(line.as_str());
        },
        Shape::WorkerModel => push_two_labels(
            out,
            name,
            "{worker=\"",
            "\",model=\"",
            key,
            value,
        ),
        Shape::ToolStatus => push_two_labels(
            out,
            name,
            "{tool_name=\"",
            "\",status=\"",
            key,
            value,
        ),
        Shape::Request => match text::cut_text(key, ':') {
            Some((worker, rest)) => match text::cut_text(rest.as_str(), ':') {
                Some((model, status)) => {
                    let mut line = text::concat3(name, "{worker=\"", worker.as_str());
                    line.append("\",model=\"");
                    line.append(model.as_str());
                    line.append("\",status=\"");
                    line.append(status.as_str());
                    line.append("\"} ");
                    line.append(value);
                    line.append("\n");
                    out.append(line.as_str());
                },
                None => {},
            },
            None => {},
        },
        Shape::Bucket => {
            let parts = text::split_text(key, ':');
            let ghost all = text::texts(parts@);
            assert(all.len() == parts@.len());
            if parts.len() >= 4 {
                assert(all[0] == parts@[0]@ && all[1] == parts@[1]@ && all[3] == parts@[3]@);
                let bound = if parts.len() == 5 {
                    assert(all[4] == parts@[4]@);
                    text::concat3(parts[3].as_str(), ":", parts[4].as_str())
                } else {
                    parts[3].clone()
                };
                let mut line = text::concat3(name, "{worker=\"", parts[0].as_str());
                line.append("\",model=\"");
                line.append(parts[1].as_str());
                line.append("\",le=\"");
                line.append(bound.as_str());
                line.append("\"} ");
                line.append(value);
                line.append("\n");
                out.append(line.as_str());
            }
        },
    }
    assert(out@ =~= before + sample(shape, name@, key@, value@));
}

/// The keys and values of a map in some order.
pub type Listing = Seq<(Seq<char>, u64)>;

/// A list of all keys of a map, each once, with their values.
pub open spec fn lists(l: Listing, m: Counts) -> bool {
    &&& forall|i: int|
        0 <= i < l.len() ==> m.dom().contains((#[trigger] l[i]).0) && m[l[i].0] == l[i].1
    &&& forall|i: int, j: int| 0 <= i < j < l.len() ==> (#[trigger] l[i]).0 != (#[trigger] l[j]).0
    &&& forall|k: Seq<char>| #[trigger]
        m.dom().contains(k) ==> exists|i: int| 0 <= i < l.len() && (#[trigger] l[i]).0 == k
}

/// How values are written: as numbers, or as texts that are given for the keys.
pub enum ValueModel {
    Number,
    Given { texts: Map<Seq<char>, Seq<char>>, default: Seq<char> },
}

pub open spec fn written(values: ValueModel, key: Seq<char>, n: u64) -> Seq<char> {
    match values {
        ValueModel::Number => text::dec(n as nat),
        ValueModel::Given { texts, default } => if texts.dom().contains(key) {
            texts[key]
        } else {
            default
        },
    }
}

pub open spec fn samples(shape: Shape, name: Seq<char>, values: ValueModel, l: Listing) -> Seq<char>
    decreases l.len(),
{
    if l.len() == 0 {
        seq![]
    } else {
        let (k, n) = l.last();
        samples(shape, name, values, l.drop_last()) + sample(shape, name, k, written(values, k, n))
    }
}

spec fn listing(m: StrMap<u64>) -> Listing {
    m.entries@.map_values(|e: (String, u64)| (e.0@, e.1))
}

proof fn listing_lists(m: StrMap<u64>)
    requires
        m.wf(),
    ensures
        lists(listing(m), m@),
{
    let l = listing(m);
    assert forall|i: int| 0 <= i < l.len() implies m@.dom().contains((#[trigger] l[i]).0)
        && m@[l[i].0] == l[i].1 by {
        m.entry_is_mapped(i);
    }
    assert forall|k: Seq<char>| #[trigger] m@.dom().contains(k) implies exists|i: int|
        0 <= i < l.len() && (#[trigger] l[i]).0 == k by {
        let p = strmap::place(m.entries@, k);
        assert(strmap::is_at(m.entries@, k, p));
        assert(l[p].0 == k);
    }
}

/// Texts for the keys of a map.
pub struct GivenTexts<'a> {
    pub texts: &'a StrMap<String>,
    pub default: &'a str,
}

pub open spec fn value_model(given: Option<GivenTexts<'_>>) -> ValueModel {
    match given {
        None => ValueModel::Number,
        Some(g) => ValueModel::Given {
            texts: g.texts@.map_values(|s: String| s@),
            default: g.default@,
        },
    }
}

fn push_samples(
    out: &mut String,
    shape: Shape,
    name: &str,
    given: &Option<GivenTexts<'_>>,
    m: &StrMap<u64>,
)
    requires
        *given matches Some(g) ==> g.texts.wf(),
    ensures
        final(out)@ == old(out)@ + samples(shape, name@, value_model(*given), listing(*m)),
{
    let ghost before = out@;
    let ghost all = listing(*m);
    let ghost values = value_model(*given);
    let mut i: usize = 0;
    assert(before + samples(shape, name@, values, all.take(0)) =~= before);
    while i < m.entries.len()
        invariant
            i <= m.entries.len(),
            all == listing(*m),
            values == value_model(*given),
            *given matches Some(g) ==> g.texts.wf(),
            out@ == before + samples(shape, name@, values, all.take(i as int)),
        decreases m.entries.len() - i,
    {
        let key = m.entries[i].0.as_str();
        let n: u64 = m.entries[i].1;
        proof {
            assert(all.take(i + 1).drop_last() =~= all.take(i as int));
            assert(all.take(i + 1).last() == (key@, n));
        }
        let value = match given {
            None => text::decimal(n),
            Some(g) => match g.texts.get(key) {
                Some(t) => t.clone(),
                None => text::owned(g.default),
            },
        };
        assert(value@ =~= written(values, key@, n));
        let ghost mid = out@;
        push_sample(out, shape, name, key, value.as_str());
        assert(mid + sample(shape, name@, key@, value@) =~= before + samples(
            shape,
            name@,
            values,
            all.take(i + 1),
        ));
        i = i + 1;
    }
    assert(all.take(all.len() as int) =~= all);
}

/// One list for each section of the text.
pub struct Listings {
    pub requests: Listing,
    pub ttft: Listing,
    pub rates: Listing,
    pub cache: Listing,
    pub queue_depth: Listing,
    pub tool_calls: Listing,
    pub health: Listing,
    pub prompt_tokens: Listing,
    pub completion_tokens: Listing,
}

pub open spec fn lists_all(l: Listings, m: MetricsModel) -> bool {
    &&& lists(l.requests, m.requests)
    &&& lists(l.ttft, m.ttft)
    &&& lists(l.rates, m.rate_sum)
    &&& lists(l.cache, m.cache_hits)
    &&& lists(l.queue_depth, m.queue_depth)
    &&& lists(l.tool_calls, m.tool_calls)
    &&& lists(l.health, m.health)
    &&& lists(l.prompt_tokens, m.prompt_tokens)
    &&& lists(l.completion_tokens, m.completion_tokens)
}

/// The text of all sections. `rates` and `ratios` are the rates of tokens and the ratios of
/// cache hits, written out.
pub open spec fn prometheus(
    l: Listings,
    rates: Map<Seq<char>, Seq<char>>,
    ratios: Map<Seq<char>, Seq<char>>,
) -> Seq<char> {
    let n = ValueModel::Number;
    "# HELP brain_requests_total Total requests by worker, model, status\n# TYPE brain_requests_total counter\n"@
        + samples(Shape::Request, "brain_requests_total"@, n, l.requests)
        + "# HELP brain_ttft_ms_bucket Time-to-first-token histogram\n# TYPE brain_ttft_ms_bucket histogram\n"@
        + samples(Shape::Bucket, "brain_ttft_ms_bucket"@, n, l.ttft)
        + "# HELP brain_tokens_per_sec Tokens-per-second by worker, model\n# TYPE brain_tokens_per_sec gauge\n"@
        + samples(
        Shape::WorkerModel,
        "brain_tokens_per_sec"@,
        ValueModel::Given { texts: rates, default: "0.00"@ },
        l.rates,
    )
        + "# HELP brain_cache_hit_ratio Cache hit ratio by worker\n# TYPE brain_cache_hit_ratio gauge\n"@
        + samples(
        Shape::Worker,
        "brain_cache_hit_ratio"@,
        ValueModel::Given { texts: ratios, default: "0.0000"@ },
        l.cache,
    )
        + "# HELP brain_queue_depth Current queue depth by worker\n# TYPE brain_queue_depth gauge\n"@
        + samples(Shape::Worker, "brain_queue_depth"@, n, l.queue_depth)
        + "# HELP brain_tool_call_total Tool call outcomes\n# TYPE brain_tool_call_total counter\n"@
        + samples(Shape::ToolStatus, "brain_tool_call_total"@, n, l.tool_calls)
        + "# HELP brain_worker_health Worker health gauge (1=healthy)\n# TYPE brain_worker_health gauge\n"@
        + samples(Shape::Worker, "brain_worker_health"@, n, l.health)
        + "# HELP brain_prompt_tokens_total Total prompt tokens\n# TYPE brain_prompt_tokens_total counter\n"@
        + samples(Shape::WorkerModel, "brain_prompt_tokens_total"@, n, l.prompt_tokens)
        + "# HELP brain_completion_tokens_total Total completion tokens\n# TYPE brain_completion_tokens_total counter\n"@
        + samples(
        Shape::WorkerModel,
        "brain_completion_tokens_total"@,
        n,
        l.completion_tokens,
    )
}

/// A sum and how many values it is of, or a part and the whole.
pub struct Quotient {
    pub key: String,
    pub over: u64,
    pub under: u64,
}

pub open spec fn is_quotient(q: Quotient, over: Counts, under: Counts) -> bool {
    over.dom().contains(q.key@) && q.over == over[q.key@] && q.under == count_of(under, q.key@)
}

/// One quotient for each key, and no key twice.
pub open spec fn are_quotients(qs: Seq<Quotient>, over: Counts, under: Counts) -> bool {
    &&& forall|i: int, j: int|
        0 <= i < j < qs.len() ==> (#[trigger] qs[i]).key@ != (#[trigger] qs[j]).key@
    &&& forall|i: int| 0 <= i < qs.len() ==> is_quotient(#[trigger] qs[i], over, under)
    &&& forall|k: Seq<char>| #[trigger]
        over.dom().contains(k) ==> exists|i: int| 0 <= i < qs.len() && (#[trigger] qs[i]).key@ == k
}

fn quotients(over: &StrMap<u64>, under: &StrMap<u64>) -> (r: Vec<Quotient>)
    requires
        over.wf(),
        under.wf(),
    ensures
        are_quotients(r@, over@, under@),
{
    let mut out: Vec<Quotient> = Vec::new();
    let mut i: usize = 0;
    while i < over.entries.len()
        invariant
            i <= over.entries.len(),
            over.wf(),
            under.wf(),
            out@.len() == i,
            forall|k: int|
                0 <= k < i ==> is_quotient(#[trigger] out@[k], over@, under@) && out@[k].key@
                    == over.entries@[k].0@,
        decreases over.entries.len() - i,
    {
        proof {
            over.entry_is_mapped(i as int);
        }
        let key = over.entries[i].0.clone();
        let n: u64 = over.entries[i].1;
        let d: u64 = read_count(under, key.as_str());
        out.push(Quotient { key, over: n, under: d });
        i = i + 1;
    }
    assert forall|k: Seq<char>| #[trigger] over@.dom().contains(k) implies exists|i: int|
        0 <= i < out@.len() && (#[trigger] out@[i]).key@ == k by {
        let p = strmap::place(over.entries@, k);
        assert(strmap::is_at(over.entries@, k, p));
        assert(out@[p].key@ == k);
    }
    assert forall|i: int, j: int| 0 <= i < j < out@.len() implies (#[trigger] out@[i]).key@ != (
    #[trigger] out@[j]).key@ by {
        assert(over.entries@[i].0@ != over.entries@[j].0@);
    }
    out
}

impl Metrics {
    /// What the rates of tokens are made of: the sum in thousandths, and how many values it is
    /// of.
    pub fn rates(&self) -> (r: Vec<Quotient>)
        requires
            self.wf(),
        ensures
            are_quotients(r@, self@.rate_sum, self@.rate_count),
    {
        quotients(&self.tokens_per_sec_sum, &self.tokens_per_sec_count)
    }

    /// What the ratios of cache hits are made of: the hits, and all.
    pub fn ratios(&self) -> (r: Vec<Quotient>)
        requires
            self.wf(),
        ensures
            are_quotients(r@, self@.cache_hits, self@.cache_total),
    {
        quotients(&self.cache_hits, &self.cache_total)
    }

    /// The Prometheus text of everything. `rates` and `ratios` are the rates of tokens and the
    /// ratios of cache hits, written out.
    pub fn render_prometheus(&self, rates: &StrMap<String>, ratios: &StrMap<String>) -> (r: String)
        requires
            self.wf(),
            rates.wf(),
            ratios.wf(),
        ensures
            exists|l: Listings|
                #[trigger] lists_all(l, self@) && r@ == prometheus(
                    l,
                    rates@.map_values(|s: String| s@),
                    ratios@.map_values(|s: String| s@),
                ),
    {
        let numbers: Option<GivenTexts<'_>> = None;
        let given_rates = Some(GivenTexts { texts: rates, default: "0.00" });
        let given_ratios = Some(GivenTexts { texts: ratios, default: "0.0000" });
        let mut out = text::owned(
            "# HELP brain_requests_total Total requests by worker, model, status\n# TYPE brain_requests_total counter\n",
        );
        push_samples(
            &mut out,
            Shape::Request,
            "brain_requests_total",
            &numbers,
            &self.requests_total,
        );
        out.append(
            "# HELP brain_ttft_ms_bucket Time-to-first-token histogram\n# TYPE brain_ttft_ms_bucket histogram\n",
        );
        push_samples(&mut out, Shape::Bucket, "brain_ttft_ms_bucket", &numbers, &self.ttft_ms);
        out.append(
            "# HELP brain_tokens_per_sec Tokens-per-second by worker, model\n# TYPE brain_tokens_per_sec gauge\n",
        );
        push_samples(
            &mut out,
            Shape::WorkerModel,
            "brain_tokens_per_sec",
            &given_rates,
            &self.tokens_per_sec_sum,
        );
        out.append(
            "# HELP brain_cache_hit_ratio Cache hit ratio by worker\n# TYPE brain_cache_hit_ratio gauge\n",
        );
        push_samples(
            &mut out,
            Shape::Worker,
            "brain_cache_hit_ratio",
            &given_ratios,
            &self.cache_hits,
        );
        out.append(
            "# HELP brain_queue_depth Current queue depth by worker\n# TYPE brain_queue_depth gauge\n",
        );
        push_samples(&mut out, Shape::Worker, "brain_queue_depth", &numbers, &self.queue_depth);
        out.append(
            "# HELP brain_tool_call_total Tool call outcomes\n# TYPE brain_tool_call_total counter\n",
        );
        push_samples(
            &mut out,
            Shape::ToolStatus,
            "brain_tool_call_total",
            &numbers,
            &self.tool_call_total,
        );
        out.append(
            "# HELP brain_worker_health Worker health gauge (1=healthy)\n# TYPE brain_worker_health gauge\n",
        );
        push_samples(
            &mut out,
            Shape::Worker,
            "brain_worker_health",
            &numbers,
            &self.worker_health,
        );
        out.append(
            "# HELP brain_prompt_tokens_total Total prompt tokens\n# TYPE brain_prompt_tokens_total counter\n",
        );
        push_samples(
            &mut out,
            Shape::WorkerModel,
            "brain_prompt_tokens_total",
            &numbers,
            &self.prompt_tokens,
        );
        out.append(
            "# HELP brain_completion_tokens_total Total completion tokens\n# TYPE brain_completion_tokens_total counter\n",
        );
        push_samples(
            &mut out,
            Shape::WorkerModel,
            "brain_completion_tokens_total",
            &numbers,
            &self.completion_tokens,
        );
        proof {
            listing_lists(self.requests_total);
            listing_lists(self.ttft_ms);
            listing_lists(self.tokens_per_sec_sum);
            listing_lists(self.cache_hits);
            listing_lists(self.queue_depth);
            listing_lists(self.tool_call_total);
            listing_lists(self.worker_health);
            listing_lists(self.prompt_tokens);
            listing_lists(self.completion_tokens);
            let l = Listings {
                requests: listing(self.requests_total),
                ttft: listing(self.ttft_ms),
                rates: listing(self.tokens_per_sec_sum),
                cache: listing(self.cache_hits),
                queue_depth: listing(self.queue_depth),
                tool_calls: listing(self.tool_call_total),
                health: listing(self.worker_health),
                prompt_tokens: listing(self.prompt_tokens),
                completion_tokens: listing(self.completion_tokens),
            };
            assert(lists_all(l, self@));
        }
        out
    }
}

// ── Laws ────────────────────────────────────────────────────────────────────

proof fn bucket_keys_differ(worker: Seq<char>, model: Seq<char>, a: u64, b: u64)
    requires
        a != b,
    ensures
        bucket_key(worker, model, text::dec(a as nat)) != bucket_key(
            worker,
            model,
            text::dec(b as nat),
        ),
{
    let prefix = worker + ":"@ + model + ":le:"@;
    let x = bucket_key(worker, model, text::dec(a as nat));
    let y = bucket_key(worker, model, text::dec(b as nat));
    if x == y {
        assert(x.skip(prefix.len() as int) =~= text::dec(a as nat));
        assert(y.skip(prefix.len() as int) =~= text::dec(b as nat));
        text::dec_survives(a as nat);
        text::dec_survives(b as nat);
    }
}

/// A time to the first token counts once in each bucket whose bound it does not exceed, and in
/// no other, so that a bucket counts what is in those below it as well.
pub proof fn bucket_counts_what_is_below(
    m: Counts,
    worker: Seq<char>,
    model: Seq<char>,
    ms: u64,
    bounds: Seq<u64>,
    i: int,
)
    requires
        0 <= i < bounds.len(),
        forall|j: int, k: int| 0 <= j < k < bounds.len() ==> #[trigger] bounds[j] < #[trigger] bounds[k],
    ensures
        ({
            let key = bucket_key(worker, model, text::dec(bounds[i] as nat));
            count_of(bucketed(m, worker, model, ms, bounds), key) == builders::wrapped_sum(
                count_of(m, key),
                if ms <= bounds[i] {
                    1
                } else {
                    0
                },
            )
        }),
    decreases bounds.len(),
{
    let rest = bounds.drop_last();
    let key = bucket_key(worker, model, text::dec(bounds[i] as nat));
    if i < rest.len() {
        bucket_counts_what_is_below(m, worker, model, ms, rest, i);
        assert(bounds[i] < bounds[bounds.len() - 1]);
        bucket_keys_differ(worker, model, bounds[i], bounds.last());
    } else {
        bucket_is_untouched(m, worker, model, ms, rest, bounds[i]);
    }
}

proof fn bucket_is_untouched(
    m: Counts,
    worker: Seq<char>,
    model: Seq<char>,
    ms: u64,
    bounds: Seq<u64>,
    b: u64,
)
    requires
        forall|j: int| 0 <= j < bounds.len() ==> #[trigger] bounds[j] != b,
    ensures
        ({
            let key = bucket_key(worker, model, text::dec(b as nat));
            count_of(bucketed(m, worker, model, ms, bounds), key) == count_of(m, key)
        }),
    decreases bounds.len(),
{
    if bounds.len() > 0 {
        let rest = bounds.drop_last();
        assert forall|j: int| 0 <= j < rest.len() implies #[trigger] rest[j] != b by {
            assert(bounds[j] != b);
        }
        bucket_is_untouched(m, worker, model, ms, rest, b);
        assert(bounds[bounds.len() - 1] != b);
        bucket_keys_differ(worker, model, b, bounds.last());
    }
}

/// Counting raises its own count alone.
pub proof fn counting_is_local(m: Counts, key: Seq<char>, delta: u64, other: Seq<char>)
    requires
        other != key,
    ensures
        count_of(raised(m, key, delta), other) == count_of(m, other),
{
}

} // verus!
