//! What the gateway knows of its workers, and what messages do to it.
use vstd::prelude::*;

use crate::brain::metrics::{self, MetricsModel};
use crate::brain::protocol::WorkerMessage;
use crate::brain::registry::{self, WorkerModel, Workers};
use crate::brain::tunnel::{self, TunnelAction};
use crate::text;

verus! {

/// Nothing is known otherwise of any other worker, and none has come or gone.
pub open spec fn others_stay(a: Workers, b: Workers, id: Seq<char>) -> bool {
    &&& a.dom() == b.dom()
    &&& forall|k: Seq<char>| k != id && #[trigger] a.dom().contains(k) ==> b[k] == a[k]
}

/// What a worker is, but for its load and when it was last heard of.
pub open spec fn same_worker(a: WorkerModel, b: WorkerModel) -> bool {
    &&& a.worker_id == b.worker_id
    &&& a.gpu == b.gpu
    &&& a.max_context == b.max_context
    &&& a.connected_at == b.connected_at
    &&& a.api_type == b.api_type
}

/// A task that is given to a worker counts as one, for this worker alone, until it is over; then
/// all is as before.
pub proof fn tasks_are_counted(ws: Workers, id: Seq<char>)
    requires
        ws.dom().contains(id),
        ws[id].active_requests < u32::MAX,
    ensures
        ({
            let more = registry::one_more(ws, id);
            &&& others_stay(ws, more, id)
            &&& same_worker(ws[id], more[id])
            &&& more[id].model == ws[id].model
            &&& more[id].active_requests == ws[id].active_requests + 1
            &&& more[id].last_heartbeat == ws[id].last_heartbeat
            &&& more[id].vram_free_mb == ws[id].vram_free_mb
            &&& registry::active_of(more, id) == registry::active_of(ws, id) + 1
            &&& registry::one_less(more, id) == ws
        }),
{
    let more = registry::one_more(ws, id);
    assert(more.dom() =~= ws.dom());
    assert(registry::one_less(more, id) =~= ws);
}

/// Nothing is counted for a worker that is not there, and none comes about by counting.
pub proof fn unknown_worker_is_not_counted(ws: Workers, id: Seq<char>)
    requires
        !ws.dom().contains(id),
    ensures
        registry::one_more(ws, id) == ws,
        registry::one_less(ws, id) == ws,
        registry::active_of(ws, id) == 0,
{
}

/// A heartbeat says how busy the worker is, how much memory it has and which model it runs, and
/// keeps it from being dropped for the next three quarters of a minute; of other workers it says
/// nothing.
pub proof fn heartbeat_is_taken_in(
    ws: Workers,
    id: Seq<char>,
    msg: WorkerMessage,
    now: u64,
    later: u64,
)
    requires
        ws.dom().contains(id),
        msg is Heartbeat,
        later <= now + 45_999,
    ensures
        ({
            let hb = msg->Heartbeat_0;
            let after = tunnel::workers_after(ws, id, msg, now);
            &&& others_stay(ws, after, id)
            &&& same_worker(ws[id], after[id])
            &&& after[id].active_requests == hb.active_requests
            &&& after[id].vram_free_mb == hb.vram_free_mb
            &&& after[id].model == hb.model@
            &&& after[id].last_heartbeat == now
            &&& !registry::is_stale(after[id], later)
        }),
{
    let after = tunnel::workers_after(ws, id, msg, now);
    assert(after.dom() =~= ws.dom());
}

/// A worker that has not been heard of for a minute is stale.
pub proof fn silent_worker_is_stale(w: WorkerModel, now: u64)
    requires
        now >= w.last_heartbeat + 60_000,
    ensures
        registry::is_stale(w, now),
{
}

/// What a worker says of one request reaches this request alone: a piece of its answer as it is,
/// and its end, after which it waits no more and counts no more; and all other requests wait on.
pub proof fn messages_reach_their_request(
    a: TunnelAction,
    pending: Map<Seq<char>, Seq<char>>,
    ws: Workers,
    id: Seq<char>,
    msg: WorkerMessage,
    other: Seq<char>,
    now: u64,
)
    requires
        tunnel::is_action(a, pending, msg),
    ensures
        msg matches WorkerMessage::Chunk(c) ==> {
            &&& pending.dom().contains(c.request_id@) ==> (a matches TunnelAction::Chunk(d) && d == c)
            &&& !pending.dom().contains(c.request_id@) ==> a is Nothing
            &&& tunnel::pending_after(pending, msg) == pending
            &&& tunnel::workers_after(ws, id, msg, now) == ws
        },
        msg matches WorkerMessage::Done(d) ==> {
            &&& pending.dom().contains(d.request_id@) ==> (a matches TunnelAction::Done(e) && e == d)
            &&& !pending.dom().contains(d.request_id@) ==> a is Nothing
            &&& !tunnel::pending_after(pending, msg).dom().contains(d.request_id@)
            &&& other != d.request_id@ ==> tunnel::pending_after(pending, msg).dom().contains(other)
                == pending.dom().contains(other)
            &&& ws.dom().contains(id) && ws[id].active_requests > 0
                ==> tunnel::workers_after(ws, id, msg, now)[id].active_requests
                == ws[id].active_requests - 1
        },
        msg matches WorkerMessage::Error(e) ==> {
            &&& pending.dom().contains(e.request_id@) ==> (a matches TunnelAction::Done(d)
                && d.request_id@ == e.request_id@ && d.prompt_tokens == 0 && d.comp_tokens == 0)
            &&& !pending.dom().contains(e.request_id@) ==> a is Nothing
            &&& !tunnel::pending_after(pending, msg).dom().contains(e.request_id@)
            &&& other != e.request_id@ ==> tunnel::pending_after(pending, msg).dom().contains(other)
                == pending.dom().contains(other)
            &&& ws.dom().contains(id) && ws[id].active_requests > 0
                ==> tunnel::workers_after(ws, id, msg, now)[id].active_requests
                == ws[id].active_requests - 1
        },
{
}

/// A name is alike to any longer one that holds it, and to itself; names that hold no part of
/// each other are not alike.
pub proof fn longer_names_are_alike(before: Seq<char>, name: Seq<char>, after: Seq<char>)
    ensures
        registry::model_matches(name, name),
        registry::model_matches(before + name + after, name),
        registry::model_matches(name, before + name + after),
{
    let long = before + name + after;
    let k = before.len() as int;
    assert(long.subrange(k, k + name.len()) =~= name);
    assert(text::occurs_at(long, name, k));
    text::find_from_is_first(long, name, 0);
}

/// Names neither of which stands in the other are not alike.
pub proof fn other_names_are_not_alike(a: Seq<char>, b: Seq<char>)
    requires
        forall|i: int| !#[trigger] text::occurs_at(a, b, i),
        forall|i: int| !#[trigger] text::occurs_at(b, a, i),
    ensures
        !registry::model_matches(a, b),
{
    text::find_from_is_first(a, b, 0);
    text::find_from_is_first(b, a, 0);
    if a == b {
        assert(a.subrange(0, a.len() as int) =~= b);
        assert(text::occurs_at(a, b, 0));
    }
}

/// The depth of a worker's queue is shown as the worker reports it, and as one less once a task
/// is over; a worker that is heard of is shown as healthy. Of other workers nothing changes.
pub proof fn load_is_shown(
    m: MetricsModel,
    ws: Workers,
    id: Seq<char>,
    msg: WorkerMessage,
    other: Seq<char>,
)
    ensures
        ({
            let after = tunnel::metrics_after(m, ws, id, msg);
            &&& msg matches WorkerMessage::Heartbeat(hb) ==> metrics::count_of(
                after.queue_depth,
                id,
            ) == hb.active_requests && metrics::count_of(after.health, id) == 1
            &&& msg is Done && ws.dom().contains(id) && ws[id].active_requests > 0
                ==> metrics::count_of(after.queue_depth, id) == ws[id].active_requests - 1
            &&& other != id ==> metrics::count_of(after.queue_depth, other) == metrics::count_of(
                m.queue_depth,
                other,
            ) && metrics::count_of(after.health, other) == metrics::count_of(m.health, other)
            &&& after.requests == m.requests
            &&& after.prompt_tokens == m.prompt_tokens
            &&& after.completion_tokens == m.completion_tokens
        }),
{
}

} // verus!
