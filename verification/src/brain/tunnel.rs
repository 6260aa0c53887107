//! The tunnel between the gateway and a worker.
use vstd::prelude::*;

use crate::brain::idempotency;
use crate::brain::metrics::{Metrics, MetricsModel};
use crate::brain::protocol::{ChunkMessage, DoneMessage, FinishReason, WorkerMessage};
use crate::brain::registry::{self, WorkerInfo, WorkerRegistry};
use crate::brain::router::{self, Router};
use crate::text;

verus! {

// ── Keeping the tunnel alive ────────────────────────────────────────────────

/// How often a worker is pinged, in milliseconds: more often than a proxy on the way gives an
/// idle connection up.
pub const PING_INTERVAL_MS: u64 = 25000;

/// For how many seconds a worker may say nothing before its tunnel is given up.
pub const IDLE_TIMEOUT_S: u64 = 90;

/// The longest time between two looks at the clock, in milliseconds.
pub const LONGEST_WAIT_MS: u64 = 5000;

/// What is due.
#[derive(Clone, Copy, PartialEq, Eq, Structural)]
pub enum Due {
    /// The worker has been silent for too long.
    Close,
    Ping,
    /// Nothing, for so many milliseconds.
    Wait(u64),
}

/// When the worker was last heard of, and when it is to be pinged, in milliseconds.
#[derive(Clone, Copy, PartialEq, Eq, Structural)]
pub struct TunnelClock {
    pub last_heard: u64,
    pub next_ping: u64,
}

/// The time of the next ping after one at `now`.
pub open spec fn ping_after(now: u64) -> u64 {
    if now + PING_INTERVAL_MS <= u64::MAX {
        (now + PING_INTERVAL_MS) as u64
    } else {
        u64::MAX
    }
}

pub open spec fn due_at(c: TunnelClock, now: u64) -> Due {
    if idempotency::elapsed(now, c.last_heard) / 1000 > IDLE_TIMEOUT_S {
        Due::Close
    } else if now >= c.next_ping {
        Due::Ping
    } else if c.next_ping - now < LONGEST_WAIT_MS {
        Due::Wait((c.next_ping - now) as u64)
    } else {
        Due::Wait(LONGEST_WAIT_MS)
    }
}

fn ping_time(now: u64) -> (r: u64)
    ensures
        r == ping_after(now),
{
    now.saturating_add(PING_INTERVAL_MS)
}

impl TunnelClock {
    pub fn new(now: u64) -> (r: TunnelClock)
        ensures
            r == (TunnelClock { last_heard: now, next_ping: ping_after(now) }),
    {
        TunnelClock { last_heard: now, next_ping: ping_time(now) }
    }

    pub fn due(&self, now: u64) -> (r: Due)
        ensures
            r == due_at(*self, now),
    {
        let silent: u64 = now.saturating_sub(self.last_heard);
        if silent / 1000 > IDLE_TIMEOUT_S {
            Due::Close
        } else if now >= self.next_ping {
            Due::Ping
        } else {
            let left: u64 = self.next_ping - now;
            if left < LONGEST_WAIT_MS {
                Due::Wait(left)
            } else {
                Due::Wait(LONGEST_WAIT_MS)
            }
        }
    }

    /// The worker was pinged.
    pub fn pinged(&mut self, now: u64)
        ensures
            *final(self) == (TunnelClock { next_ping: ping_after(now), ..*old(self) }),
    {
        self.next_ping = ping_time(now);
    }

    /// The worker was heard of.
    pub fn heard(&mut self, now: u64)
        ensures
            *final(self) == (TunnelClock { last_heard: now, ..*old(self) }),
    {
        self.last_heard = now;
    }
}

// ── Messages from a worker ──────────────────────────────────────────────────

/// The first message of a worker must introduce it. Returns its name, under which it is
/// registered, or nothing if it says something else.
pub fn on_first_message(msg: WorkerMessage, workers: &mut WorkerRegistry, now: u64) -> (r: Option<
    String,
>)
    requires
        old(workers).wf(),
    ensures
        final(workers).wf(),
        match msg {
            WorkerMessage::Register(reg) => text::opt_text(r) == Some(reg.worker_id@)
                && final(workers)@ == old(workers)@.insert(
                reg.worker_id@,
                registry::introduced(reg, now),
            ),
            _ => r is None && final(workers)@ == old(workers)@,
        },
{
    match msg {
        WorkerMessage::Register(reg) => {
            let id = reg.worker_id.clone();
            workers.register(WorkerInfo::from_register(reg, now));
            Some(id)
        },
        _ => None,
    }
}

/// What is to be done about a message of a worker.
pub enum TunnelAction {
    Nothing,
    /// Answer with a ping.
    Ping,
    /// Pass a piece of an answer on to the client that waits for it.
    Chunk(ChunkMessage),
    /// Pass the end of an answer on to the client that waits for it.
    Done(DoneMessage),
}

/// What a message does to the workers.
pub open spec fn workers_after(
    ws: registry::Workers,
    id: Seq<char>,
    msg: WorkerMessage,
    now: u64,
) -> registry::Workers {
    match msg {
        WorkerMessage::Heartbeat(hb) => registry::with_model(
            registry::reported(ws, id, hb.active_requests, hb.vram_free_mb, now),
            id,
            hb.model@,
        ),
        WorkerMessage::Done(_) => registry::one_less(ws, id),
        WorkerMessage::Error(_) => registry::one_less(ws, id),
        _ => ws,
    }
}

/// What a message does to the requests that wait: its end takes a request out.
pub open spec fn pending_after(
    pending: Map<Seq<char>, Seq<char>>,
    msg: WorkerMessage,
) -> Map<Seq<char>, Seq<char>> {
    match msg {
        WorkerMessage::Done(d) => pending.remove(d.request_id@),
        WorkerMessage::Error(e) => pending.remove(e.request_id@),
        _ => pending,
    }
}

/// What a message does to the metrics.
pub open spec fn metrics_after(
    m: MetricsModel,
    ws: registry::Workers,
    id: Seq<char>,
    msg: WorkerMessage,
) -> MetricsModel {
    match msg {
        WorkerMessage::Heartbeat(hb) => MetricsModel {
            queue_depth: m.queue_depth.insert(id, hb.active_requests as u64),
            health: m.health.insert(id, 1),
            ..m
        },
        WorkerMessage::Done(_) => MetricsModel {
            queue_depth: m.queue_depth.insert(
                id,
                registry::active_of(registry::one_less(ws, id), id) as u64,
            ),
            ..m
        },
        _ => m,
    }
}

/// What is to be done about a message. Only requests that wait are passed anything; a failed
/// task ends like any other, with nothing counted.
pub open spec fn is_action(
    a: TunnelAction,
    pending: Map<Seq<char>, Seq<char>>,
    msg: WorkerMessage,
) -> bool {
    match msg {
        WorkerMessage::Heartbeat(_) => a is Ping,
        WorkerMessage::Chunk(c) => if pending.dom().contains(c.request_id@) {
            a == TunnelAction::Chunk(c)
        } else {
            a is Nothing
        },
        WorkerMessage::Done(d) => if pending.dom().contains(d.request_id@) {
            a == TunnelAction::Done(d)
        } else {
            a is Nothing
        },
        WorkerMessage::Error(e) => if pending.dom().contains(e.request_id@) {
            a matches TunnelAction::Done(d) && router::is_failure(d, e.request_id@)
        } else {
            a is Nothing
        },
        _ => a is Nothing,
    }
}

/// Takes a message of the worker `id` in.
pub fn on_message(
    msg: WorkerMessage,
    id: &str,
    workers: &mut WorkerRegistry,
    requests: &mut Router,
    metrics: &mut Metrics,
    now: u64,
) -> (r: TunnelAction)
    requires
        old(workers).wf(),
        old(requests).wf(),
        old(metrics).wf(),
    ensures
        final(workers).wf(),
        final(requests).wf(),
        final(metrics).wf(),
        final(workers)@ == workers_after(old(workers)@, id@, msg, now),
        final(requests)@ == pending_after(old(requests)@, msg),
        final(metrics)@ == metrics_after(old(metrics)@, old(workers)@, id@, msg),
        is_action(r, old(requests)@, msg),
{
    match msg {
        WorkerMessage::Heartbeat(hb) => {
            workers.update_load(id, hb.active_requests, hb.vram_free_mb, now);
            workers.update_model(id, hb.model.as_str());
            metrics.set_queue_depth(id, hb.active_requests as u64);
            metrics.set_worker_health(id, true);
            TunnelAction::Ping
        },
        WorkerMessage::Chunk(chunk) => if requests.is_pending(chunk.request_id.as_str()) {
            TunnelAction::Chunk(chunk)
        } else {
            TunnelAction::Nothing
        },
        WorkerMessage::Done(done) => {
            workers.decrement_active(id);
            let depth: u32 = workers.active_requests(id);
            metrics.set_queue_depth(id, depth as u64);
            let waits = requests.is_pending(done.request_id.as_str());
            requests.finish(done.request_id.as_str());
            if waits {
                TunnelAction::Done(done)
            } else {
                TunnelAction::Nothing
            }
        },
        WorkerMessage::Error(err) => {
            workers.decrement_active(id);
            let waits = requests.is_pending(err.request_id.as_str());
            requests.finish(err.request_id.as_str());
            if waits {
                TunnelAction::Done(
                    DoneMessage {
                        request_id: err.request_id.clone(),
                        finish_reason: FinishReason::Error,
                        prompt_tokens: 0,
                        comp_tokens: 0,
                    },
                )
            } else {
                TunnelAction::Nothing
            }
        },
        _ => TunnelAction::Nothing,
    }
}

// ── Messages to a worker ────────────────────────────────────────────────────

/// A message goes to the worker `id`: a task is counted before it is written.
pub fn before_send(msg: &WorkerMessage, id: &str, workers: &mut WorkerRegistry)
    requires
        old(workers).wf(),
    ensures
        final(workers).wf(),
        final(workers)@ == (if *msg is Task {
            registry::one_more(old(workers)@, id@)
        } else {
            old(workers)@
        }),
{
    match msg {
        WorkerMessage::Task(_) => workers.increment_active(id),
        _ => {},
    }
}

/// A message could not be written: a task no longer counts.
pub fn after_failed_send(msg: &WorkerMessage, id: &str, workers: &mut WorkerRegistry)
    requires
        old(workers).wf(),
    ensures
        final(workers).wf(),
        final(workers)@ == (if *msg is Task {
            registry::one_less(old(workers)@, id@)
        } else {
            old(workers)@
        }),
{
    match msg {
        WorkerMessage::Task(_) => workers.decrement_active(id),
        _ => {},
    }
}

// ── The end ─────────────────────────────────────────────────────────────────

/// The tunnel of the worker `id` is closed: the worker is gone, and every request that waits for
/// it gets its end at once.
pub fn on_close(id: &str, workers: &mut WorkerRegistry, requests: &mut Router) -> (r: Vec<
    DoneMessage,
>)
    requires
        old(workers).wf(),
        old(requests).wf(),
    ensures
        final(workers).wf(),
        final(requests).wf(),
        final(workers)@ == old(workers)@.remove(id@),
        exists|ids: Seq<Seq<char>>|
            #[trigger] router::are_waiting(ids, old(requests)@, id@) && final(requests)@ == old(
                requests,
            )@.remove_keys(ids.to_set()) && r@.len() == ids.len() && (forall|i: int|
                0 <= i < r@.len() ==> router::is_failure(#[trigger] r@[i], ids[i])),
{
    let _gone = workers.deregister(id);
    requests.fail_all_for_worker(id)
}

// ── Laws ────────────────────────────────────────────────────────────────────

/// A task that could not be written leaves no trace in the worker's load.
pub proof fn failed_send_is_not_counted(ws: registry::Workers, id: Seq<char>)
    requires
        ws.dom().contains(id) ==> ws[id].active_requests < u32::MAX,
    ensures
        registry::one_less(registry::one_more(ws, id), id) == ws,
{
    assert(registry::one_less(registry::one_more(ws, id), id) =~= ws);
}

/// A worker that is heard of at least every 90 seconds is not given up.
pub proof fn heartbeats_keep_the_tunnel(c: TunnelClock, now: u64)
    requires
        c.last_heard <= now,
        now - c.last_heard <= 90000,
    ensures
        !(due_at(c, now) is Close),
{
}

/// The clock is looked at every five seconds at the latest.
pub proof fn waits_are_short(c: TunnelClock, now: u64)
    ensures
        due_at(c, now) matches Due::Wait(ms) ==> 0 < ms <= LONGEST_WAIT_MS,
{
}

/// Once the end of an answer has come, nothing more is passed on for it.
pub proof fn nothing_after_the_end(
    pending: Map<Seq<char>, Seq<char>>,
    done: DoneMessage,
    late: ChunkMessage,
    a: TunnelAction,
)
    requires
        late.request_id@ == done.request_id@,
        is_action(
            a,
            pending_after(pending, WorkerMessage::Done(done)),
            WorkerMessage::Chunk(late),
        ),
    ensures
        a is Nothing,
{
}

} // verus!
