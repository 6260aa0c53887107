//! The workers that are connected.
use vstd::prelude::*;

use crate::brain::idempotency;
use crate::brain::protocol::RegisterMsg;
use crate::strmap::{self, StrMap};
use crate::text;

verus! {

/// A connected worker. Times are in milliseconds.
pub struct WorkerInfo {
    pub worker_id: String,
    pub model: String,
    pub gpu: String,
    pub vram_free_mb: u32,
    pub max_context: u32,
    pub active_requests: u32,
    pub last_heartbeat: u64,
    pub connected_at: u64,
    /// The wire format that the worker speaks.
    pub api_type: String,
}

#[verifier::ext_equal]
pub struct WorkerModel {
    pub worker_id: Seq<char>,
    pub model: Seq<char>,
    pub gpu: Seq<char>,
    pub vram_free_mb: u32,
    pub max_context: u32,
    pub active_requests: u32,
    pub last_heartbeat: u64,
    pub connected_at: u64,
    pub api_type: Seq<char>,
}

impl View for WorkerInfo {
    type V = WorkerModel;

    open spec fn view(&self) -> WorkerModel {
        WorkerModel {
            worker_id: self.worker_id@,
            model: self.model@,
            gpu: self.gpu@,
            vram_free_mb: self.vram_free_mb,
            max_context: self.max_context,
            active_requests: self.active_requests,
            last_heartbeat: self.last_heartbeat,
            connected_at: self.connected_at,
            api_type: self.api_type@,
        }
    }
}

/// The worker that introduces itself at the time `now`.
pub open spec fn introduced(reg: RegisterMsg, now: u64) -> WorkerModel {
    WorkerModel {
        worker_id: reg.worker_id@,
        model: reg.model@,
        gpu: reg.gpu@,
        vram_free_mb: reg.vram_free_mb,
        max_context: reg.max_context,
        active_requests: reg.active_requests,
        last_heartbeat: now,
        connected_at: now,
        api_type: reg.api_type@,
    }
}

impl WorkerInfo {
    /// The worker that introduces itself at the time `now`.
    pub fn from_register(reg: RegisterMsg, now: u64) -> (r: WorkerInfo)
        ensures
            r@ == introduced(reg, now),
    {
        WorkerInfo {
            worker_id: reg.worker_id,
            model: reg.model,
            gpu: reg.gpu,
            vram_free_mb: reg.vram_free_mb,
            max_context: reg.max_context,
            active_requests: reg.active_requests,
            last_heartbeat: now,
            connected_at: now,
            api_type: reg.api_type,
        }
    }
}

/// What is shown of a worker.
pub struct WorkerStatus {
    pub worker_id: String,
    pub model: String,
    pub gpu: String,
    pub vram_free_mb: u32,
    pub max_context: u32,
    pub active_requests: u32,
    /// Seconds since the last heartbeat.
    pub last_heartbeat_s: u64,
    /// Seconds since it connected.
    pub connected_s: u64,
    pub api_type: String,
}

pub open spec fn is_status(s: WorkerStatus, w: WorkerModel, now: u64) -> bool {
    &&& s.worker_id@ == w.worker_id
    &&& s.model@ == w.model
    &&& s.gpu@ == w.gpu
    &&& s.vram_free_mb == w.vram_free_mb
    &&& s.max_context == w.max_context
    &&& s.active_requests == w.active_requests
    &&& s.last_heartbeat_s == idempotency::elapsed(now, w.last_heartbeat) / 1000
    &&& s.connected_s == idempotency::elapsed(now, w.connected_at) / 1000
    &&& s.api_type@ == w.api_type
}

/// Whether a worker with one model serves a request for another: the one name is in the other.
pub open spec fn model_matches(worker: Seq<char>, wanted: Seq<char>) -> bool {
    worker == wanted || text::contains(worker, wanted) || text::contains(wanted, worker)
}

pub type Workers = Map<Seq<char>, WorkerModel>;

/// The workers that a request may be for.
#[verifier::ext_equal]
pub enum Wanted {
    /// Those with the very model.
    Exactly(Seq<char>),
    /// Those with a model whose name is in that of the model, or the other way round.
    Alike(Seq<char>),
    Any,
}

/// Whether the worker `id` is one of those that are wanted.
pub open spec fn serves(ws: Workers, wanted: Wanted, id: Seq<char>) -> bool {
    ws.dom().contains(id) && match wanted {
        Wanted::Exactly(m) => ws[id].model == m,
        Wanted::Alike(m) => model_matches(ws[id].model, m),
        Wanted::Any => true,
    }
}

/// One of the workers that are wanted is there.
pub open spec fn is_served(ws: Workers, wanted: Wanted) -> bool {
    exists|k: Seq<char>| #[trigger] serves(ws, wanted, k)
}

/// The worker `id` is wanted, and none that is has fewer requests.
pub open spec fn is_least_busy(ws: Workers, wanted: Wanted, id: Seq<char>) -> bool {
    serves(ws, wanted, id) && forall|k: Seq<char>| #[trigger]
        serves(ws, wanted, k) ==> ws[id].active_requests <= ws[k].active_requests
}

/// A worker that a request for `model` may go to: a least busy one of those whose model is
/// alike, or a least busy one of all where there is none.
pub open spec fn is_best_alike(ws: Workers, model: Seq<char>, id: Seq<char>) -> bool {
    if is_served(ws, Wanted::Alike(model)) {
        is_least_busy(ws, Wanted::Alike(model), id)
    } else {
        is_least_busy(ws, Wanted::Any, id)
    }
}

/// A worker that a request may go to: a least busy one of those with the very model, where
/// there is none one of those whose model is alike, and where there is none either, or no model
/// is named, one of all.
pub open spec fn is_best(ws: Workers, model: Option<Seq<char>>, id: Seq<char>) -> bool {
    match model {
        Some(m) => if is_served(ws, Wanted::Exactly(m)) {
            is_least_busy(ws, Wanted::Exactly(m), id)
        } else {
            is_best_alike(ws, m, id)
        },
        None => is_least_busy(ws, Wanted::Any, id),
    }
}

/// Whether a worker has been silent for more than 45 seconds.
pub open spec fn is_stale(w: WorkerModel, now: u64) -> bool {
    idempotency::elapsed(now, w.last_heartbeat) / 1000 > 45
}

/// The workers, one of which has a request more.
pub open spec fn one_more(ws: Workers, id: Seq<char>) -> Workers {
    if ws.dom().contains(id) {
        let w = ws[id];
        ws.insert(
            id,
            WorkerModel {
                active_requests: if w.active_requests < u32::MAX {
                    (w.active_requests + 1) as u32
                } else {
                    u32::MAX
                },
                ..w
            },
        )
    } else {
        ws
    }
}

/// The workers, one of which has a request less.
pub open spec fn one_less(ws: Workers, id: Seq<char>) -> Workers {
    if ws.dom().contains(id) {
        let w = ws[id];
        ws.insert(
            id,
            WorkerModel {
                active_requests: if w.active_requests > 0 {
                    (w.active_requests - 1) as u32
                } else {
                    0
                },
                ..w
            },
        )
    } else {
        ws
    }
}

/// The workers, one of which has reported its load.
pub open spec fn reported(ws: Workers, id: Seq<char>, active: u32, vram: u32, now: u64) -> Workers {
    if ws.dom().contains(id) {
        ws.insert(
            id,
            WorkerModel {
                active_requests: active,
                vram_free_mb: vram,
                last_heartbeat: now,
                ..ws[id]
            },
        )
    } else {
        ws
    }
}

/// The workers, one of which has another model.
pub open spec fn with_model(ws: Workers, id: Seq<char>, model: Seq<char>) -> Workers {
    if ws.dom().contains(id) {
        ws.insert(id, WorkerModel { model, ..ws[id] })
    } else {
        ws
    }
}

/// How many requests a worker has.
pub open spec fn active_of(ws: Workers, id: Seq<char>) -> u32 {
    if ws.dom().contains(id) {
        ws[id].active_requests
    } else {
        0
    }
}

/// The workers that are connected, by their names.
pub struct WorkerRegistry {
    workers: StrMap<WorkerInfo>,
}

impl View for WorkerRegistry {
    type V = Workers;

    closed spec fn view(&self) -> Workers {
        self.workers@.map_values(|w: WorkerInfo| w@)
    }
}

fn age(now: u64, then: u64) -> (r: u64)
    ensures
        r == idempotency::elapsed(now, then),
{
    if now >= then {
        now - then
    } else {
        0
    }
}

fn matches_model(worker: &str, wanted: &str) -> (r: bool)
    ensures
        r == model_matches(worker@, wanted@),
{
    text::str_eq(worker, wanted) || text::has_part(worker, wanted) || text::has_part(
        wanted,
        worker,
    )
}

/// The workers that a request may be for.
enum Wish<'a> {
    Exactly(&'a str),
    Alike(&'a str),
    Any,
}

impl<'a> View for Wish<'a> {
    type V = Wanted;

    closed spec fn view(&self) -> Wanted {
        match *self {
            Wish::Exactly(m) => Wanted::Exactly(m@),
            Wish::Alike(m) => Wanted::Alike(m@),
            Wish::Any => Wanted::Any,
        }
    }
}

impl WorkerRegistry {
    /// Every worker is listed under its own name.
    pub closed spec fn wf(&self) -> bool {
        &&& self.workers.wf()
        &&& forall|id: Seq<char>| #[trigger]
            self.workers@.dom().contains(id) ==> self.workers@[id].worker_id@ == id
    }

    /// A worker is found under its own name alone.
    pub proof fn names_match(&self, id: Seq<char>)
        requires
            self.wf(),
            self@.dom().contains(id),
        ensures
            self@[id].worker_id == id,
    {
    }

    pub fn new() -> (r: WorkerRegistry)
        ensures
            r.wf(),
            r@ == Map::<Seq<char>, WorkerModel>::empty(),
    {
        let r = WorkerRegistry { workers: StrMap::new() };
        assert(r@ =~= Map::<Seq<char>, WorkerModel>::empty());
        r
    }

    /// Adds a worker, in place of an earlier one of its name.
    pub fn register(&mut self, info: WorkerInfo)
        requires
            old(self).wf(),
        ensures
            final(self).wf(),
            final(self)@ == old(self)@.insert(info.worker_id@, info@),
    {
        let id = info.worker_id.clone();
        self.workers.insert(id.as_str(), info);
        assert(self@ =~= old(self)@.insert(id@, info@));
    }

    /// Drops a worker; returns whether there was one.
    pub fn deregister(&mut self, id: &str) -> (r: bool)
        requires
            old(self).wf(),
        ensures
            final(self).wf(),
            final(self)@ == old(self)@.remove(id@),
            r == old(self)@.dom().contains(id@),
    {
        let gone = self.workers.remove(id);
        assert(self@ =~= old(self)@.remove(id@));
        gone.is_some()
    }

    /// One request more for a worker.
    pub fn increment_active(&mut self, id: &str)
        requires
            old(self).wf(),
        ensures
            final(self).wf(),
            final(self)@ == one_more(old(self)@, id@),
    {
        match self.workers.remove(id) {
            Some(w) => {
                let active: u32 = w.active_requests.saturating_add(1);
                let changed = WorkerInfo { active_requests: active, ..w };
                self.workers.insert(id, changed);
                assert(self@ =~= old(self)@.insert(id@, changed@));
            },
            None => {},
        }
    }

    /// One request less for a worker.
    pub fn decrement_active(&mut self, id: &str)
        requires
            old(self).wf(),
        ensures
            final(self).wf(),
            final(self)@ == one_less(old(self)@, id@),
    {
        match self.workers.remove(id) {
            Some(w) => {
                let active: u32 = w.active_requests.saturating_sub(1);
                let changed = WorkerInfo { active_requests: active, ..w };
                self.workers.insert(id, changed);
                assert(self@ =~= old(self)@.insert(id@, changed@));
            },
            None => {},
        }
    }

    /// Takes over what a worker reports of itself.
    pub fn update_load(&mut self, id: &str, active: u32, vram: u32, now: u64)
        requires
            old(self).wf(),
        ensures
            final(self).wf(),
            final(self)@ == reported(old(self)@, id@, active, vram, now),
    {
        match self.workers.remove(id) {
            Some(w) => {
                let changed = WorkerInfo {
                    active_requests: active,
                    vram_free_mb: vram,
                    last_heartbeat: now,
                    ..w
                };
                self.workers.insert(id, changed);
                assert(self@ =~= old(self)@.insert(id@, changed@));
            },
            None => {},
        }
    }

    /// A worker is alive.
    pub fn heartbeat(&mut self, id: &str, now: u64)
        requires
            old(self).wf(),
        ensures
            final(self).wf(),
            final(self)@ == (if old(self)@.dom().contains(id@) {
                old(self)@.insert(id@, WorkerModel { last_heartbeat: now, ..old(self)@[id@] })
            } else {
                old(self)@
            }),
    {
        match self.workers.remove(id) {
            Some(w) => {
                let changed = WorkerInfo { last_heartbeat: now, ..w };
                self.workers.insert(id, changed);
                assert(self@ =~= old(self)@.insert(id@, changed@));
            },
            None => {},
        }
    }

    /// Takes over the model that a worker reports.
    pub fn update_model(&mut self, id: &str, model: &str)
        requires
            old(self).wf(),
        ensures
            final(self).wf(),
            final(self)@ == with_model(old(self)@, id@, model@),
    {
        match self.workers.remove(id) {
            Some(w) => {
                let changed = WorkerInfo { model: text::owned(model), ..w };
                self.workers.insert(id, changed);
                assert(self@ =~= old(self)@.insert(id@, changed@));
            },
            None => {},
        }
    }

    /// How many requests a worker has.
    pub fn active_requests(&self, id: &str) -> (r: u32)
        requires
            self.wf(),
        ensures
            r == active_of(self@, id@),
    {
        match self.workers.get(id) {
            Some(w) => w.active_requests,
            None => 0,
        }
    }

    /// The place of a least busy worker that serves a request.
    fn least_busy(&self, wanted: &Wish) -> (r: Option<usize>)
        requires
            self.wf(),
        ensures
            match r {
                Some(i) => i < self.workers.entries@.len() && is_least_busy(
                    self@,
                    wanted@,
                    self.workers.entries@[i as int].0@,
                ),
                None => !is_served(self@, wanted@),
            },
    {
        let ghost all = self.workers.entries@;
        let ghost want = wanted@;
        let mut best: Option<usize> = None;
        let mut i: usize = 0;
        while i < self.workers.entries.len()
            invariant
                i <= self.workers.entries.len(),
                self.wf(),
                all == self.workers.entries@,
                want == wanted@,
                best matches Some(b) ==> b < i && serves(self@, want, all[b as int].0@),
                forall|j: int|
                    0 <= j < i && serves(self@, want, (#[trigger] all[j]).0@) ==> (best matches Some(
                        b,
                    ) && all[b as int].1.active_requests <= all[j].1.active_requests),
            decreases self.workers.entries.len() - i,
        {
            let fits = match wanted {
                Wish::Exactly(m) => text::str_eq(self.workers.entries[i].1.model.as_str(), m),
                Wish::Alike(m) => matches_model(self.workers.entries[i].1.model.as_str(), m),
                Wish::Any => true,
            };
            proof {
                self.workers.entry_is_mapped(i as int);
                assert(fits == serves(self@, want, all[i as int].0@));
            }
            if fits {
                let take = match best {
                    Some(b) => self.workers.entries[i].1.active_requests
                        < self.workers.entries[b].1.active_requests,
                    None => true,
                };
                if take {
                    best = Some(i);
                }
            }
            i = i + 1;
        }
        proof {
            assert forall|k: Seq<char>| #[trigger] serves(self@, want, k) implies (best matches Some(
                b,
            ) && self@[all[b as int].0@].active_requests <= self@[k].active_requests) by {
                let p = strmap::place(all, k);
                assert(self.workers@.dom().contains(k));
                assert(strmap::is_at(all, k, p));
                self.workers.entry_is_mapped(p);
                assert(serves(self@, want, all[p].0@));
                let b = best->Some_0;
                self.workers.entry_is_mapped(b as int);
            }
        }
        best
    }

    fn any(&self) -> (r: Option<usize>)
        requires
            self.wf(),
        ensures
            match r {
                Some(i) => i < self.workers.entries@.len() && is_least_busy(
                    self@,
                    Wanted::Any,
                    self.workers.entries@[i as int].0@,
                ),
                None => forall|k: Seq<char>| !#[trigger] self@.dom().contains(k),
            },
    {
        let r = self.least_busy(&Wish::Any);
        proof {
            if r is None {
                assert forall|k: Seq<char>| !#[trigger] self@.dom().contains(k) by {
                    assert(!serves(self@, Wanted::Any, k));
                }
            }
        }
        r
    }

    fn best_alike(&self, model: &str) -> (r: Option<usize>)
        requires
            self.wf(),
        ensures
            match r {
                Some(i) => i < self.workers.entries@.len() && is_best_alike(
                    self@,
                    model@,
                    self.workers.entries@[i as int].0@,
                ),
                None => forall|k: Seq<char>| !#[trigger] self@.dom().contains(k),
            },
    {
        match self.least_busy(&Wish::Alike(model)) {
            Some(i) => Some(i),
            None => self.any(),
        }
    }

    fn best(&self, model: &Option<String>) -> (r: Option<usize>)
        requires
            self.wf(),
        ensures
            match r {
                Some(i) => i < self.workers.entries@.len() && is_best(
                    self@,
                    text::opt_text(*model),
                    self.workers.entries@[i as int].0@,
                ),
                None => forall|k: Seq<char>| !#[trigger] self@.dom().contains(k),
            },
    {
        match model {
            Some(m) => match self.least_busy(&Wish::Exactly(m.as_str())) {
                Some(i) => Some(i),
                None => self.best_alike(m.as_str()),
            },
            None => self.any(),
        }
    }

    /// A worker for a request, and its context window. The very model goes before one that is
    /// alike.
    pub fn pick_best(&self, model: &Option<String>) -> (r: Option<(String, u32)>)
        requires
            self.wf(),
        ensures
            match r {
                Some((id, context)) => is_best(self@, text::opt_text(*model), id@)
                    && self@.dom().contains(id@) && context == self@[id@].max_context,
                None => forall|k: Seq<char>| !#[trigger] self@.dom().contains(k),
            },
    {
        match self.best(model) {
            Some(i) => {
                proof {
                    self.workers.entry_is_mapped(i as int);
                }
                let w = &self.workers.entries[i].1;
                Some((w.worker_id.clone(), w.max_context))
            },
            None => None,
        }
    }

    /// A worker for a request for `model`, the model that it has, and its context window.
    pub fn pick_best_lenient(&self, model: &str) -> (r: Option<(String, String, u32)>)
        requires
            self.wf(),
        ensures
            match r {
                Some((id, actual, context)) => is_best_alike(self@, model@, id@)
                    && self@.dom().contains(id@) && actual@ == self@[id@].model && context
                    == self@[id@].max_context,
                None => forall|k: Seq<char>| !#[trigger] self@.dom().contains(k),
            },
    {
        match self.best_alike(model) {
            Some(i) => {
                proof {
                    self.workers.entry_is_mapped(i as int);
                }
                let w = &self.workers.entries[i].1;
                Some((w.worker_id.clone(), w.model.clone(), w.max_context))
            },
            None => None,
        }
    }

    /// The models of the workers, each once, in order.
    pub fn active_models(&self) -> (r: Vec<String>)
        requires
            self.wf(),
        ensures
            text::increasing(text::texts(r@)),
            forall|m: Seq<char>|
                #[trigger] text::texts(r@).contains(m) <==> exists|id: Seq<char>|
                    #[trigger] self@.dom().contains(id) && self@[id].model == m,
    {
        let mut out: Vec<String> = Vec::new();
        let ghost all = self.workers.entries@;
        let mut i: usize = 0;
        while i < self.workers.entries.len()
            invariant
                i <= self.workers.entries.len(),
                all == self.workers.entries@,
                text::increasing(text::texts(out@)),
                forall|m: Seq<char>|
                    #[trigger] text::texts(out@).contains(m) <==> exists|j: int|
                        0 <= j < i && (#[trigger] all[j]).1.model@ == m,
            decreases self.workers.entries.len() - i,
        {
            text::insert_sorted(&mut out, self.workers.entries[i].1.model.as_str());
            i = i + 1;
        }
        proof {
            assert forall|m: Seq<char>|
                #[trigger] text::texts(out@).contains(m) <==> exists|id: Seq<char>|
                    #[trigger] self@.dom().contains(id) && self@[id].model == m by {
                if text::texts(out@).contains(m) {
                    let j = choose|j: int| 0 <= j < all.len() && (#[trigger] all[j]).1.model@ == m;
                    self.workers.entry_is_mapped(j);
                    assert(self@.dom().contains(all[j].0@));
                }
                if exists|id: Seq<char>| #[trigger] self@.dom().contains(id) && self@[id].model == m {
                    let id = choose|id: Seq<char>| #[trigger]
                        self@.dom().contains(id) && self@[id].model == m;
                    let p = strmap::place(all, id);
                    assert(self.workers@.dom().contains(id));
                    assert(strmap::is_at(all, id, p));
                    self.workers.entry_is_mapped(p);
                    assert(all[p].1.model@ == m);
                }
            }
        }
        out
    }

    /// How many workers there are.
    pub fn count(&self) -> (r: usize)
        requires
            self.wf(),
        ensures
            r == self@.dom().len(),
    {
        proof {
            strmap::count_is_size(self.workers);
            assert(self@.dom() =~= self.workers@.dom());
        }
        self.workers.len()
    }

    /// What is shown of each worker at the time `now`.
    pub fn list_all(&self, now: u64) -> (r: Vec<WorkerStatus>)
        requires
            self.wf(),
        ensures
            r@.len() == self@.dom().len(),
            forall|i: int|
                0 <= i < r@.len() ==> self@.dom().contains((#[trigger] r@[i]).worker_id@)
                    && is_status(r@[i], self@[r@[i].worker_id@], now),
            forall|i: int, j: int|
                0 <= i < j < r@.len() ==> (#[trigger] r@[i]).worker_id@ != (
                #[trigger] r@[j]).worker_id@,
    {
        let ghost all = self.workers.entries@;
        let mut out: Vec<WorkerStatus> = Vec::new();
        let mut i: usize = 0;
        while i < self.workers.entries.len()
            invariant
                i <= self.workers.entries.len(),
                self.wf(),
                all == self.workers.entries@,
                out@.len() == i,
                forall|j: int|
                    0 <= j < i ==> (#[trigger] out@[j]).worker_id@ == all[j].0@ && is_status(
                        out@[j],
                        all[j].1@,
                        now,
                    ),
            decreases self.workers.entries.len() - i,
        {
            let w = &self.workers.entries[i].1;
            proof {
                self.workers.entry_is_mapped(i as int);
            }
            out.push(
                WorkerStatus {
                    worker_id: w.worker_id.clone(),
                    model: w.model.clone(),
                    gpu: w.gpu.clone(),
                    vram_free_mb: w.vram_free_mb,
                    max_context: w.max_context,
                    active_requests: w.active_requests,
                    last_heartbeat_s: age(now, w.last_heartbeat) / 1000,
                    connected_s: age(now, w.connected_at) / 1000,
                    api_type: w.api_type.clone(),
                },
            );
            i = i + 1;
        }
        proof {
            strmap::count_is_size(self.workers);
            assert(self@.dom() =~= self.workers@.dom());
            assert forall|k: int| 0 <= k < out@.len() implies self@.dom().contains(
                (#[trigger] out@[k]).worker_id@,
            ) && is_status(out@[k], self@[out@[k].worker_id@], now) by {
                self.workers.entry_is_mapped(k);
            }
            assert forall|x: int, y: int| 0 <= x < y < out@.len() implies (
            #[trigger] out@[x]).worker_id@ != (#[trigger] out@[y]).worker_id@ by {
                assert(all[x].0@ != all[y].0@);
            }
        }
        out
    }

    /// Drops the workers that have been silent for too long, and returns their names.
    pub fn drop_stale(&mut self, now: u64) -> (r: Vec<String>)
        requires
            old(self).wf(),
        ensures
            final(self).wf(),
            strmap::are_keys_where(
                text::texts(r@),
                old(self)@,
                |w: WorkerModel| is_stale(w, now),
            ),
            final(self)@ == old(self)@.remove_keys(text::texts(r@).to_set()),
    {
        let late = |w: &WorkerInfo| -> (b: bool)
            ensures
                b == is_stale(w@, now),
        {
            age(now, w.last_heartbeat) / 1000 > 45
        };
        let gone = self.workers.keys_where(late, Ghost(|w: WorkerInfo| is_stale(w@, now)));
        self.workers.remove_all(&gone);
        assert(self@ =~= old(self)@.remove_keys(text::texts(gone@).to_set()));
        gone
    }
}

/// Where a worker has a model that is alike, a request never goes to one that has not.
pub proof fn matching_worker_is_preferred(
    ws: Workers,
    model: Seq<char>,
    picked: Seq<char>,
    other: Seq<char>,
)
    requires
        is_best_alike(ws, model, picked),
        serves(ws, Wanted::Alike(model), other),
    ensures
        model_matches(ws[picked].model, model),
        ws[picked].active_requests <= ws[other].active_requests,
{
}

/// Where a worker has the very model, a request that asks for the best worker goes to one that
/// has it, however busy they are.
pub proof fn exact_model_goes_first(
    ws: Workers,
    model: Seq<char>,
    picked: Seq<char>,
    other: Seq<char>,
)
    requires
        is_best(ws, Some(model), picked),
        ws.dom().contains(other),
        ws[other].model == model,
    ensures
        ws[picked].model == model,
        ws[picked].active_requests <= ws[other].active_requests,
{
    assert(serves(ws, Wanted::Exactly(model), other));
}

/// After the stale workers have been dropped none is left.
pub proof fn no_stale_worker_is_left(ws: Workers, gone: Seq<Seq<char>>, now: u64, id: Seq<char>)
    requires
        strmap::are_keys_where(gone, ws, |w: WorkerModel| is_stale(w, now)),
        ws.remove_keys(gone.to_set()).dom().contains(id),
    ensures
        !is_stale(ws.remove_keys(gone.to_set())[id], now),
{
    assert(!gone.contains(id));
}

} // verus!
