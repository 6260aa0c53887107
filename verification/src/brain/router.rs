//! The requests that wait for a worker.
use vstd::prelude::*;

use crate::brain::protocol::{CancelMessage, DoneMessage, FinishReason};
use crate::strmap::{self, StrMap};
use crate::text;

verus! {

/// A request that waits for the worker `worker_id`.
pub struct PendingRequest {
    pub worker_id: String,
}

/// Which worker each pending request waits for.
pub struct Router {
    pending: StrMap<PendingRequest>,
}

impl View for Router {
    type V = Map<Seq<char>, Seq<char>>;

    closed spec fn view(&self) -> Map<Seq<char>, Seq<char>> {
        self.pending@.map_values(|p: PendingRequest| p.worker_id@)
    }
}

/// The end that a request gets whose worker is gone.
pub open spec fn is_failure(d: DoneMessage, id: Seq<char>) -> bool {
    d.request_id@ == id && d.finish_reason == FinishReason::Error && d.prompt_tokens == 0
        && d.comp_tokens == 0
}

/// `ids` are the requests that wait for a worker.
pub open spec fn are_waiting(
    ids: Seq<Seq<char>>,
    pending: Map<Seq<char>, Seq<char>>,
    worker: Seq<char>,
) -> bool {
    strmap::are_keys_where(ids, pending, |w: Seq<char>| w == worker)
}

impl Router {
    pub closed spec fn wf(&self) -> bool {
        self.pending.wf()
    }

    pub fn new() -> (r: Router)
        ensures
            r.wf(),
            r@ == Map::<Seq<char>, Seq<char>>::empty(),
    {
        let r = Router { pending: StrMap::new() };
        assert(r@ =~= Map::<Seq<char>, Seq<char>>::empty());
        r
    }

    pub fn register_pending(&mut self, id: &str, worker_id: &str)
        requires
            old(self).wf(),
        ensures
            final(self).wf(),
            final(self)@ == old(self)@.insert(id@, worker_id@),
    {
        self.pending.insert(id, PendingRequest { worker_id: text::owned(worker_id) });
        assert(self@ =~= old(self)@.insert(id@, worker_id@));
    }

    /// Whether what a worker sends for a request is to be passed on.
    pub fn is_pending(&self, id: &str) -> (r: bool)
        requires
            self.wf(),
        ensures
            r == self@.dom().contains(id@),
    {
        self.pending.contains(id)
    }

    /// A request has come to its end.
    pub fn finish(&mut self, id: &str)
        requires
            old(self).wf(),
        ensures
            final(self).wf(),
            final(self)@ == old(self)@.remove(id@),
    {
        self.pending.remove(id);
        assert(self@ =~= old(self)@.remove(id@));
    }

    /// A request is no longer wanted: returns the worker, and what to send to it, if the
    /// request was pending.
    pub fn cancel(&mut self, id: &str) -> (r: Option<(String, CancelMessage)>)
        requires
            old(self).wf(),
        ensures
            final(self).wf(),
            final(self)@ == old(self)@.remove(id@),
            match r {
                Some((worker, message)) => old(self)@.dom().contains(id@) && worker@ == old(
                    self,
                )@[id@] && message.request_id@ == id@,
                None => !old(self)@.dom().contains(id@),
            },
    {
        match self.pending.remove(id) {
            Some(p) => {
                assert(self@ =~= old(self)@.remove(id@));
                Some((p.worker_id, CancelMessage { request_id: text::owned(id) }))
            },
            None => {
                assert(self@ =~= old(self)@.remove(id@));
                None
            },
        }
    }

    /// A worker is gone: every request that waits for it gets its end at once, and is no longer
    /// pending.
    pub fn fail_all_for_worker(&mut self, worker_id: &str) -> (r: Vec<DoneMessage>)
        requires
            old(self).wf(),
        ensures
            final(self).wf(),
            exists|ids: Seq<Seq<char>>|
                #[trigger] are_waiting(ids, old(self)@, worker_id@) && final(self)@ == old(self)@.remove_keys(ids.to_set()) && r@.len() == ids.len() && (
                forall|i: int| 0 <= i < r@.len() ==> is_failure(#[trigger] r@[i], ids[i])),
    {
        let same = |p: &PendingRequest| -> (b: bool)
            ensures
                b == (p.worker_id@ == worker_id@),
        {
            text::str_eq(p.worker_id.as_str(), worker_id)
        };
        let ids = self.pending.keys_where(
            same,
            Ghost(|p: PendingRequest| p.worker_id@ == worker_id@),
        );
        self.pending.remove_all(&ids);
        let ghost names = text::texts(ids@);
        let mut out: Vec<DoneMessage> = Vec::new();
        let mut i: usize = 0;
        while i < ids.len()
            invariant
                i <= ids.len(),
                names == text::texts(ids@),
                out@.len() == i,
                forall|j: int| 0 <= j < i ==> is_failure(#[trigger] out@[j], names[j]),
            decreases ids.len() - i,
        {
            out.push(
                DoneMessage {
                    request_id: ids[i].clone(),
                    finish_reason: FinishReason::Error,
                    prompt_tokens: 0,
                    comp_tokens: 0,
                },
            );
            i = i + 1;
        }
        proof {
            assert(self@ =~= old(self)@.remove_keys(names.to_set()));
            assert(are_waiting(names, old(self)@, worker_id@));
        }
        out
    }
}

/// Once a worker is gone no request waits for it, and those of other workers still wait.
pub proof fn no_request_is_stranded(
    pending: Map<Seq<char>, Seq<char>>,
    worker: Seq<char>,
    ids: Seq<Seq<char>>,
    id: Seq<char>,
)
    requires
        are_waiting(ids, pending, worker),
        pending.dom().contains(id),
    ensures
        ({
            let after = pending.remove_keys(ids.to_set());
            after.dom().contains(id) <==> pending[id] != worker
        }),
{
    assert(ids.contains(id) <==> pending[id] == worker);
}

} // verus!
