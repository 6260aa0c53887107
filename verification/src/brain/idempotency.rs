//! Answers kept for a while, so that a repeated request is answered again and not run again.
use vstd::prelude::*;

use crate::strmap::{self, StrMap};
use crate::text;

verus! {

pub struct IdempotentResponse {
    pub status: u16,
    pub body: Vec<u8>,
    pub content_type: String,
    pub created_at: i64,
}

#[verifier::ext_equal]
pub struct ResponseModel {
    pub status: u16,
    pub body: Seq<u8>,
    pub content_type: Seq<char>,
    pub created_at: i64,
}

impl View for IdempotentResponse {
    type V = ResponseModel;

    open spec fn view(&self) -> ResponseModel {
        ResponseModel {
            status: self.status,
            body: self.body@,
            content_type: self.content_type@,
            created_at: self.created_at,
        }
    }
}

impl IdempotentResponse {
    pub fn dup(&self) -> (r: IdempotentResponse)
        ensures
            r@ == self@,
    {
        IdempotentResponse {
            status: self.status,
            body: text::dup_bytes(&self.body),
            content_type: self.content_type.clone(),
            created_at: self.created_at,
        }
    }
}

/// A kept answer, with the time in milliseconds at which it was stored and the seconds for
/// which it is kept.
pub struct IdemEntry {
    pub response: IdempotentResponse,
    pub stored_at: u64,
    pub ttl: u64,
}

/// How long ago something was.
pub open spec fn elapsed(now: u64, then: u64) -> int {
    if now >= then {
        now - then
    } else {
        0
    }
}

pub open spec fn expired(e: IdemEntry, now: u64) -> bool {
    elapsed(now, e.stored_at) >= e.ttl * 1000
}

impl IdemEntry {
    pub fn is_expired(&self, now: u64) -> (r: bool)
        ensures
            r == expired(*self, now),
    {
        let age: u64 = if now >= self.stored_at {
            now - self.stored_at
        } else {
            0
        };
        age / 1000 >= self.ttl
    }
}

/// The entries that have not expired.
pub open spec fn live(m: Map<Seq<char>, IdemEntry>, now: u64) -> Map<Seq<char>, IdemEntry> {
    Map::new(|k: Seq<char>| m.dom().contains(k) && !expired(m[k], now), |k: Seq<char>| m[k])
}

/// No entry is older than that of `victim`.
pub open spec fn is_oldest(m: Map<Seq<char>, IdemEntry>, victim: Seq<char>) -> bool {
    m.dom().contains(victim) && forall|k: Seq<char>| #[trigger]
        m.dom().contains(k) ==> m[victim].stored_at <= m[k].stored_at
}

/// `room` is `m` with room for one entry more, if `m` had as many as it may: the expired ones
/// are gone, and where that is not enough an oldest one.
pub open spec fn makes_room(
    m: Map<Seq<char>, IdemEntry>,
    max: nat,
    now: u64,
    room: Map<Seq<char>, IdemEntry>,
) -> bool {
    if m.dom().len() < max {
        room == m
    } else {
        let l = live(m, now);
        if l.dom().len() < max || l.dom().len() == 0 {
            room == l
        } else {
            exists|victim: Seq<char>| #[trigger] is_oldest(l, victim) && room == l.remove(victim)
        }
    }
}

/// Kept answers by their keys.
pub struct IdempotencyStore {
    entries: StrMap<IdemEntry>,
    max_entries: usize,
    default_ttl: u64,
}

impl View for IdempotencyStore {
    type V = Map<Seq<char>, IdemEntry>;

    closed spec fn view(&self) -> Map<Seq<char>, IdemEntry> {
        self.entries@
    }
}

impl IdempotencyStore {
    pub closed spec fn wf(&self) -> bool {
        self.entries.wf() && self.entries.count() <= self.limit()
    }

    /// How many entries are kept at most.
    pub open spec fn limit(&self) -> nat {
        if self.max() > 0 {
            self.max()
        } else {
            1
        }
    }

    pub closed spec fn max(&self) -> nat {
        self.max_entries as nat
    }

    /// For how many seconds an answer is kept.
    pub closed spec fn ttl(&self) -> u64 {
        self.default_ttl
    }

    /// Never more is kept than the limit.
    pub proof fn size_is_bounded(&self)
        requires
            self.wf(),
        ensures
            self@.dom().finite(),
            self@.dom().len() <= self.limit(),
    {
        strmap::count_is_size(self.entries);
    }

    pub fn new(max_entries: usize, ttl_secs: u64) -> (r: IdempotencyStore)
        ensures
            r.wf(),
            r@ == Map::<Seq<char>, IdemEntry>::empty(),
            r.max() == max_entries,
            r.ttl() == ttl_secs,
    {
        IdempotencyStore { entries: StrMap::new(), max_entries, default_ttl: ttl_secs }
    }

    /// The answer that is kept for `key`, if it has not expired.
    pub fn get(&self, key: &str, now: u64) -> (r: Option<IdempotentResponse>)
        requires
            self.wf(),
        ensures
            match r {
                Some(a) => live(self@, now).dom().contains(key@) && a@ == self@[key@].response@,
                None => !live(self@, now).dom().contains(key@),
            },
    {
        match self.entries.get(key) {
            Some(e) => if e.is_expired(now) {
                None
            } else {
                Some(e.response.dup())
            },
            None => None,
        }
    }

    /// Drops what has expired.
    pub fn cleanup(&mut self, now: u64)
        requires
            old(self).wf(),
        ensures
            final(self).wf(),
            final(self)@ == live(old(self)@, now),
            final(self).max() == old(self).max(),
            final(self).ttl() == old(self).ttl(),
    {
        let late = |e: &IdemEntry| -> (b: bool)
            ensures
                b == expired(*e, now),
        {
            e.is_expired(now)
        };
        let gone = self.entries.keys_where(late, Ghost(|e: IdemEntry| expired(e, now)));
        self.entries.remove_all(&gone);
        proof {
            let m = old(self)@;
            let keys = text::texts(gone@).to_set();
            assert forall|k: Seq<char>| m.dom().contains(k) implies (keys.contains(k) <==> expired(
                m[k],
                now,
            )) by {
                assert(text::texts(gone@).contains(k) <==> expired(m[k], now));
            }
            assert(self@ =~= live(m, now));
            strmap::count_is_size(self.entries);
            strmap::count_is_size(old(self).entries);
            vstd::set_lib::lemma_len_subset(self@.dom(), m.dom());
        }
    }

    /// The place of an oldest entry.
    fn oldest(&self) -> (r: usize)
        requires
            self.wf(),
            self.entries.count() > 0,
        ensures
            r < self.entries.entries@.len(),
            is_oldest(self@, self.entries.entries@[r as int].0@),
    {
        let mut best: usize = 0;
        let mut i: usize = 1;
        while i < self.entries.entries.len()
            invariant
                1 <= i <= self.entries.entries.len(),
                best < i,
                forall|j: int|
                    0 <= j < i ==> self.entries.entries@[best as int].1.stored_at <= (
                    #[trigger] self.entries.entries@[j]).1.stored_at,
            decreases self.entries.entries.len() - i,
        {
            if self.entries.entries[i].1.stored_at < self.entries.entries[best].1.stored_at {
                best = i;
            }
            i = i + 1;
        }
        proof {
            let all = self.entries.entries@;
            let victim = all[best as int].0@;
            self.entries.entry_is_mapped(best as int);
            assert forall|k: Seq<char>| #[trigger]
                self@.dom().contains(k) implies self@[victim].stored_at <= self@[k].stored_at by {
                let p = strmap::place(all, k);
                assert(strmap::is_at(all, k, p));
                self.entries.entry_is_mapped(p);
            }
        }
        best
    }

    /// Keeps an answer. Where there is no room, what has expired goes, and then an oldest one.
    pub fn put(&mut self, key: &str, response: IdempotentResponse, now: u64)
        requires
            old(self).wf(),
        ensures
            final(self).wf(),
            final(self).max() == old(self).max(),
            final(self).ttl() == old(self).ttl(),
            exists|room: Map<Seq<char>, IdemEntry>|
                #[trigger] makes_room(old(self)@, old(self).max(), now, room) && final(self)@
                    == room.insert(
                    key@,
                    IdemEntry { response, stored_at: now, ttl: old(self).ttl() },
                ),
    {
        proof {
            strmap::count_is_size(self.entries);
        }
        if self.entries.len() >= self.max_entries {
            self.cleanup(now);
            proof {
                strmap::count_is_size(self.entries);
            }
            if self.entries.len() >= self.max_entries && self.entries.len() > 0 {
                let ghost l = self@;
                let at = self.oldest();
                let victim = self.entries.entries[at].0.clone();
                assert(is_oldest(l, victim@));
                self.entries.remove(victim.as_str());
                assert(self@ == l.remove(victim@));
            }
        }
        let ghost room = self@;
        assert(makes_room(old(self)@, old(self).max(), now, room));
        let entry = IdemEntry { response, stored_at: now, ttl: self.default_ttl };
        self.entries.insert(key, entry);
    }
}

impl Default for IdempotencyStore {
    fn default() -> (r: IdempotencyStore)
        ensures
            r.wf(),
            r@ == Map::<Seq<char>, IdemEntry>::empty(),
            r.max() == 500,
            r.ttl() == 300,
    {
        IdempotencyStore::new(500, 300)
    }
}

/// A kept answer is given back until it expires.
pub proof fn put_then_get(
    room: Map<Seq<char>, IdemEntry>,
    key: Seq<char>,
    response: IdempotentResponse,
    ttl: u64,
    stored: u64,
    now: u64,
)
    ensures
        ({
            let m = room.insert(key, IdemEntry { response, stored_at: stored, ttl });
            live(m, now).dom().contains(key) <==> elapsed(now, stored) < ttl * 1000
        }),
        ({
            let m = room.insert(key, IdemEntry { response, stored_at: stored, ttl });
            m[key].response == response
        }),
{
}

/// Making room only takes entries away, and changes none.
pub proof fn making_room_keeps_the_rest(
    m: Map<Seq<char>, IdemEntry>,
    max: nat,
    now: u64,
    room: Map<Seq<char>, IdemEntry>,
    key: Seq<char>,
)
    requires
        makes_room(m, max, now, room),
        room.dom().contains(key),
    ensures
        m.dom().contains(key),
        room[key] == m[key],
{
}

} // verus!
