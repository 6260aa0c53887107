//! What happens when nothing happens.
use vstd::prelude::*;

use crate::brain::hosted_tools;
use crate::brain::idempotency::{self, IdemEntry};
use crate::brain::tunnel::{self, Due, TunnelClock};
use crate::brain::turn::{self, Turn, TurnStep};

verus! {

/// A worker that says nothing for the time that it has is given up, whether or not a client
/// follows; an answer that has ended is finished all the same.
pub proof fn silent_worker_is_given_up(t: Turn, timeout_s: u64, now: u64)
    requires
        now >= t.last_activity + timeout_s * 1000,
    ensures
        turn::next_step(t, false, timeout_s, now) == TurnStep::TimeOut,
        turn::next_step(t, true, timeout_s, now) == TurnStep::Finish,
{
}

/// A client that follows is told every fifteen seconds that the gateway is still there, and no
/// sooner; one that waits is not.
pub proof fn followers_are_kept(t: Turn, timeout_s: u64, now: u64)
    requires
        t.last_activity <= now < t.last_activity + timeout_s * 1000,
        t.last_ping <= now,
    ensures
        turn::follows(t.kind) && now >= t.last_ping + 15_000 ==> turn::next_step(
            t,
            false,
            timeout_s,
            now,
        ) == TurnStep::Ping,
        !turn::follows(t.kind) || now < t.last_ping + 15_000 ==> turn::next_step(
            t,
            false,
            timeout_s,
            now,
        ) == TurnStep::Wait,
{
}

/// A round in which the worker says nothing for the time that it has is given up, and no sooner.
pub proof fn silent_round_is_given_up(heard_at: u64, timeout_s: u64, now: u64)
    requires
        now >= heard_at,
    ensures
        hosted_tools::silent_for_too_long(heard_at, timeout_s, now) <==> now >= heard_at
            + timeout_s * 1000,
{
}

/// A tunnel in which nothing is heard for more than a minute and a half is closed, and no sooner;
/// until then the worker is asked every twenty-five seconds whether it is there.
pub proof fn silent_tunnel_is_closed(c: TunnelClock, now: u64)
    requires
        now >= c.last_heard,
        now <= u64::MAX - 25_000,
    ensures
        now >= c.last_heard + 91_000 ==> tunnel::due_at(c, now) is Close,
        now < c.last_heard + 91_000 ==> !(tunnel::due_at(c, now) is Close),
        now < c.last_heard + 91_000 && now >= c.next_ping ==> tunnel::due_at(c, now) is Ping,
        now < c.last_heard + 91_000 && now < c.next_ping ==> (tunnel::due_at(
            c,
            now,
        ) matches Due::Wait(ms) && 0 < ms && now + ms <= c.next_ping),
        tunnel::ping_after(now) == now + 25_000,
{
}

/// Where room must be made among kept answers, those that have expired go, and then at most one
/// more, than which none that stays is older.
pub proof fn the_oldest_goes_first(
    m: Map<Seq<char>, IdemEntry>,
    max: nat,
    now: u64,
    room: Map<Seq<char>, IdemEntry>,
    gone: Seq<char>,
    stays: Seq<char>,
)
    requires
        idempotency::makes_room(m, max, now, room),
        m.dom().contains(gone),
        m[gone].stored_at <= now,
        !room.dom().contains(gone),
        room.dom().contains(stays),
    ensures
        now >= m[gone].stored_at + m[gone].ttl * 1000 || m[gone].stored_at <= m[stays].stored_at,
        m.dom().len() >= max,
{
    let l = idempotency::live(m, now);
    if l.dom().contains(gone) {
        if !(l.dom().len() < max || l.dom().len() == 0) {
            let victim = choose|victim: Seq<char>| #[trigger]
                idempotency::is_oldest(l, victim) && room == l.remove(victim);
            assert(gone == victim);
            assert(l.dom().contains(stays));
        }
    }
}

} // verus!
