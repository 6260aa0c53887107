//! Waiting for a worker's answer: when to give up, when to ping the client, what to count.
use vstd::prelude::*;

use crate::brain::idempotency;
use crate::brain::metrics::{self, Metrics, MetricsModel};
use crate::brain::protocol::DoneMessage;

verus! {

/// The four ways in which an answer reaches a client.
#[derive(Clone, Copy, PartialEq, Eq, Structural)]
pub enum TurnKind {
    ChatStream,
    ChatBlocking,
    AnthropicStream,
    AnthropicBlocking,
}

/// Whether the client follows the answer while it is made.
pub open spec fn follows(kind: TurnKind) -> bool {
    kind == TurnKind::ChatStream || kind == TurnKind::AnthropicStream
}

/// After how many seconds a client that follows an answer is pinged.
pub const CLIENT_PING_S: u64 = 15;

/// What is next.
#[derive(Clone, Copy, PartialEq, Eq, Structural)]
pub enum TurnStep {
    /// The answer is complete.
    Finish,
    /// The worker has been silent for too long.
    TimeOut,
    /// The client is to be pinged, so that it does not give up.
    Ping,
    /// Nothing but to wait for more.
    Wait,
}

/// The times of a turn in milliseconds, and whether the first token is still to come.
#[derive(Clone, Copy, PartialEq, Eq, Structural)]
pub struct Turn {
    pub kind: TurnKind,
    pub started: u64,
    pub last_activity: u64,
    pub last_ping: u64,
    pub first_token: bool,
}

/// What is next; the end goes before everything, silence before a ping.
pub open spec fn next_step(t: Turn, done: bool, timeout_s: u64, now: u64) -> TurnStep {
    if done {
        TurnStep::Finish
    } else if idempotency::elapsed(now, t.last_activity) >= timeout_s * 1000 {
        TurnStep::TimeOut
    } else if follows(t.kind) && idempotency::elapsed(now, t.last_ping) / 1000 >= CLIENT_PING_S {
        TurnStep::Ping
    } else {
        TurnStep::Wait
    }
}

/// How many milliseconds the turn has taken.
pub open spec fn taken(t: Turn, now: u64) -> u64 {
    idempotency::elapsed(now, t.started) as u64
}

/// What a piece of the answer adds to the metrics: the time to the first token, for a client
/// that follows.
pub open spec fn counted_on_chunk(
    m: MetricsModel,
    t: Turn,
    telemetry: bool,
    model: Seq<char>,
    now: u64,
) -> MetricsModel {
    if telemetry && t.first_token && follows(t.kind) {
        metrics::with_ttft(m, "brain"@, model, taken(t, now))
    } else {
        m
    }
}

/// What the end of the answer adds to the metrics. `rate` is the rate of tokens in thousandths.
pub open spec fn counted_on_done(
    m: MetricsModel,
    t: Turn,
    telemetry: bool,
    model: Seq<char>,
    done: DoneMessage,
    rate: u64,
    now: u64,
) -> MetricsModel {
    if telemetry {
        let m1 = if t.first_token || t.kind == TurnKind::AnthropicBlocking {
            metrics::with_ttft(m, "brain"@, model, taken(t, now))
        } else {
            m
        };
        let m2 = if done.comp_tokens > 0 && t.kind != TurnKind::AnthropicBlocking {
            metrics::with_rate(m1, "brain"@, model, rate)
        } else {
            m1
        };
        metrics::with_tokens(
            m2,
            "brain"@,
            model,
            done.prompt_tokens as u64,
            done.comp_tokens as u64,
        )
    } else {
        m
    }
}

/// What a worker that has gone silent adds to the metrics: a failed chat request.
pub open spec fn counted_on_timeout(
    m: MetricsModel,
    t: Turn,
    telemetry: bool,
    model: Seq<char>,
    now: u64,
) -> MetricsModel {
    if !telemetry {
        m
    } else if t.kind == TurnKind::ChatStream {
        let m1 = if t.first_token {
            metrics::with_ttft(m, "brain"@, model, taken(t, now))
        } else {
            m
        };
        metrics::with_request(m1, "brain"@, model, 504)
    } else if t.kind == TurnKind::ChatBlocking {
        metrics::with_request(m, "brain"@, model, 504)
    } else {
        m
    }
}

impl Turn {
    pub fn new(kind: TurnKind, started: u64, now: u64) -> (r: Turn)
        ensures
            r == (Turn { kind, started, last_activity: now, last_ping: now, first_token: true }),
    {
        Turn { kind, started, last_activity: now, last_ping: now, first_token: true }
    }

    fn is_followed(&self) -> (r: bool)
        ensures
            r == follows(self.kind),
    {
        match self.kind {
            TurnKind::ChatStream => true,
            TurnKind::AnthropicStream => true,
            _ => false,
        }
    }

    /// What is next.
    pub fn step(&self, done: bool, timeout_s: u64, now: u64) -> (r: TurnStep)
        ensures
            r == next_step(*self, done, timeout_s, now),
    {
        if done {
            return TurnStep::Finish;
        }
        let idle: u64 = now.saturating_sub(self.last_activity);
        let timed_out = match timeout_s.checked_mul(1000) {
            Some(limit) => idle >= limit,
            None => false,
        };
        if timed_out {
            TurnStep::TimeOut
        } else if self.is_followed() && now.saturating_sub(self.last_ping) / 1000
            >= CLIENT_PING_S {
            TurnStep::Ping
        } else {
            TurnStep::Wait
        }
    }

    pub fn pinged(&mut self, now: u64)
        ensures
            *final(self) == (Turn { last_ping: now, ..*old(self) }),
    {
        self.last_ping = now;
    }

    /// A piece of the answer has come.
    pub fn on_chunk(&mut self, telemetry: bool, model: &str, counts: &mut Metrics, now: u64)
        requires
            old(counts).wf(),
        ensures
            final(counts).wf(),
            final(counts)@ == counted_on_chunk(old(counts)@, *old(self), telemetry, model@, now),
            *final(self) == (Turn {
                last_activity: now,
                first_token: old(self).first_token && follows(old(self).kind) && !telemetry,
                ..*old(self)
            }),
    {
        self.last_activity = now;
        if self.is_followed() {
            if telemetry && self.first_token {
                self.first_token = false;
                counts.record_ttft("brain", model, now.saturating_sub(self.started));
            }
            if telemetry {
                self.first_token = false;
            }
        } else {
            self.first_token = false;
        }
    }

    /// The answer is complete.
    pub fn on_done(
        &self,
        telemetry: bool,
        model: &str,
        done: &DoneMessage,
        rate: u64,
        counts: &mut Metrics,
        now: u64,
    )
        requires
            old(counts).wf(),
        ensures
            final(counts).wf(),
            final(counts)@ == counted_on_done(
                old(counts)@,
                *self,
                telemetry,
                model@,
                *done,
                rate,
                now,
            ),
    {
        if !telemetry {
            return ;
        }
        let waits_whole = match self.kind {
            TurnKind::AnthropicBlocking => true,
            _ => false,
        };
        if self.first_token || waits_whole {
            counts.record_ttft("brain", model, now.saturating_sub(self.started));
        }
        if done.comp_tokens > 0 && !waits_whole {
            counts.record_rate("brain", model, rate);
        }
        counts.record_tokens(
            "brain",
            model,
            done.prompt_tokens as u64,
            done.comp_tokens as u64,
        );
    }

    /// The worker has been silent for too long.
    pub fn on_timeout(&self, telemetry: bool, model: &str, counts: &mut Metrics, now: u64)
        requires
            old(counts).wf(),
        ensures
            final(counts).wf(),
            final(counts)@ == counted_on_timeout(old(counts)@, *self, telemetry, model@, now),
    {
        if !telemetry {
            return ;
        }
        match self.kind {
            TurnKind::ChatStream => {
                if self.first_token {
                    counts.record_ttft("brain", model, now.saturating_sub(self.started));
                }
                counts.record_request("brain", model, 504);
            },
            TurnKind::ChatBlocking => counts.record_request("brain", model, 504),
            _ => {},
        }
    }
}

// ── Laws ────────────────────────────────────────────────────────────────────

/// Where a client follows and telemetry is on, the time to the first token is counted once: with
/// the first piece, and no more at the end.
pub proof fn first_token_is_counted_once(
    m: MetricsModel,
    t: Turn,
    model: Seq<char>,
    done: DoneMessage,
    rate: u64,
    now: u64,
)
    requires
        follows(t.kind),
        !t.first_token,
    ensures
        counted_on_done(m, t, true, model, done, rate, now).ttft == m.ttft,
        counted_on_chunk(m, t, true, model, now) == m,
{
}

/// As long as the worker says something in time, it is not given up.
pub proof fn activity_keeps_the_turn(t: Turn, done: bool, timeout_s: u64, now: u64)
    requires
        idempotency::elapsed(now, t.last_activity) < timeout_s * 1000,
    ensures
        next_step(t, done, timeout_s, now) != TurnStep::TimeOut,
{
}

} // verus!
