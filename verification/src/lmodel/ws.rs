//! How a worker reaches the gateway.
use vstd::prelude::*;

use crate::buffer;
use crate::lmodel::dechunk;
use crate::text;
use crate::weburl::{self, UrlModel, UrlParts};

verus! {

// ── Backing off ─────────────────────────────────────────────────────────────

/// The longest time between two attempts, in seconds.
pub const LONGEST_DELAY: u64 = 30;

/// Two to the power of `n`.
pub open spec fn two_to(n: nat) -> nat
    decreases n,
{
    if n == 0 {
        1
    } else {
        2 * two_to((n - 1) as nat)
    }
}

/// How long to wait after so many failed attempts, in seconds: each time twice as long, up to
/// the longest.
pub open spec fn delay_after(attempt: u32) -> nat {
    if two_to(attempt as nat) < LONGEST_DELAY {
        two_to(attempt as nat)
    } else {
        LONGEST_DELAY as nat
    }
}

/// How often an attempt has failed.
pub struct Backoff {
    pub attempt: u32,
}

proof fn powers_grow(n: nat)
    ensures
        two_to(n + 5) >= 32,
    decreases n,
{
    if n == 0 {
        reveal_with_fuel(two_to, 6);
    } else {
        powers_grow((n - 1) as nat);
    }
}

impl Backoff {
    pub fn new() -> (r: Backoff)
        ensures
            r.attempt == 0,
    {
        Backoff { attempt: 0 }
    }

    /// How long to wait now; the next wait will be longer.
    pub fn next_delay(&mut self) -> (r: u64)
        ensures
            r == delay_after(old(self).attempt),
            final(self).attempt == (if old(self).attempt == u32::MAX {
                u32::MAX as int
            } else {
                old(self).attempt + 1
            }),
    {
        proof {
            reveal_with_fuel(two_to, 6);
            if self.attempt >= 5 {
                powers_grow((self.attempt - 5) as nat);
            }
        }
        let delay: u64 = match self.attempt {
            0 => 1,
            1 => 2,
            2 => 4,
            3 => 8,
            4 => 16,
            _ => LONGEST_DELAY,
        };
        self.attempt = self.attempt.saturating_add(1);
        delay
    }

    /// An attempt has succeeded.
    pub fn reset(&mut self)
        ensures
            final(self).attempt == 0,
    {
        self.attempt = 0;
    }
}

// ── The gateway's address ───────────────────────────────────────────────────

/// The secret by which a worker is known: the one that it was built with, or the one in its
/// surroundings.
pub fn bootstrap_secret(baked: &Option<String>, found: &Option<String>) -> (r: Result<
    String,
    String,
>)
    ensures
        match (*baked, *found) {
            (Some(s), _) => r matches Ok(t) && t@ == s@,
            (None, Some(s)) => r matches Ok(t) && t@ == s@,
            (None, None) => r matches Err(e) && e@ == NO_SECRET@,
        },
{
    match (baked, found) {
        (Some(s), _) => Ok(s.clone()),
        (None, Some(s)) => Ok(s.clone()),
        (None, None) => Err(text::owned(NO_SECRET)),
    }
}

pub const NO_SECRET: &'static str = "BRAIN_BOOTSTRAP is neither baked into the binary (compile-time) nor set as a runtime environment variable. Build with: BRAIN_BOOTSTRAP=<secret> TARGETS=x86_64 ./static.sh";

/// Where the gateway is, and what to ask of it.
pub struct Target {
    pub host: String,
    pub port: u16,
    /// The path with its query, the secret in it.
    pub path: String,
}

/// The path to ask for.
pub open spec fn path_with_token(u: UrlModel, secret: Seq<char>) -> Seq<char> {
    match u.query {
        Some(q) => u.path + "?"@ + q + "&token="@ + secret,
        None => u.path + "?token="@ + secret,
    }
}

pub open spec fn is_target(r: Result<Target, String>, u: UrlModel, secret: Seq<char>) -> bool {
    match (u.host, u.port) {
        (None, _) => r matches Err(e) && e@ == "URL missing host"@,
        (_, None) => r matches Err(e) && e@ == "URL missing port"@,
        (Some(h), Some(p)) => r matches Ok(t) && t.host@ == h && t.port == p && t.path@
            == path_with_token(u, secret),
    }
}

/// What the parts of the gateway's URL come to.
pub fn target_from_parts(u: &UrlParts, secret: &str) -> (r: Result<Target, String>)
    ensures
        is_target(r, u@, secret@),
{
    let host = match &u.host {
        Some(h) => h.clone(),
        None => return Err(text::owned("URL missing host")),
    };
    let port: u16 = match u.port {
        Some(p) => p,
        None => return Err(text::owned("URL missing port")),
    };
    let path = match &u.query {
        Some(q) => {
            let mut p = text::concat3(u.path.as_str(), "?", q.as_str());
            p.append("&token=");
            p.append(secret);
            p
        },
        None => text::concat3(u.path.as_str(), "?token=", secret),
    };
    Ok(Target { host, port, path })
}

/// What the gateway's URL comes to.
pub fn brain_target(url: &str, secret: &str) -> (r: Result<Target, String>)
    ensures
        match weburl::url_parsed(url@) {
            Ok(u) => is_target(r, u, secret@),
            Err(e) => r matches Err(m) && m@ == "Invalid brain URL: "@ + e,
        },
{
    match weburl::parse_url(url) {
        Ok(u) => target_from_parts(&u, secret),
        Err(e) => Err(text::concat("Invalid brain URL: ", e.as_str())),
    }
}

// ── The handshake ───────────────────────────────────────────────────────────

/// The request for an upgrade.
pub fn upgrade_request(t: &Target) -> (r: String)
    ensures
        r@ == "GET "@ + t.path@ + " HTTP/1.1\r\nHost: "@ + t.host@
            + "\r\nUpgrade: websocket\r\nConnection: Upgrade\r\nSec-WebSocket-Key: dGhlIHNhbXBsZSBub25jZQ==\r\nSec-WebSocket-Version: 13\r\n\r\n"@,
{
    let mut out = text::concat3("GET ", t.path.as_str(), " HTTP/1.1\r\nHost: ");
    out.append(t.host.as_str());
    out.append(
        "\r\nUpgrade: websocket\r\nConnection: Upgrade\r\nSec-WebSocket-Key: dGhlIHNhbXBsZSBub25jZQ==\r\nSec-WebSocket-Version: 13\r\n\r\n",
    );
    out
}

/// The text of a head; nothing where it is not UTF-8.
pub open spec fn head_text(b: Seq<u8>) -> Seq<char> {
    if vstd::utf8::valid_utf8(b) {
        vstd::utf8::decode_utf8(b)
    } else {
        ""@
    }
}

/// The first line of a text.
pub open spec fn first_line(s: Seq<char>) -> Seq<char> {
    if text::lines(s).len() > 0 {
        text::lines(s)[0]
    } else {
        ""@
    }
}

/// What the gateway's answer to the request for an upgrade says so far.
pub enum AnswerModel {
    More,
    Rejected(Seq<char>),
    /// The upgrade is granted; messages may have come behind the answer.
    Accepted(Seq<u8>),
}

pub open spec fn upgrade_answer(b: Seq<u8>) -> AnswerModel {
    match buffer::place(b, dechunk::blank()) {
        None => AnswerModel::More,
        Some(p) => {
            let head = head_text(b.take(p));
            if text::contains(head, "101 Switching Protocols"@) {
                AnswerModel::Accepted(b.skip(p + 4))
            } else {
                AnswerModel::Rejected("Upgrade rejected: "@ + first_line(head))
            }
        },
    }
}

pub enum Answer {
    More,
    Rejected(String),
    Accepted(Vec<u8>),
}

pub open spec fn is_answer(a: Answer, m: AnswerModel) -> bool {
    match m {
        AnswerModel::More => a is More,
        AnswerModel::Rejected(e) => a matches Answer::Rejected(t) && t@ == e,
        AnswerModel::Accepted(rest) => a matches Answer::Accepted(v) && v@ == rest,
    }
}

fn first_line_of(s: &str) -> (r: String)
    ensures
        r@ == first_line(s@),
{
    let lines = text::line_texts(s);
    if lines.len() > 0 {
        let first = lines[0].clone();
        assert(text::texts(lines@)[0] == first@);
        first
    } else {
        assert(text::texts(lines@).len() == 0);
        text::owned("")
    }
}

/// The gateway's answer to the request for an upgrade, as it comes.
pub struct Handshake {
    buf: bytes::BytesMut,
}

impl View for Handshake {
    type V = Seq<u8>;

    closed spec fn view(&self) -> Seq<u8> {
        buffer::buffer_bytes(self.buf)
    }
}

impl Handshake {
    pub fn new() -> (r: Handshake)
        ensures
            r@ == Seq::<u8>::empty(),
    {
        Handshake { buf: bytes::BytesMut::new() }
    }

    /// Takes more of the answer in.
    pub fn push(&mut self, chunk: &[u8]) -> (r: Answer)
        ensures
            final(self)@ == old(self)@ + chunk@,
            is_answer(r, upgrade_answer(old(self)@ + chunk@)),
    {
        self.buf.extend_from_slice(chunk);
        let mark: [u8; 4] = [13, 10, 13, 10];
        assert(mark@ =~= dechunk::blank());
        let all = buffer::as_slice(&self.buf);
        let n: usize = all.len();
        proof {
            buffer::place_is_first(self@, dechunk::blank(), 0);
        }
        let pos: usize = match buffer::find_bytes(all, mark.as_slice()) {
            Some(p) => p,
            None => return Answer::More,
        };
        let head_bytes = buffer::copy_range(all, 0, pos);
        assert(head_bytes@ =~= self@.take(pos as int));
        let head = match text::utf8_text(head_bytes) {
            Some(s) => s,
            None => text::owned(""),
        };
        if text::has_part(head.as_str(), "101 Switching Protocols") {
            let rest = buffer::copy_range(all, pos + 4, n);
            assert(rest@ =~= self@.skip(pos + 4));
            Answer::Accepted(rest)
        } else {
            Answer::Rejected(
                text::concat("Upgrade rejected: ", first_line_of(head.as_str()).as_str()),
            )
        }
    }
}

// ── Laws ────────────────────────────────────────────────────────────────────

/// A wait is never shorter than the one before, and never longer than the longest.
pub proof fn waits_grow_up_to_a_limit(n: u32)
    requires
        n < u32::MAX,
    ensures
        1 <= delay_after(n) <= delay_after((n + 1) as u32) <= LONGEST_DELAY,
    decreases n,
{
    if n > 0 {
        waits_grow_up_to_a_limit((n - 1) as u32);
    } else {
        reveal_with_fuel(two_to, 2);
    }
}

/// No message that comes right behind the gateway's answer is lost, however it is cut: what has
/// come behind the head goes on to be read.
pub proof fn nothing_behind_the_head_is_lost(b: Seq<u8>, more: Seq<u8>)
    requires
        upgrade_answer(b) is Accepted,
    ensures
        upgrade_answer(b + more) == AnswerModel::Accepted(upgrade_answer(b)->Accepted_0 + more),
{
    buffer::place_stays(b, dechunk::blank(), more);
    buffer::place_is_first(b, dechunk::blank(), 0);
    let p = buffer::place(b, dechunk::blank())->Some_0;
    assert((b + more).take(p) =~= b.take(p));
    assert((b + more).skip(p + 4) =~= b.skip(p + 4) + more);
}

} // verus!
