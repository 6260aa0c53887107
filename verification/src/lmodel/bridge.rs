//! The answer of a model server on its way to the gateway.
use vstd::prelude::*;

use crate::brain::protocol::{ChunkMessage, DoneMessage, ErrorMessage, FinishReason};
use crate::brain::tool_calls;
use crate::buffer;
use crate::converter::responses;
use crate::json::{self, Json, JsonModel};
use crate::lmodel::dechunk::{self, Progress};
use crate::text;

verus! {

// ── Lines ───────────────────────────────────────────────────────────────────

/// What the stream has said of the answer so far.
#[derive(Clone, Copy, PartialEq, Eq, Structural)]
pub struct Tally {
    pub prompt_tokens: u32,
    pub comp_tokens: u32,
    pub reason: FinishReason,
}

/// What is passed on to the gateway: a line as it is.
#[verifier::ext_equal]
pub struct Passed {
    pub line: Seq<char>,
    pub is_tool_call: bool,
}

/// The OpenAI word for why an answer ended, as the gateway knows it.
pub open spec fn reason_of(s: Seq<char>) -> FinishReason {
    if s == "length"@ {
        FinishReason::Length
    } else if s == "tool_calls"@ {
        FinishReason::ToolCalls
    } else if s == "content_filter"@ {
        FinishReason::ContentFilter
    } else {
        FinishReason::Stop
    }
}

pub fn map_finish_reason(s: &str) -> (r: FinishReason)
    ensures
        r == reason_of(s@),
{
    if text::str_eq(s, "length") {
        FinishReason::Length
    } else if text::str_eq(s, "tool_calls") {
        FinishReason::ToolCalls
    } else if text::str_eq(s, "content_filter") {
        FinishReason::ContentFilter
    } else {
        FinishReason::Stop
    }
}

/// A count of tokens that a chunk reports, or the one before.
pub open spec fn reported(v: JsonModel, field: Seq<char>, before: u32) -> u32 {
    match v.field_of_field("usage"@, field) {
        Some(n) => match n.unsigned() {
            Some(n) => responses::low32(n as int),
            None => before,
        },
        None => before,
    }
}

/// The first choice of a chunk.
pub open spec fn first_choice(v: JsonModel) -> Option<JsonModel> {
    match v.field("choices"@) {
        Some(c) => c.item(0),
        None => None,
    }
}

/// Whether a chunk carries tool calls.
pub open spec fn carries_calls(v: JsonModel) -> bool {
    match tool_calls::first_delta(v) {
        Some(d) => match d.field("tool_calls"@) {
            Some(t) => !(t is Null),
            None => false,
        },
        None => false,
    }
}

/// Why the answer ended, if the chunk says so.
pub open spec fn ended_by(v: JsonModel) -> Option<FinishReason> {
    match first_choice(v) {
        Some(c) => match c.str_at("finish_reason"@) {
            Some(s) => Some(reason_of(s)),
            None => None,
        },
        None => None,
    }
}

/// The counts after a chunk.
pub open spec fn tally_after(t: Tally, v: JsonModel) -> Tally {
    Tally {
        prompt_tokens: reported(v, "prompt_tokens"@, t.prompt_tokens),
        comp_tokens: reported(v, "completion_tokens"@, t.comp_tokens),
        reason: match ended_by(v) {
            Some(r) => r,
            None => t.reason,
        },
    }
}

/// What a line does: what is passed on for it, the counts after it, and whether the answer has
/// ended. A line that is no event, or no JSON, is dropped.
pub open spec fn on_line(t: Tally, line: Seq<char>) -> (Option<Passed>, Tally, bool) {
    if line == "data: [DONE]"@ {
        (None, t, true)
    } else {
        match text::strip_prefix(line, "data: "@) {
            None => (None, t, false),
            Some(data) => match json::json_parse(data) {
                None => (None, t, false),
                Some(v) => (
                    Some(Passed { line, is_tool_call: carries_calls(v) }),
                    tally_after(t, v),
                    ended_by(v) is Some,
                ),
            },
        }
    }
}

/// What the lines of a body do: what is passed on, the counts, what is left of the body, and
/// whether the answer has ended. Nothing behind its end is read.
#[verifier::ext_equal]
pub struct Drained {
    pub passed: Seq<Passed>,
    pub tally: Tally,
    pub rest: Seq<u8>,
    pub ended: bool,
}

/// The text of a line, without blanks around it.
pub open spec fn line_text(b: Seq<u8>) -> Seq<char> {
    text::trim(text::lossy(b))
}

pub open spec fn drained(t: Tally, body: Seq<u8>) -> Drained
    decreases body.len(),
{
    proof {
        buffer::position_is_first(body, 10);
    }
    match buffer::position(body, 10) {
        None => Drained { passed: seq![], tally: t, rest: body, ended: false },
        Some(k) => {
            let line = line_text(body.take(k + 1));
            let rest = body.skip(k + 1);
            if line.len() == 0 {
                drained(t, rest)
            } else {
                let (p, t1, end) = on_line(t, line);
                let first = match p {
                    Some(p) => seq![p],
                    None => seq![],
                };
                if end {
                    Drained { passed: first, tally: t1, rest, ended: true }
                } else {
                    let d = drained(t1, rest);
                    Drained { passed: first + d.passed, ..d }
                }
            }
        },
    }
}

// ── The whole answer ────────────────────────────────────────────────────────

/// How far the answer has come.
#[verifier::ext_equal]
pub struct BridgeModel {
    /// What has come and is not decoded.
    pub raw: Seq<u8>,
    /// What is decoded and not read.
    pub body: Seq<u8>,
    pub headers_done: bool,
    pub chunked: bool,
    pub chunks_done: bool,
    pub tally: Tally,
}

/// Whether a head says that the body is chunked.
pub open spec fn says_chunked(lines: Seq<Seq<char>>) -> bool {
    exists|i: int|
        0 <= i < lines.len() && is_chunked_line(text::to_ascii_lower(#[trigger] lines[i]))
}

pub open spec fn is_chunked_line(l: Seq<char>) -> bool {
    text::starts_with(l, "transfer-encoding:"@) && text::contains(l, "chunked"@)
}

/// Once the head is complete it is taken off.
pub open spec fn without_head(m: BridgeModel) -> BridgeModel {
    if m.headers_done {
        m
    } else {
        match buffer::place(m.raw, dechunk::blank()) {
            Some(p) => BridgeModel {
                raw: m.raw.skip(p + 4),
                headers_done: true,
                chunked: says_chunked(text::lines(text::lossy(m.raw.take(p + 4)))),
                ..m
            },
            None => m,
        }
    }
}

/// What can be decoded is decoded; an error if the body is not chunked as its head says.
pub open spec fn decoded(m: BridgeModel) -> Result<BridgeModel, Seq<char>> {
    if !m.chunked {
        Ok(BridgeModel { body: m.body + m.raw, raw: seq![], ..m })
    } else if m.chunks_done {
        Ok(m)
    } else {
        let d = dechunk::dechunked(m.raw);
        match d.progress {
            Progress::Bad(e) => Err("Malformed chunked response from llama.cpp: "@ + e),
            _ => Ok(
                BridgeModel {
                    raw: d.rest,
                    body: m.body + d.out,
                    chunks_done: d.progress is Done,
                    ..m
                },
            ),
        }
    }
}

/// What is to be done after more bytes have come.
pub enum After {
    /// Wait for more.
    Wait,
    /// The answer has ended.
    Ended,
    /// The body has ended; whether with an answer is to be seen.
    BodyEnded,
}

/// What a body does, behind its head: what is passed on, and what is to be done then.
pub open spec fn read_body(m: BridgeModel) -> Result<(BridgeModel, Seq<Passed>, After), Seq<char>> {
    match decoded(m) {
        Err(e) => Err(e),
        Ok(m2) => {
            let d = drained(m2.tally, m2.body);
            let m3 = BridgeModel { body: d.rest, tally: d.tally, ..m2 };
            Ok(
                (
                    m3,
                    d.passed,
                    if d.ended {
                        After::Ended
                    } else if m3.chunked && m3.chunks_done {
                        After::BodyEnded
                    } else {
                        After::Wait
                    },
                ),
            )
        },
    }
}

/// What more bytes do: what is passed on, and what is to be done then.
pub open spec fn on_bytes(m: BridgeModel, bytes: Seq<u8>) -> Result<
    (BridgeModel, Seq<Passed>, After),
    Seq<char>,
> {
    let m1 = without_head(BridgeModel { raw: m.raw + bytes, ..m });
    if !m1.headers_done {
        Ok((m1, seq![], After::Wait))
    } else {
        read_body(m1)
    }
}

/// The message of an error that a model server reports in place of an answer.
pub open spec fn error_message(v: JsonModel) -> Option<Seq<char>> {
    match v.field_of_field("error"@, "message"@) {
        Some(m) if m.str() is Some => m.str(),
        _ => match v.str_at("error"@) {
            Some(m) => Some(m),
            None => v.str_at("message"@),
        },
    }
}

/// What the end of the body means: an answer that has ended, or an error that the body reports.
pub open spec fn at_end(m: BridgeModel, parsed: Option<JsonModel>) -> Result<Tally, Seq<char>> {
    match parsed {
        Some(v) => match error_message(v) {
            Some(e) => if m.body.len() > 0 {
                Err("llama.cpp: "@ + e)
            } else {
                Ok(m.tally)
            },
            None => Ok(m.tally),
        },
        None => Ok(m.tally),
    }
}

// ── Executable code ─────────────────────────────────────────────────────────

pub open spec fn passed_models(s: Seq<ChunkMessage>) -> Seq<Passed> {
    s.map_values(|c: ChunkMessage| Passed { line: c.delta@, is_tool_call: c.is_tool_call })
}

/// All messages are about one request.
pub open spec fn all_for(s: Seq<ChunkMessage>, id: Seq<char>) -> bool {
    forall|i: int| 0 <= i < s.len() ==> (#[trigger] s[i]).request_id@ == id
}

fn count_in(v: &Json, field: &str, before: u32) -> (r: u32)
    ensures
        r == reported(v@, field@, before),
{
    match v.get_in("usage", field) {
        Some(n) => match n.as_u64() {
            Some(n) => responses::cut32(n),
            None => before,
        },
        None => before,
    }
}

fn has_calls(v: &Json) -> (r: bool)
    ensures
        r == carries_calls(v@),
{
    match tool_calls::delta_of(v) {
        Some(d) => match d.get("tool_calls") {
            Some(t) => !t.is_null(),
            None => false,
        },
        None => false,
    }
}

fn end_in(v: &Json) -> (r: Option<FinishReason>)
    ensures
        r == ended_by(v@),
{
    match v.get("choices") {
        Some(choices) => match choices.item(0) {
            Some(c) => match c.str_at("finish_reason") {
                Some(s) => Some(map_finish_reason(s)),
                None => None,
            },
            None => None,
        },
        None => None,
    }
}

impl Tally {
    /// Takes a chunk in; returns whether it carries tool calls, and whether it ends the answer.
    pub fn on_chunk(&mut self, v: &Json) -> (r: (bool, bool))
        ensures
            *final(self) == tally_after(*old(self), v@),
            r == (carries_calls(v@), ended_by(v@) is Some),
    {
        self.prompt_tokens = count_in(v, "prompt_tokens", self.prompt_tokens);
        self.comp_tokens = count_in(v, "completion_tokens", self.comp_tokens);
        let ended = match end_in(v) {
            Some(reason) => {
                self.reason = reason;
                true
            },
            None => false,
        };
        (has_calls(v), ended)
    }
}

/// The message of an error that a model server reports in place of an answer.
pub fn error_message_of(v: &Json) -> (r: Option<String>)
    ensures
        text::opt_text(r) == error_message(v@),
{
    match v.get_in("error", "message") {
        Some(m) => match m.as_str() {
            Some(s) => return Some(text::owned(s)),
            None => {},
        },
        None => {},
    }
    match v.str_at("error") {
        Some(s) => return Some(text::owned(s)),
        None => {},
    }
    match v.str_at("message") {
        Some(s) => Some(text::owned(s)),
        None => None,
    }
}

/// The message of an error in the bytes of a body.
pub fn extract_error_message(body: &[u8]) -> (r: Option<String>)
    ensures
        text::opt_text(r) == (match json::json_parse_bytes(body@) {
            Some(v) => error_message(v),
            None => None,
        }),
{
    match json::parse_bytes(body) {
        Some(v) => error_message_of(&v),
        None => None,
    }
}

fn head_says_chunked(head: &str) -> (r: bool)
    ensures
        r == says_chunked(text::lines(head@)),
{
    let lines = text::line_texts(head);
    let ghost all = text::texts(lines@);
    let mut i: usize = 0;
    while i < lines.len()
        invariant
            i <= lines.len(),
            all == text::texts(lines@),
            all == text::lines(head@),
            forall|k: int|
                0 <= k < i ==> !is_chunked_line(text::to_ascii_lower(#[trigger] all[k])),
        decreases lines.len() - i,
    {
        assert(all[i as int] == lines@[i as int]@);
        let l = text::lower_text(lines[i].as_str());
        if text::has_prefix(l.as_str(), "transfer-encoding:") && text::has_part(
            l.as_str(),
            "chunked",
        ) {
            return true;
        }
        i = i + 1;
    }
    false
}

/// A task's answer on its way from the model server to the gateway.
pub struct Bridge {
    request_id: String,
    buf: bytes::BytesMut,
    body_buf: bytes::BytesMut,
    headers_done: bool,
    is_chunked: bool,
    chunked_finished: bool,
    tally: Tally,
}

impl View for Bridge {
    type V = BridgeModel;

    closed spec fn view(&self) -> BridgeModel {
        BridgeModel {
            raw: buffer::buffer_bytes(self.buf),
            body: buffer::buffer_bytes(self.body_buf),
            headers_done: self.headers_done,
            chunked: self.is_chunked,
            chunks_done: self.chunked_finished,
            tally: self.tally,
        }
    }
}

/// What more bytes gave.
pub enum Step {
    Wait,
    /// The answer has ended: the message that says so.
    Ended(DoneMessage),
    /// The body has ended.
    BodyEnded,
}

pub open spec fn is_step(s: Step, after: After, id: Seq<char>, t: Tally) -> bool {
    match after {
        After::Wait => s is Wait,
        After::BodyEnded => s is BodyEnded,
        After::Ended => s matches Step::Ended(d) && is_done(d, id, t),
    }
}

/// The message that ends an answer.
pub open spec fn is_done(d: DoneMessage, id: Seq<char>, t: Tally) -> bool {
    d.request_id@ == id && d.finish_reason == t.reason && d.prompt_tokens == t.prompt_tokens
        && d.comp_tokens == t.comp_tokens
}

impl Bridge {
    /// The request that is answered.
    pub closed spec fn id(&self) -> Seq<char> {
        self.request_id@
    }

    pub fn new(request_id: &str) -> (r: Bridge)
        ensures
            r.id() == request_id@,
            r@ == (BridgeModel {
                raw: seq![],
                body: seq![],
                headers_done: false,
                chunked: false,
                chunks_done: false,
                tally: Tally { prompt_tokens: 0, comp_tokens: 0, reason: FinishReason::Stop },
            }),
    {
        Bridge {
            request_id: text::owned(request_id),
            buf: bytes::BytesMut::new(),
            body_buf: bytes::BytesMut::new(),
            headers_done: false,
            is_chunked: false,
            chunked_finished: false,
            tally: Tally { prompt_tokens: 0, comp_tokens: 0, reason: FinishReason::Stop },
        }
    }

    fn done(&self) -> (r: DoneMessage)
        ensures
            is_done(r, self.id(), self@.tally),
    {
        DoneMessage {
            request_id: self.request_id.clone(),
            finish_reason: self.tally.reason,
            prompt_tokens: self.tally.prompt_tokens,
            comp_tokens: self.tally.comp_tokens,
        }
    }

    fn take_head(&mut self)
        ensures
            final(self)@ == without_head(old(self)@),
            final(self).id() == old(self).id(),
    {
        if self.headers_done {
            return ;
        }
        let ghost m = self@;
        let mark: [u8; 4] = [13, 10, 13, 10];
        assert(mark@ =~= dechunk::blank());
        let raw = buffer::as_slice(&self.buf);
        let n: usize = raw.len();
        let found = buffer::find_bytes(raw, mark.as_slice());
        match found {
            Some(p) => {
                let head = self.buf.split_to(p + 4);
                let s = text::lossy_text(buffer::as_slice(&head));
                self.is_chunked = head_says_chunked(s.as_str());
                self.headers_done = true;
                assert(self@ =~= without_head(m));
            },
            None => {},
        }
    }

    fn decode(&mut self) -> (r: Result<(), String>)
        ensures
            final(self).id() == old(self).id(),
            match decoded(old(self)@) {
                Ok(m) => r is Ok && final(self)@ == m,
                Err(e) => r matches Err(t) && t@ == e,
            },
    {
        let ghost m = self@;
        if !self.is_chunked {
            let raw = buffer::as_slice(&self.buf);
            self.body_buf.extend_from_slice(raw);
            self.buf = bytes::BytesMut::new();
            assert(self@ =~= decoded(m)->Ok_0);
            return Ok(());
        }
        if self.chunked_finished {
            return Ok(());
        }
        match dechunk::dechunk(&mut self.buf, &mut self.body_buf) {
            Ok(finished) => {
                self.chunked_finished = finished;
                assert(self@ =~= decoded(m)->Ok_0);
                Ok(())
            },
            Err(e) => Err(
                text::concat("Malformed chunked response from llama.cpp: ", e.as_str()),
            ),
        }
    }

    /// Reads one line; returns what is passed on for it, and whether the answer has ended.
    fn take_line(&mut self, line: &str) -> (r: (Option<ChunkMessage>, bool))
        ensures
            final(self).id() == old(self).id(),
            ({
                let (p, t, end) = on_line(old(self)@.tally, line@);
                &&& final(self)@ == (BridgeModel { tally: t, ..old(self)@ })
                &&& r.1 == end
                &&& match (r.0, p) {
                    (Some(c), Some(p)) => c.request_id@ == old(self).id() && c.delta@ == p.line
                        && c.is_tool_call == p.is_tool_call,
                    (None, None) => true,
                    _ => false,
                }
            }),
    {
        if text::str_eq(line, "data: [DONE]") {
            return (None, true);
        }
        let data = match text::cut_prefix(line, "data: ") {
            Some(d) => d,
            None => return (None, false),
        };
        match json::parse(data.as_str()) {
            None => (None, false),
            Some(v) => {
                let (is_tool_call, ended) = self.tally.on_chunk(&v);
                let chunk = ChunkMessage {
                    request_id: self.request_id.clone(),
                    delta: text::owned(line),
                    is_tool_call,
                };
                (Some(chunk), ended)
            },
        }
    }

    /// Reads the lines that are complete, up to the end of the answer.
    fn drain(&mut self) -> (r: (Vec<ChunkMessage>, bool))
        ensures
            final(self).id() == old(self).id(),
            all_for(r.0@, old(self).id()),
            ({
                let d = drained(old(self)@.tally, old(self)@.body);
                &&& final(self)@ == (BridgeModel { body: d.rest, tally: d.tally, ..old(self)@ })
                &&& passed_models(r.0@) == d.passed
                &&& r.1 == d.ended
            }),
    {
        let ghost m = self@;
        let ghost d = drained(m.tally, m.body);
        let mut out: Vec<ChunkMessage> = Vec::new();
        assert(passed_models(out@) =~= seq![]);
        assert(d.passed =~= passed_models(out@) + drained(self@.tally, self@.body).passed);
        loop
            invariant
                m == old(self)@,
                d == drained(m.tally, m.body),
                self.id() == old(self).id(),
                all_for(out@, self.id()),
                self@ == (BridgeModel { body: self@.body, tally: self@.tally, ..m }),
                ({
                    let now = drained(self@.tally, self@.body);
                    &&& d.passed == passed_models(out@) + now.passed
                    &&& d.tally == now.tally
                    &&& d.rest == now.rest
                    &&& d.ended == now.ended
                }),
            decreases self@.body.len(),
        {
            proof {
                buffer::position_is_first(self@.body, 10);
            }
            let ghost before = self@;
            let ghost so_far = passed_models(out@);
            let body = buffer::as_slice(&self.body_buf);
            let n: usize = body.len();
            let pos: usize = match buffer::find_byte(body, 10) {
                Some(p) => p,
                None => {
                    assert(so_far + Seq::<Passed>::empty() =~= so_far);
                    return (out, false);
                },
            };
            assert(pos < n);
            let bytes = self.body_buf.split_to(pos + 1);
            let read = text::lossy_text(buffer::as_slice(&bytes));
            let line = text::trimmed(read.as_str());
            if !line.as_str().is_empty() {
                let (chunk, ended) = self.take_line(line.as_str());
                match chunk {
                    Some(c) => {
                        proof {
                            let p = Passed { line: c.delta@, is_tool_call: c.is_tool_call };
                            assert(passed_models(out@.push(c)) =~= so_far.push(p));
                            assert forall|x: Seq<Passed>| #[trigger] (so_far + (seq![p] + x))
                                == so_far.push(p) + x by {
                                assert(so_far + (seq![p] + x) =~= so_far.push(p) + x);
                            }
                            assert(so_far + seq![p] =~= so_far.push(p));
                        }
                        out.push(c);
                    },
                    None => {
                        proof {
                            assert forall|x: Seq<Passed>| #[trigger] (so_far + (
                            Seq::<Passed>::empty() + x)) == so_far + x by {
                                assert(so_far + (Seq::<Passed>::empty() + x) =~= so_far + x);
                            }
                            assert(so_far + Seq::<Passed>::empty() =~= so_far);
                        }
                    },
                }
                if ended {
                    return (out, true);
                }
            }
        }
    }

    /// Takes more bytes of the model server's answer in. Returns what is to be passed on, and
    /// what is to be done then.
    pub fn on_bytes(&mut self, bytes: &[u8]) -> (r: Result<(Vec<ChunkMessage>, Step), String>)
        ensures
            final(self).id() == old(self).id(),
            match on_bytes(old(self)@, bytes@) {
                Ok((m, passed, after)) => r matches Ok((out, step)) && final(self)@ == m
                    && passed_models(out@) == passed && all_for(out@, old(self).id()) && is_step(
                    step,
                    after,
                    old(self).id(),
                    m.tally,
                ),
                Err(e) => r matches Err(t) && t@ == e,
            },
    {
        let none: Vec<ChunkMessage> = Vec::new();
        assert(passed_models(none@) =~= seq![]);
        self.buf.extend_from_slice(bytes);
        self.take_head();
        if !self.headers_done {
            return Ok((none, Step::Wait));
        }
        match self.decode() {
            Ok(_) => {},
            Err(e) => return Err(e),
        }
        let (out, ended) = self.drain();
        let step = if ended {
            Step::Ended(self.done())
        } else if self.is_chunked && self.chunked_finished {
            Step::BodyEnded
        } else {
            Step::Wait
        };
        Ok((out, step))
    }

    /// The body has ended without an end of the answer: what is left of it may report an error.
    pub fn finish(&self) -> (r: Result<DoneMessage, String>)
        ensures
            match at_end(self@, json::json_parse_bytes(self@.body)) {
                Ok(t) => r matches Ok(d) && is_done(d, self.id(), t),
                Err(e) => r matches Err(m) && m@ == e,
            },
    {
        let body = buffer::as_slice(&self.body_buf);
        if body.len() > 0 {
            match extract_error_message(body) {
                Some(m) => return Err(text::concat("llama.cpp: ", m.as_str())),
                None => {},
            }
        }
        Ok(self.done())
    }
}

/// The message that a task has failed, which is always the fault of what is behind the worker.
pub fn task_error(request_id: &str, message: &str) -> (r: ErrorMessage)
    ensures
        r.request_id@ == request_id@,
        r.message@ == message@,
        r.code == 502,
{
    ErrorMessage { request_id: text::owned(request_id), message: text::owned(message), code: 502 }
}

// ── Laws ────────────────────────────────────────────────────────────────────

/// Every event of the stream is passed on as it came, or not at all.
pub proof fn lines_are_passed_verbatim(t: Tally, line: Seq<char>)
    ensures
        on_line(t, line).0 matches Some(p) ==> p.line == line && text::starts_with(
            line,
            "data: "@,
        ),
{
}

/// How the bytes are cut into pieces does not matter for a body that is not chunked: the lines
/// that are read from what has come, and later from what was left together with what came then,
/// are those that are read from all at once.
pub proof fn draining_is_chunk_invariant(t: Tally, a: Seq<u8>, b: Seq<u8>)
    ensures
        ({
            let first = drained(t, a);
            let all = drained(t, a + b);
            if first.ended {
                all.passed == first.passed && all.tally == first.tally && all.ended && all.rest
                    == first.rest + b
            } else {
                let later = drained(first.tally, first.rest + b);
                all.passed == first.passed + later.passed && all.tally == later.tally
                    && all.ended == later.ended && all.rest == later.rest
            }
        }),
    decreases a.len(),
{
    let c = a + b;
    buffer::position_is_first(a, 10);
    match buffer::position(a, 10) {
        None => {
            assert(drained(t, c).passed =~= Seq::<Passed>::empty() + drained(t, c).passed);
        },
        Some(k) => {
            assert forall|j: int| 0 <= j < k implies #[trigger] c[j] != 10 by {
                assert(c[j] == a[j]);
            }
            buffer::position_hits(c, 10, k);
            assert(c.take(k + 1) =~= a.take(k + 1));
            assert(c.skip(k + 1) =~= a.skip(k + 1) + b);
            let line = line_text(a.take(k + 1));
            if line.len() == 0 {
                draining_is_chunk_invariant(t, a.skip(k + 1), b);
            } else {
                let (p, t1, end) = on_line(t, line);
                if !end {
                    draining_is_chunk_invariant(t1, a.skip(k + 1), b);
                    let head = match p {
                        Some(p) => seq![p],
                        None => seq![],
                    };
                    let first = drained(t1, a.skip(k + 1));
                    if !first.ended {
                        let later = drained(first.tally, first.rest + b);
                        assert(head + (first.passed + later.passed) =~= (head + first.passed)
                            + later.passed);
                    }
                }
            }
        },
    }
}

proof fn body_is_chunk_invariant(h: BridgeModel, b: Seq<u8>)
    requires
        read_body(h) is Ok,
        read_body(h)->Ok_0.2 is Wait,
    ensures
        read_body(h)->Ok_0.0.headers_done == h.headers_done,
        ({
            let first = read_body(h)->Ok_0;
            let all = read_body(BridgeModel { raw: h.raw + b, ..h });
            match read_body(BridgeModel { raw: first.0.raw + b, ..first.0 }) {
                Ok((m2, passed, after)) => all == Ok::<_, Seq<char>>(
                    (m2, first.1 + passed, after),
                ),
                Err(e) => all == Err::<(BridgeModel, Seq<Passed>, After), _>(e),
            }
        }),
{
    let d = decoded(h)->Ok_0;
    if h.chunked {
        dechunk::dechunking_is_chunk_invariant(h.raw, b);
        let c1 = dechunk::dechunked(h.raw);
        let c2 = dechunk::dechunked(c1.rest + b);
        if !(c2.progress is Bad) {
            assert(h.body + (c1.out + c2.out) =~= d.body + c2.out);
            draining_is_chunk_invariant(d.tally, d.body, c2.out);
        }
    } else {
        assert(Seq::<u8>::empty() + b =~= b);
        assert(h.body + (h.raw + b) =~= d.body + b);
        draining_is_chunk_invariant(d.tally, d.body, b);
    }
}

/// How the network cuts the model server's answer into pieces does not matter: what is passed on
/// for two pieces, the error or the end that the second of them brings, and what is left then,
/// are those of the two pieces at once.
pub proof fn answer_is_chunk_invariant(m: BridgeModel, a: Seq<u8>, b: Seq<u8>)
    requires
        on_bytes(m, a) is Ok,
        on_bytes(m, a)->Ok_0.2 is Wait,
    ensures
        ({
            let first = on_bytes(m, a)->Ok_0;
            match on_bytes(first.0, b) {
                Ok((m2, passed, after)) => on_bytes(m, a + b) == Ok::<_, Seq<char>>(
                    (m2, first.1 + passed, after),
                ),
                Err(e) => on_bytes(m, a + b) == Err::<(BridgeModel, Seq<Passed>, After), _>(e),
            }
        }),
{
    let first = on_bytes(m, a)->Ok_0;
    let ma = BridgeModel { raw: m.raw + a, ..m };
    let mc = BridgeModel { raw: m.raw + (a + b), ..m };
    assert(m.raw + (a + b) =~= (m.raw + a) + b);
    let ha = without_head(ma);
    if !ha.headers_done {
        let second = on_bytes(first.0, b);
        if second is Ok {
            assert(Seq::<Passed>::empty() + second->Ok_0.1 =~= second->Ok_0.1);
        }
    } else {
        if !m.headers_done {
            buffer::place_stays(ma.raw, dechunk::blank(), b);
            buffer::place_is_first(ma.raw, dechunk::blank(), 0);
            let p = buffer::place(ma.raw, dechunk::blank())->Some_0;
            assert(mc.raw.take(p + 4) =~= ma.raw.take(p + 4));
            assert(mc.raw.skip(p + 4) =~= ma.raw.skip(p + 4) + b);
        }
        assert(without_head(mc) =~= (BridgeModel { raw: ha.raw + b, ..ha }));
        body_is_chunk_invariant(ha, b);
    }
}

/// An error that the model server reports in place of an answer is not taken for an answer.
pub proof fn reported_error_is_no_answer(m: BridgeModel, v: JsonModel)
    requires
        m.body.len() > 0,
        error_message(v) is Some,
    ensures
        at_end(m, Some(v)) is Err,
{
}

} // verus!
