//! Messages that come one to a line.
use vstd::prelude::*;

use crate::buffer;
use crate::text;

verus! {

/// A line that was taken from the buffer.
pub open spec fn line_read(b: Seq<u8>) -> Option<Seq<char>> {
    if vstd::utf8::valid_utf8(b) {
        Some(text::trim(vstd::utf8::decode_utf8(b)))
    } else {
        None
    }
}

/// The next message in a buffer, and what is left behind it.
pub enum NextModel {
    /// There is none yet; the blank lines in front are gone.
    More(Seq<u8>),
    Message(Seq<char>, Seq<u8>),
    /// The line is not UTF-8.
    Garbled(Seq<u8>),
}

/// The next line that is not blank.
pub open spec fn next_message(b: Seq<u8>) -> NextModel
    decreases b.len(),
{
    proof {
        buffer::position_is_first(b, 10);
    }
    match buffer::position(b, 10) {
        None => NextModel::More(b),
        Some(k) => {
            let rest = b.skip(k + 1);
            match line_read(b.take(k + 1)) {
                None => NextModel::Garbled(rest),
                Some(t) => if t.len() == 0 {
                    next_message(rest)
                } else {
                    NextModel::Message(t, rest)
                },
            }
        },
    }
}

pub enum Next {
    More,
    Message(String),
    Garbled,
}

/// Messages that come one to a line, in pieces of any size.
pub struct NdjsonReader {
    buf: bytes::BytesMut,
}

impl View for NdjsonReader {
    type V = Seq<u8>;

    closed spec fn view(&self) -> Seq<u8> {
        buffer::buffer_bytes(self.buf)
    }
}

impl NdjsonReader {
    pub fn new(leftover: &[u8]) -> (r: NdjsonReader)
        ensures
            r@ == leftover@,
    {
        let mut buf = bytes::BytesMut::new();
        buf.extend_from_slice(leftover);
        assert(buffer::buffer_bytes(buf) =~= leftover@);
        NdjsonReader { buf }
    }

    /// Takes more bytes in.
    pub fn push(&mut self, chunk: &[u8])
        ensures
            final(self)@ == old(self)@ + chunk@,
    {
        self.buf.extend_from_slice(chunk);
    }

    /// The next message, if all of it is there.
    pub fn next(&mut self) -> (r: Next)
        ensures
            match (next_message(old(self)@), r) {
                (NextModel::More(rest), Next::More) => final(self)@ == rest,
                (NextModel::Message(t, rest), Next::Message(m)) => m@ == t && final(self)@ == rest,
                (NextModel::Garbled(rest), Next::Garbled) => final(self)@ == rest,
                _ => false,
            },
    {
        loop
            invariant
                next_message(self@) == next_message(old(self)@),
            decreases self@.len(),
        {
            proof {
                buffer::position_is_first(self@, 10);
            }
            let pending = buffer::as_slice(&self.buf);
            let n: usize = pending.len();
            let pos: usize = match buffer::find_byte(pending, 10) {
                Some(p) => p,
                None => return Next::More,
            };
            assert(pos < n);
            let line = self.buf.split_to(pos + 1);
            let bytes = buffer::as_slice(&line);
            let copy = buffer::copy_range(bytes, 0, bytes.len());
            assert(copy@ =~= buffer::buffer_bytes(line));
            let read = match text::utf8_text(copy) {
                Some(s) => text::trimmed(s.as_str()),
                None => return Next::Garbled,
            };
            if !read.as_str().is_empty() {
                return Next::Message(read);
            }
        }
    }
}

/// Where messages go, one to a line.
pub struct NdjsonWriter<W> {
    pub writer: W,
}

impl<W> NdjsonWriter<W> {
    pub fn new(writer: W) -> (r: NdjsonWriter<W>)
        ensures
            r.writer == writer,
    {
        NdjsonWriter { writer }
    }
}

/// A message as a line.
pub fn ndjson_line(json: &str) -> (r: String)
    ensures
        r@ == json@ + "\n"@,
{
    text::concat(json, "\n")
}

// ── Laws ────────────────────────────────────────────────────────────────────

/// While no line is complete, what has come is kept and nothing is read.
pub proof fn partial_line_is_kept(b: Seq<u8>)
    requires
        forall|i: int| 0 <= i < b.len() ==> #[trigger] b[i] != 10,
    ensures
        next_message(b) == NextModel::More(b),
{
    buffer::position_is_first(b, 10);
}

/// How the bytes are cut into pieces does not matter: a message that is complete is read the
/// same whether or not more has come behind it.
pub proof fn more_bytes_change_nothing_read(b: Seq<u8>, more: Seq<u8>)
    ensures
        match next_message(b) {
            NextModel::Message(t, rest) => next_message(b + more) == NextModel::Message(
                t,
                rest + more,
            ),
            NextModel::Garbled(rest) => next_message(b + more) == NextModel::Garbled(rest + more),
            NextModel::More(rest) => next_message(b + more) == next_message(rest + more),
        },
    decreases b.len(),
{
    buffer::position_is_first(b, 10);
    match buffer::position(b, 10) {
        None => {},
        Some(k) => {
            let c = b + more;
            assert forall|j: int| 0 <= j < k implies #[trigger] c[j] != 10 by {
                assert(c[j] == b[j]);
            }
            buffer::position_hits(c, 10, k);
            assert(c.take(k + 1) =~= b.take(k + 1));
            assert(c.skip(k + 1) =~= b.skip(k + 1) + more);
            more_bytes_change_nothing_read(b.skip(k + 1), more);
        },
    }
}

proof fn high_bytes(v: u32)
    by (bit_vector)
    ensures
        vstd::utf8::leading_byte_width_2(v) >= 0x80,
        vstd::utf8::leading_byte_width_3(v) >= 0x80,
        vstd::utf8::leading_byte_width_4(v) >= 0x80,
        vstd::utf8::last_continuation_byte(v) >= 0x80,
        vstd::utf8::second_last_continuation_byte(v) >= 0x80,
        vstd::utf8::third_last_continuation_byte(v) >= 0x80,
        v <= 0x7f ==> vstd::utf8::leading_byte_width_1(v) == v,
{
}

proof fn newline_is_itself(s: Seq<char>)
    ensures
        vstd::utf8::encode_utf8(s.push('\n')) == vstd::utf8::encode_utf8(s).push(10),
        !s.contains('\n') ==> forall|i: int|
            0 <= i < vstd::utf8::encode_utf8(s).len() ==> #[trigger] vstd::utf8::encode_utf8(s)[i]
                != 10,
    decreases s.len(),
{
    high_bytes(10);
    if s.len() == 0 {
        let one = s.push('\n');
        assert(one.drop_first() =~= seq![]);
        assert(vstd::utf8::encode_utf8(one.drop_first()) =~= seq![]);
        assert(vstd::utf8::encode_utf8(one) =~= seq![10u8]);
    } else {
        let rest = s.drop_first();
        newline_is_itself(rest);
        assert(s.push('\n').drop_first() =~= rest.push('\n'));
        assert(s.push('\n')[0] == s[0]);
        let first = vstd::utf8::encode_scalar(s[0] as u32);
        assert(vstd::utf8::encode_utf8(s.push('\n')) =~= vstd::utf8::encode_utf8(s).push(10));
        if !s.contains('\n') {
            assert forall|i: int| 0 <= i < rest.len() implies rest[i] != '\n' by {
                assert(s.contains(s[i + 1]));
            }
            assert(s.contains(s[0]));
            high_bytes(s[0] as u32);
            let all = vstd::utf8::encode_utf8(s);
            let tail = vstd::utf8::encode_utf8(rest);
            let v = s[0] as u32;
            assert(s[0] != '\n');
            vstd::utf8::char_u32_cast(s[0], v);
            assert(v != 10);
            assert(forall|i: int| 0 <= i < first.len() ==> #[trigger] first[i] != 10);
            assert(all =~= first + tail);
            assert forall|i: int| 0 <= i < all.len() implies #[trigger] all[i] != 10 by {
                if i < first.len() {
                    assert(all[i] == first[i]);
                } else {
                    assert(all[i] == tail[i - first.len()]);
                }
            }
        }
    }
}

/// A message that was written as a line is read back, whatever comes behind it. It is one line,
/// without blanks around it, as JSON is written.
pub proof fn line_is_read_back(json: Seq<char>, rest: Seq<u8>)
    requires
        json.len() > 0,
        !json.contains('\n'),
        !text::is_space(json[0]),
        !text::is_space(json.last()),
    ensures
        next_message(vstd::utf8::encode_utf8(json + "\n"@) + rest) == NextModel::Message(
            json,
            rest,
        ),
{
    let e = vstd::utf8::encode_utf8(json);
    let line = json + "\n"@;
    reveal_strlit("\n");
    assert(line =~= json.push('\n'));
    newline_is_itself(json);
    let b = vstd::utf8::encode_utf8(line) + rest;
    let k = e.len() as int;
    assert(b[k] == 10);
    assert forall|j: int| 0 <= j < k implies #[trigger] b[j] != 10 by {
        assert(b[j] == e[j]);
    }
    buffer::position_hits(b, 10, k);
    assert(b.take(k + 1) =~= vstd::utf8::encode_utf8(line));
    assert(b.skip(k + 1) =~= rest);
    vstd::utf8::encode_utf8_valid_utf8(line);
    vstd::utf8::encode_utf8_decode_utf8(line);
    assert(line.drop_last() =~= json);
    assert(text::trim_start(line) == line);
    assert(text::trim_end(line) == text::trim_end(json));
}

} // verus!
