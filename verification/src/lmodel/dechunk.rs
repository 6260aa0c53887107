//! The chunked transfer encoding of HTTP.
use vstd::prelude::*;

use crate::buffer;
use crate::text;

verus! {

pub open spec fn crlf() -> Seq<u8> {
    seq![13, 10]
}

/// An empty line, behind a line.
pub open spec fn blank() -> Seq<u8> {
    seq![13, 10, 13, 10]
}

/// How decoding went.
pub enum Progress {
    /// More bytes are needed.
    More,
    /// The body is complete.
    Done,
    /// The bytes are not chunked: why.
    Bad(Seq<char>),
}

/// What decoding gave: what was decoded, what is left, and how it went.
#[verifier::ext_equal]
pub struct Dechunked {
    pub out: Seq<u8>,
    pub rest: Seq<u8>,
    pub progress: Progress,
}

pub open spec fn stopped(b: Seq<u8>, progress: Progress) -> Dechunked {
    Dechunked { out: seq![], rest: b, progress }
}

/// The size that a chunk's first line states, in hexadecimal; what follows a `;` does not count.
pub open spec fn size_of_line(line: Seq<u8>) -> Result<nat, Seq<char>> {
    if !vstd::utf8::valid_utf8(line) {
        Err("chunk size line is not valid UTF-8"@)
    } else {
        let t = text::trim(text::head_of(vstd::utf8::decode_utf8(line), ';'));
        match text::at_most(text::parse_hex(t), usize::MAX as nat) {
            Some(n) => Ok(n),
            None => Err("invalid chunk size "@ + text::quoted(t)),
        }
    }
}

/// The end of the last chunk: an empty line, or headers and an empty line behind them.
pub open spec fn after_last(b: Seq<u8>, data_start: int) -> Option<int> {
    let rest = b.skip(data_start);
    if buffer::stands_at(rest, crlf(), 0) {
        Some(data_start + 2)
    } else {
        match buffer::place(rest, blank()) {
            Some(p) => Some(data_start + p + 4),
            None => None,
        }
    }
}

/// Decodes as many chunks as are complete.
pub open spec fn dechunked(b: Seq<u8>) -> Dechunked
    decreases b.len(),
{
    match buffer::place(b, crlf()) {
        None => stopped(b, Progress::More),
        Some(line_end) => match size_of_line(b.take(line_end)) {
            Err(e) => stopped(b, Progress::Bad(e)),
            Ok(size) => if size == 0 {
                match after_last(b, line_end + 2) {
                    Some(end) => stopped(b.skip(end), Progress::Done),
                    None => stopped(b, Progress::More),
                }
            } else if line_end < 0 || b.len() < line_end + 2 + size + 2 {
                stopped(b, Progress::More)
            } else {
                let data = b.subrange(line_end + 2, line_end + 2 + size);
                let d = dechunked(b.skip(line_end + 2 + size + 2));
                Dechunked { out: data + d.out, ..d }
            },
        },
    }
}

fn line_size(line: &[u8]) -> (r: Result<usize, String>)
    ensures
        match r {
            Ok(n) => size_of_line(line@) == Ok::<nat, Seq<char>>(n as nat),
            Err(e) => size_of_line(line@) == Err::<nat, Seq<char>>(e@),
        },
{
    let copy = buffer::copy_range(line, 0, line.len());
    assert(copy@ =~= line@);
    let s = match text::utf8_text(copy) {
        Some(s) => s,
        None => return Err(text::owned("chunk size line is not valid UTF-8")),
    };
    let t = text::trimmed(text::head_text(s.as_str(), ';').as_str());
    match text::hex_of(t.as_str(), usize::MAX as u64) {
        Some(n) => Ok(n as usize),
        None => Err(
            text::concat("invalid chunk size ", text::quoted_text(t.as_str()).as_str()),
        ),
    }
}

fn last_end(b: &[u8], data_start: usize) -> (r: Option<usize>)
    requires
        data_start <= b@.len(),
    ensures
        match r {
            Some(e) => after_last(b@, data_start as int) == Some(e as int) && e <= b@.len(),
            None => after_last(b@, data_start as int) is None,
        },
{
    let n: usize = b.len();
    let rest = buffer::copy_range(b, data_start, n);
    assert(rest@ =~= b@.skip(data_start as int));
    if rest.len() >= 2 && rest[0] == 13 && rest[1] == 10 {
        assert(rest@.subrange(0, 2) =~= crlf());
        return Some(data_start + 2);
    }
    proof {
        if buffer::stands_at(rest@, crlf(), 0) {
            assert(rest@.subrange(0, 2)[0] == 13 && rest@.subrange(0, 2)[1] == 10);
        }
    }
    let mark: [u8; 4] = [13, 10, 13, 10];
    assert(mark@ =~= blank());
    match buffer::find_bytes(rest.as_slice(), mark.as_slice()) {
        Some(p) => Some(data_start + p + 4),
        None => None,
    }
}

/// Takes the chunks that are complete out of `buf`, and adds what they hold to `out`. What is
/// not complete stays in `buf`, for a later call. Returns whether the body is complete.
pub fn dechunk(buf: &mut bytes::BytesMut, out: &mut bytes::BytesMut) -> (r: Result<bool, String>)
    ensures
        ({
            let d = dechunked(buffer::buffer_bytes(*old(buf)));
            &&& buffer::buffer_bytes(*final(out)) == buffer::buffer_bytes(*old(out)) + d.out
            &&& buffer::buffer_bytes(*final(buf)) == d.rest
            &&& match d.progress {
                Progress::More => r == Ok::<bool, String>(false),
                Progress::Done => r == Ok::<bool, String>(true),
                Progress::Bad(e) => r matches Err(m) && m@ == e,
            }
        }),
{
    let ghost d = dechunked(buffer::buffer_bytes(*buf));
    let ghost before = buffer::buffer_bytes(*out);
    loop
        invariant
            d == dechunked(buffer::buffer_bytes(*old(buf))),
            before == buffer::buffer_bytes(*old(out)),
            ({
                let now = dechunked(buffer::buffer_bytes(*buf));
                &&& before + d.out == buffer::buffer_bytes(*out) + now.out
                &&& d.rest == now.rest
                &&& d.progress == now.progress
            }),
        decreases buffer::buffer_bytes(*buf).len(),
    {
        let ghost b = buffer::buffer_bytes(*buf);
        let ghost so_far = buffer::buffer_bytes(*out);
        let bytes = buffer::as_slice(buf);
        let n: usize = bytes.len();
        let mark: [u8; 2] = [13, 10];
        assert(mark@ =~= crlf());
        let line_end: usize = match buffer::find_bytes(bytes, mark.as_slice()) {
            Some(k) => k,
            None => {
                assert(so_far + Seq::<u8>::empty() =~= so_far);
                return Ok(false);
            },
        };
        let line = buffer::copy_range(bytes, 0, line_end);
        assert(line@ =~= b.take(line_end as int));
        let size: usize = match line_size(line.as_slice()) {
            Ok(s) => s,
            Err(e) => {
                assert(so_far + Seq::<u8>::empty() =~= so_far);
                return Err(e);
            },
        };
        let data_start: usize = line_end + 2;
        if size == 0 {
            match last_end(bytes, data_start) {
                Some(end) => {
                    buffer::advance(buf, end);
                    assert(so_far + Seq::<u8>::empty() =~= so_far);
                    return Ok(true);
                },
                None => {
                    assert(so_far + Seq::<u8>::empty() =~= so_far);
                    return Ok(false);
                },
            }
        }
        let left: usize = n - data_start;
        if left < 2 || left - 2 < size {
            assert(so_far + Seq::<u8>::empty() =~= so_far);
            return Ok(false);
        }
        let data = buffer::copy_range(bytes, data_start, data_start + size);
        out.extend_from_slice(data.as_slice());
        buffer::advance(buf, data_start + size + 2);
        proof {
            let rest = dechunked(b.skip(line_end + 2 + size + 2));
            assert(so_far + (data@ + rest.out) =~= (so_far + data@) + rest.out);
        }
    }
}

// ── Laws ────────────────────────────────────────────────────────────────────

/// How the bytes are cut into pieces does not matter: decoding what has come, and later what
/// was left together with what came then, gives what decoding all at once gives.
pub proof fn dechunking_is_chunk_invariant(a: Seq<u8>, b: Seq<u8>)
    ensures
        ({
            let first = dechunked(a);
            let all = dechunked(a + b);
            match first.progress {
                Progress::More => {
                    let later = dechunked(first.rest + b);
                    all.out == first.out + later.out && all.rest == later.rest && all.progress
                        == later.progress
                },
                Progress::Done => all.out == first.out && all.rest == first.rest + b
                    && all.progress is Done,
                Progress::Bad(e) => all.out == first.out && all.rest == first.rest + b
                    && all.progress == Progress::Bad(e),
            }
        }),
    decreases a.len(),
{
    let c = a + b;
    match buffer::place(a, crlf()) {
        None => {
            assert(dechunked(c).out =~= Seq::<u8>::empty() + dechunked(c).out);
        },
        Some(line_end) => {
            buffer::place_is_first(a, crlf(), 0);
            buffer::place_stays(a, crlf(), b);
            assert(c.take(line_end) =~= a.take(line_end));
            match size_of_line(a.take(line_end)) {
                Err(_) => {},
                Ok(size) => {
                    if size == 0 {
                        let start = line_end + 2;
                        let rest = a.skip(start);
                        assert(c.skip(start) =~= rest + b);
                        if buffer::stands_at(rest, crlf(), 0) {
                            assert((rest + b).subrange(0, 2) =~= rest.subrange(0, 2));
                            assert(c.skip(start + 2) =~= a.skip(start + 2) + b);
                        } else {
                            match buffer::place(rest, blank()) {
                                Some(p) => {
                                    buffer::place_is_first(rest, blank(), 0);
                                    buffer::place_stays(rest, blank(), b);
                                    if rest.len() >= 2 {
                                        assert((rest + b).subrange(0, 2) =~= rest.subrange(0, 2));
                                    }
                                    assert(c.skip(start + p + 4) =~= a.skip(start + p + 4) + b);
                                },
                                None => {
                                    assert(dechunked(c).out =~= Seq::<u8>::empty() + dechunked(
                                        c,
                                    ).out);
                                },
                            }
                        }
                    } else if a.len() < line_end + 2 + size + 2 {
                        assert(dechunked(c).out =~= Seq::<u8>::empty() + dechunked(c).out);
                    } else {
                        let end = line_end + 2 + size + 2;
                        let data = a.subrange(line_end + 2, line_end + 2 + size);
                        assert(c.subrange(line_end + 2, line_end + 2 + size) =~= data);
                        assert(c.skip(end) =~= a.skip(end) + b);
                        dechunking_is_chunk_invariant(a.skip(end), b);
                        let first = dechunked(a.skip(end));
                        let all = dechunked(a.skip(end) + b);
                        if first.progress is More {
                            let later = dechunked(first.rest + b);
                            assert(data + all.out =~= (data + first.out) + later.out);
                        }
                    }
                },
            }
        },
    }
}

/// A chunk as it is sent: the line with its size, its bytes, and the end of a line.
pub open spec fn chunk(line: Seq<u8>, data: Seq<u8>) -> Seq<u8> {
    line + crlf() + data + crlf()
}

/// A chunk that was sent is read back: its bytes come first, and the rest is decoded as before.
pub proof fn chunk_is_read_back(line: Seq<u8>, data: Seq<u8>, rest: Seq<u8>)
    requires
        data.len() > 0,
        size_of_line(line) == Ok::<nat, Seq<char>>(data.len()),
        forall|i: int| 0 <= i < line.len() ==> #[trigger] line[i] != 13,
    ensures
        dechunked(chunk(line, data) + rest) == (Dechunked {
            out: data + dechunked(rest).out,
            ..dechunked(rest)
        }),
{
    let b = chunk(line, data) + rest;
    let k = line.len() as int;
    assert(b.subrange(k, k + 2) =~= crlf());
    assert forall|j: int| 0 <= j < k implies !#[trigger] buffer::stands_at(b, crlf(), j) by {
        if buffer::stands_at(b, crlf(), j) {
            assert(b.subrange(j, j + 2)[0] == 13);
            assert(b[j] == line[j]);
        }
    }
    buffer::place_hits(b, crlf(), 0, k);
    assert(b.take(k) =~= line);
    assert(b.subrange(k + 2, k + 2 + data.len()) =~= data);
    assert(b.skip(k + 2 + data.len() + 2) =~= rest);
}

} // verus!
