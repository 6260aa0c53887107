//! Server-sent event framing: events are separated by an empty line.
use vstd::prelude::*;

use crate::text;

verus! {

/// What separates two events once carriage returns are gone.
pub open spec fn separator() -> Seq<char> {
    seq!['\n', '\n']
}

/// `s` without its carriage returns.
pub open spec fn strip_cr(s: Seq<char>) -> Seq<char> {
    s.filter(|c: char| c != '\r')
}

/// The complete events of `s[from..]`.
pub open spec fn frames_from(s: Seq<char>, from: int) -> Seq<Seq<char>>
    decreases s.len() - from + 2,
    via frames_from_decreases
{
    match text::find_from(s, separator(), from) {
        Some(k) => seq![s.subrange(from, k)] + frames_from(s, k + 2),
        None => seq![],
    }
}

#[via_fn]
proof fn frames_from_decreases(s: Seq<char>, from: int) {
    if text::find_from(s, separator(), from) is Some {
        text::find_from_is_first(s, separator(), from);
    }
}

/// What of `s[from..]` belongs to an event that is not complete yet.
pub open spec fn leftover_from(s: Seq<char>, from: int) -> Seq<char>
    decreases s.len() - from + 2,
    via leftover_from_decreases
{
    match text::find_from(s, separator(), from) {
        Some(k) => leftover_from(s, k + 2),
        None => s.skip(from),
    }
}

#[via_fn]
proof fn leftover_from_decreases(s: Seq<char>, from: int) {
    if text::find_from(s, separator(), from) is Some {
        text::find_from_is_first(s, separator(), from);
    }
}

/// The complete events of `s`.
pub open spec fn frames(s: Seq<char>) -> Seq<Seq<char>> {
    frames_from(s, 0)
}

/// What of `s` belongs to an event that is not complete yet.
pub open spec fn leftover(s: Seq<char>) -> Seq<char> {
    leftover_from(s, 0)
}

proof fn find_shift(s: Seq<char>, p: Seq<char>, d: int, from: int)
    requires
        0 <= from,
        0 <= d <= s.len(),
    ensures
        match text::find_from(s.skip(d), p, from) {
            Some(k) => text::find_from(s, p, from + d) == Some(k + d),
            None => text::find_from(s, p, from + d) is None,
        },
    decreases s.len() - d - from + 1,
{
    let t = s.skip(d);
    if from + p.len() <= t.len() {
        assert(t.subrange(from, from + p.len()) =~= s.subrange(from + d, from + d + p.len()));
        if !text::occurs_at(t, p, from) {
            find_shift(s, p, d, from + 1);
        }
    }
}

proof fn frames_shift(s: Seq<char>, d: int, from: int)
    requires
        0 <= from,
        0 <= d,
        d + from <= s.len(),
    ensures
        frames_from(s.skip(d), from) == frames_from(s, from + d),
        leftover_from(s.skip(d), from) == leftover_from(s, from + d),
    decreases s.len() - d - from + 1,
{
    let t = s.skip(d);
    find_shift(s, separator(), d, from);
    match text::find_from(t, separator(), from) {
        Some(k) => {
            text::find_from_is_first(t, separator(), from);
            frames_shift(s, d, k + 2);
            assert(t.subrange(from, k) =~= s.subrange(from + d, k + d));
        },
        None => {
            assert(t.skip(from) =~= s.skip(from + d));
        },
    }
}

proof fn find_extends(s: Seq<char>, t: Seq<char>, p: Seq<char>, from: int)
    requires
        0 <= from,
        text::find_from(s, p, from) is Some,
    ensures
        text::find_from(s + t, p, from) == text::find_from(s, p, from),
{
    text::find_from_is_first(s, p, from);
    let k = text::find_from(s, p, from)->Some_0;
    assert((s + t).subrange(k, k + p.len()) =~= s.subrange(k, k + p.len()));
    assert forall|j: int| from <= j < k implies !#[trigger] text::occurs_at(s + t, p, j) by {
        assert(!text::occurs_at(s, p, j));
        assert((s + t).subrange(j, j + p.len()) =~= s.subrange(j, j + p.len()));
    }
    text::find_from_hits(s + t, p, from, k);
}

proof fn frames_extend(s: Seq<char>, t: Seq<char>, from: int)
    requires
        0 <= from <= s.len(),
    ensures
        frames_from(s + t, from) == frames_from(s, from) + frames(leftover_from(s, from) + t),
        leftover_from(s + t, from) == leftover(leftover_from(s, from) + t),
    decreases s.len() - from,
{
    match text::find_from(s, separator(), from) {
        Some(k) => {
            text::find_from_is_first(s, separator(), from);
            find_extends(s, t, separator(), from);
            frames_extend(s, t, k + 2);
            assert((s + t).subrange(from, k) =~= s.subrange(from, k));
            assert(frames_from(s + t, from) =~= frames_from(s, from) + frames(
                leftover_from(s, from) + t,
            ));
        },
        None => {
            frames_shift(s + t, from, 0);
            assert((s + t).skip(from) =~= s.skip(from) + t);
            assert(frames_from(s, from) + frames(s.skip(from) + t) =~= frames(s.skip(from) + t));
        },
    }
}

/// How a text is cut into chunks does not matter: reading it in two pieces gives the events
/// that reading it at once gives, and leaves the same beginning of a next one.
pub proof fn framing_is_chunk_invariant(pending: Seq<char>, a: Seq<char>, b: Seq<char>)
    ensures
        frames(pending + (a + b)) == frames(pending + a) + frames(leftover(pending + a) + b),
        leftover(pending + (a + b)) == leftover(leftover(pending + a) + b),
{
    assert(pending + (a + b) =~= (pending + a) + b);
    frames_extend(pending + a, b, 0);
}

/// Removing the carriage returns chunk by chunk removes those of the whole, also where a
/// carriage return and its line feed come in different chunks.
pub proof fn strip_cr_is_chunk_invariant(a: Seq<char>, b: Seq<char>)
    ensures
        strip_cr(a + b) == strip_cr(a) + strip_cr(b),
{
    Seq::filter_distributes_over_add(a, b, |c: char| c != '\r');
}

/// Nothing of an incomplete event is a complete one.
pub proof fn leftover_has_no_frame(s: Seq<char>)
    ensures
        frames(leftover(s)) == Seq::<Seq<char>>::empty(),
        leftover(leftover(s)) == leftover(s),
{
    frames_extend(s, seq![], 0);
    assert(s + Seq::<char>::empty() =~= s);
    assert(leftover(s) + Seq::<char>::empty() =~= leftover(s));
    assert(frames(s).len() == frames(s).len() + frames(leftover(s)).len());
    assert(frames(leftover(s)) =~= Seq::<Seq<char>>::empty());
}

/// `s` without its carriage returns, appended to `buffer`.
fn append_stripped(buffer: &mut String, s: &str)
    ensures
        final(buffer)@ == old(buffer)@ + strip_cr(s@),
{
    let chars = text::chars_of(s);
    let ghost keep = |c: char| c != '\r';
    let mut i: usize = 0;
    proof {
        reveal(Seq::filter);
        assert(s@.take(0).filter(keep) =~= seq![]);
        assert(buffer@ =~= old(buffer)@ + s@.take(0).filter(keep));
    }
    while i < chars.len()
        invariant
            i <= chars.len(),
            chars@ == s@,
            keep == (|c: char| c != '\r'),
            buffer@ == old(buffer)@ + s@.take(i as int).filter(keep),
        decreases chars.len() - i,
    {
        proof {
            reveal(Seq::filter);
            assert(s@.take(i + 1).drop_last() =~= s@.take(i as int));
            assert(s@.take(i + 1).last() == s@[i as int]);
        }
        if chars[i] != '\r' {
            buffer.push(chars[i]);
            assert(buffer@ =~= old(buffer)@ + s@.take(i + 1).filter(keep));
        }
        i = i + 1;
    }
    assert(s@.take(s@.len() as int) =~= s@);
}

// ── Whole streams ───────────────────────────────────────────────────────────

pub open spec fn chunk_views(chunks: Seq<Vec<u8>>) -> Seq<Seq<u8>> {
    chunks.map_values(|c: Vec<u8>| c@)
}

/// The text that a list of chunks makes, without carriage returns.
pub open spec fn body_text(chunks: Seq<Seq<u8>>) -> Seq<char>
    decreases chunks.len(),
{
    if chunks.len() == 0 {
        seq![]
    } else {
        pending_with(body_text(chunks.drop_last()), chunks.last())
    }
}

/// The events of a text that has come to its end: the complete ones, and what is left unless
/// it is blank.
pub open spec fn all_frames(s: Seq<char>) -> Seq<Seq<char>> {
    frames(s) + last_frame(leftover(s))
}

pub open spec fn last_frame(rest: Seq<char>) -> Seq<Seq<char>> {
    if text::trim(rest).len() == 0 {
        seq![]
    } else {
        seq![rest]
    }
}

/// Collects a stream of bytes into events.
pub struct SseParser {
    buffer: String,
}

impl View for SseParser {
    type V = Seq<char>;

    closed spec fn view(&self) -> Seq<char> {
        self.buffer@
    }
}

/// What is to be read once `chunk` has come in.
pub open spec fn pending_with(pending: Seq<char>, chunk: Seq<u8>) -> Seq<char> {
    pending + strip_cr(text::lossy(chunk))
}

impl SseParser {
    pub fn new() -> (r: SseParser)
        ensures
            r@ == Seq::<char>::empty(),
    {
        SseParser { buffer: String::new() }
    }

    /// Takes a chunk in and gives out the events that it completes.
    pub fn push(&mut self, chunk: &[u8]) -> (r: Vec<String>)
        ensures
            text::texts(r@) == frames(pending_with(old(self)@, chunk@)),
            final(self)@ == leftover(pending_with(old(self)@, chunk@)),
    {
        let chunk_text = text::lossy_text(chunk);
        append_stripped(&mut self.buffer, chunk_text.as_str());
        let chars = text::chars_of(self.buffer.as_str());
        let sep: Vec<char> = vec!['\n', '\n'];
        let mut out: Vec<String> = Vec::new();
        let mut from: usize = 0;
        let ghost all = chars@;
        assert(sep@ =~= separator());
        assert(text::texts(out@) + frames(all) =~= frames(all));
        loop
            invariant
                sep@ == separator(),
                chars@ == all,
                from <= chars.len(),
                text::texts(out@) + frames_from(all, from as int) == frames(all),
                leftover_from(all, from as int) == leftover(all),
            ensures
                text::texts(out@) == frames(all),
                from <= chars.len(),
                all.skip(from as int) == leftover(all),
            decreases chars.len() - from,
        {
            match text::find_chars(&chars, &sep, from) {
                Some(k) => {
                    let raw = text::slice_text(&chars, from, k);
                    let ghost before = out@;
                    proof {
                        text::texts_push(before, raw);
                        assert(text::texts(before) + frames_from(all, from as int)
                            =~= text::texts(before).push(raw@) + frames_from(all, k + 2));
                    }
                    out.push(raw);
                    from = k + 2;
                },
                None => {
                    assert(text::texts(out@) + frames_from(all, from as int) =~= text::texts(out@));
                    break;
                },
            }
        }
        self.buffer = text::slice_text(&chars, from, chars.len());
        assert(self.buffer@ =~= all.skip(from as int));
        out
    }

    /// What is left when the stream ends, unless it is blank.
    pub fn finish(&mut self) -> (r: Option<String>)
        ensures
            text::opt_text(r) == (if text::trim(old(self)@).len() == 0 {
                None
            } else {
                Some(old(self)@)
            }),
            final(self)@ == (if text::trim(old(self)@).len() == 0 {
                old(self)@
            } else {
                Seq::<char>::empty()
            }),
    {
        if text::trimmed(self.buffer.as_str()).as_str().is_empty() {
            return None;
        }
        let raw = self.buffer.clone();
        self.buffer = String::new();
        Some(raw)
    }
}

} // verus!
