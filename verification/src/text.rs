//! Character-sequence operations that the rest of the crate is written in.
//!
//! Every operation is stated over `Seq<char>`, the view of `str` and `String`.

use vstd::prelude::*;

verus! {

/// `String::push`: appends one character.
pub assume_specification[ String::push ](s: &mut String, c: char)
    ensures
        final(s)@ == old(s)@.push(c),
;

// ── Views of string collections ─────────────────────────────────────────────

/// The characters of every string of a sequence.
pub open spec fn texts(v: Seq<String>) -> Seq<Seq<char>> {
    v.map_values(|s: String| s@)
}

/// The characters of an optional string.
pub open spec fn opt_text(o: Option<String>) -> Option<Seq<char>> {
    match o {
        Some(s) => Some(s@),
        None => None,
    }
}

pub proof fn texts_push(v: Seq<String>, s: String)
    ensures
        texts(v.push(s)) == texts(v).push(s@),
{
    assert(texts(v.push(s)) =~= texts(v).push(s@));
}

// ── Copies ──────────────────────────────────────────────────────────────────

/// The characters of `s`.
pub fn chars_of(s: &str) -> (r: Vec<char>)
    ensures
        r@ == s@,
{
    let mut out: Vec<char> = Vec::new();
    for c in it: s.chars()
        invariant
            it.seq() == s@,
            out@ == s@.take(it.index()),
    {
        out.push(c);
    }
    assert(s@.take(s@.len() as int) =~= s@);
    out
}

/// The string made of `chars[from..to]`.
pub fn slice_text(chars: &Vec<char>, from: usize, to: usize) -> (r: String)
    requires
        from <= to <= chars.len(),
    ensures
        r@ == chars@.subrange(from as int, to as int),
{
    let mut out: String = String::new();
    let mut i: usize = from;
    while i < to
        invariant
            from <= i <= to <= chars.len(),
            out@ == chars@.subrange(from as int, i as int),
        decreases to - i,
    {
        out.push(chars[i]);
        assert(chars@.subrange(from as int, i as int).push(chars@[i as int]) =~= chars@.subrange(
            from as int,
            i + 1,
        ));
        i = i + 1;
    }
    out
}

/// A copy of `s`.
pub fn owned(s: &str) -> (r: String)
    ensures
        r@ == s@,
{
    s.to_owned()
}

/// A copy of an optional string.
pub fn dup_opt(o: &Option<String>) -> (r: Option<String>)
    ensures
        opt_text(r) == opt_text(*o),
{
    match o {
        Some(s) => Some(owned(s.as_str())),
        None => None,
    }
}

/// A copy of a list of strings.
pub fn dup_all(v: &Vec<String>) -> (r: Vec<String>)
    ensures
        texts(r@) == texts(v@),
{
    let mut out: Vec<String> = Vec::new();
    let mut i: usize = 0;
    while i < v.len()
        invariant
            i <= v.len(),
            texts(out@) == texts(v@).take(i as int),
        decreases v.len() - i,
    {
        let ghost before = out@;
        out.push(owned(v[i].as_str()));
        proof {
            texts_push(before, out@.last());
            assert(out@ =~= before.push(out@.last()));
            assert(texts(v@).take(i + 1) =~= texts(v@).take(i as int).push(v@[i as int]@));
        }
        i = i + 1;
    }
    assert(texts(v@).take(v@.len() as int) =~= texts(v@));
    out
}

/// A copy of a byte list.
pub fn dup_bytes(v: &Vec<u8>) -> (r: Vec<u8>)
    ensures
        r@ == v@,
{
    let mut out: Vec<u8> = Vec::new();
    let mut i: usize = 0;
    while i < v.len()
        invariant
            i <= v.len(),
            out@ == v@.take(i as int),
        decreases v.len() - i,
    {
        out.push(v[i]);
        assert(v@.take(i + 1) =~= v@.take(i as int).push(v@[i as int]));
        i = i + 1;
    }
    assert(v@.take(v@.len() as int) =~= v@);
    out
}

/// `a` followed by `b`.
pub fn concat(a: &str, b: &str) -> (r: String)
    ensures
        r@ == a@ + b@,
{
    let mut out: String = owned(a);
    out.append(b);
    out
}

/// `a`, `b` and `c` one after the other.
pub fn concat3(a: &str, b: &str, c: &str) -> (r: String)
    ensures
        r@ == a@ + b@ + c@,
{
    let mut out: String = owned(a);
    out.append(b);
    out.append(c);
    out
}

// ── Equality, prefixes, suffixes, search ────────────────────────────────────

/// Whether the two strings hold the same characters.
pub fn str_eq(a: &str, b: &str) -> (r: bool)
    ensures
        r == (a@ == b@),
{
    owned(a) == owned(b)
}

/// `p` stands in `s` at position `i`.
pub open spec fn occurs_at(s: Seq<char>, p: Seq<char>, i: int) -> bool {
    0 <= i && i + p.len() <= s.len() && s.subrange(i, i + p.len()) == p
}

pub open spec fn starts_with(s: Seq<char>, p: Seq<char>) -> bool {
    occurs_at(s, p, 0)
}

pub open spec fn ends_with(s: Seq<char>, p: Seq<char>) -> bool {
    occurs_at(s, p, s.len() - p.len())
}

/// The first position at or after `from` at which `p` stands in `s`.
pub open spec fn find_from(s: Seq<char>, p: Seq<char>, from: int) -> Option<int>
    decreases s.len() - from + 1,
{
    if from < 0 || from + p.len() > s.len() {
        None
    } else if occurs_at(s, p, from) {
        Some(from)
    } else {
        find_from(s, p, from + 1)
    }
}

/// The first position at which `p` stands in `s`.
pub open spec fn find(s: Seq<char>, p: Seq<char>) -> Option<int> {
    find_from(s, p, 0)
}

pub open spec fn contains(s: Seq<char>, p: Seq<char>) -> bool {
    find(s, p) is Some
}

/// What `find_from` answers is the least position, and `None` means that there is none.
pub proof fn find_from_is_first(s: Seq<char>, p: Seq<char>, from: int)
    requires
        0 <= from,
    ensures
        find_from(s, p, from) matches Some(k) ==> from <= k && occurs_at(s, p, k) && (forall|j: int|
            from <= j < k ==> !#[trigger] occurs_at(s, p, j)),
        find_from(s, p, from) is None ==> (forall|j: int|
            from <= j ==> !#[trigger] occurs_at(s, p, j)),
    decreases s.len() - from + 1,
{
    if from + p.len() <= s.len() && !occurs_at(s, p, from) {
        find_from_is_first(s, p, from + 1);
    }
}

/// If `p` occurs at `k` and at no place in `from..k`, then `find_from` answers `k`.
pub proof fn find_from_hits(s: Seq<char>, p: Seq<char>, from: int, k: int)
    requires
        0 <= from <= k,
        occurs_at(s, p, k),
        forall|j: int| from <= j < k ==> !#[trigger] occurs_at(s, p, j),
    ensures
        find_from(s, p, from) == Some(k),
    decreases k - from,
{
    if from < k {
        assert(!occurs_at(s, p, from));
        find_from_hits(s, p, from + 1, k);
    }
}

/// Whether `p` stands in `s` at position `i`.
pub fn occurs_here(s: &Vec<char>, p: &Vec<char>, i: usize) -> (r: bool)
    ensures
        r == occurs_at(s@, p@, i as int),
{
    if p.len() > s.len() || i > s.len() - p.len() {
        return false;
    }
    let mut k: usize = 0;
    while k < p.len()
        invariant
            k <= p.len(),
            i + p.len() <= s.len(),
            forall|j: int| 0 <= j < k ==> s@[i + j] == p@[j],
        decreases p.len() - k,
    {
        if s[i + k] != p[k] {
            assert(s@.subrange(i as int, i + p@.len())[k as int] == s@[i + k]);
            return false;
        }
        k = k + 1;
    }
    assert(s@.subrange(i as int, i + p@.len()) =~= p@);
    true
}

/// The first position at or after `from` at which `p` stands in `s`.
pub fn find_chars(s: &Vec<char>, p: &Vec<char>, from: usize) -> (r: Option<usize>)
    ensures
        match r {
            Some(k) => find_from(s@, p@, from as int) == Some(k as int),
            None => find_from(s@, p@, from as int) is None,
        },
        r matches Some(k) ==> from <= k && k + p@.len() <= s@.len(),
{
    if p.len() > s.len() {
        return None;
    }
    let last: usize = s.len() - p.len();
    let mut i: usize = from;
    while i <= last
        invariant
            from <= i,
            last + p@.len() == s@.len(),
            find_from(s@, p@, from as int) == find_from(s@, p@, i as int),
        decreases last + 1 - i,
    {
        if occurs_here(s, p, i) {
            return Some(i);
        }
        if i == last {
            assert(find_from(s@, p@, i + 1) is None);
            return None;
        }
        i = i + 1;
    }
    None
}

pub fn has_prefix(s: &str, p: &str) -> (r: bool)
    ensures
        r == starts_with(s@, p@),
{
    let sc = chars_of(s);
    let pc = chars_of(p);
    occurs_here(&sc, &pc, 0)
}

pub fn has_suffix(s: &str, p: &str) -> (r: bool)
    ensures
        r == ends_with(s@, p@),
{
    let sc = chars_of(s);
    let pc = chars_of(p);
    if pc.len() > sc.len() {
        return false;
    }
    occurs_here(&sc, &pc, sc.len() - pc.len())
}

pub fn has_part(s: &str, p: &str) -> (r: bool)
    ensures
        r == contains(s@, p@),
{
    let sc = chars_of(s);
    let pc = chars_of(p);
    find_chars(&sc, &pc, 0).is_some()
}

/// `s` without the leading `p`, if it has one.
pub open spec fn strip_prefix(s: Seq<char>, p: Seq<char>) -> Option<Seq<char>> {
    if starts_with(s, p) {
        Some(s.skip(p.len() as int))
    } else {
        None
    }
}

/// `s` without the trailing `p`, if it has one.
pub open spec fn strip_suffix(s: Seq<char>, p: Seq<char>) -> Option<Seq<char>> {
    if ends_with(s, p) {
        Some(s.take(s.len() - p.len()))
    } else {
        None
    }
}

pub fn cut_prefix(s: &str, p: &str) -> (r: Option<String>)
    ensures
        opt_text(r) == strip_prefix(s@, p@),
{
    let sc = chars_of(s);
    let pc = chars_of(p);
    if occurs_here(&sc, &pc, 0) {
        let out = slice_text(&sc, pc.len(), sc.len());
        assert(out@ =~= s@.skip(p@.len() as int));
        Some(out)
    } else {
        None
    }
}

pub fn cut_suffix(s: &str, p: &str) -> (r: Option<String>)
    ensures
        opt_text(r) == strip_suffix(s@, p@),
{
    let sc = chars_of(s);
    let pc = chars_of(p);
    if pc.len() <= sc.len() && occurs_here(&sc, &pc, sc.len() - pc.len()) {
        let out = slice_text(&sc, 0, sc.len() - pc.len());
        assert(out@ =~= s@.take(s@.len() - p@.len()));
        Some(out)
    } else {
        None
    }
}

/// `s` without the leading `p`, or `s` itself where it has none.
pub open spec fn without_prefix(s: Seq<char>, p: Seq<char>) -> Seq<char> {
    match strip_prefix(s, p) {
        Some(rest) => rest,
        None => s,
    }
}

pub fn drop_prefix(s: &str, p: &str) -> (r: String)
    ensures
        r@ == without_prefix(s@, p@),
{
    match cut_prefix(s, p) {
        Some(rest) => rest,
        None => owned(s),
    }
}

// ── White space ─────────────────────────────────────────────────────────────

/// The characters with the Unicode `White_Space` property.
pub open spec fn is_space(c: char) -> bool {
    let n = c as int;
    ||| 0x09 <= n <= 0x0d
    ||| n == 0x20
    ||| n == 0x85
    ||| n == 0xa0
    ||| n == 0x1680
    ||| 0x2000 <= n <= 0x200a
    ||| n == 0x2028
    ||| n == 0x2029
    ||| n == 0x202f
    ||| n == 0x205f
    ||| n == 0x3000
}

pub fn space(c: char) -> (r: bool)
    ensures
        r == is_space(c),
{
    let n: u32 = c as u32;
    (0x09 <= n && n <= 0x0d) || n == 0x20 || n == 0x85 || n == 0xa0 || n == 0x1680 || (0x2000 <= n
        && n <= 0x200a) || n == 0x2028 || n == 0x2029 || n == 0x202f || n == 0x205f || n == 0x3000
}

pub open spec fn trim_start(s: Seq<char>) -> Seq<char>
    decreases s.len(),
{
    if s.len() > 0 && is_space(s[0]) {
        trim_start(s.skip(1))
    } else {
        s
    }
}

pub open spec fn trim_end(s: Seq<char>) -> Seq<char>
    decreases s.len(),
{
    if s.len() > 0 && is_space(s.last()) {
        trim_end(s.drop_last())
    } else {
        s
    }
}

/// `s` without the white space at both ends.
pub open spec fn trim(s: Seq<char>) -> Seq<char> {
    trim_end(trim_start(s))
}

/// Where the text after the leading white space begins.
fn start_of(s: &Vec<char>) -> (r: usize)
    ensures
        r <= s.len(),
        trim_start(s@) == s@.skip(r as int),
{
    let mut i: usize = 0;
    assert(s@.skip(0) =~= s@);
    while i < s.len() && space(s[i])
        invariant
            i <= s.len(),
            trim_start(s@) == trim_start(s@.skip(i as int)),
        decreases s.len() - i,
    {
        assert(s@.skip(i as int).skip(1) =~= s@.skip(i + 1));
        i = i + 1;
    }
    i
}

/// Where the trailing white space of `s[from..]` begins.
fn end_of(s: &Vec<char>, from: usize) -> (r: usize)
    requires
        from <= s.len(),
    ensures
        from <= r <= s.len(),
        trim_end(s@.skip(from as int)) == s@.subrange(from as int, r as int),
{
    let mut e: usize = s.len();
    assert(s@.subrange(from as int, s@.len() as int) =~= s@.skip(from as int));
    while e > from && space(s[e - 1])
        invariant
            from <= e <= s.len(),
            trim_end(s@.skip(from as int)) == trim_end(s@.subrange(from as int, e as int)),
        decreases e,
    {
        assert(s@.subrange(from as int, e as int).drop_last() =~= s@.subrange(
            from as int,
            e - 1,
        ));
        e = e - 1;
    }
    e
}

pub fn trimmed(s: &str) -> (r: String)
    ensures
        r@ == trim(s@),
{
    let c = chars_of(s);
    let a = start_of(&c);
    let b = end_of(&c, a);
    slice_text(&c, a, b)
}

pub fn trimmed_start(s: &str) -> (r: String)
    ensures
        r@ == trim_start(s@),
{
    let c = chars_of(s);
    let a = start_of(&c);
    let out = slice_text(&c, a, c.len());
    assert(out@ =~= s@.skip(a as int));
    out
}

// ── Splitting and joining ───────────────────────────────────────────────────

/// The first position of `c` in `s`, or the length of `s` where it has none.
pub open spec fn span_of(s: Seq<char>, c: char) -> int
    decreases s.len(),
{
    if s.len() == 0 || s[0] == c {
        0
    } else {
        1 + span_of(s.skip(1), c)
    }
}

pub proof fn span_of_bounds(s: Seq<char>, c: char)
    ensures
        0 <= span_of(s, c) <= s.len(),
        forall|j: int| 0 <= j < span_of(s, c) ==> s[j] != c,
        span_of(s, c) < s.len() ==> s[span_of(s, c)] == c,
    decreases s.len(),
{
    if s.len() > 0 && s[0] != c {
        span_of_bounds(s.skip(1), c);
        assert forall|j: int| 0 <= j < span_of(s, c) implies s[j] != c by {
            if j > 0 {
                assert(s.skip(1)[j - 1] == s[j]);
            }
        }
    }
}

/// If `s[k]` is the first `c`, or `k` is the length and there is none, `span_of` answers `k`.
pub proof fn span_of_is(s: Seq<char>, c: char, k: int)
    requires
        0 <= k <= s.len(),
        forall|j: int| 0 <= j < k ==> s[j] != c,
        k < s.len() ==> s[k] == c,
    ensures
        span_of(s, c) == k,
{
    span_of_bounds(s, c);
    let m = span_of(s, c);
    if m < k {
        assert(s[m] == c);
    }
    if k < m {
        assert(s[k] != c);
    }
}

/// The pieces of `s` between the occurrences of `c`; never empty.
pub open spec fn split(s: Seq<char>, c: char) -> Seq<Seq<char>>
    decreases s.len(),
    via split_decreases
{
    let k = span_of(s, c);
    if k < s.len() {
        seq![s.take(k)] + split(s.skip(k + 1), c)
    } else {
        seq![s]
    }
}

#[via_fn]
proof fn split_decreases(s: Seq<char>, c: char) {
    span_of_bounds(s, c);
}

/// The first position of `c` in `s[from..]`, or the length of `s`.
pub fn span_from(s: &Vec<char>, c: char, from: usize) -> (r: usize)
    requires
        from <= s.len(),
    ensures
        from <= r <= s.len(),
        r == from + span_of(s@.skip(from as int), c),
        forall|j: int| from <= j < r ==> s@[j] != c,
        r < s.len() ==> s@[r as int] == c,
{
    let mut i: usize = from;
    while i < s.len() && s[i] != c
        invariant
            from <= i <= s.len(),
            forall|j: int| from <= j < i ==> s@[j] != c,
        decreases s.len() - i,
    {
        i = i + 1;
    }
    proof {
        span_of_is(s@.skip(from as int), c, i - from);
    }
    i
}

/// The pieces of `s` between the occurrences of `c`.
pub fn split_text(s: &str, c: char) -> (r: Vec<String>)
    ensures
        texts(r@) == split(s@, c),
        r@.len() >= 1,
{
    let chars = chars_of(s);
    let mut out: Vec<String> = Vec::new();
    let mut from: usize = 0;
    assert(s@.skip(0) =~= s@);
    assert(texts(out@) + split(s@, c) =~= split(s@, c));
    loop
        invariant
            from <= chars.len(),
            chars@ == s@,
            texts(out@) + split(s@.skip(from as int), c) == split(s@, c),
        decreases chars.len() - from,
    {
        let ghost rest = s@.skip(from as int);
        let k = span_from(&chars, c, from);
        let ghost before = out@;
        let piece = slice_text(&chars, from, k);
        if k < chars.len() {
            proof {
                assert(piece@ =~= rest.take(k - from));
                assert(rest.skip(k - from + 1) =~= s@.skip(k + 1));
                texts_push(before, piece);
                assert(texts(before) + split(rest, c) =~= texts(before).push(piece@) + split(
                    s@.skip(k + 1),
                    c,
                ));
            }
            out.push(piece);
            from = k + 1;
        } else {
            proof {
                assert(piece@ =~= rest);
                texts_push(before, piece);
                assert(texts(before) + split(rest, c) =~= texts(before).push(piece@));
            }
            out.push(piece);
            return out;
        }
    }
}

/// The first piece of `s` before `c`: all of `s` where it holds no `c`.
pub open spec fn head_of(s: Seq<char>, c: char) -> Seq<char> {
    s.take(span_of(s, c))
}

pub fn head_text(s: &str, c: char) -> (r: String)
    ensures
        r@ == head_of(s@, c),
{
    let chars = chars_of(s);
    let k = span_from(&chars, c, 0);
    assert(s@.skip(0) =~= s@);
    let out = slice_text(&chars, 0, k);
    assert(out@ =~= s@.take(k as int));
    out
}

/// The parts of `s` before and after the first `c`, if it has one.
pub open spec fn cut_at(s: Seq<char>, c: char) -> Option<(Seq<char>, Seq<char>)> {
    let k = span_of(s, c);
    if k < s.len() {
        Some((s.take(k), s.skip(k + 1)))
    } else {
        None
    }
}

pub open spec fn opt_text_pair(o: Option<(String, String)>) -> Option<(Seq<char>, Seq<char>)> {
    match o {
        Some(p) => Some((p.0@, p.1@)),
        None => None,
    }
}

pub fn cut_text(s: &str, c: char) -> (r: Option<(String, String)>)
    ensures
        opt_text_pair(r) == cut_at(s@, c),
{
    let chars = chars_of(s);
    let k = span_from(&chars, c, 0);
    assert(s@.skip(0) =~= s@);
    if k < chars.len() {
        let a = slice_text(&chars, 0, k);
        let b = slice_text(&chars, k + 1, chars.len());
        assert(a@ =~= s@.take(k as int));
        assert(b@ =~= s@.skip(k + 1));
        Some((a, b))
    } else {
        None
    }
}

/// A line without the carriage return that its line feed ended.
pub open spec fn without_cr(s: Seq<char>) -> Seq<char> {
    if s.len() > 0 && s.last() == '\r' {
        s.drop_last()
    } else {
        s
    }
}

/// The lines of `s`: ended by a line feed, or by a carriage return and a line feed; a last
/// line needs no ending.
pub open spec fn lines(s: Seq<char>) -> Seq<Seq<char>>
    decreases s.len(),
    via lines_decreases
{
    let k = span_of(s, '\n');
    if s.len() == 0 {
        seq![]
    } else if k < s.len() {
        seq![without_cr(s.take(k))] + lines(s.skip(k + 1))
    } else {
        seq![s]
    }
}

#[via_fn]
proof fn lines_decreases(s: Seq<char>) {
    span_of_bounds(s, '\n');
}

pub fn line_texts(s: &str) -> (r: Vec<String>)
    ensures
        texts(r@) == lines(s@),
{
    let chars = chars_of(s);
    let mut out: Vec<String> = Vec::new();
    let mut from: usize = 0;
    assert(s@.skip(0) =~= s@);
    assert(texts(out@) + lines(s@) =~= lines(s@));
    while from < chars.len()
        invariant
            from <= chars.len(),
            chars@ == s@,
            texts(out@) + lines(s@.skip(from as int)) == lines(s@),
        decreases chars.len() - from,
    {
        let ghost rest = s@.skip(from as int);
        let k = span_from(&chars, '\n', from);
        let ghost before = out@;
        if k < chars.len() {
            let e: usize = if k > from && chars[k - 1] == '\r' {
                k - 1
            } else {
                k
            };
            let piece = slice_text(&chars, from, e);
            proof {
                assert(piece@ =~= without_cr(rest.take(k - from)));
                assert(rest.skip(k - from + 1) =~= s@.skip(k + 1));
                texts_push(before, piece);
                assert(texts(before) + lines(rest) =~= texts(before).push(piece@) + lines(
                    s@.skip(k + 1),
                ));
            }
            out.push(piece);
            from = k + 1;
        } else {
            let piece = slice_text(&chars, from, k);
            proof {
                assert(piece@ =~= rest);
                texts_push(before, piece);
                assert(texts(before) + lines(rest) =~= texts(before).push(piece@));
                assert(texts(before).push(piece@) + lines(s@.skip(k as int)) =~= texts(before).push(
                    piece@,
                ));
            }
            out.push(piece);
            from = k;
        }
    }
    assert(texts(out@) + lines(s@.skip(from as int)) =~= texts(out@));
    out
}

/// The pieces with `sep` between each two.
pub open spec fn join(parts: Seq<Seq<char>>, sep: Seq<char>) -> Seq<char>
    decreases parts.len(),
{
    if parts.len() == 0 {
        seq![]
    } else if parts.len() == 1 {
        parts[0]
    } else {
        join(parts.drop_last(), sep) + sep + parts.last()
    }
}

pub fn join_texts(parts: &Vec<String>, sep: &str) -> (r: String)
    ensures
        r@ == join(texts(parts@), sep@),
{
    let mut out: String = String::new();
    let mut i: usize = 0;
    while i < parts.len()
        invariant
            i <= parts.len(),
            out@ == join(texts(parts@).take(i as int), sep@),
        decreases parts.len() - i,
    {
        let ghost all = texts(parts@);
        assert(all.take(i + 1).drop_last() =~= all.take(i as int));
        assert(all.take(i + 1).last() == parts@[i as int]@);
        if i > 0 {
            out.append(sep);
            out.append(parts[i].as_str());
        } else {
            assert(out@ + parts@[i as int]@ =~= parts@[i as int]@);
            out.append(parts[i].as_str());
        }
        i = i + 1;
    }
    assert(texts(parts@).take(parts@.len() as int) =~= texts(parts@));
    out
}

// ── Letter case ─────────────────────────────────────────────────────────────

pub open spec fn ascii_lower(c: char) -> char {
    if 'A' <= c <= 'Z' {
        (c as u8 + 32) as char
    } else {
        c
    }
}

/// `s` with each of the letters `A` to `Z` in lower case.
pub open spec fn to_ascii_lower(s: Seq<char>) -> Seq<char> {
    s.map_values(|c: char| ascii_lower(c))
}

pub fn lower_char(c: char) -> (r: char)
    ensures
        r == ascii_lower(c),
{
    if 'A' <= c && c <= 'Z' {
        (c as u8 + 32) as char
    } else {
        c
    }
}

pub fn lower_text(s: &str) -> (r: String)
    ensures
        r@ == to_ascii_lower(s@),
{
    let chars = chars_of(s);
    let mut out: String = String::new();
    let mut i: usize = 0;
    while i < chars.len()
        invariant
            i <= chars.len(),
            chars@ == s@,
            out@ == to_ascii_lower(s@).take(i as int),
        decreases chars.len() - i,
    {
        out.push(lower_char(chars[i]));
        assert(to_ascii_lower(s@).take(i + 1) =~= to_ascii_lower(s@).take(i as int).push(
            ascii_lower(s@[i as int]),
        ));
        i = i + 1;
    }
    assert(to_ascii_lower(s@).take(s@.len() as int) =~= to_ascii_lower(s@));
    out
}

/// The lower-case form of a text, by the rules of Unicode.
pub uninterp spec fn lowercase(s: Seq<char>) -> Seq<char>;

/// `str::to_lowercase`: a function of the text alone, which puts the letters `A` to `Z` of an
/// ASCII text in lower case and changes nothing else of it.
#[verifier::external_body]
pub(crate) fn lowercase_text(s: &str) -> (r: String)
    ensures
        r@ == lowercase(s@),
        (forall|i: int| 0 <= i < s@.len() ==> (#[trigger] s@[i]) as int <= 0x7f) ==> r@
            == to_ascii_lower(s@),
{
    s.to_lowercase()
}

// ── Numbers ─────────────────────────────────────────────────────────────────

pub open spec fn digit(n: nat) -> char {
    (('0' as u8) + n) as char
}

/// The decimal digits of `n`.
pub open spec fn dec(n: nat) -> Seq<char>
    decreases n,
{
    if n < 10 {
        seq![digit(n)]
    } else {
        dec(n / 10).push(digit(n % 10))
    }
}

/// The decimal digits of `n`.
pub fn decimal(n: u64) -> (r: String)
    ensures
        r@ == dec(n as nat),
    decreases n,
{
    if n < 10 {
        let mut out: String = String::new();
        out.push((48u8 + n as u8) as char);
        assert(out@ =~= dec(n as nat));
        out
    } else {
        let mut out: String = decimal(n / 10);
        out.push((48u8 + (n % 10) as u8) as char);
        out
    }
}

pub open spec fn is_digit(c: char) -> bool {
    '0' <= c <= '9'
}

pub open spec fn all_digits(s: Seq<char>) -> bool {
    forall|i: int| 0 <= i < s.len() ==> is_digit(#[trigger] s[i])
}

/// The number that the decimal digits of `s` write.
pub open spec fn digits_value(s: Seq<char>) -> nat
    decreases s.len(),
{
    if s.len() == 0 {
        0
    } else {
        digits_value(s.drop_last()) * 10 + (s.last() as nat - 48) as nat
    }
}

/// What the digits of `s` write, where `s` is made of one digit or more.
pub open spec fn digits_number(s: Seq<char>) -> Option<nat> {
    if s.len() > 0 && all_digits(s) {
        Some(digits_value(s))
    } else {
        None
    }
}

pub proof fn digits_value_grows(s: Seq<char>, k: int)
    requires
        0 <= k <= s.len(),
        all_digits(s),
    ensures
        digits_value(s.take(k)) <= digits_value(s),
    decreases s.len() - k,
{
    if k < s.len() {
        assert(s.take(k + 1).drop_last() =~= s.take(k));
        digits_value_grows(s, k + 1);
    } else {
        assert(s.take(k) =~= s);
    }
}

/// The number that the digits of `s[from..]` write, where it is at most `max`.
fn number_upto(s: &Vec<char>, from: usize, max: u64) -> (r: Option<u64>)
    requires
        from <= s.len(),
    ensures
        r == match digits_number(s@.skip(from as int)) {
            Some(n) => if n <= max {
                Some(n as u64)
            } else {
                None::<u64>
            },
            None => None,
        },
{
    let ghost t = s@.skip(from as int);
    if from == s.len() {
        return None;
    }
    let mut total: u64 = 0;
    let mut over: bool = false;
    let mut i: usize = from;
    while i < s.len()
        invariant
            from <= i <= s.len(),
            t == s@.skip(from as int),
            all_digits(t.take(i - from)),
            !over ==> total == digits_value(t.take(i - from)) && total <= max,
            over ==> digits_value(t.take(i - from)) > max,
        decreases s.len() - i,
    {
        let c = s[i];
        assert(t.take(i - from + 1).drop_last() =~= t.take(i - from));
        assert(t.take(i - from + 1).last() == c);
        if !('0' <= c && c <= '9') {
            assert(!is_digit(t[i - from]));
            return None;
        }
        let d: u64 = c as u64 - 48;
        if !over {
            if total > (u64::MAX - d) / 10 {
                over = true;
                assert(total * 10 + d > u64::MAX);
            } else {
                total = total * 10 + d;
                if total > max {
                    over = true;
                }
            }
        }
        i = i + 1;
    }
    assert(t.take(s@.len() - from) =~= t);
    if over {
        None
    } else {
        Some(total)
    }
}

/// The unsigned number that `s` writes in decimal, with an optional `+` in front.
pub open spec fn parse_unsigned(s: Seq<char>) -> Option<nat> {
    if s.len() > 0 && s[0] == '+' {
        digits_number(s.skip(1))
    } else {
        digits_number(s)
    }
}

/// `n` where it is at most `max`.
pub open spec fn at_most(n: Option<nat>, max: nat) -> Option<nat> {
    match n {
        Some(v) => if v <= max {
            Some(v)
        } else {
            None
        },
        None => None,
    }
}

/// The number that `s` writes in decimal, if it is at most `max`.
pub fn number_of(s: &str, max: u64) -> (r: Option<u64>)
    ensures
        match r {
            Some(n) => at_most(parse_unsigned(s@), max as nat) == Some(n as nat),
            None => at_most(parse_unsigned(s@), max as nat) is None,
        },
{
    let c = chars_of(s);
    if c.len() > 0 && c[0] == '+' {
        number_upto(&c, 1, max)
    } else {
        assert(s@.skip(0) =~= s@);
        number_upto(&c, 0, max)
    }
}

/// What a hexadecimal digit of either case stands for.
pub open spec fn hex_value(c: char) -> Option<nat> {
    if '0' <= c <= '9' {
        Some((c as nat - 48) as nat)
    } else if 'a' <= c <= 'f' {
        Some((c as nat - 87) as nat)
    } else if 'A' <= c <= 'F' {
        Some((c as nat - 55) as nat)
    } else {
        None
    }
}

pub open spec fn all_hex(s: Seq<char>) -> bool {
    forall|i: int| 0 <= i < s.len() ==> hex_value(#[trigger] s[i]) is Some
}

/// The number that the hexadecimal digits of `s` write.
pub open spec fn hex_number(s: Seq<char>) -> nat
    decreases s.len(),
{
    if s.len() == 0 {
        0
    } else {
        hex_number(s.drop_last()) * 16 + hex_value(s.last())->Some_0
    }
}

/// The number that `s` writes in hexadecimal, with an optional `+` in front.
pub open spec fn parse_hex(s: Seq<char>) -> Option<nat> {
    let digits = if s.len() > 0 && s[0] == '+' {
        s.skip(1)
    } else {
        s
    };
    if digits.len() > 0 && all_hex(digits) {
        Some(hex_number(digits))
    } else {
        None
    }
}

fn hex_digit_value(c: char) -> (r: Option<u64>)
    ensures
        match r {
            Some(v) => hex_value(c) == Some(v as nat) && v < 16,
            None => hex_value(c) is None,
        },
{
    if '0' <= c && c <= '9' {
        Some(c as u64 - 48)
    } else if 'a' <= c && c <= 'f' {
        Some(c as u64 - 87)
    } else if 'A' <= c && c <= 'F' {
        Some(c as u64 - 55)
    } else {
        None
    }
}

/// The number that `s` writes in hexadecimal, if it is at most `max`.
pub fn hex_of(s: &str, max: u64) -> (r: Option<u64>)
    ensures
        match r {
            Some(n) => at_most(parse_hex(s@), max as nat) == Some(n as nat),
            None => at_most(parse_hex(s@), max as nat) is None,
        },
{
    let chars = chars_of(s);
    let start: usize = if chars.len() > 0 && chars[0] == '+' {
        1
    } else {
        0
    };
    let ghost digits = chars@.skip(start as int);
    assert(start == 0 ==> digits =~= s@);
    if start == chars.len() {
        return None;
    }
    let mut total: u64 = 0;
    let mut over: bool = false;
    let mut i: usize = start;
    assert(digits.take(0) =~= seq![]);
    while i < chars.len()
        invariant
            start <= i <= chars.len(),
            chars@ == s@,
            digits == chars@.skip(start as int),
            digits.len() > 0,
            at_most(parse_hex(s@), max as nat) == at_most(
                if all_hex(digits) {
                    Some(hex_number(digits))
                } else {
                    None
                },
                max as nat,
            ),
            forall|k: int| 0 <= k < i - start ==> hex_value(#[trigger] digits[k]) is Some,
            !over ==> total == hex_number(digits.take(i - start)) && total <= max,
            over ==> hex_number(digits.take(i - start)) > max,
        decreases chars.len() - i,
    {
        let ghost k = i - start;
        assert(digits[k] == chars@[i as int]);
        assert(digits.take(k + 1).drop_last() =~= digits.take(k));
        match hex_digit_value(chars[i]) {
            Some(v) => {
                assert(hex_number(digits.take(k + 1)) == hex_number(digits.take(k)) * 16 + v);
                if !over {
                    if total > max / 16 || v > max - total * 16 {
                        over = true;
                    } else {
                        total = total * 16 + v;
                    }
                }
            },
            None => {
                assert(!all_hex(digits));
                return None;
            },
        }
        i = i + 1;
    }
    assert(digits.take(digits.len() as int) =~= digits);
    assert(all_hex(digits));
    if over {
        None
    } else {
        Some(total)
    }
}

/// The signed number that `s` writes in decimal, with an optional sign in front.
pub open spec fn parse_signed(s: Seq<char>) -> Option<int> {
    if s.len() > 0 && s[0] == '-' {
        match digits_number(s.skip(1)) {
            Some(n) => Some(-(n as int)),
            None => None,
        }
    } else {
        match parse_unsigned(s) {
            Some(n) => Some(n as int),
            None => None,
        }
    }
}

pub open spec fn in_i64(n: Option<int>) -> Option<i64> {
    match n {
        Some(v) => if i64::MIN <= v <= i64::MAX {
            Some(v as i64)
        } else {
            None
        },
        None => None,
    }
}

/// The 64-bit signed number that `s` writes in decimal.
pub fn signed_of(s: &str) -> (r: Option<i64>)
    ensures
        r == in_i64(parse_signed(s@)),
{
    let c = chars_of(s);
    if c.len() > 0 && c[0] == '-' {
        match number_upto(&c, 1, 0x8000_0000_0000_0000u64) {
            Some(n) => {
                if n == 0x8000_0000_0000_0000u64 {
                    Some(i64::MIN)
                } else {
                    Some(-(n as i64))
                }
            },
            None => None,
        }
    } else {
        match number_of(s, 0x7fff_ffff_ffff_ffffu64) {
            Some(n) => Some(n as i64),
            None => None,
        }
    }
}

/// The decimal digits of `n`, with a minus sign where it is negative.
pub open spec fn dec_signed(n: int) -> Seq<char> {
    if n < 0 {
        seq!['-'] + dec((-n) as nat)
    } else {
        dec(n as nat)
    }
}

/// What `dec` writes are digits, and they stand for the number.
pub proof fn dec_survives(n: nat)
    ensures
        digits_number(dec(n)) == Some(n),
        is_digit(dec(n)[0]),
    decreases n,
{
    if n < 10 {
        assert(dec(n).drop_last() =~= seq![]);
        assert(digits_value(dec(n).drop_last()) == 0);
    } else {
        let rest = dec(n / 10);
        dec_survives(n / 10);
        assert(dec(n).drop_last() =~= rest);
        assert forall|i: int| 0 <= i < dec(n).len() implies is_digit(#[trigger] dec(n)[i]) by {
            if i < rest.len() {
                assert(is_digit(rest[i]));
            }
        }
    }
}

/// A number survives being written and read.
pub proof fn signed_survives(n: int)
    ensures
        parse_signed(dec_signed(n)) == Some(n),
{
    if n < 0 {
        let s = dec_signed(n);
        dec_survives((-n) as nat);
        assert(s.skip(1) =~= dec((-n) as nat));
    } else {
        dec_survives(n as nat);
    }
}

pub fn decimal_signed(n: i64) -> (r: String)
    ensures
        r@ == dec_signed(n as int),
{
    if n < 0 {
        let magnitude: u64 = if n == i64::MIN {
            0x8000_0000_0000_0000u64
        } else {
            (-n) as u64
        };
        let digits = decimal(magnitude);
        let mut out: String = String::new();
        out.push('-');
        out.append(digits.as_str());
        assert(out@ =~= dec_signed(n as int));
        out
    } else {
        decimal(n as u64)
    }
}

// ── Order ───────────────────────────────────────────────────────────────────

/// `a` comes before `b` in the order of their characters.
pub open spec fn comes_before(a: Seq<char>, b: Seq<char>) -> bool
    decreases a.len(),
{
    if b.len() == 0 {
        false
    } else if a.len() == 0 {
        true
    } else if a[0] == b[0] {
        comes_before(a.skip(1), b.skip(1))
    } else {
        a[0] < b[0]
    }
}

pub proof fn comes_before_is_total(a: Seq<char>, b: Seq<char>)
    ensures
        comes_before(a, b) || comes_before(b, a) || a == b,
        !(comes_before(a, b) && comes_before(b, a)),
        !comes_before(a, a),
    decreases a.len(),
{
    if a.len() > 0 && b.len() > 0 && a[0] == b[0] {
        comes_before_is_total(a.skip(1), b.skip(1));
        if a.skip(1) == b.skip(1) {
            assert(a =~= seq![a[0]] + a.skip(1));
            assert(b =~= seq![b[0]] + b.skip(1));
        }
    }
    if a.len() > 0 {
        if !(b.len() > 0 && a[0] == b[0]) {
            comes_before_is_total(a.skip(1), a.skip(1));
        }
    }
    if a.len() == 0 && b.len() == 0 {
        assert(a =~= b);
    }
}

pub proof fn comes_before_is_transitive(a: Seq<char>, b: Seq<char>, c: Seq<char>)
    requires
        comes_before(a, b),
        comes_before(b, c),
    ensures
        comes_before(a, c),
    decreases a.len(),
{
    if a.len() > 0 && a[0] == b[0] && b[0] == c[0] {
        comes_before_is_transitive(a.skip(1), b.skip(1), c.skip(1));
    }
}

/// Whether `a` comes before `b` in the order of their characters.
pub fn is_before(a: &str, b: &str) -> (r: bool)
    ensures
        r == comes_before(a@, b@),
{
    let x = chars_of(a);
    let y = chars_of(b);
    let mut i: usize = 0;
    assert(a@.skip(0) =~= a@);
    assert(b@.skip(0) =~= b@);
    while i < x.len() && i < y.len() && x[i] == y[i]
        invariant
            i <= x.len(),
            i <= y.len(),
            x@ == a@,
            y@ == b@,
            comes_before(a@, b@) == comes_before(a@.skip(i as int), b@.skip(i as int)),
        decreases x.len() - i,
    {
        assert(a@.skip(i as int).skip(1) =~= a@.skip(i + 1));
        assert(b@.skip(i as int).skip(1) =~= b@.skip(i + 1));
        i = i + 1;
    }
    if i >= y.len() {
        false
    } else if i >= x.len() {
        true
    } else {
        x[i] < y[i]
    }
}

/// Each string comes before the next, so that none stands twice.
pub open spec fn increasing(s: Seq<Seq<char>>) -> bool {
    forall|i: int, j: int|
        0 <= i < j < s.len() ==> comes_before(#[trigger] s[i], #[trigger] s[j])
}

/// Puts `item` in its place, unless it is there.
pub fn insert_sorted(v: &mut Vec<String>, item: &str)
    requires
        increasing(texts(old(v)@)),
    ensures
        increasing(texts(final(v)@)),
        forall|k: Seq<char>|
            #[trigger] texts(final(v)@).contains(k) <==> texts(old(v)@).contains(k) || k == item@,
{
    let ghost before = texts(v@);
    let mut i: usize = 0;
    while i < v.len() && is_before(v[i].as_str(), item)
        invariant
            i <= v.len(),
            *v == *old(v),
            before == texts(v@),
            forall|j: int| 0 <= j < i ==> comes_before(#[trigger] before[j], item@),
        decreases v.len() - i,
    {
        i = i + 1;
    }
    if i < v.len() && str_eq(v[i].as_str(), item) {
        assert(before[i as int] == item@);
        return ;
    }
    proof {
        assert forall|j: int| i <= j < before.len() implies comes_before(
            item@,
            #[trigger] before[j],
        ) by {
            comes_before_is_total(before[i as int], item@);
            if i < j {
                comes_before_is_transitive(item@, before[i as int], before[j]);
            }
        }
    }
    v.insert(i, owned(item));
    proof {
        let after = texts(v@);
        assert(after =~= before.insert(i as int, item@));
        assert forall|x: int, y: int| 0 <= x < y < after.len() implies comes_before(
            #[trigger] after[x],
            #[trigger] after[y],
        ) by {
            let bx = if x < i {
                x
            } else {
                x - 1
            };
            let by = if y < i {
                y
            } else {
                y - 1
            };
            if x != i && y != i {
                assert(comes_before(before[bx], before[by]));
            }
        }
        assert forall|k: Seq<char>|
            #[trigger] after.contains(k) <==> before.contains(k) || k == item@ by {
            if before.contains(k) {
                let j = choose|j: int| 0 <= j < before.len() && before[j] == k;
                let at = if j < i {
                    j
                } else {
                    j + 1
                };
                assert(after[at] == k);
            }
            if k == item@ {
                assert(after[i as int] == k);
            }
            if after.contains(k) {
                let j = choose|j: int| 0 <= j < after.len() && after[j] == k;
                if j < i {
                    assert(before[j] == k);
                } else if j > i {
                    assert(before[j - 1] == k);
                }
            }
        }
    }
}

// ── Words ───────────────────────────────────────────────────────────────────

/// The words of a text that are complete, and the one in progress.
pub open spec fn words_upto(s: Seq<char>) -> (Seq<Seq<char>>, Seq<char>)
    decreases s.len(),
{
    if s.len() == 0 {
        (seq![], seq![])
    } else {
        let (done, word) = words_upto(s.drop_last());
        if !is_space(s.last()) {
            (done, word.push(s.last()))
        } else if word.len() > 0 {
            (done.push(word), seq![])
        } else {
            (done, word)
        }
    }
}

/// The words of a text: what stands between blanks.
pub open spec fn words(s: Seq<char>) -> Seq<Seq<char>> {
    let (done, word) = words_upto(s);
    if word.len() > 0 {
        done.push(word)
    } else {
        done
    }
}

pub fn word_texts(s: &str) -> (r: Vec<String>)
    ensures
        texts(r@) == words(s@),
{
    let chars = chars_of(s);
    let mut done: Vec<String> = Vec::new();
    let mut word = String::new();
    let mut filled: bool = false;
    let mut i: usize = 0;
    assert(texts(done@) =~= seq![]);
    assert(word@ =~= seq![]);
    while i < chars.len()
        invariant
            i <= chars.len(),
            (texts(done@), word@) == words_upto(chars@.take(i as int)),
            filled == (word@.len() > 0),
        decreases chars.len() - i,
    {
        assert(chars@.take(i + 1).drop_last() =~= chars@.take(i as int));
        if !space(chars[i]) {
            word.push(chars[i]);
            filled = true;
        } else if filled {
            proof {
                texts_push(done@, word);
            }
            done.push(word);
            word = String::new();
            filled = false;
            assert(word@ =~= seq![]);
        }
        i = i + 1;
    }
    assert(chars@.take(i as int) =~= s@);
    if filled {
        proof {
            texts_push(done@, word);
        }
        done.push(word);
    }
    done
}

/// One word: it is not empty, and holds no blank.
pub open spec fn is_word(w: Seq<char>) -> bool {
    w.len() > 0 && forall|k: int| 0 <= k < w.len() ==> !is_space(#[trigger] w[k])
}

proof fn words_upto_are_words(s: Seq<char>)
    ensures
        forall|i: int| 0 <= i < words_upto(s).0.len() ==> is_word(#[trigger] words_upto(s).0[i]),
        words_upto(s).1.len() > 0 ==> is_word(words_upto(s).1),
    decreases s.len(),
{
    if s.len() > 0 {
        words_upto_are_words(s.drop_last());
    }
}

/// The words of a text are words.
pub proof fn words_are_words(s: Seq<char>)
    ensures
        forall|i: int| 0 <= i < words(s).len() ==> is_word(#[trigger] words(s)[i]),
{
    words_upto_are_words(s);
}

proof fn words_upto_grow(s: Seq<char>, w: Seq<char>)
    requires
        forall|k: int| 0 <= k < w.len() ==> !is_space(#[trigger] w[k]),
    ensures
        words_upto(s + w) == (words_upto(s).0, words_upto(s).1 + w),
    decreases w.len(),
{
    if w.len() == 0 {
        assert(s + w =~= s);
        assert(words_upto(s).1 + w =~= words_upto(s).1);
    } else {
        let before = w.drop_last();
        words_upto_grow(s, before);
        assert((s + w).drop_last() =~= s + before);
        assert((s + w).last() == w[w.len() - 1]);
        assert((words_upto(s).1 + before).push(w.last()) =~= words_upto(s).1 + w);
    }
}

proof fn words_upto_joined(parts: Seq<Seq<char>>)
    requires
        parts.len() > 0,
        forall|i: int| 0 <= i < parts.len() ==> is_word(#[trigger] parts[i]),
    ensures
        words_upto(join(parts, seq![' '])) == (parts.drop_last(), parts.last()),
    decreases parts.len(),
{
    let rest = parts.drop_last();
    let last = parts.last();
    assert(is_word(parts[parts.len() - 1]));
    if parts.len() == 1 {
        words_upto_grow(seq![], last);
        assert(Seq::<char>::empty() + last =~= last);
        assert(rest =~= seq![]);
    } else {
        assert forall|i: int| 0 <= i < rest.len() implies is_word(#[trigger] rest[i]) by {
            assert(rest[i] == parts[i]);
        }
        words_upto_joined(rest);
        let a = join(rest, seq![' ']);
        let b = a + seq![' '];
        assert(b.drop_last() =~= a);
        assert(is_word(rest[rest.len() - 1]));
        assert(rest.drop_last().push(rest.last()) =~= rest);
        assert(words_upto(b) == (rest, Seq::<char>::empty()));
        words_upto_grow(b, last);
        assert(Seq::<char>::empty() + last =~= last);
    }
}

/// Words that are joined by single blanks are read back.
pub proof fn words_survive(parts: Seq<Seq<char>>)
    requires
        forall|i: int| 0 <= i < parts.len() ==> is_word(#[trigger] parts[i]),
    ensures
        words(join(parts, seq![' '])) == parts,
{
    if parts.len() > 0 {
        words_upto_joined(parts);
        assert(is_word(parts[parts.len() - 1]));
        assert(parts.drop_last().push(parts.last()) =~= parts);
    } else {
        assert(words(join(parts, seq![' '])) =~= parts);
    }
}

/// Where no character of a text is `c`, no character of its words is.
pub proof fn words_have_no_other(s: Seq<char>, c: char)
    requires
        !s.contains(c),
    ensures
        forall|i: int| 0 <= i < words(s).len() ==> !(#[trigger] words(s)[i]).contains(c),
        forall|i: int|
            0 <= i < words_upto(s).0.len() ==> !(#[trigger] words_upto(s).0[i]).contains(c),
        !words_upto(s).1.contains(c),
    decreases s.len(),
{
    if s.len() > 0 {
        let rest = s.drop_last();
        assert forall|k: int| 0 <= k < rest.len() implies rest[k] != c by {
            assert(s[k] != c);
        }
        words_have_no_other(rest, c);
        assert(s[s.len() - 1] != c);
        let (done, word) = words_upto(rest);
        if !is_space(s.last()) {
            assert(words_upto(s).1 =~= word.push(s.last()));
            assert forall|k: int| 0 <= k < words_upto(s).1.len() implies words_upto(s).1[k] != c by {
                if k < word.len() {
                    assert(word.contains(word[k]));
                }
            }
        }
    }
}

/// Where neither the parts nor the separator hold `c`, what they are joined to does not.
pub proof fn join_has_no_other(parts: Seq<Seq<char>>, sep: Seq<char>, c: char)
    requires
        !sep.contains(c),
        forall|i: int| 0 <= i < parts.len() ==> !(#[trigger] parts[i]).contains(c),
    ensures
        !join(parts, sep).contains(c),
    decreases parts.len(),
{
    if parts.len() > 0 {
        let rest = parts.drop_last();
        assert forall|i: int| 0 <= i < rest.len() implies !(#[trigger] rest[i]).contains(c) by {
            assert(rest[i] == parts[i]);
        }
        join_has_no_other(rest, sep, c);
        assert(!parts[parts.len() - 1].contains(c));
        let all = join(parts, sep);
        if all.contains(c) {
            let k = choose|k: int| 0 <= k < all.len() && all[k] == c;
            let a = join(rest, sep);
            if parts.len() == 1 {
                assert(parts.last().contains(c));
            } else if k < a.len() {
                assert(a[k] == c);
            } else if k < a.len() + sep.len() {
                assert(sep[k - a.len()] == c);
            } else {
                assert(parts.last()[k - a.len() - sep.len()] == c);
            }
        }
    }
}

// ── Lengths ─────────────────────────────────────────────────────────────────

/// How many bytes of UTF-8 `s` has.
pub fn byte_count(s: &str) -> (r: usize)
    ensures
        r == vstd::utf8::encode_utf8(s@).len(),
{
    s.as_bytes().len()
}

// ── Debugging ───────────────────────────────────────────────────────────────

/// A text in quotes, with its special characters escaped.
pub uninterp spec fn quoted(s: Seq<char>) -> Seq<char>;

/// The `Debug` form of a `str`: a function of the text alone.
#[verifier::external_body]
pub(crate) fn quoted_text(s: &str) -> (r: String)
    ensures
        r@ == quoted(s@),
{
    format!("{:?}", s)
}

// ── Bytes ───────────────────────────────────────────────────────────────────

/// The text that `String::from_utf8_lossy` reads from bytes.
pub uninterp spec fn lossy(b: Seq<u8>) -> Seq<char>;

/// `String::from_utf8_lossy`: a function of the bytes alone, which decodes valid UTF-8.
#[verifier::external_body]
pub(crate) fn lossy_text(b: &[u8]) -> (r: String)
    ensures
        r@ == lossy(b@),
        vstd::utf8::valid_utf8(b@) ==> r@ == vstd::utf8::decode_utf8(b@),
{
    String::from_utf8_lossy(b).into_owned()
}

/// `String::from_utf8`: the decoded text of valid UTF-8, and nothing of other bytes.
#[verifier::external_body]
pub(crate) fn utf8_text(b: Vec<u8>) -> (r: Option<String>)
    ensures
        match r {
            Some(s) => vstd::utf8::valid_utf8(b@) && s@ == vstd::utf8::decode_utf8(b@),
            None => !vstd::utf8::valid_utf8(b@),
        },
{
    String::from_utf8(b).ok()
}

} // verus!
