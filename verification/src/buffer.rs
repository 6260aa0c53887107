//! The byte buffer of the `bytes` crate.
use vstd::prelude::*;

verus! {

/// `bytes::BytesMut`; its bytes are named by [`buffer_bytes`].
#[verifier::external_type_specification]
#[verifier::external_body]
pub struct ExBytesMut(bytes::BytesMut);

/// The bytes that a buffer holds.
pub uninterp spec fn buffer_bytes(b: bytes::BytesMut) -> Seq<u8>;

/// `BytesMut::new`: an empty buffer.
pub assume_specification[ bytes::BytesMut::new ]() -> (r: bytes::BytesMut)
    ensures
        buffer_bytes(r) == Seq::<u8>::empty(),
;

/// `BytesMut::extend_from_slice`: the bytes come behind those that are there.
pub assume_specification[ bytes::BytesMut::extend_from_slice ](
    b: &mut bytes::BytesMut,
    extend: &[u8],
)
    ensures
        buffer_bytes(*final(b)) == buffer_bytes(*old(b)) + extend@,
;

/// `BytesMut::split_to`: the first `at` bytes leave the buffer.
pub assume_specification[ bytes::BytesMut::split_to ](
    b: &mut bytes::BytesMut,
    at: usize,
) -> (r: bytes::BytesMut)
    requires
        at <= buffer_bytes(*old(b)).len(),
    ensures
        buffer_bytes(r) == buffer_bytes(*old(b)).take(at as int),
        buffer_bytes(*final(b)) == buffer_bytes(*old(b)).skip(at as int),
;

/// `Buf::advance` of a `BytesMut`: the first `count` bytes are dropped.
#[verifier::external_body]
pub(crate) fn advance(b: &mut bytes::BytesMut, count: usize)
    requires
        count <= buffer_bytes(*old(b)).len(),
    ensures
        buffer_bytes(*final(b)) == buffer_bytes(*old(b)).skip(count as int),
{
    bytes::Buf::advance(b, count)
}

/// The `Deref` of a `BytesMut`: its bytes as a slice.
#[verifier::external_body]
pub(crate) fn as_slice(b: &bytes::BytesMut) -> (r: &[u8])
    ensures
        r@ == buffer_bytes(*b),
{
    &b[..]
}

/// The bytes of a slice from `from` to `to`.
pub fn copy_range(b: &[u8], from: usize, to: usize) -> (r: Vec<u8>)
    requires
        from <= to <= b@.len(),
    ensures
        r@ == b@.subrange(from as int, to as int),
{
    let mut out: Vec<u8> = Vec::new();
    let mut i: usize = from;
    while i < to
        invariant
            from <= i <= to <= b@.len(),
            out@ == b@.subrange(from as int, i as int),
        decreases to - i,
    {
        out.push(b[i]);
        assert(b@.subrange(from as int, i + 1) =~= b@.subrange(from as int, i as int).push(
            b@[i as int],
        ));
        i = i + 1;
    }
    out
}

/// The place of the first byte `c`.
pub open spec fn position(b: Seq<u8>, c: u8) -> Option<int>
    decreases b.len(),
{
    if b.len() == 0 {
        None
    } else if b[0] == c {
        Some(0)
    } else {
        match position(b.skip(1), c) {
            Some(k) => Some(k + 1),
            None => None,
        }
    }
}

/// What `position` answers is the first place, and none means that there is none.
pub proof fn position_is_first(b: Seq<u8>, c: u8)
    ensures
        match position(b, c) {
            Some(k) => 0 <= k < b.len() && b[k] == c && forall|j: int|
                0 <= j < k ==> #[trigger] b[j] != c,
            None => forall|j: int| 0 <= j < b.len() ==> #[trigger] b[j] != c,
        },
    decreases b.len(),
{
    if b.len() > 0 && b[0] != c {
        let rest = b.skip(1);
        position_is_first(rest, c);
        assert forall|j: int| 1 <= j < b.len() implies #[trigger] b[j] == rest[j - 1] by {}
    }
}

/// If `c` stands at `k` and at no place before, then `position` answers `k`.
pub proof fn position_hits(b: Seq<u8>, c: u8, k: int)
    requires
        0 <= k < b.len(),
        b[k] == c,
        forall|j: int| 0 <= j < k ==> #[trigger] b[j] != c,
    ensures
        position(b, c) == Some(k),
{
    position_is_first(b, c);
    match position(b, c) {
        Some(p) => {
            if p < k {
                assert(b[p] != c);
            } else if k < p {
                assert(b[k] != c);
            }
        },
        None => {
            assert(b[k] != c);
        },
    }
}

/// The place of the first byte `c`.
pub fn find_byte(b: &[u8], c: u8) -> (r: Option<usize>)
    ensures
        match r {
            Some(k) => position(b@, c) == Some(k as int) && k < b@.len(),
            None => position(b@, c) is None,
        },
{
    let mut i: usize = 0;
    while i < b.len()
        invariant
            i <= b@.len(),
            forall|j: int| 0 <= j < i ==> #[trigger] b@[j] != c,
        decreases b@.len() - i,
    {
        if b[i] == c {
            proof {
                position_hits(b@, c, i as int);
            }
            return Some(i);
        }
        i = i + 1;
    }
    proof {
        position_is_first(b@, c);
        if position(b@, c) is Some {
            assert(b@[position(b@, c)->Some_0] != c);
        }
    }
    None
}

/// `p` stands in `b` at position `i`.
pub open spec fn stands_at(b: Seq<u8>, p: Seq<u8>, i: int) -> bool {
    0 <= i && i + p.len() <= b.len() && b.subrange(i, i + p.len()) == p
}

/// The first place at or after `from` at which `p` stands in `b`.
pub open spec fn place_from(b: Seq<u8>, p: Seq<u8>, from: int) -> Option<int>
    decreases b.len() - from + 1,
{
    if from < 0 || from + p.len() > b.len() {
        None
    } else if stands_at(b, p, from) {
        Some(from)
    } else {
        place_from(b, p, from + 1)
    }
}

/// The first place at which `p` stands in `b`.
pub open spec fn place(b: Seq<u8>, p: Seq<u8>) -> Option<int> {
    place_from(b, p, 0)
}

/// What `place_from` answers is the first place, and none means that there is none.
pub proof fn place_is_first(b: Seq<u8>, p: Seq<u8>, from: int)
    requires
        0 <= from,
    ensures
        match place_from(b, p, from) {
            Some(k) => from <= k && stands_at(b, p, k) && forall|j: int|
                from <= j < k ==> !#[trigger] stands_at(b, p, j),
            None => forall|j: int| from <= j ==> !#[trigger] stands_at(b, p, j),
        },
    decreases b.len() - from + 1,
{
    if from + p.len() <= b.len() && !stands_at(b, p, from) {
        place_is_first(b, p, from + 1);
    }
}

/// If `p` stands at `k` and at no place between `from` and `k`, then `place_from` answers `k`.
pub proof fn place_hits(b: Seq<u8>, p: Seq<u8>, from: int, k: int)
    requires
        0 <= from <= k,
        stands_at(b, p, k),
        forall|j: int| from <= j < k ==> !#[trigger] stands_at(b, p, j),
    ensures
        place_from(b, p, from) == Some(k),
    decreases k - from,
{
    if from < k {
        assert(!stands_at(b, p, from));
        place_hits(b, p, from + 1, k);
    }
}

/// What comes behind does not move the first place.
pub proof fn place_stays(b: Seq<u8>, p: Seq<u8>, more: Seq<u8>)
    requires
        place(b, p) is Some,
    ensures
        place(b + more, p) == place(b, p),
{
    place_is_first(b, p, 0);
    let k = place(b, p)->Some_0;
    let c = b + more;
    assert(c.subrange(k, k + p.len()) =~= b.subrange(k, k + p.len()));
    assert forall|j: int| 0 <= j < k implies !#[trigger] stands_at(c, p, j) by {
        assert(c.subrange(j, j + p.len()) =~= b.subrange(j, j + p.len()));
        assert(!stands_at(b, p, j));
    }
    place_hits(c, p, 0, k);
}

fn stands_here(b: &[u8], p: &[u8], i: usize) -> (r: bool)
    requires
        i + p@.len() <= b@.len(),
    ensures
        r == stands_at(b@, p@, i as int),
{
    let n: usize = b.len();
    let mut k: usize = 0;
    while k < p.len()
        invariant
            n == b@.len(),
            k <= p@.len(),
            i + p@.len() <= n,
            forall|j: int| 0 <= j < k ==> #[trigger] p@[j] == b@[i + j],
        decreases p@.len() - k,
    {
        if b[i + k] != p[k] {
            assert(b@.subrange(i as int, i + p@.len())[k as int] == b@[i + k]);
            return false;
        }
        k = k + 1;
    }
    assert(b@.subrange(i as int, i + p@.len()) =~= p@);
    true
}

/// The first place at which `p` stands in `b`.
pub fn find_bytes(b: &[u8], p: &[u8]) -> (r: Option<usize>)
    ensures
        match r {
            Some(k) => place(b@, p@) == Some(k as int) && k + p@.len() <= b@.len(),
            None => place(b@, p@) is None,
        },
{
    let n: usize = b.len();
    let m: usize = p.len();
    if m > n {
        return None;
    }
    let last: usize = n - m;
    let mut i: usize = 0;
    while i <= last
        invariant
            n == b@.len(),
            m == p@.len(),
            last + m == n,
            i <= last + 1,
            place(b@, p@) == place_from(b@, p@, i as int),
        decreases last + 1 - i,
    {
        if stands_here(b, p, i) {
            return Some(i);
        }
        if i == last {
            assert(place_from(b@, p@, i + 1) is None);
            return None;
        }
        i = i + 1;
    }
    None
}

} // verus!
