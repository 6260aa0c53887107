//! Text held back so that a tag is seen before any of it is shown.
//!
//! Some models print a `<tool_call>` tag as text instead of calling a tool natively. Text is
//! shown with a delay that is just long enough for the tag to be caught.
use vstd::prelude::*;

use crate::text;

verus! {

/// How many bytes of UTF-8 a character has.
pub open spec fn width(c: char) -> nat {
    let n = c as int;
    if n < 0x80 {
        1
    } else if n < 0x800 {
        2
    } else if n < 0x10000 {
        3
    } else {
        4
    }
}

/// How many bytes of UTF-8 a text has.
pub open spec fn widths(s: Seq<char>) -> nat
    decreases s.len(),
{
    if s.len() == 0 {
        0
    } else {
        widths(s.drop_last()) + width(s.last())
    }
}

/// How many characters at the end of `s` are needed for `bytes` bytes; all of them where there
/// are not as many bytes.
pub open spec fn held(s: Seq<char>, bytes: int) -> nat
    decreases s.len(),
{
    if s.len() == 0 || bytes <= 0 {
        0
    } else {
        1 + held(s.drop_last(), bytes - width(s.last()))
    }
}

/// How many bytes are held back: one less than the tag has.
pub const TOOL_TAG_HOLDBACK: usize = 10;

/// What of `s` can be shown.
pub open spec fn showable(s: Seq<char>) -> Seq<char> {
    s.take(s.len() - held(s, TOOL_TAG_HOLDBACK as int))
}

/// What of `s` is held back.
pub open spec fn kept(s: Seq<char>) -> Seq<char> {
    s.skip(s.len() - held(s, TOOL_TAG_HOLDBACK as int))
}

pub proof fn held_bounds(s: Seq<char>, bytes: int)
    ensures
        held(s, bytes) <= s.len(),
        held(s, bytes) < s.len() ==> widths(s.skip(s.len() - held(s, bytes))) >= bytes,
    decreases s.len(),
{
    if s.len() > 0 && bytes > 0 {
        let rest = s.drop_last();
        let b = bytes - width(s.last());
        held_bounds(rest, b);
        let k = (s.len() - held(s, bytes)) as int;
        if held(s, bytes) < s.len() {
            assert(s.skip(k).drop_last() =~= rest.skip(k));
            assert(s.skip(k).last() == s.last());
        }
    }
}

fn char_width(c: char) -> (r: usize)
    ensures
        r == width(c),
        1 <= r <= 4,
{
    let n: u32 = c as u32;
    if n < 0x80 {
        1
    } else if n < 0x800 {
        2
    } else if n < 0x10000 {
        3
    } else {
        4
    }
}

/// What of a text can be shown, and what of it is held back. The cut is never inside a
/// character.
pub fn hold_back(s: &str) -> (r: (String, String))
    ensures
        r.0@ == showable(s@),
        r.1@ == kept(s@),
{
    let chars = text::chars_of(s);
    let mut cut: usize = chars.len();
    let mut missing: usize = TOOL_TAG_HOLDBACK;
    assert(s@.take(s@.len() as int) =~= s@);
    while cut > 0 && missing > 0
        invariant
            cut <= chars.len(),
            chars@ == s@,
            missing <= 10,
            held(s@, 10) == (s@.len() - cut) + held(s@.take(cut as int), missing as int),
        decreases cut,
    {
        let w = char_width(chars[cut - 1]);
        proof {
            assert(s@.take(cut as int).drop_last() =~= s@.take(cut - 1));
            assert(s@.take(cut as int).last() == s@[cut - 1]);
        }
        let left: usize = if w >= missing {
            0
        } else {
            missing - w
        };
        assert(held(s@.take(cut - 1), missing - w) == held(s@.take(cut - 1), left as int));
        missing = left;
        cut = cut - 1;
    }
    let shown = text::slice_text(&chars, 0, cut);
    let rest = text::slice_text(&chars, cut, chars.len());
    assert(shown@ =~= showable(s@));
    assert(rest@ =~= kept(s@));
    (shown, rest)
}

// ── The tag is never shown ──────────────────────────────────────────────────

/// What has been shown, what is held back, and whether the tag has been seen.
#[verifier::ext_equal]
pub struct Shown {
    pub shown: Seq<char>,
    pub pending: Seq<char>,
    pub leaked: bool,
}

pub open spec fn nothing_shown() -> Shown {
    Shown { shown: seq![], pending: seq![], leaked: false }
}

/// What a piece of text does: once the tag is seen, no text is shown any more.
pub open spec fn with_piece(s: Shown, piece: Seq<char>) -> Shown {
    if s.leaked {
        s
    } else {
        let p = s.pending + piece;
        if text::contains(p, "<tool_call>"@) {
            Shown { shown: s.shown, pending: seq![], leaked: true }
        } else {
            Shown { shown: s.shown + showable(p), pending: kept(p), leaked: false }
        }
    }
}

pub open spec fn with_pieces(s: Shown, pieces: Seq<Seq<char>>) -> Shown
    decreases pieces.len(),
{
    if pieces.len() == 0 {
        s
    } else {
        with_piece(with_pieces(s, pieces.drop_last()), pieces.last())
    }
}

/// Everything that is shown once the end has come.
pub open spec fn all_shown(s: Shown) -> Seq<char> {
    s.shown + s.pending
}

/// From position `q` on, `s` is the tag as far as it goes.
spec fn tag_may_stand(s: Seq<char>, tag: Seq<char>, q: int) -> bool {
    forall|j: int| 0 <= j < tag.len() && q + j < s.len() ==> s[q + j] == #[trigger] tag[j]
}

spec fn safe(s: Shown) -> bool {
    let tag = "<tool_call>"@;
    let all = all_shown(s);
    &&& forall|q: int| 0 <= q && q + tag.len() <= all.len() ==> !#[trigger] text::occurs_at(all, tag, q)
    &&& !s.leaked ==> forall|q: int| 0 <= q < s.shown.len() ==> !#[trigger] tag_may_stand(all, tag, q)
}

proof fn narrow_widths(s: Seq<char>)
    requires
        forall|i: int| 0 <= i < s.len() ==> width(#[trigger] s[i]) == 1,
    ensures
        widths(s) == s.len(),
    decreases s.len(),
{
    if s.len() > 0 {
        assert(width(s[s.len() - 1]) == 1);
        assert forall|i: int| 0 <= i < s.drop_last().len() implies width(#[trigger] s.drop_last()[i])
            == 1 by {
            assert(s.drop_last()[i] == s[i]);
        }
        narrow_widths(s.drop_last());
    }
}

proof fn piece_is_safe(s: Shown, piece: Seq<char>)
    requires
        safe(s),
    ensures
        safe(with_piece(s, piece)),
{
    let tag = "<tool_call>"@;
    reveal_strlit("<tool_call>");
    assert(tag.len() == 11);
    if !s.leaked {
        let p = s.pending + piece;
        let s2 = with_piece(s, piece);
        let all = all_shown(s);
        let all2 = all_shown(s2);
        if text::contains(p, tag) {
            assert(all2 =~= s.shown);
            assert forall|q: int| 0 <= q && q + tag.len() <= all2.len() implies !#[trigger] text::occurs_at(
                all2,
                tag,
                q,
            ) by {
                assert(all2.subrange(q, q + 11) =~= all.subrange(q, q + 11));
                assert(!text::occurs_at(all, tag, q));
            }
        } else {
            text::find_from_is_first(p, tag, 0);
            held_bounds(p, 10);
            assert(showable(p) + kept(p) =~= p);
            assert(all2 =~= s.shown + p);
            assert(all2 =~= all + piece);
            assert forall|q: int| 0 <= q && q + tag.len() <= all2.len() implies !#[trigger] text::occurs_at(
                all2,
                tag,
                q,
            ) by {
                if text::occurs_at(all2, tag, q) {
                    if q < s.shown.len() {
                        assert forall|j: int| 0 <= j < tag.len() && q + j < all.len() implies all[q
                            + j] == #[trigger] tag[j] by {
                            assert(all2.subrange(q, q + 11)[j] == all2[q + j]);
                        }
                        assert(tag_may_stand(all, tag, q));
                    } else {
                        let r = q - s.shown.len();
                        assert(p.subrange(r, r + 11) =~= all2.subrange(q, q + 11));
                        assert(text::occurs_at(p, tag, r));
                    }
                }
            }
            assert forall|q: int| 0 <= q < s2.shown.len() implies !#[trigger] tag_may_stand(
                all2,
                tag,
                q,
            ) by {
                if tag_may_stand(all2, tag, q) {
                    if q < s.shown.len() {
                        assert forall|j: int| 0 <= j < tag.len() && q + j < all.len() implies all[q
                            + j] == #[trigger] tag[j] by {
                            assert(all2[q + j] == tag[j]);
                        }
                        assert(tag_may_stand(all, tag, q));
                    } else if q + 11 <= all2.len() {
                        assert(all2.subrange(q, q + 11) =~= tag);
                        assert(text::occurs_at(all2, tag, q));
                    } else {
                        let k = kept(p);
                        let at = (all2.len() - k.len()) as int;
                        assert(k.len() < p.len());
                        assert(widths(k) >= 10);
                        assert forall|i: int| 0 <= i < k.len() implies width(#[trigger] k[i]) == 1 by {
                            assert(k[i] == all2[at + i]);
                            let j = at + i - q;
                            assert(all2[q + j] == tag[j]);
                            assert(tag[j] as int <= 0x7f);
                        }
                        narrow_widths(k);
                    }
                }
            }
        }
    }
}

/// However the text comes in pieces, the tag is never shown: neither while the text comes nor
/// when what is held back is shown at the end.
pub proof fn tag_is_never_shown(pieces: Seq<Seq<char>>)
    ensures
        !text::contains(all_shown(with_pieces(nothing_shown(), pieces)), "<tool_call>"@),
{
    pieces_are_safe(pieces);
    let all = all_shown(with_pieces(nothing_shown(), pieces));
    text::find_from_is_first(all, "<tool_call>"@, 0);
}

proof fn pieces_are_safe(pieces: Seq<Seq<char>>)
    ensures
        safe(with_pieces(nothing_shown(), pieces)),
    decreases pieces.len(),
{
    if pieces.len() == 0 {
        reveal_strlit("<tool_call>");
        assert(all_shown(nothing_shown()).len() == 0);
        assert("<tool_call>"@.len() == 11);
    } else {
        pieces_are_safe(pieces.drop_last());
        piece_is_safe(with_pieces(nothing_shown(), pieces.drop_last()), pieces.last());
    }
}

/// Until the tag is seen, nothing is lost: what is shown and what is held back are all that
/// came.
pub proof fn no_text_is_lost(pieces: Seq<Seq<char>>)
    requires
        !with_pieces(nothing_shown(), pieces).leaked,
    ensures
        all_shown(with_pieces(nothing_shown(), pieces)) == text::join(pieces, seq![]),
    decreases pieces.len(),
{
    if pieces.len() == 0 {
        assert(all_shown(nothing_shown()) =~= seq![]);
    } else {
        let before = with_pieces(nothing_shown(), pieces.drop_last());
        no_text_is_lost(pieces.drop_last());
        let p = before.pending + pieces.last();
        held_bounds(p, 10);
        assert(showable(p) + kept(p) =~= p);
        assert(all_shown(with_piece(before, pieces.last())) =~= all_shown(before) + pieces.last());
        if pieces.len() == 1 {
            assert(all_shown(before) =~= seq![]);
            assert(all_shown(before) + pieces.last() =~= pieces[0]);
        } else {
            assert(text::join(pieces.drop_last(), seq![]) + Seq::<char>::empty() =~= text::join(
                pieces.drop_last(),
                seq![],
            ));
        }
    }
}

} // verus!
