//! What the functions on text are to each other.
use vstd::prelude::*;

use crate::text;

verus! {

// ── Joining and splitting ───────────────────────────────────────────────────

proof fn join_first(parts: Seq<Seq<char>>, sep: Seq<char>)
    requires
        parts.len() > 1,
    ensures
        text::join(parts, sep) == parts[0] + sep + text::join(parts.skip(1), sep),
    decreases parts.len(),
{
    let rest = parts.skip(1);
    if parts.len() == 2 {
        assert(parts.drop_last() =~= seq![parts[0]]);
        assert(rest =~= seq![parts[1]]);
        reveal_with_fuel(text::join, 2);
    } else {
        join_first(parts.drop_last(), sep);
        assert(parts.drop_last().skip(1) =~= rest.drop_last());
        assert(rest.last() == parts.last());
        assert(text::join(parts, sep) =~= parts[0] + sep + text::join(rest, sep));
    }
}

/// Parts that are joined by a character that none of them holds are what splitting at the
/// character gives.
pub proof fn split_undoes_join(parts: Seq<Seq<char>>, c: char)
    requires
        parts.len() > 0,
        forall|i: int| 0 <= i < parts.len() ==> !(#[trigger] parts[i]).contains(c),
    ensures
        text::split(text::join(parts, seq![c]), c) == parts,
    decreases parts.len(),
{
    let whole = text::join(parts, seq![c]);
    assert(!parts[0].contains(c));
    if parts.len() == 1 {
        assert forall|i: int| 0 <= i < whole.len() implies whole[i] != c by {
            assert(parts[0].contains(whole[i]));
        }
        text::span_of_is(whole, c, whole.len() as int);
        assert(text::split(whole, c) =~= parts);
    } else {
        join_first(parts, seq![c]);
        let k = parts[0].len() as int;
        let rest = parts.skip(1);
        assert(whole[k] == c);
        assert forall|i: int| 0 <= i < k implies whole[i] != c by {
            assert(whole[i] == parts[0][i]);
            assert(parts[0].contains(whole[i]));
        }
        text::span_of_is(whole, c, k);
        assert(whole.take(k) =~= parts[0]);
        assert(whole.skip(k + 1) =~= text::join(rest, seq![c]));
        assert forall|i: int| 0 <= i < rest.len() implies !(#[trigger] rest[i]).contains(c) by {
            assert(rest[i] == parts[i + 1]);
        }
        split_undoes_join(rest, c);
        assert(seq![parts[0]] + rest =~= parts);
    }
}

/// Lines that are joined by line feeds are read back as lines, where none of them holds a line
/// feed or ends in a carriage return, and the last one is not empty.
pub proof fn lines_undo_join(parts: Seq<Seq<char>>)
    requires
        parts.len() > 0,
        parts.last().len() > 0,
        forall|i: int|
            0 <= i < parts.len() ==> !(#[trigger] parts[i]).contains('\n') && !(parts[i].len() > 0
                && parts[i].last() == '\r'),
    ensures
        text::lines(text::join(parts, "\n"@)) == parts,
    decreases parts.len(),
{
    reveal_strlit("\n");
    assert("\n"@ =~= seq!['\n']);
    let whole = text::join(parts, "\n"@);
    assert(!parts[0].contains('\n'));
    if parts.len() == 1 {
        assert forall|i: int| 0 <= i < whole.len() implies whole[i] != '\n' by {
            assert(parts[0].contains(whole[i]));
        }
        text::span_of_is(whole, '\n', whole.len() as int);
        assert(text::lines(whole) =~= parts);
    } else {
        join_first(parts, "\n"@);
        let k = parts[0].len() as int;
        let rest = parts.skip(1);
        assert(whole[k] == '\n');
        assert forall|i: int| 0 <= i < k implies whole[i] != '\n' by {
            assert(whole[i] == parts[0][i]);
            assert(parts[0].contains(whole[i]));
        }
        text::span_of_is(whole, '\n', k);
        assert(whole.take(k) =~= parts[0]);
        assert(text::without_cr(parts[0]) == parts[0]);
        assert(whole.skip(k + 1) =~= text::join(rest, "\n"@));
        assert forall|i: int| 0 <= i < rest.len() implies !(#[trigger] rest[i]).contains('\n') && !(
        rest[i].len() > 0 && rest[i].last() == '\r') by {
            assert(rest[i] == parts[i + 1]);
        }
        assert(rest.last() == parts.last());
        lines_undo_join(rest);
        assert(seq![parts[0]] + rest =~= parts);
    }
}

// ── Blanks ──────────────────────────────────────────────────────────────────

/// All characters are blanks.
pub open spec fn all_blank(s: Seq<char>) -> bool {
    forall|i: int| 0 <= i < s.len() ==> text::is_space(#[trigger] s[i])
}

/// A text is a part of another with nothing but blanks around it.
pub open spec fn is_middle(m: Seq<char>, s: Seq<char>, before: Seq<char>, after: Seq<char>) -> bool {
    s == before + m + after && all_blank(before) && all_blank(after)
}

proof fn start_is_cut(s: Seq<char>)
    ensures
        ({
            let t = text::trim_start(s);
            &&& t.len() <= s.len()
            &&& s == s.take(s.len() - t.len()) + t
            &&& all_blank(s.take(s.len() - t.len()))
            &&& t.len() > 0 ==> !text::is_space(t[0])
        }),
    decreases s.len(),
{
    let t = text::trim_start(s);
    if s.len() > 0 && text::is_space(s[0]) {
        let rest = s.skip(1);
        start_is_cut(rest);
        let n = s.len() - t.len();
        assert(s.take(n) =~= seq![s[0]] + rest.take(n - 1));
        assert(rest.skip(n - 1) =~= t);
        assert(s.skip(n) =~= rest.skip(n - 1));
        assert(s =~= s.take(n) + s.skip(n));
        assert forall|i: int| 0 <= i < n implies text::is_space(#[trigger] s.take(n)[i]) by {
            if i > 0 {
                assert(s.take(n)[i] == rest.take(n - 1)[i - 1]);
            }
        }
    } else {
        assert(s =~= s.take(0) + s);
    }
}

proof fn end_is_cut(s: Seq<char>)
    ensures
        ({
            let t = text::trim_end(s);
            &&& t.len() <= s.len()
            &&& t == s.take(t.len() as int)
            &&& all_blank(s.skip(t.len() as int))
            &&& t.len() > 0 ==> !text::is_space(t.last())
        }),
    decreases s.len(),
{
    let t = text::trim_end(s);
    if s.len() > 0 && text::is_space(s.last()) {
        let rest = s.drop_last();
        end_is_cut(rest);
        let n = t.len() as int;
        assert(t =~= s.take(n));
        assert forall|i: int| 0 <= i < s.len() - n implies text::is_space(
            #[trigger] s.skip(n)[i],
        ) by {
            if n + i < rest.len() {
                assert(s.skip(n)[i] == rest.skip(n)[i]);
            }
        }
    } else {
        assert(s =~= s.take(s.len() as int));
    }
}

/// Trimming takes blanks away at both ends, all of them and nothing else.
pub proof fn trimming_takes_blanks(s: Seq<char>)
    ensures
        exists|before: Seq<char>, after: Seq<char>| #[trigger]
            is_middle(text::trim(s), s, before, after),
        text::trim(s).len() > 0 ==> !text::is_space(text::trim(s)[0]) && !text::is_space(
            text::trim(s).last(),
        ),
{
    start_is_cut(s);
    let t = text::trim_start(s);
    end_is_cut(t);
    let m = text::trim(s);
    let before = s.take(s.len() - t.len());
    let after = t.skip(m.len() as int);
    assert(t =~= m + after);
    assert(s =~= before + m + after);
    assert(is_middle(m, s, before, after));
    if m.len() > 0 {
        assert(m[0] == t[0]);
    }
}

/// A text without blanks at its ends is left as it is.
pub proof fn trimmed_text_stays(s: Seq<char>)
    requires
        s.len() > 0 ==> !text::is_space(s[0]) && !text::is_space(s.last()),
    ensures
        text::trim(s) == s,
{
}

// ── Beginnings ──────────────────────────────────────────────────────────────

/// What is cut off at a character is what stands before the first such character and behind it.
pub proof fn cut_is_at_the_first(s: Seq<char>, c: char)
    ensures
        text::cut_at(s, c) matches Some((a, b)) ==> s == a + seq![c] + b && !a.contains(c),
        text::cut_at(s, c) is None ==> !s.contains(c),
        !text::head_of(s, c).contains(c),
        text::head_of(s, c).is_prefix_of(s),
{
    text::span_of_bounds(s, c);
    span_holds_none(s, c);
    let k = text::span_of(s, c);
    if k < s.len() {
        assert(s =~= s.take(k) + seq![c] + s.skip(k + 1));
    }
    assert(s.take(k) =~= s.subrange(0, k));
}

proof fn span_holds_none(s: Seq<char>, c: char)
    ensures
        0 <= text::span_of(s, c) <= s.len(),
        !s.take(text::span_of(s, c)).contains(c),
        text::span_of(s, c) < s.len() ==> s[text::span_of(s, c)] == c,
        text::span_of(s, c) == s.len() ==> !s.contains(c),
    decreases s.len(),
{
    let k = text::span_of(s, c);
    if s.len() > 0 && s[0] != c {
        let rest = s.skip(1);
        span_holds_none(rest, c);
        let head = s.take(k);
        assert forall|i: int| 0 <= i < head.len() implies head[i] != c by {
            if i > 0 {
                assert(head[i] == rest.take(k - 1)[i - 1]);
                assert(rest.take(k - 1).contains(rest.take(k - 1)[i - 1]));
            }
        }
        if k == s.len() {
            assert(s.take(k) =~= s);
        }
    }
}

/// A beginning is taken off exactly where it is there.
pub proof fn prefix_is_taken_off(s: Seq<char>, p: Seq<char>)
    ensures
        text::strip_prefix(s, p) matches Some(rest) ==> s == p + rest,
        text::strip_prefix(s, p) is None ==> !p.is_prefix_of(s),
        text::starts_with(s, p) == p.is_prefix_of(s),
{
    let n = p.len() as int;
    if text::starts_with(s, p) {
        assert(s =~= p + s.skip(n));
        assert(p =~= s.subrange(0, n));
    } else if p.is_prefix_of(s) {
        assert(s.subrange(0, n) =~= p);
        assert(text::occurs_at(s, p, 0));
    }
}

} // verus!
