//! Pages as text.
use vstd::prelude::*;

use crate::text;

verus! {

/// `s` starts with `p`, letters of either case alike. `p` is in lower case.
pub open spec fn starts_ci(s: Seq<char>, p: Seq<char>) -> bool {
    s.len() >= p.len() && text::to_ascii_lower(s.take(p.len() as int)) == p
}

fn starts_with_ci(s: &Vec<char>, from: usize, p: &str) -> (r: bool)
    requires
        from <= s@.len(),
    ensures
        r == starts_ci(s@.skip(from as int), p@),
{
    let needle = text::chars_of(p);
    let ghost rest = s@.skip(from as int);
    if s.len() - from < needle.len() {
        return false;
    }
    let mut i: usize = 0;
    while i < needle.len()
        invariant
            i <= needle.len(),
            from + needle.len() <= s.len(),
            needle@ == p@,
            rest == s@.skip(from as int),
            forall|k: int| 0 <= k < i ==> text::ascii_lower(#[trigger] rest[k]) == p@[k],
        decreases needle.len() - i,
    {
        if text::lower_char(s[from + i]) != needle[i] {
            assert(text::to_ascii_lower(rest.take(p@.len() as int))[i as int] == text::ascii_lower(
                rest[i as int],
            ));
            return false;
        }
        assert(rest[i as int] == s@[from + i]);
        i = i + 1;
    }
    assert(text::to_ascii_lower(rest.take(p@.len() as int)) =~= p@);
    true
}

/// How many scripts and styles are open behind the `<` that `s` starts with.
pub open spec fn depth_after(s: Seq<char>, depth: nat) -> nat {
    if starts_ci(s, "<script"@) || starts_ci(s, "<style"@) {
        depth + 1
    } else if (starts_ci(s, "</script"@) || starts_ci(s, "</style"@)) && depth > 0 {
        (depth - 1) as nat
    } else {
        depth
    }
}

/// What is left of a page: not its tags, nor what stands in scripts and styles.
pub open spec fn stripped(s: Seq<char>, in_tag: bool, depth: nat) -> Seq<char>
    decreases s.len(),
{
    if s.len() == 0 {
        seq![]
    } else if s[0] == '<' {
        stripped(s.skip(1), true, depth_after(s, depth))
    } else if s[0] == '>' {
        stripped(s.skip(1), false, depth)
    } else if !in_tag && depth == 0 {
        seq![s[0]] + stripped(s.skip(1), in_tag, depth)
    } else {
        stripped(s.skip(1), in_tag, depth)
    }
}

/// The text of a page: what is left without markup, with one blank between words.
pub open spec fn text_of_html(s: Seq<char>) -> Seq<char> {
    text::join(text::words(stripped(s, false, 0)), " "@)
}

/// A page as text. This drops the markup, and does not tell an article from what surrounds it.
pub fn html_to_text(html: &str) -> (r: String)
    ensures
        r@ == text_of_html(html@),
{
    let chars = text::chars_of(html);
    let mut out = String::new();
    let mut in_tag: bool = false;
    let mut depth: usize = 0;
    let mut i: usize = 0;
    assert(out@ + stripped(chars@.skip(0), false, 0) =~= stripped(html@, false, 0)) by {
        assert(chars@.skip(0) =~= html@);
    }
    while i < chars.len()
        invariant
            i <= chars.len(),
            depth <= i,
            out@ + stripped(chars@.skip(i as int), in_tag, depth as nat) == stripped(
                html@,
                false,
                0,
            ),
        decreases chars.len() - i,
    {
        let ghost rest = chars@.skip(i as int);
        assert(rest.skip(1) =~= chars@.skip(i + 1));
        let c = chars[i];
        if c == '<' {
            in_tag = true;
            if starts_with_ci(&chars, i, "<script") || starts_with_ci(&chars, i, "<style") {
                depth = depth + 1;
            } else if starts_with_ci(&chars, i, "</script") || starts_with_ci(
                &chars,
                i,
                "</style",
            ) {
                if depth > 0 {
                    depth = depth - 1;
                }
            }
        } else if c == '>' {
            in_tag = false;
        } else if !in_tag && depth == 0 {
            let ghost before = out@;
            out.push(c);
            assert(before + (seq![c] + stripped(rest.skip(1), in_tag, 0)) =~= out@ + stripped(
                rest.skip(1),
                in_tag,
                0,
            ));
        }
        i = i + 1;
    }
    assert(out@ =~= stripped(html@, false, 0));
    let words = text::word_texts(out.as_str());
    text::join_texts(&words, " ")
}

/// How many characters of a page are passed on.
pub const MAX_FETCH_CHARS: usize = 8000;

/// The text of a page as a worker gets it: cut, with a note, where it is long.
pub open spec fn page_text(html: Seq<char>) -> Seq<char> {
    let t = text_of_html(html);
    if t.len() > MAX_FETCH_CHARS {
        t.take(MAX_FETCH_CHARS as int) + "\n\n[truncated — page was longer than 8000 characters]"@
    } else {
        t
    }
}

/// The text of a page as a worker gets it.
pub fn fetched_text(body: &str) -> (r: String)
    ensures
        r@ == page_text(body@),
{
    let t = html_to_text(body);
    let chars = text::chars_of(t.as_str());
    if chars.len() > MAX_FETCH_CHARS {
        let head = text::slice_text(&chars, 0, MAX_FETCH_CHARS);
        assert(head@ =~= t@.take(MAX_FETCH_CHARS as int));
        text::concat(
            head.as_str(),
            "\n\n[truncated — page was longer than 8000 characters]",
        )
    } else {
        t
    }
}

// ── Laws ────────────────────────────────────────────────────────────────────

proof fn stripped_has_no_tags(s: Seq<char>, in_tag: bool, depth: nat)
    ensures
        !stripped(s, in_tag, depth).contains('<'),
        !stripped(s, in_tag, depth).contains('>'),
    decreases s.len(),
{
    if s.len() > 0 {
        stripped_has_no_tags(s.skip(1), true, depth_after(s, depth));
        stripped_has_no_tags(s.skip(1), false, depth);
        stripped_has_no_tags(s.skip(1), in_tag, depth);
        if s[0] != '<' && s[0] != '>' && !in_tag && depth == 0 {
            let rest = stripped(s.skip(1), in_tag, depth);
            let all = seq![s[0]] + rest;
            assert forall|k: int| 0 <= k < all.len() implies all[k] != '<' && all[k] != '>' by {
                if k > 0 {
                    assert(rest.contains(rest[k - 1]));
                }
            }
        }
    }
}

/// No markup reaches a worker: the text of a page has neither `<` nor `>`.
pub proof fn markup_is_gone(html: Seq<char>)
    ensures
        !text_of_html(html).contains('<'),
        !text_of_html(html).contains('>'),
{
    let s = stripped(html, false, 0);
    stripped_has_no_tags(html, false, 0);
    reveal_strlit(" ");
    assert(" "@ =~= seq![' ']);
    text::words_have_no_other(s, '<');
    text::words_have_no_other(s, '>');
    text::join_has_no_other(text::words(s), " "@, '<');
    text::join_has_no_other(text::words(s), " "@, '>');
}

/// A part of a page that is written properly.
pub enum Piece {
    Text(Seq<char>),
    /// A tag, with its brackets, that is not one of a script or a style.
    Tag(Seq<char>),
    /// A script or a style: the tags around it, and what stands between them.
    Element { open: Seq<char>, content: Seq<char>, close: Seq<char> },
}

/// The text has no bracket of a tag in it.
pub open spec fn is_plain(t: Seq<char>) -> bool {
    forall|k: int| 0 <= k < t.len() ==> #[trigger] t[k] != '<' && t[k] != '>'
}

/// A tag from its bracket to its bracket.
pub open spec fn is_tag(t: Seq<char>) -> bool {
    t.len() >= 2 && t[0] == '<' && t.last() == '>' && is_plain(t.subrange(1, t.len() - 1))
}

/// A tag of a script or a style starts here.
pub open spec fn is_special(s: Seq<char>) -> bool {
    starts_ci(s, "<script"@) || starts_ci(s, "<style"@) || starts_ci(s, "</script"@) || starts_ci(
        s,
        "</style"@,
    )
}

/// The part is written properly. What stands in a script or a style may have brackets, but no
/// further tag of a script or a style.
pub open spec fn is_proper(p: Piece) -> bool {
    match p {
        Piece::Text(t) => is_plain(t),
        Piece::Tag(t) => is_tag(t) && !is_special(t),
        Piece::Element { open, content, close } => {
            &&& is_tag(open)
            &&& is_tag(close)
            &&& starts_ci(open, "<script"@) && starts_ci(close, "</script"@) || starts_ci(
                open,
                "<style"@,
            ) && starts_ci(close, "</style"@)
            &&& forall|i: int|
                0 <= i < content.len() ==> !is_special(#[trigger] content.skip(i))
        },
    }
}

pub open spec fn written(p: Piece) -> Seq<char> {
    match p {
        Piece::Text(t) => t,
        Piece::Tag(t) => t,
        Piece::Element { open, content, close } => open + content + close,
    }
}

/// The page that the parts are.
pub open spec fn page(ps: Seq<Piece>) -> Seq<char>
    decreases ps.len(),
{
    if ps.len() == 0 {
        seq![]
    } else {
        written(ps[0]) + page(ps.skip(1))
    }
}

/// The page with its tags, its scripts and its styles deleted.
pub open spec fn without_markup(ps: Seq<Piece>) -> Seq<char>
    decreases ps.len(),
{
    if ps.len() == 0 {
        seq![]
    } else {
        let rest = without_markup(ps.skip(1));
        match ps[0] {
            Piece::Text(t) => t + rest,
            _ => rest,
        }
    }
}

/// Brackets stand in the names of the special tags at their start alone.
proof fn names_have_no_brackets()
    ensures
        forall|k: int| 0 <= k < "<script"@.len() ==> #[trigger] "<script"@[k] != '>',
        forall|k: int| 0 <= k < "<style"@.len() ==> #[trigger] "<style"@[k] != '>',
        forall|k: int| 0 <= k < "</script"@.len() ==> #[trigger] "</script"@[k] != '>',
        forall|k: int| 0 <= k < "</style"@.len() ==> #[trigger] "</style"@[k] != '>',
        forall|k: int| 1 <= k < "<script"@.len() ==> #[trigger] "<script"@[k] != '<',
        forall|k: int| 1 <= k < "<style"@.len() ==> #[trigger] "<style"@[k] != '<',
        forall|k: int| 1 <= k < "</script"@.len() ==> #[trigger] "</script"@[k] != '<',
        forall|k: int| 1 <= k < "</style"@.len() ==> #[trigger] "</style"@[k] != '<',
{
    reveal_strlit("<script");
    reveal_strlit("<style");
    reveal_strlit("</script");
    reveal_strlit("</style");
}

/// Where `p` breaks off at `q` already, what comes behind `a` does not matter.
proof fn start_is_local(a: Seq<char>, rest: Seq<char>, p: Seq<char>, q: int)
    requires
        0 <= q <= a.len(),
        q < (a + rest).len(),
        q < p.len() ==> text::ascii_lower((a + rest)[q]) != p[q],
    ensures
        starts_ci(a + rest, p) == starts_ci(a, p),
{
    let all = a + rest;
    if p.len() <= a.len() {
        assert(all.take(p.len() as int) =~= a.take(p.len() as int));
    } else if starts_ci(all, p) {
        assert(text::to_ascii_lower(all.take(p.len() as int))[q] == text::ascii_lower(all[q]));
    }
}

proof fn specials_are_local(a: Seq<char>, rest: Seq<char>, q: int, depth: nat)
    requires
        0 <= q <= a.len(),
        q < (a + rest).len(),
        (a + rest)[q] == '>' || 1 <= q && (a + rest)[q] == '<',
    ensures
        is_special(a + rest) == is_special(a),
        depth_after(a + rest, depth) == depth_after(a, depth),
{
    names_have_no_brackets();
    start_is_local(a, rest, "<script"@, q);
    start_is_local(a, rest, "<style"@, q);
    start_is_local(a, rest, "</script"@, q);
    start_is_local(a, rest, "</style"@, q);
}

proof fn text_is_kept(t: Seq<char>, rest: Seq<char>)
    requires
        is_plain(t),
    ensures
        stripped(t + rest, false, 0) == t + stripped(rest, false, 0),
    decreases t.len(),
{
    if t.len() == 0 {
        assert(t + rest =~= rest);
        assert(t + stripped(rest, false, 0) =~= stripped(rest, false, 0));
    } else {
        let tail = t.skip(1);
        assert forall|k: int| 0 <= k < tail.len() implies #[trigger] tail[k] != '<' && tail[k]
            != '>' by {
            assert(tail[k] == t[k + 1]);
        }
        text_is_kept(tail, rest);
        assert((t + rest)[0] == t[0]);
        assert((t + rest).skip(1) =~= tail + rest);
        assert(seq![t[0]] + (tail + stripped(rest, false, 0)) =~= t + stripped(rest, false, 0));
    }
}

proof fn inner_is_dropped(t: Seq<char>, rest: Seq<char>, depth: nat)
    requires
        is_plain(t),
    ensures
        stripped(t + rest, true, depth) == stripped(rest, true, depth),
    decreases t.len(),
{
    if t.len() == 0 {
        assert(t + rest =~= rest);
    } else {
        let tail = t.skip(1);
        assert forall|k: int| 0 <= k < tail.len() implies #[trigger] tail[k] != '<' && tail[k]
            != '>' by {
            assert(tail[k] == t[k + 1]);
        }
        inner_is_dropped(tail, rest, depth);
        assert((t + rest)[0] == t[0]);
        assert((t + rest).skip(1) =~= tail + rest);
    }
}

proof fn tag_is_dropped(t: Seq<char>, rest: Seq<char>, in_tag: bool, depth: nat)
    requires
        is_tag(t),
    ensures
        stripped(t + rest, in_tag, depth) == stripped(rest, false, depth_after(t, depth)),
{
    let all = t + rest;
    let inner = t.subrange(1, t.len() - 1);
    let tail = seq!['>'] + rest;
    let d = depth_after(t, depth);
    assert(all[t.len() - 1] == '>');
    specials_are_local(t, rest, t.len() - 1, depth);
    assert(all.skip(1) =~= inner + tail);
    inner_is_dropped(inner, tail, d);
    assert(tail.skip(1) =~= rest);
    assert(tail[0] == '>');
}

proof fn content_is_dropped(content: Seq<char>, rest: Seq<char>, in_tag: bool)
    requires
        forall|i: int| 0 <= i < content.len() ==> !is_special(#[trigger] content.skip(i)),
        rest.len() > 0,
        rest[0] == '<',
    ensures
        stripped(content + rest, in_tag, 1) == stripped(rest, false, 1),
    decreases content.len(),
{
    if content.len() == 0 {
        assert(content + rest =~= rest);
    } else {
        let tail = content.skip(1);
        let all = content + rest;
        assert forall|i: int| 0 <= i < tail.len() implies !is_special(#[trigger] tail.skip(i)) by {
            assert(tail.skip(i) =~= content.skip(i + 1));
        }
        assert(content.skip(0) =~= content);
        assert(!is_special(content.skip(0)));
        assert(all[content.len() as int] == '<');
        specials_are_local(content, rest, content.len() as int, 1);
        assert(all[0] == content[0]);
        assert(all.skip(1) =~= tail + rest);
        content_is_dropped(tail, rest, true);
        content_is_dropped(tail, rest, false);
    }
}

proof fn pieces_are_stripped(ps: Seq<Piece>)
    requires
        forall|i: int| 0 <= i < ps.len() ==> is_proper(#[trigger] ps[i]),
    ensures
        stripped(page(ps), false, 0) == without_markup(ps),
    decreases ps.len(),
{
    if ps.len() > 0 {
        let others = ps.skip(1);
        assert forall|i: int| 0 <= i < others.len() implies is_proper(#[trigger] others[i]) by {
            assert(others[i] == ps[i + 1]);
        }
        pieces_are_stripped(others);
        let rest = page(others);
        assert(is_proper(ps[0]));
        match ps[0] {
            Piece::Text(t) => {
                text_is_kept(t, rest);
            },
            Piece::Tag(t) => {
                tag_is_dropped(t, rest, false, 0);
            },
            Piece::Element { open, content, close } => {
                let behind = content + (close + rest);
                assert((open + content + close) + rest =~= open + behind);
                tag_is_dropped(open, behind, false, 0);
                opening_and_closing(open, close);
                assert((close + rest)[0] == '<');
                content_is_dropped(content, close + rest, false);
                tag_is_dropped(close, rest, false, 1);
            },
        }
    }
}

proof fn opening_and_closing(open: Seq<char>, close: Seq<char>)
    requires
        starts_ci(open, "<script"@) || starts_ci(open, "<style"@),
        starts_ci(close, "</script"@) || starts_ci(close, "</style"@),
    ensures
        depth_after(open, 0) == 1,
        depth_after(close, 1) == 0,
{
    reveal_strlit("<script");
    reveal_strlit("<style");
    reveal_strlit("</script");
    reveal_strlit("</style");
    let at = |n: int| text::ascii_lower(close[n]);
    if starts_ci(close, "</script"@) {
        assert(text::to_ascii_lower(close.take(8))[1] == at(1));
    }
    if starts_ci(close, "</style"@) {
        assert(text::to_ascii_lower(close.take(7))[1] == at(1));
    }
    if starts_ci(close, "<script"@) {
        assert(text::to_ascii_lower(close.take(7))[1] == at(1));
    }
    if starts_ci(close, "<style"@) {
        assert(text::to_ascii_lower(close.take(6))[1] == at(1));
    }
}

/// The text of a page that is written properly are its words once each tag, and each script and
/// style with what stands in it, is deleted, joined by single blanks.
pub proof fn markup_is_deleted(ps: Seq<Piece>)
    requires
        forall|i: int| 0 <= i < ps.len() ==> is_proper(#[trigger] ps[i]),
    ensures
        text_of_html(page(ps)) == text::join(text::words(without_markup(ps)), " "@),
{
    pieces_are_stripped(ps);
}

/// A text that was made of a page is left as it is: a second pass changes nothing.
pub proof fn second_pass_changes_nothing(html: Seq<char>)
    ensures
        text_of_html(text_of_html(html)) == text_of_html(html),
{
    let t = text_of_html(html);
    markup_is_gone(html);
    assert forall|k: int| 0 <= k < t.len() implies #[trigger] t[k] != '<' && t[k] != '>' by {
        assert(t.contains(t[k]));
    }
    text_is_kept(t, seq![]);
    assert(t + Seq::<char>::empty() =~= t);
    assert(stripped(t, false, 0) =~= t);
    reveal_strlit(" ");
    assert(" "@ =~= seq![' ']);
    text::words_are_words(stripped(html, false, 0));
    text::words_survive(text::words(stripped(html, false, 0)));
}

/// A page never takes more room than its limit and the note.
pub proof fn page_is_bounded(html: Seq<char>)
    ensures
        page_text(html).len() <= MAX_FETCH_CHARS + 55,
{
    reveal_strlit("\n\n[truncated — page was longer than 8000 characters]");
}

} // verus!
