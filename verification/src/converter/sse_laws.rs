//! That events of a stream are read back as they were written.
use vstd::prelude::*;

use crate::converter::sse;
use crate::converter::to_openai::{self, EventModel};
use crate::json::{self, JsonModel};
use crate::text;
use crate::text_laws;

verus! {

/// Events as they are written: each is followed by a blank line.
pub open spec fn written(raws: Seq<Seq<char>>) -> Seq<char>
    decreases raws.len(),
{
    if raws.len() == 0 {
        seq![]
    } else {
        raws[0] + "\n\n"@ + written(raws.skip(1))
    }
}

/// The text of an event: it holds no blank line, and does not end in a line feed.
pub open spec fn is_raw(raw: Seq<char>) -> bool {
    &&& !text::contains(raw, "\n\n"@)
    &&& !(raw.len() > 0 && raw.last() == '\n')
}

proof fn one_frame(raw: Seq<char>)
    requires
        is_raw(raw),
    ensures
        sse::frames(raw + "\n\n"@) == seq![raw],
        sse::leftover(raw + "\n\n"@) == Seq::<char>::empty(),
{
    reveal_strlit("\n\n");
    let sep = sse::separator();
    assert("\n\n"@ =~= sep);
    let a = raw + sep;
    let n = raw.len() as int;
    assert(a.subrange(n, n + 2) =~= sep);
    assert(text::occurs_at(a, sep, n));
    text::find_from_is_first(raw, sep, 0);
    assert forall|j: int| 0 <= j < n implies !#[trigger] text::occurs_at(a, sep, j) by {
        if text::occurs_at(a, sep, j) {
            let x = a.subrange(j, j + 2);
            assert(x[0] == '\n' && x[1] == '\n');
            if j + 2 <= n {
                assert(raw.subrange(j, j + 2) =~= x);
                assert(text::occurs_at(raw, sep, j));
            } else {
                assert(raw.last() == x[0]);
            }
        }
    }
    text::find_from_hits(a, sep, 0, n);
    reveal_with_fuel(sse::frames_from, 2);
    reveal_with_fuel(sse::leftover_from, 2);
    assert(text::find_from(a, sep, n + 2) is None);
    assert(a.subrange(0, n) =~= raw);
    assert(sse::frames(a) =~= seq![raw]);
    assert(a.skip(n + 2) =~= Seq::<char>::empty());
}

/// Events that were written one after the other are read back, each as it was, and nothing is
/// left.
pub proof fn events_are_read_back(raws: Seq<Seq<char>>)
    requires
        forall|i: int| 0 <= i < raws.len() ==> is_raw(#[trigger] raws[i]),
    ensures
        sse::frames(written(raws)) == raws,
        sse::leftover(written(raws)) == Seq::<char>::empty(),
    decreases raws.len(),
{
    if raws.len() == 0 {
        let none = Seq::<char>::empty();
        assert(text::find_from(none, sse::separator(), 0) is None);
        assert(none.skip(0) =~= none);
        assert(sse::frames(none) =~= raws);
    } else {
        let rest = raws.skip(1);
        assert(is_raw(raws[0]));
        one_frame(raws[0]);
        assert forall|i: int| 0 <= i < rest.len() implies is_raw(#[trigger] rest[i]) by {
            assert(rest[i] == raws[i + 1]);
        }
        events_are_read_back(rest);
        let none = Seq::<char>::empty();
        let a = raws[0] + "\n\n"@;
        let b = written(rest);
        sse::framing_is_chunk_invariant(none, a, b);
        assert(none + (a + b) =~= written(raws));
        assert(none + a =~= a);
        assert(none + b =~= b);
        assert(seq![raws[0]] + rest =~= raws);
    }
}

/// The name or the data of an event: one line, without blanks around it.
pub open spec fn is_one_line(s: Seq<char>) -> bool {
    &&& s.len() > 0
    &&& !s.contains('\n')
    &&& !text::is_space(s[0])
    &&& !text::is_space(s.last())
}

proof fn field_is_read(key: Seq<char>, value: Seq<char>)
    requires
        is_one_line(value),
    ensures
        text::strip_prefix(key + seq![' '] + value, key) matches Some(v) && text::trim(v) == value,
{
    let line = key + seq![' '] + value;
    let n = key.len() as int;
    assert(line.subrange(0, n) =~= key);
    let rest = line.skip(n);
    assert(rest =~= seq![' '] + value);
    assert(rest.skip(1) =~= value);
    assert(text::is_space(' '));
    reveal_with_fuel(text::trim_start, 2);
    assert(text::trim_start(rest) == value);
    text_laws::trimmed_text_stays(value);
}

/// An event with a name and data is read back with this name and what the data stand for.
pub proof fn event_is_read_back(name: Seq<char>, data: Seq<char>, v: JsonModel)
    requires
        is_one_line(name),
        is_one_line(data),
        json::json_parse(data) == Some(v),
    ensures
        to_openai::event_of_frame("event: "@ + name + "\ndata: "@ + data) == Some(
            EventModel { event_type: name, data: v },
        ),
{
    reveal_strlit("event: ");
    reveal_strlit("event:");
    reveal_strlit("\ndata: ");
    reveal_strlit("data:");
    reveal_strlit("\n");
    let sp = seq![' '];
    assert("event: "@ =~= "event:"@ + sp);
    assert("\ndata: "@ =~= "\n"@ + "data:"@ + sp);
    let first = "event:"@ + sp + name;
    let second = "data:"@ + sp + data;
    let raw = "event: "@ + name + "\ndata: "@ + data;
    let ls = seq![first, second];
    assert(ls.drop_last() =~= seq![first]);
    reveal_with_fuel(text::join, 2);
    assert(text::join(ls, "\n"@) =~= first + "\n"@ + second);
    assert(raw =~= first + "\n"@ + second);
    no_line_feed("event:"@, name);
    no_line_feed("data:"@, data);
    assert(!text::is_space(first.last()) && !text::is_space(second.last()));
    assert(text::is_space('\r'));
    text_laws::lines_undo_join(ls);
    assert(text::lines(raw) == ls);
    field_is_read("event:"@, name);
    field_is_read("data:"@, data);
    text_laws::prefix_is_taken_off(second, "event:"@);
    assert(second[0] == 'd');
    assert("event:"@[0] == 'e');
    if text::starts_with(second, "event:"@) {
        assert(second.subrange(0, "event:"@.len() as int)[0] == 'd');
    }
    reveal_with_fuel(to_openai::event_type_of, 3);
    reveal_with_fuel(to_openai::data_lines, 3);
    assert(ls.drop_last().drop_last() =~= seq![]);
    assert(text::strip_prefix(second, "event:"@) is None);
    assert(to_openai::event_type_of(ls) == name);
    assert(text::starts_with(first, "event:"@));
    assert(to_openai::data_lines(ls) =~= seq![data]);
    assert(text::join(seq![data], "\n"@) == data);
}

proof fn no_line_feed(key: Seq<char>, value: Seq<char>)
    requires
        is_one_line(value),
        !key.contains('\n'),
    ensures
        !(key + seq![' '] + value).contains('\n'),
{
    let line = key + seq![' '] + value;
    assert forall|i: int| 0 <= i < line.len() implies line[i] != '\n' by {
        if i < key.len() {
            assert(key.contains(line[i]));
        } else if i > key.len() {
            assert(value.contains(line[i]));
        }
    }
}

} // verus!
