use ai_provider_proxy::buffer::{copy_range, find_byte, find_bytes};
use ai_provider_proxy::ids::{fresh_id, fresh_ids};
use ai_provider_proxy::json::{parse, parse_bytes, render, Json, Object};
use ai_provider_proxy::ndjson::{ndjson_line, NdjsonReader, NdjsonWriter, Next};
use ai_provider_proxy::strmap::StrMap;
use ai_provider_proxy::text::{
    byte_count, cut_prefix, cut_suffix, cut_text, decimal, decimal_signed, find_chars, has_part,
    hex_of, insert_sorted, is_before, join_texts, line_texts, lower_text, number_of, signed_of,
    split_text, trimmed, word_texts,
};

fn strings(parts: Vec<&str>) -> Vec<String> {
    parts.into_iter().map(|p| p.to_string()).collect()
}

// ── Text ────────────────────────────────────────────────────────────────────

#[test]
fn text_is_searched_and_cut() {
    assert!(has_part("abcabd", "abd"));
    assert!(!has_part("abc", "abd"));
    assert!(has_part("abc", ""));
    let s: Vec<char> = "abcabd".chars().collect();
    let p: Vec<char> = "ab".chars().collect();
    assert_eq!(find_chars(&s, &p, 1), Some(3));
    assert_eq!(cut_prefix("data: x", "data: "), Some("x".to_string()));
    assert_eq!(cut_prefix("x", "data: "), None);
    assert_eq!(cut_suffix("7/approve", "/approve"), Some("7".to_string()));
    assert_eq!(cut_text("a=b=c", '='), Some(("a".to_string(), "b=c".to_string())));
    assert_eq!(cut_text("abc", '='), None);
}

#[test]
fn text_is_split_into_parts_words_and_lines() {
    assert_eq!(split_text("a,,b", ','), strings(vec!["a", "", "b"]));
    assert_eq!(split_text("", ','), strings(vec![""]));
    assert_eq!(word_texts("  a\u{a0}b\n c "), strings(vec!["a", "b", "c"]));
    assert_eq!(line_texts("a\r\nb\n\nc"), strings(vec!["a", "b", "", "c"]));
    assert_eq!(line_texts("a\n"), strings(vec!["a"]));
    assert_eq!(join_texts(&strings(vec!["a", "b"]), ", "), "a, b");
    assert_eq!(trimmed("\u{3000} x \t"), "x");
    assert_eq!(lower_text("AbÉ"), "abÉ");
    assert_eq!(byte_count("aé€"), 6);
}

#[test]
fn numbers_are_written_and_read() {
    assert_eq!(decimal(0), "0");
    assert_eq!(decimal(18446744073709551615), "18446744073709551615");
    assert_eq!(decimal_signed(-9223372036854775808), "-9223372036854775808");
    assert_eq!(number_of("+42", 100), Some(42));
    assert_eq!(number_of("0042", 100), Some(42));
    assert_eq!(number_of("101", 100), None);
    assert_eq!(number_of("", 100), None);
    assert_eq!(number_of("-1", 100), None);
    assert_eq!(signed_of("-7"), Some(-7));
    assert_eq!(signed_of("9223372036854775808"), None);
    assert_eq!(signed_of("x"), None);
    assert_eq!(hex_of("fF", 1000), Some(255));
    assert_eq!(hex_of("g", 1000), None);
    assert_eq!(hex_of("", 1000), None);
}

#[test]
fn names_are_kept_in_order_and_once() {
    let mut v: Vec<String> = Vec::new();
    for name in ["b", "a", "c", "a"] {
        insert_sorted(&mut v, name);
    }
    assert_eq!(v, strings(vec!["a", "b", "c"]));
    assert!(is_before("a", "ab"));
    assert!(!is_before("b", "ab"));
}

// ── JSON ────────────────────────────────────────────────────────────────────

#[test]
fn later_field_of_a_name_stays() {
    let o = Object::new().with("a", Json::text("1")).with("b", Json::text("2")).with(
        "a",
        Json::text("3"),
    );
    assert_eq!(o.get("a").and_then(|v| v.as_str()), Some("3"));
    assert_eq!(render(&Json::Object(o)), "{\"a\":\"3\",\"b\":\"2\"}");
}

#[test]
fn json_is_read_and_written() {
    let v = parse("{\"b\":[1,-2,0.5,true,null],\"a\":{\"c\":\"\\u00e9\"}}").unwrap();
    assert_eq!(render(&v), "{\"a\":{\"c\":\"é\"},\"b\":[1,-2,0.5,true,null]}");
    assert_eq!(v.get_in("a", "c").and_then(|c| c.as_str()), Some("é"));
    assert_eq!(v.array_at("b").map(|b| b.len()), Some(5));
    assert_eq!(v.get("b").and_then(|b| b.item(0)).and_then(|n| n.as_u64()), Some(1));
    assert_eq!(v.get("b").and_then(|b| b.item(1)).and_then(|n| n.as_i64()), Some(-2));
    assert_eq!(v.get("b").and_then(|b| b.item(2)).and_then(|n| n.as_u64()), None);
    assert!(parse("{").is_none());
    assert!(parse_bytes(b"[1]").is_some());
    assert!(parse_bytes(b"\xff").is_none());
}

#[test]
fn later_field_replaces_the_earlier_one() {
    let o = Object::new().with("k", Json::number(1)).with("k", Json::text("two"));
    assert_eq!(render(&Json::Object(o)), "{\"k\":\"two\"}");
}

// ── Bytes ───────────────────────────────────────────────────────────────────

#[test]
fn bytes_are_found_and_copied() {
    assert_eq!(find_byte(b"abc", 99), Some(2));
    assert_eq!(find_byte(b"abc", 10), None);
    assert_eq!(find_bytes(b"a\r\n\r\nb", b"\r\n\r\n"), Some(1));
    assert_eq!(find_bytes(b"a\r\n", b"\r\n\r\n"), None);
    assert_eq!(copy_range(b"abcd", 1, 3), b"bc");
}

// ── Identifiers ─────────────────────────────────────────────────────────────

#[test]
fn fresh_ids_are_hexadecimal_and_distinct() {
    let id = fresh_id();
    assert_eq!(id.len(), 32);
    assert!(id.chars().all(|c| c.is_ascii_hexdigit()));
    let ids = fresh_ids(3);
    assert_eq!(ids.len(), 3);
    assert!(ids[0] != ids[1] && ids[1] != ids[2]);
}

// ── Maps ────────────────────────────────────────────────────────────────────

#[test]
fn map_keeps_one_value_for_a_key() {
    let mut m: StrMap<u64> = StrMap::new();
    m.insert("a", 1);
    m.insert("b", 2);
    m.insert("a", 3);
    assert_eq!(m.len(), 2);
    assert_eq!(m.get("a"), Some(&3));
    assert_eq!(m.remove("a"), Some(3));
    assert_eq!(m.remove("a"), None);
    assert!(!m.contains("a"));
    m.remove_all(&strings(vec!["b", "c"]));
    assert_eq!(m.len(), 0);
}

// ── Messages one to a line ──────────────────────────────────────────────────

#[test]
fn lines_are_read_back_however_they_are_cut() {
    let sent = format!("{}\n  \n{}", ndjson_line("{\"a\":1}"), ndjson_line("{\"b\":\"é\"}"));
    for size in 1..sent.len() + 1 {
        let mut r = NdjsonReader::new(b"");
        let mut seen: Vec<String> = Vec::new();
        for piece in sent.as_bytes().chunks(size) {
            r.push(piece);
            loop {
                match r.next() {
                    Next::Message(m) => seen.push(m),
                    Next::More => break,
                    Next::Garbled => panic!("all of it is UTF-8"),
                }
            }
        }
        assert_eq!(seen, strings(vec!["{\"a\":1}", "{\"b\":\"é\"}"]));
    }
}

#[test]
fn garbled_line_is_reported_and_the_next_one_read() {
    let mut r = NdjsonReader::new(b"\xff\n{}\n");
    assert!(matches!(r.next(), Next::Garbled));
    match r.next() {
        Next::Message(m) => assert_eq!(m, "{}"),
        _ => panic!("a message is there"),
    }
    assert!(matches!(r.next(), Next::More));
}

#[test]
fn writer_keeps_what_it_writes_to() {
    let w: NdjsonWriter<Vec<u8>> = NdjsonWriter::new(vec![1]);
    assert_eq!(w.writer, vec![1]);
}
