use ai_provider_proxy::brain::anthropic_blocking::AnthropicAnswer;
use ai_provider_proxy::brain::anthropic_stream::AnthropicTurn;
use ai_provider_proxy::brain::chat_blocking::{models_response, ChatAnswer};
use ai_provider_proxy::brain::chat_stream::{done_text, timeout_text, ChatTurn};
use ai_provider_proxy::brain::holdback::hold_back;
use ai_provider_proxy::brain::metrics::Metrics;
use ai_provider_proxy::brain::protocol::{DoneMessage, FinishReason, ToolCall};
use ai_provider_proxy::brain::tool_calls::{
    accumulate_delta, accumulate_value, extract_delta_content, parse_tool_calls_from_response,
    parse_tool_calls_from_text, tagged_text, ToolStreamEvent,
};
use ai_provider_proxy::brain::turn::{Turn, TurnKind, TurnStep};
use ai_provider_proxy::converter::anthropic_events::{render_all, AnthropicEvent};
use ai_provider_proxy::json::{parse, render, Json};
use ai_provider_proxy::strmap::StrMap;

fn json(text: &str) -> Json {
    parse(text).unwrap()
}

fn done(reason: FinishReason) -> DoneMessage {
    DoneMessage {
        request_id: "r1".to_string(),
        finish_reason: reason,
        prompt_tokens: 7,
        comp_tokens: 3,
    }
}

fn said(content: &str) -> String {
    format!("data: {{\"choices\":[{{\"delta\":{{\"content\":\"{}\"}}}}]}}", content)
}

fn called(index: &str, name: &str, arguments: &str) -> String {
    let named = if name.is_empty() { String::new() } else { format!("\"name\":\"{}\",", name) };
    format!(
        "data: {{\"choices\":[{{\"delta\":{{\"tool_calls\":[{{{}\"function\":{{{}\"arguments\":\"{}\"}}}}]}}}}]}}",
        index, named, arguments
    )
}

// ── Gathering ───────────────────────────────────────────────────────────────

struct Pot {
    text: String,
    calls: Vec<ToolCall>,
    current: Option<ToolCall>,
    index: Option<u64>,
}

fn empty_pot() -> Pot {
    Pot { text: String::new(), calls: Vec::new(), current: None, index: None }
}

fn feed(p: &mut Pot, line: &str) -> (Option<String>, Vec<ToolStreamEvent>) {
    accumulate_delta(line, &mut p.text, &mut p.calls, &mut p.current, &mut p.index)
}

#[test]
fn text_and_calls_are_gathered_from_deltas() {
    let mut p = empty_pot();
    let (t, e) = feed(&mut p, &said("hi"));
    assert_eq!(t, Some("hi".to_string()));
    assert_eq!(e.len(), 0);
    let (t, e) = feed(&mut p, &called("\"index\":0,\"id\":\"c1\",", "read", ""));
    assert_eq!(t, None);
    match &e[0] {
        ToolStreamEvent::Started { id, name } => {
            assert!(id.starts_with("toolu_"));
            assert_eq!((id.len(), name.as_str()), (14, "read"));
        }
        _ => panic!("a call has begun"),
    }
    feed(&mut p, &called("\"index\":0,", "", "{}"));
    feed(&mut p, &called("\"index\":1,\"id\":\"c2\",", "write", "[]"));
    assert_eq!(p.text, "hi");
    assert_eq!(p.calls.len(), 1);
    assert_eq!(p.calls[0].function.arguments, "{}");
    let current = p.current.unwrap();
    assert_eq!(
        (current.function.name.as_str(), current.function.arguments.as_str()),
        ("write", "[]")
    );
}

#[test]
fn calls_without_an_index_are_told_apart_by_their_arguments() {
    let mut p = empty_pot();
    feed(&mut p, &called("", "read", "{}"));
    feed(&mut p, &called("", "write", "[]"));
    assert_eq!(p.calls.len(), 1);
    assert_eq!(p.calls[0].function.name, "read");
    assert!(p.calls[0].id.starts_with("toolu_"));
    assert_eq!(p.current.unwrap().function.name, "write");
}

#[test]
fn fresh_id_is_used_where_the_worker_gives_none() {
    let mut p = empty_pot();
    let fresh = vec!["0123456789abcdef0123456789abcdef".to_string()];
    accumulate_value(
        &json("{\"choices\":[{\"delta\":{\"tool_calls\":[{\"function\":{\"name\":\"f\"}}]}}]}"),
        &fresh,
        &mut p.text,
        &mut p.calls,
        &mut p.current,
        &mut p.index,
    );
    assert_eq!(p.current.unwrap().id, "toolu_01234567");
}

#[test]
fn lines_without_an_event_are_skipped() {
    let mut p = empty_pot();
    for line in ["data: [DONE]", "", "data: ", "data: no json", "data: {\"choices\":[]}"] {
        let (t, e) = feed(&mut p, line);
        assert_eq!(t, None);
        assert_eq!(e.len(), 0);
    }
    assert_eq!(p.text, "");
}

#[test]
fn tagged_calls_are_found_in_text() {
    assert_eq!(
        tagged_text("a<tool_call>{\"name\":\"f\"}</tool_call>b"),
        Some("{\"name\":\"f\"}".to_string())
    );
    assert_eq!(tagged_text("</tool_call><tool_call>"), None);
    let calls = parse_tool_calls_from_text(
        "<tool_call>{\"name\":\"f\",\"arguments\":{\"a\":1}}</tool_call>",
    )
    .unwrap();
    assert_eq!(calls.len(), 1);
    assert_eq!(calls[0].function.name, "f");
    assert_eq!(calls[0].function.arguments, "{\"a\":1}");
    assert!(calls[0].id.starts_with("toolu_"));
    assert!(parse_tool_calls_from_text("plain").is_none());
}

#[test]
fn response_without_calls_is_its_text() {
    let (content, calls) = parse_tool_calls_from_response("plain");
    assert_eq!(content, Some("plain".to_string()));
    assert!(calls.is_none());
}

#[test]
fn content_of_a_delta_is_its_text() {
    assert_eq!(extract_delta_content(&said("x")), "x");
    assert_eq!(extract_delta_content("data: [DONE]"), "");
    assert_eq!(extract_delta_content("junk"), "");
}

// ── Holding back ────────────────────────────────────────────────────────────

#[test]
fn ten_bytes_are_held_back_and_no_character_is_cut() {
    assert_eq!(hold_back("0123456789"), (String::new(), "0123456789".to_string()));
    assert_eq!(hold_back("ab0123456789"), ("ab".to_string(), "0123456789".to_string()));
    assert_eq!(hold_back("aé012345678"), ("a".to_string(), "é012345678".to_string()));
    assert_eq!(hold_back("€012345678"), (String::new(), "€012345678".to_string()));
}

// ── Anthropic streams ───────────────────────────────────────────────────────

fn shown(events: &Vec<AnthropicEvent>) -> String {
    render_all(events)
}

#[test]
fn plain_turn_is_one_text_block() {
    let mut out = shown(&AnthropicTurn::open("r1", "m"));
    let mut t = AnthropicTurn::new();
    out.push_str(&shown(&t.on_chunk(&said("hello, world"))));
    out.push_str(&shown(&t.on_done(&done(FinishReason::Length))));
    assert!(out.starts_with("event: message_start\ndata: {"));
    assert!(out.contains("\"id\":\"msg_r1\""));
    assert!(out.contains("\"text\":\"he\""));
    assert!(out.contains("\"text\":\"llo, world\""));
    assert_eq!(out.matches("event: content_block_start\n").count(), 1);
    assert_eq!(out.matches("event: content_block_stop\n").count(), 1);
    assert!(out.contains("\"stop_reason\":\"max_tokens\""));
    assert!(out.contains("\"input_tokens\":7"));
    assert!(out.ends_with("event: message_stop\ndata: {\"type\":\"message_stop\"}\n\n"));
}

#[test]
fn streamed_calls_get_blocks_of_their_own() {
    let mut t = AnthropicTurn::new();
    let mut out = shown(&AnthropicTurn::open("r1", "m"));
    out.push_str(&shown(&t.on_chunk(&said("hi"))));
    out.push_str(&shown(&t.on_chunk(&called("\"index\":0,\"id\":\"c1\",", "read", "{}"))));
    out.push_str(&shown(&t.on_chunk(&called("\"index\":1,\"id\":\"c2\",", "write", "[]"))));
    out.push_str(&shown(&t.on_done(&done(FinishReason::Stop))));
    assert_eq!(out.matches("event: content_block_start\n").count(), 3);
    assert_eq!(out.matches("event: content_block_stop\n").count(), 3);
    assert!(out.contains("\"text\":\"hi\""));
    assert!(out.contains("\"name\":\"write\""));
    assert!(out.contains("\"partial_json\":\"[]\""));
    assert!(out.contains("\"stop_reason\":\"tool_use\""));
}

/// Whether each block starts while none is open, and only the open one is continued and stopped.
fn in_order(events: &Vec<AnthropicEvent>) -> bool {
    let mut open: Option<usize> = None;
    let mut next = 0;
    for e in events {
        match e {
            AnthropicEvent::BlockStart { index, .. } => {
                if open.is_some() || *index != next {
                    return false;
                }
                open = Some(*index);
                next += 1;
            }
            AnthropicEvent::BlockDelta { index, .. } => {
                if open != Some(*index) {
                    return false;
                }
            }
            AnthropicEvent::BlockStop { index } => {
                if open != Some(*index) {
                    return false;
                }
                open = None;
            }
            _ => {}
        }
    }
    open.is_none()
}

#[test]
fn text_before_calls_is_in_order() {
    let mut t = AnthropicTurn::new();
    let mut all = AnthropicTurn::open("r1", "m");
    all.extend(t.on_chunk(&said("let me look that up")));
    all.extend(t.on_chunk(&called("\"index\":0,\"id\":\"c1\",", "read", "{}")));
    all.extend(t.on_chunk(&called("\"index\":1,\"id\":\"c2\",", "write", "[]")));
    all.extend(t.on_done(&done(FinishReason::Stop)));
    assert!(in_order(&all));

    let mut t = AnthropicTurn::new();
    let mut all = AnthropicTurn::open("r1", "m");
    all.extend(t.on_chunk(&said("hi")));
    all.extend(t.on_chunk(&called("\"index\":0,\"id\":\"c1\",", "read", "{}")));
    all.extend(t.on_timeout());
    assert!(in_order(&all));
}

#[test]
fn text_after_a_call_goes_to_the_text_block() {
    let mut t = AnthropicTurn::new();
    let mut all = AnthropicTurn::open("r1", "m");
    all.extend(t.on_chunk(&called("\"index\":0,\"id\":\"c1\",", "read", "{}")));
    all.extend(t.on_chunk(&said("and that is all of it")));
    all.extend(t.on_done(&done(FinishReason::Stop)));
    assert!(!in_order(&all));
    let out = render_all(&all);
    assert_eq!(out.matches("event: content_block_start\n").count(), 2);
    assert_eq!(out.matches("event: content_block_stop\n").count(), 2);
}

#[test]
fn tag_in_the_text_is_never_shown() {
    let mut t = AnthropicTurn::new();
    let mut out = String::new();
    for piece in ["Sure. <tool", "_call>{\\\"name\\\":\\\"f\\\",\\\"argum", "ents\\\":{}}</tool_call>"] {
        out.push_str(&shown(&t.on_chunk(&said(piece))));
    }
    out.push_str(&shown(&t.on_done(&done(FinishReason::Stop))));
    assert!(!out.contains("<tool_call>"));
    assert!(out.contains("\"name\":\"f\""));
    assert!(out.contains("\"stop_reason\":\"tool_use\""));
    assert_eq!(out.matches("event: content_block_stop\n").count(), 2);
}

#[test]
fn silent_worker_ends_the_stream_in_order() {
    let mut t = AnthropicTurn::new();
    let _ = t.on_chunk(&said("par"));
    let out = shown(&t.on_timeout());
    assert!(out.contains("\"text\":\"par\""));
    assert_eq!(out.matches("event: content_block_stop\n").count(), 1);
    assert!(out.contains("\"stop_reason\":\"max_tokens\""));
    assert!(out.contains("event: message_stop\n"));
    let gone = shown(&AnthropicTurn::new().on_disconnect());
    assert_eq!(gone, "event: message_stop\ndata: {\"type\":\"message_stop\"}\n\n");
}

// ── Anthropic answers ───────────────────────────────────────────────────────

#[test]
fn waiting_client_gets_the_text() {
    let mut a = AnthropicAnswer::new();
    a.on_chunk(&said("hi"));
    let r = a.finish(&Some(done(FinishReason::Stop)), "r1", "m");
    assert_eq!(r.id, "msg_r1");
    assert_eq!(r.content.len(), 1);
    assert_eq!(r.content[0].text, Some("hi".to_string()));
    assert_eq!(r.stop_reason, Some("end_turn".to_string()));
    assert_eq!((r.usage.input_tokens, r.usage.output_tokens), (7, 3));
}

#[test]
fn waiting_client_gets_the_calls_instead() {
    let mut a = AnthropicAnswer::new();
    a.on_chunk(&said("hi"));
    a.on_chunk(&called("\"index\":0,\"id\":\"c1\",", "read", "{\\\"p\\\":1}"));
    let r = a.finish(&Some(done(FinishReason::Stop)), "r1", "m");
    assert_eq!(r.content.len(), 1);
    assert_eq!(r.content[0].kind, "tool_use");
    assert_eq!(r.content[0].input.as_ref().map(|v| render(v)), Some("{\"p\":1}".to_string()));
    assert_eq!(r.stop_reason, Some("tool_use".to_string()));
}

#[test]
fn unfinished_call_of_a_lost_worker_does_not_count() {
    let mut a = AnthropicAnswer::new();
    a.on_chunk(&said("hi"));
    a.on_chunk(&called("\"index\":0,\"id\":\"c1\",", "read", "{}"));
    let r = a.finish(&None, "r1", "m");
    assert_eq!(r.content[0].kind, "text");
    assert_eq!(r.usage.input_tokens, 0);
}

// ── Chat streams ────────────────────────────────────────────────────────────

#[test]
fn chat_lines_pass_through_unless_a_call_lacks_an_id() {
    let mut t = ChatTurn::new();
    assert_eq!(t.on_chunk(&said("x")), format!("{}\n\n", said("x")));
    assert_eq!(t.on_chunk("data: junk"), "data: junk\n\n");
    let out = t.on_chunk(&called("\"index\":0,", "read", ""));
    assert!(out.contains("\"id\":\"call_"));
    assert!(out.contains("\"type\":\"function\""));
    let more = called("\"index\":0,", "", "{}");
    assert_eq!(t.on_chunk(&more), format!("{}\n\n", more));
}

#[test]
fn chat_stream_ends_with_a_reason_and_done() {
    assert_eq!(
        done_text("r1", "m", &done(FinishReason::Error)),
        "data: {\"choices\":[{\"delta\":{},\"finish_reason\":\"stop\",\"index\":0}],\
         \"id\":\"chatcmpl-r1\",\"model\":\"m\",\"object\":\"chat.completion.chunk\"}\n\ndata: [DONE]\n\n"
    );
    assert_eq!(
        timeout_text("r1", "m"),
        "data: {\"choices\":[{\"delta\":{},\"finish_reason\":\"length\",\"index\":0}],\
         \"error\":\"worker_idle_timeout\",\"id\":\"chatcmpl-r1\",\"model\":\"m\",\
         \"object\":\"chat.completion.chunk\"}\n\ndata: [DONE]\n\n"
    );
}

// ── Chat answers ────────────────────────────────────────────────────────────

#[test]
fn chat_answer_is_an_envelope() {
    let mut a = ChatAnswer::new();
    a.on_chunk(&said("he"));
    a.on_chunk(&said("llo"));
    let r = a.finish(&Some(done(FinishReason::Length)), "r1", "m", 99);
    assert_eq!(r.id, "chatcmpl-r1");
    assert_eq!(r.object, "chat.completion");
    assert_eq!(r.created, 99);
    assert_eq!(r.choices.len(), 1);
    assert_eq!(r.choices[0].message.content, Some("hello".to_string()));
    assert!(r.choices[0].message.tool_calls.is_none());
    assert_eq!(r.choices[0].finish_reason, "length");
    assert_eq!((r.usage.prompt_tokens, r.usage.completion_tokens, r.usage.total_tokens), (7, 3, 10));
}

#[test]
fn chat_answer_with_calls_says_so() {
    let mut a = ChatAnswer::new();
    a.on_chunk(&called("\"index\":0,\"id\":\"c1\",", "read", "{"));
    a.on_chunk(&called("\"index\":0,", "", "}"));
    a.on_chunk(&called("\"index\":1,", "write", "[]"));
    let r = a.finish(&Some(done(FinishReason::Stop)), "r1", "m", 0);
    let calls = r.choices[0].message.tool_calls.as_ref().unwrap();
    assert_eq!(calls.len(), 2);
    assert_eq!(calls[0].function.arguments, "{}");
    assert!(calls[0].id.starts_with("call_"));
    assert_eq!(r.choices[0].finish_reason, "tool_calls");
}

#[test]
fn models_are_listed_with_their_owner() {
    let r = models_response(&vec!["a".to_string()], 5);
    assert_eq!(r.object, "list");
    assert_eq!(r.data[0].id, "a");
    assert_eq!((r.data[0].object.as_str(), r.data[0].owned_by.as_str()), ("model", "brain"));
    assert_eq!(r.data[0].created, 5);
}

// ── Waiting ─────────────────────────────────────────────────────────────────

#[test]
fn turn_times_out_pings_and_finishes() {
    let t = Turn::new(TurnKind::ChatStream, 0, 1000);
    assert!(t.step(true, 0, 1000) == TurnStep::Finish);
    assert!(t.step(false, 120, 1500) == TurnStep::Wait);
    assert!(t.step(false, 120, 16000) == TurnStep::Ping);
    assert!(t.step(false, 120, 121000) == TurnStep::TimeOut);
    let mut t = t;
    t.pinged(16000);
    assert!(t.step(false, 120, 17000) == TurnStep::Wait);
    let b = Turn::new(TurnKind::ChatBlocking, 0, 1000);
    assert!(b.step(false, 120, 16000) == TurnStep::Wait);
}

fn rendered(m: &Metrics) -> String {
    m.render_prometheus(&StrMap::new(), &StrMap::new())
}

#[test]
fn first_token_is_counted_for_a_client_that_follows() {
    let mut m = Metrics::new();
    let mut t = Turn::new(TurnKind::AnthropicStream, 0, 0);
    t.on_chunk(true, "m", &mut m, 60);
    t.on_chunk(true, "m", &mut m, 70);
    t.on_done(true, "m", &done(FinishReason::Stop), 1500, &mut m, 80);
    let out = rendered(&m);
    assert!(out.contains("brain_ttft_ms_bucket{worker=\"brain\",model=\"m\",le=\"100\"} 1\n"));
    assert!(!out.contains("le=\"50\""));
    assert!(out.contains("brain_prompt_tokens_total{worker=\"brain\",model=\"m\"} 7\n"));
    assert!(out.contains("brain_completion_tokens_total{worker=\"brain\",model=\"m\"} 3\n"));
}

#[test]
fn timeout_of_a_chat_is_counted_as_a_failure() {
    let mut m = Metrics::new();
    let t = Turn::new(TurnKind::ChatBlocking, 0, 0);
    t.on_timeout(true, "m", &mut m, 5);
    assert!(rendered(&m)
        .contains("brain_requests_total{worker=\"brain\",model=\"m\",status=\"504\"} 1\n"));
    let mut quiet = Metrics::new();
    t.on_timeout(false, "m", &mut quiet, 5);
    assert!(!rendered(&quiet).contains("504"));
}
