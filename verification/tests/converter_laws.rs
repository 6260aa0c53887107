use ai_provider_proxy::converter::anthropic_events::render_all;
use ai_provider_proxy::converter::builders::{chat_completion_chunk, done, sse_event, usage_chunk};
use ai_provider_proxy::converter::finish_reason::{
    anthropic_stop_reason_to_openai_finish_reason, openai_finish_reason_to_anthropic_stop_reason,
};
use ai_provider_proxy::converter::responses::{
    anthropic_response_with_ids, translate_anthropic_to_openai_response,
};
use ai_provider_proxy::converter::sse::SseParser;
use ai_provider_proxy::converter::to_anthropic::{
    accumulate_chat_response, chat_response_from_value, parse_tool_arguments, read_json_body,
    translate_chat_stream, AnthropicStream,
};
use ai_provider_proxy::converter::to_anthropic_request::{
    image_from_url, translate_openai_to_anthropic_request,
};
use ai_provider_proxy::converter::to_openai::{
    translate_anthropic_to_openai_stream, AnthropicStreamReducer, OpenAiStream,
};
use ai_provider_proxy::converter::translate::{
    block_to_chat_image, chat_response_format, content_to_text, is_hosted_web_search_tool,
    tool_result_output,
    translate_anthropic_to_openai_request, translate_anthropic_to_openai_request_ex,
    translate_chat_tool_choice,
};
use ai_provider_proxy::converter::types::{
    AnthropicContentBlock, AnthropicMessage, AnthropicRequest, AnthropicResponse, AnthropicTool,
    AnthropicUsage, ChatCompletionsChoice, ChatCompletionsMessage, ChatCompletionsRequest,
    ChatCompletionsResponse, ConverterError,
};
use ai_provider_proxy::json::{parse, render, Json, Object};

fn json(text: &str) -> Json {
    parse(text).unwrap()
}

fn object(text: &str) -> Object {
    match json(text) {
        Json::Object(o) => o,
        _ => panic!("no object"),
    }
}

fn anthropic(messages: Vec<(&str, &str)>) -> AnthropicRequest {
    AnthropicRequest {
        model: "m".to_string(),
        max_tokens: None,
        temperature: None,
        top_p: None,
        stream: None,
        system: None,
        messages: messages
            .into_iter()
            .map(|(role, content)| AnthropicMessage {
                role: role.to_string(),
                content: json(content),
                extra: Object::new(),
            })
            .collect(),
        tools: None,
        tool_choice: None,
        metadata: None,
        output_config: None,
        thinking: None,
        extra: Object::new(),
    }
}

fn chat(messages: Vec<&str>) -> ChatCompletionsRequest {
    ChatCompletionsRequest {
        model: "m".to_string(),
        messages: messages.into_iter().map(|m| json(m)).collect(),
        stream: false,
        tools: None,
        tool_choice: None,
        parallel_tool_calls: None,
        max_tokens: None,
        temperature: None,
        top_p: None,
        response_format: None,
        stop: None,
        extra: Object::new(),
    }
}

// ── Reasons ─────────────────────────────────────────────────────────────────

#[test]
fn reasons_survive_a_round_trip() {
    for r in ["stop", "length", "tool_calls"] {
        let there = openai_finish_reason_to_anthropic_stop_reason(r);
        assert_eq!(anthropic_stop_reason_to_openai_finish_reason(&there), r);
    }
    for r in ["end_turn", "max_tokens", "tool_use"] {
        let there = anthropic_stop_reason_to_openai_finish_reason(r);
        assert_eq!(openai_finish_reason_to_anthropic_stop_reason(&there), r);
    }
}

// ── Frames ──────────────────────────────────────────────────────────────────

#[test]
fn frames_are_the_same_however_they_are_cut() {
    let text = "data: a\r\n\r\nevent: x\ndata: \u{20ac}\n\n: comment\n\nrest";
    let mut whole: Vec<String> = Vec::new();
    let mut p = SseParser::new();
    whole.extend(p.push(text.as_bytes()));
    whole.extend(p.finish());
    for size in [1, 2, 3, 5, 7] {
        let mut seen: Vec<String> = Vec::new();
        let mut p = SseParser::new();
        let chars: Vec<char> = text.chars().collect();
        for piece in chars.chunks(size) {
            let s: String = piece.iter().collect();
            seen.extend(p.push(s.as_bytes()));
        }
        seen.extend(p.finish());
        assert_eq!(seen, whole);
    }
    assert_eq!(whole.last(), Some(&"rest".to_string()));
}

#[test]
fn frames_are_built() {
    assert_eq!(sse_event(&json("{\"a\":1}")), "data: {\"a\":1}\n\n");
    assert_eq!(done(), "data: [DONE]\n\n");
    assert_eq!(
        chat_completion_chunk("i", "m", &json("{}"), &Some("stop".to_string()), 5),
        "data: {\"choices\":[{\"delta\":{},\"finish_reason\":\"stop\",\"index\":0}],\"created\":5,\"id\":\"i\",\"model\":\"m\",\"object\":\"chat.completion.chunk\"}\n\n"
    );
    assert!(usage_chunk("i", "m", 2, 3, 5).contains("\"total_tokens\":5"));
}

// ── Anthropic stream to OpenAI stream ───────────────────────────────────────

fn shown(parts: &Vec<Vec<u8>>) -> String {
    let frames = translate_anthropic_to_openai_stream(parts, "m");
    frames.iter().map(|f| f.render(0)).collect()
}

#[test]
fn stream_has_one_done_whatever_comes() {
    let stop = "event: message_stop\ndata: {\"type\":\"message_stop\"}\n\n".as_bytes().to_vec();
    for parts in [vec![], vec![stop.clone()], vec![stop.clone(), stop.clone()], vec![b"junk".to_vec()]] {
        let out = shown(&parts);
        assert_eq!(out.matches("data: [DONE]").count(), 1);
        assert_eq!(out.matches("\"finish_reason\":\"stop\"").count(), 1);
    }
}

#[test]
fn finalize_says_nothing_twice() {
    let mut r = AnthropicStreamReducer::new("m");
    assert!(r.finalize().len() > 0);
    assert_eq!(r.finalize().len(), 0);
}

#[test]
fn tool_indices_count_from_zero() {
    let mut r = AnthropicStreamReducer::new("m");
    assert_eq!(r.openai_tool_index(4), 0);
    assert_eq!(r.openai_tool_index(9), 1);
    assert_eq!(r.openai_tool_index(4), 0);
}

#[test]
fn openai_frames_come_as_the_bytes_do() {
    let text = "event: message_start\ndata: {\"type\":\"message_start\",\"message\":{\"id\":\"i\"}}\n\n\
                event: content_block_delta\ndata: {\"type\":\"content_block_delta\",\"index\":0,\"delta\":{\"type\":\"text_delta\",\"text\":\"hi\"}}\n\n";
    let whole = shown(&vec![text.as_bytes().to_vec()]);
    let mut s = OpenAiStream::new("m");
    let mut out = String::new();
    for piece in text.as_bytes().chunks(9) {
        for f in s.push(piece) {
            out.push_str(&f.render(0));
        }
    }
    for f in s.finish() {
        out.push_str(&f.render(0));
    }
    assert_eq!(out, whole);
    assert!(out.contains("\"content\":\"hi\""));
}

#[test]
fn errors_and_pings_are_forwarded() {
    let text = "event: ping\ndata: {\"type\":\"ping\"}\n\n\
                event: error\ndata: {\"type\":\"error\",\"error\":{\"type\":\"overloaded_error\",\"message\":\"busy\"}}\n\n\
                event: error\ndata: {\"type\":\"error\"}\n\n";
    let out = shown(&vec![text.as_bytes().to_vec()]);
    assert!(out.starts_with(": ping\n\n"));
    assert!(out.contains("data: {\"error\":{\"message\":\"busy\",\"type\":\"overloaded_error\"}}\n\n"));
    assert!(out.contains("data: {\"error\":{\"message\":\"upstream error\",\"type\":\"api_error\"}}\n\n"));
}

// ── OpenAI stream to Anthropic stream ───────────────────────────────────────

#[test]
fn anthropic_events_come_as_the_bytes_do() {
    let text = "data: {\"choices\":[{\"delta\":{\"content\":\"hi\"}}]}\n\n\
                data: {\"choices\":[{\"delta\":{},\"finish_reason\":\"length\"}],\"usage\":{\"prompt_tokens\":2,\"completion_tokens\":3}}\n\ndata: [DONE]\n\n";
    let mut s = AnthropicStream::new();
    let mut events = Vec::new();
    for piece in text.as_bytes().chunks(5) {
        events.extend(s.push(piece));
    }
    events.extend(s.finish());
    let out = render_all(&events);
    assert!(out.contains("\"text\":\"hi\""));
    assert!(out.contains("\"stop_reason\":\"max_tokens\""));
    assert!(out.contains("\"output_tokens\":3"));
    assert_eq!(out.matches("event: content_block_start\n").count(), 1);
    assert_eq!(out.matches("event: content_block_stop\n").count(), 1);
    let whole = render_all(&translate_chat_stream(&vec![text.as_bytes().to_vec()], "m"));
    assert!(whole.starts_with("event: message_start\n"));
    assert!(whole.ends_with(&out));
}

#[test]
fn null_counts_and_errors_do_no_harm() {
    let text = "data: {\"choices\":[],\"usage\":{\"prompt_tokens\":7,\"completion_tokens\":9}}\n\n\
                data: {\"choices\":[{\"delta\":{\"content\":\"a\"}}],\"usage\":null}\n\n\
                data: {\"error\":{\"message\":\"lost\"}}\n\n";
    let out = render_all(&translate_chat_stream(&vec![text.as_bytes().to_vec()], "m"));
    assert!(out.contains("\"input_tokens\":7"));
    assert!(out.contains("\"output_tokens\":9"));
    assert!(out.contains("event: error\n"));
    assert!(out.contains("\"message\":\"lost\""));
    assert!(out.contains("\"stop_reason\":\"end_turn\""));
}

#[test]
fn whole_chat_answers_are_taken_in() {
    let body = b"{\"choices\":[{\"message\":{\"content\":\"hi\",\"tool_calls\":[{\"id\":\"c\",\"function\":{\"name\":\"f\",\"arguments\":\"{\\\"a\\\":1}\"}}]},\"finish_reason\":\"tool_calls\"}],\"usage\":{\"prompt_tokens\":1,\"completion_tokens\":2}}";
    let parts = vec![body[..20].to_vec(), body[20..].to_vec()];
    let r = match accumulate_chat_response(&parts, "m") {
        Ok(r) => r,
        Err(_) => panic!("an answer"),
    };
    assert_eq!(r.content.len(), 2);
    assert_eq!(r.content[1].input.as_ref().map(|v| render(v)), Some("{\"a\":1}".to_string()));
    assert_eq!(r.stop_reason, Some("tool_use".to_string()));
    assert!(read_json_body(&vec![b"junk".to_vec()]).is_err());
    assert!(chat_response_from_value(&json("{}"), "m").is_err());
    assert_eq!(render(&parse_tool_arguments("junk")), "{}");
}

// ── Requests ────────────────────────────────────────────────────────────────

#[test]
fn turns_alternate_after_translation() {
    let r = match translate_openai_to_anthropic_request(
        &chat(vec![
            "{\"role\":\"user\",\"content\":\"a\"}",
            "{\"role\":\"user\",\"content\":\"b\"}",
            "{\"role\":\"assistant\",\"content\":\"c\",\"tool_calls\":[{\"id\":\"x\",\"function\":{\"name\":\"f\",\"arguments\":\"{}\"}}]}",
            "{\"role\":\"tool\",\"tool_call_id\":\"x\",\"content\":\"1\"}",
            "{\"role\":\"tool\",\"tool_call_id\":\"y\",\"content\":\"2\"}",
        ]),
        "m",
    ) {
        Ok(r) => r,
        Err(_) => panic!("a request"),
    };
    let roles: Vec<String> = r.messages.iter().map(|m| m.role.clone()).collect();
    assert_eq!(roles, vec!["user", "assistant", "user"]);
    assert_eq!(r.messages[2].content.as_array().map(|a| a.len()), Some(2));
}

#[test]
fn images_go_both_ways() {
    assert_eq!(
        image_from_url("data:image/png;base64,AAAA").map(|v| render(&v)),
        Some("{\"source\":{\"data\":\"AAAA\",\"media_type\":\"image/png\",\"type\":\"base64\"},\"type\":\"image\"}".to_string())
    );
    assert_eq!(
        block_to_chat_image(&json(
            "{\"type\":\"image\",\"source\":{\"type\":\"base64\",\"media_type\":\"image/png\",\"data\":\"AAAA\"}}"
        ))
        .map(|v| render(&v)),
        Some("{\"image_url\":{\"url\":\"data:image/png;base64,AAAA\"},\"type\":\"image_url\"}".to_string())
    );
    assert!(block_to_chat_image(&json("{\"type\":\"image\"}")).is_none());
}

#[test]
fn images_in_results_read_alike() {
    let result = |data: &str| {
        tool_result_output(&json(&format!(
            "{{\"content\":[{{\"type\":\"text\",\"text\":\"a\"}},{{\"type\":\"image\",\"source\":{{\"data\":\"{}\"}}}},\"b\"]}}",
            data
        )))
    };
    assert_eq!(result("AAAA"), "a\n[image omitted]\nb");
    assert_eq!(result("AAAA"), result("BBBBBBBB"));
}

#[test]
fn stop_sequences_come_back() {
    let mut request = anthropic(vec![("user", "\"hi\"")]);
    request.extra = object("{\"stop_sequences\":[\"x\",\"y\"]}");
    let there = match translate_anthropic_to_openai_request(&request, "m") {
        Ok(r) => r,
        Err(_) => panic!("a request"),
    };
    assert_eq!(there.stop.as_ref().map(|v| render(v)), Some("[\"x\",\"y\"]".to_string()));
    let back = match translate_openai_to_anthropic_request(&there, "m") {
        Ok(r) => r,
        Err(_) => panic!("a request"),
    };
    assert_eq!(render(&Json::Object(back.extra)), "{\"stop_sequences\":[\"x\",\"y\"]}");
}

#[test]
fn instructions_become_the_system_text() {
    let r = match translate_openai_to_anthropic_request(
        &chat(vec![
            "{\"role\":\"system\",\"content\":\"be brief\"}",
            "{\"role\":\"user\",\"content\":\"hi\"}",
            "{\"role\":\"developer\",\"content\":\"be kind\"}",
        ]),
        "m",
    ) {
        Ok(r) => r,
        Err(_) => panic!("a request"),
    };
    assert_eq!(r.system.as_ref().and_then(|v| v.as_str()), Some("be brief\nbe kind"));
    assert_eq!(r.messages.len(), 1);
}

#[test]
fn hosted_search_is_set_aside() {
    let tool = |name: &str, extra: &str| AnthropicTool {
        name: name.to_string(),
        description: None,
        input_schema: None,
        extra: object(extra),
    };
    assert!(is_hosted_web_search_tool(&tool("web_search", "{\"type\":\"web_search_20250305\"}")));
    assert!(!is_hosted_web_search_tool(&tool("read", "{}")));
    let mut r = anthropic(vec![("user", "\"hi\"")]);
    r.tools = Some(vec![tool("web_search", "{\"type\":\"web_search_20250305\"}"), tool("read", "{}")]);
    let t = match translate_anthropic_to_openai_request_ex(&r, "up") {
        Ok(t) => t,
        Err(_) => panic!("a request"),
    };
    assert_eq!(t.hosted_tools.len(), 1);
    assert_eq!(t.request.tools.map(|x| x.len()), Some(1));
    assert_eq!(t.request.model, "up");
}

#[test]
fn choices_and_formats_are_translated() {
    assert_eq!(render(&translate_chat_tool_choice(&json("{\"type\":\"any\"}"))), "\"required\"");
    assert_eq!(
        render(&translate_chat_tool_choice(&json("{\"type\":\"tool\",\"name\":\"f\"}"))),
        "{\"function\":{\"name\":\"f\"},\"type\":\"function\"}"
    );
    assert!(chat_response_format(&anthropic(vec![])).is_none());
    assert_eq!(content_to_text(&json("[{\"type\":\"text\",\"text\":\"a\"},\"b\"]")), "a\nb");
}

#[test]
fn unknown_roles_are_refused() {
    match translate_anthropic_to_openai_request(&anthropic(vec![("narrator", "\"hi\"")]), "m") {
        Err(e) => {
            assert!(matches!(e, ConverterError::InvalidRequest(_)));
            assert!(e.message().starts_with("Invalid request: "));
            assert!(e.message().contains("narrator"));
        }
        Ok(_) => panic!("there is no such role"),
    }
}

#[test]
fn answers_without_a_choice_are_refused() {
    match chat_response_from_value(&json("{\"choices\":[]}"), "m") {
        Err(e) => assert_eq!(
            e.message(),
            "Invalid request: custom OpenAI chat response had no choices"
        ),
        Ok(_) => panic!("there is no choice"),
    }
    match chat_response_from_value(&json("{\"choices\":[{}]}"), "m") {
        Err(e) => assert_eq!(
            e.message(),
            "Invalid request: custom OpenAI chat response had no message"
        ),
        Ok(_) => panic!("there is no message"),
    }
    match read_json_body(&vec![b"junk".to_vec()]) {
        Err(e) => {
            assert!(matches!(e, ConverterError::Serialization(_)));
            assert_eq!(
                e.message(),
                "Serialization error: expected value at line 1 column 1"
            );
        }
        Ok(_) => panic!("there is no JSON"),
    }
    assert_eq!(
        ConverterError::UnsupportedFeature("x".to_string()).message(),
        "Unsupported feature: x"
    );
}

// ── Answers ─────────────────────────────────────────────────────────────────

fn answer(content: Option<&str>, calls: Option<Vec<Json>>) -> ChatCompletionsResponse {
    ChatCompletionsResponse {
        id: "i".to_string(),
        object: "chat.completion".to_string(),
        created: 1,
        model: "m".to_string(),
        choices: vec![ChatCompletionsChoice {
            index: 0,
            message: ChatCompletionsMessage {
                role: "assistant".to_string(),
                content: content.map(|c| c.to_string()),
                tool_calls: calls,
            },
            finish_reason: Some("stop".to_string()),
        }],
        usage: None,
    }
}

#[test]
fn calls_without_an_id_get_a_fresh_one() {
    let r = anthropic_response_with_ids(
        &answer(None, Some(vec![json("{\"function\":{\"name\":\"f\",\"arguments\":\"junk\"}}")])),
        &vec!["0123456789abcdef0123456789abcdef".to_string()],
    );
    let b = r.content.last().unwrap();
    assert_eq!(b.kind, "tool_use");
    assert!(b.id.as_ref().map(|i| i.contains("0123456789abcdef")) == Some(true));
    assert_eq!(b.input.as_ref().map(|v| render(v)), Some("{}".to_string()));
}

#[test]
fn anthropic_answers_become_chat_answers() {
    let r = translate_anthropic_to_openai_response(
        &AnthropicResponse {
            id: "i".to_string(),
            kind: "message".to_string(),
            role: "assistant".to_string(),
            model: "m".to_string(),
            content: vec![
                AnthropicContentBlock::of_text("hi"),
                AnthropicContentBlock::of_tool("c".to_string(), "f".to_string(), json("{\"a\":1}")),
            ],
            stop_reason: Some("tool_use".to_string()),
            stop_sequence: None,
            usage: AnthropicUsage {
                input_tokens: 2,
                output_tokens: 3,
                cache_creation_input_tokens: 0,
                cache_read_input_tokens: 0,
            },
        },
        7,
    );
    assert_eq!(r.created, 7);
    assert_eq!(r.choices[0].message.content, Some("hi".to_string()));
    assert_eq!(r.choices[0].finish_reason, Some("tool_calls".to_string()));
    assert_eq!(r.usage.map(|u| u.total_tokens), Some(5));
}
