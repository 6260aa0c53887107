use ai_provider_proxy::converter::anthropic_events::render_all;
use ai_provider_proxy::converter::finish_reason::{
    anthropic_stop_reason_to_openai_finish_reason, openai_finish_reason_to_anthropic_stop_reason,
};
use ai_provider_proxy::converter::responses::{
    response_json, translate_anthropic_to_openai_response, translate_openai_to_anthropic_response,
};
use ai_provider_proxy::converter::to_anthropic::translate_chat_stream;
use ai_provider_proxy::converter::to_anthropic_request::translate_openai_to_anthropic_request;
use ai_provider_proxy::converter::to_openai::translate_anthropic_to_openai_stream;
use ai_provider_proxy::converter::translate::translate_anthropic_to_openai_request;
use ai_provider_proxy::converter::types::{
    AnthropicMessage, AnthropicRequest, ChatCompletionsChoice, ChatCompletionsMessage,
    ChatCompletionsRequest, ChatCompletionsResponse,
};
use ai_provider_proxy::json::{parse, render, Json, Object};

fn json(text: &str) -> Json {
    parse(text).unwrap()
}

fn same(a: &Json, text: &str) -> bool {
    render(a) == render(&json(text))
}

fn chunks(parts: Vec<&str>) -> Vec<Vec<u8>> {
    parts.into_iter().map(|p| p.as_bytes().to_vec()).collect()
}

fn to_openai(parts: Vec<&str>) -> String {
    let frames = translate_anthropic_to_openai_stream(&chunks(parts), "test-model");
    frames.iter().map(|f| f.render(0)).collect()
}

fn to_anthropic(parts: Vec<&str>) -> String {
    render_all(&translate_chat_stream(&chunks(parts), "test-model"))
}

// ── Reasons ─────────────────────────────────────────────────────────────────

#[test]
fn maps_known_openai_reasons() {
    assert_eq!(openai_finish_reason_to_anthropic_stop_reason("stop"), "end_turn");
    assert_eq!(openai_finish_reason_to_anthropic_stop_reason("length"), "max_tokens");
    assert_eq!(openai_finish_reason_to_anthropic_stop_reason("tool_calls"), "tool_use");
    assert_eq!(openai_finish_reason_to_anthropic_stop_reason("function_call"), "tool_use");
    assert_eq!(openai_finish_reason_to_anthropic_stop_reason("content_filter"), "end_turn");
}

#[test]
fn maps_known_anthropic_reasons() {
    assert_eq!(anthropic_stop_reason_to_openai_finish_reason("end_turn"), "stop");
    assert_eq!(anthropic_stop_reason_to_openai_finish_reason("max_tokens"), "length");
    assert_eq!(anthropic_stop_reason_to_openai_finish_reason("tool_use"), "tool_calls");
    assert_eq!(anthropic_stop_reason_to_openai_finish_reason("stop_sequence"), "stop");
}

#[test]
fn passes_through_unrecognized_values() {
    assert_eq!(openai_finish_reason_to_anthropic_stop_reason("weird"), "weird");
    assert_eq!(anthropic_stop_reason_to_openai_finish_reason("weird"), "weird");
}

// ── Anthropic stream to OpenAI stream ───────────────────────────────────────

#[test]
fn tool_call_indices_are_remapped_to_start_at_zero() {
    let out = to_openai(vec![
        "event: message_start\ndata: {\"type\":\"message_start\",\"message\":{\"id\":\"msg_1\",\"usage\":{\"input_tokens\":10,\"output_tokens\":0}}}\n\n",
        "event: content_block_start\ndata: {\"type\":\"content_block_start\",\"index\":0,\"content_block\":{\"type\":\"text\",\"text\":\"\"}}\n\n",
        "event: content_block_delta\ndata: {\"type\":\"content_block_delta\",\"index\":0,\"delta\":{\"type\":\"text_delta\",\"text\":\"hi\"}}\n\n",
        "event: content_block_start\ndata: {\"type\":\"content_block_start\",\"index\":1,\"content_block\":{\"type\":\"tool_use\",\"id\":\"toolu_1\",\"name\":\"read\"}}\n\n",
        "event: content_block_delta\ndata: {\"type\":\"content_block_delta\",\"index\":1,\"delta\":{\"type\":\"input_json_delta\",\"partial_json\":\"{}\"}}\n\n",
        "event: message_delta\ndata: {\"type\":\"message_delta\",\"delta\":{\"stop_reason\":\"tool_use\"},\"usage\":{\"output_tokens\":5}}\n\n",
        "event: message_stop\ndata: {\"type\":\"message_stop\"}\n\n",
    ]);
    assert!(out.contains("\"id\":\"toolu_1\",\"index\":0"), "tool index must be remapped to 0: {}", out);
    assert!(!out.contains("\"id\":\"toolu_1\",\"index\":1"));
    assert!(out.contains("\"finish_reason\":\"tool_calls\""));
    assert!(out.contains("data: [DONE]"));
}

#[test]
fn stop_sequence_maps_to_stop_not_content_filter() {
    let out = to_openai(vec![
        "event: message_start\ndata: {\"type\":\"message_start\",\"message\":{\"id\":\"msg_1\"}}\n\n",
        "event: message_delta\ndata: {\"type\":\"message_delta\",\"delta\":{\"stop_reason\":\"stop_sequence\"},\"usage\":{\"output_tokens\":1}}\n\n",
        "event: message_stop\ndata: {\"type\":\"message_stop\"}\n\n",
    ]);
    assert!(out.contains("\"finish_reason\":\"stop\""));
    assert!(!out.contains("content_filter"));
}

#[test]
fn truncated_stream_still_emits_done() {
    let out = to_openai(vec![
        "event: message_start\ndata: {\"type\":\"message_start\",\"message\":{\"id\":\"msg_1\"}}\n\n",
        "event: content_block_start\ndata: {\"type\":\"content_block_start\",\"index\":0,\"content_block\":{\"type\":\"text\",\"text\":\"\"}}\n\n",
    ]);
    assert!(out.contains("\"finish_reason\":\"stop\""));
    assert!(out.ends_with("data: [DONE]\n\n"));
}

// ── OpenAI stream to Anthropic stream ───────────────────────────────────────

#[test]
fn text_then_tool_call_produces_sequential_closed_blocks() {
    let out = to_anthropic(vec![
        "data: {\"choices\":[{\"index\":0,\"delta\":{\"role\":\"assistant\",\"content\":\"Let me check.\"}}]}\n\n",
        "data: {\"choices\":[{\"index\":0,\"delta\":{\"tool_calls\":[{\"index\":0,\"id\":\"call_1\",\"function\":{\"name\":\"read\",\"arguments\":\"\"}}]}}]}\n\n",
        "data: {\"choices\":[{\"index\":0,\"delta\":{\"tool_calls\":[{\"index\":0,\"function\":{\"arguments\":\"{\\\"p\\\":1}\"}}]}}]}\n\n",
        "data: {\"choices\":[{\"index\":0,\"delta\":{},\"finish_reason\":\"tool_calls\"}]}\n\n",
        "data: [DONE]\n\n",
    ]);
    let text_stop = out.find("event: content_block_stop\ndata: {\"index\":0").expect("text block stop");
    let tool_start = out.find("\"type\":\"tool_use\"").expect("tool block start");
    assert!(text_stop < tool_start, "text block must close before tool block opens");
    assert!(out.contains("\"partial_json\":\"{\\\"p\\\":1}\""));
    assert!(out.contains("\"stop_reason\":\"tool_use\""));
    assert!(out.contains("message_stop"));
}

#[test]
fn crlf_framing_and_missing_finish_reason_still_terminate_cleanly() {
    let out = to_anthropic(vec![
        "data: {\"choices\":[{\"index\":0,\"delta\":{\"content\":\"hi\"}}]}\r\n\r\n",
    ]);
    assert!(out.contains("\"text\":\"hi\""), "CRLF-framed event must still parse: {}", out);
    assert!(out.contains("\"stop_reason\":\"end_turn\""));
    assert!(out.contains("message_stop"));
}

#[test]
fn upstream_error_frame_becomes_anthropic_error_event() {
    let out = to_anthropic(vec![
        "data: {\"error\":{\"message\":\"model exploded\",\"type\":\"server_error\"}}\n\n",
    ]);
    assert!(out.contains("event: error"));
    assert!(out.contains("model exploded"));
}

// ── Requests ────────────────────────────────────────────────────────────────

fn anthropic_request(messages: Vec<AnthropicMessage>) -> AnthropicRequest {
    AnthropicRequest {
        model: "opus".into(),
        max_tokens: Some(1024),
        temperature: None,
        top_p: None,
        stream: Some(true),
        system: None,
        messages,
        tools: None,
        tool_choice: None,
        metadata: None,
        output_config: None,
        thinking: None,
        extra: Object::new(),
    }
}

fn message(role: &str, content: Json) -> AnthropicMessage {
    AnthropicMessage { role: role.into(), content, extra: Object::new() }
}

fn chat_request(messages: Vec<Json>) -> ChatCompletionsRequest {
    ChatCompletionsRequest {
        model: "m".into(),
        messages,
        stream: false,
        tools: None,
        tool_choice: None,
        parallel_tool_calls: None,
        max_tokens: None,
        temperature: None,
        top_p: None,
        response_format: None,
        stop: None,
        extra: Object::new(),
    }
}

#[test]
fn thinking_blocks_never_reach_the_openai_prompt() {
    let request = anthropic_request(vec![message(
        "assistant",
        json("[{\"type\":\"thinking\",\"thinking\":\"secret chain of thought\",\"signature\":\"sig\"},{\"type\":\"text\",\"text\":\"visible answer\"}]"),
    )]);
    let translated = translate_anthropic_to_openai_request(&request, "m").ok().unwrap();
    assert_eq!(translated.messages[0].str_at("content").unwrap(), "visible answer");
}

#[test]
fn assistant_with_no_text_and_no_tools_gets_empty_string_content() {
    let request = anthropic_request(vec![message("assistant", json("[]"))]);
    let translated = translate_anthropic_to_openai_request(&request, "m").ok().unwrap();
    assert!(same(translated.messages[0].get("content").unwrap(), "\"\""));
}

#[test]
fn stop_sequences_map_to_openai_stop() {
    let mut request = anthropic_request(vec![message("user", json("\"hi\""))]);
    request.extra.put("stop_sequences", json("[\"\\n\\nHuman:\"]"));
    let translated = translate_anthropic_to_openai_request(&request, "m").ok().unwrap();
    assert!(same(&translated.stop.unwrap(), "[\"\\n\\nHuman:\"]"));
}

#[test]
fn tool_result_with_image_does_not_leak_base64_json() {
    let request = anthropic_request(vec![message(
        "user",
        json("[{\"type\":\"tool_result\",\"tool_use_id\":\"toolu_1\",\"content\":[{\"type\":\"text\",\"text\":\"screenshot taken\"},{\"type\":\"image\",\"source\":{\"type\":\"base64\",\"media_type\":\"image/png\",\"data\":\"AAAA\"}}]}]"),
    )]);
    let translated = translate_anthropic_to_openai_request(&request, "m").ok().unwrap();
    let tool_msg = &translated.messages[0];
    assert_eq!(tool_msg.str_at("role"), Some("tool"));
    let content = tool_msg.str_at("content").unwrap();
    assert!(content.contains("screenshot taken"));
    assert!(!content.contains("AAAA"));
    assert!(!content.contains("base64"));
}

#[test]
fn openai_tool_role_becomes_anthropic_tool_result_user_message() {
    let request = chat_request(vec![
        json("{\"role\":\"assistant\",\"content\":null,\"tool_calls\":[{\"id\":\"call_1\",\"type\":\"function\",\"function\":{\"name\":\"read\",\"arguments\":\"{\\\"p\\\":1}\"}}]}"),
        json("{\"role\":\"tool\",\"tool_call_id\":\"call_1\",\"content\":\"file contents\"}"),
        json("{\"role\":\"tool\",\"tool_call_id\":\"call_2\",\"content\":\"second result\"}"),
    ]);
    let translated = translate_openai_to_anthropic_request(&request, "opus").ok().unwrap();
    assert_eq!(translated.messages.len(), 2);
    assert_eq!(translated.messages[1].role, "user");
    let blocks = translated.messages[1].content.as_array().unwrap();
    assert_eq!(blocks.len(), 2);
    assert_eq!(blocks[0].str_at("type"), Some("tool_result"));
    assert_eq!(blocks[0].str_at("tool_use_id"), Some("call_1"));
    assert_eq!(blocks[1].str_at("tool_use_id"), Some("call_2"));
}

#[test]
fn openai_response_tool_use_always_has_input() {
    let response = ChatCompletionsResponse {
        id: "chatcmpl-1".into(),
        object: "chat.completion".into(),
        created: 0,
        model: "m".into(),
        choices: vec![ChatCompletionsChoice {
            index: 0,
            message: ChatCompletionsMessage {
                role: "assistant".into(),
                content: None,
                tool_calls: Some(vec![json("{\"id\":\"call_1\",\"type\":\"function\",\"function\":{\"name\":\"ping\",\"arguments\":\"\"}}")]),
            },
            finish_reason: Some("tool_calls".into()),
        }],
        usage: None,
    };
    let anthropic = translate_openai_to_anthropic_response(&response);
    let block = &anthropic.content[0];
    assert_eq!(block.kind, "tool_use");
    assert!(same(block.input.as_ref().unwrap(), "{}"));
    let serialized = response_json(&anthropic);
    let content = serialized.array_at("content").unwrap();
    assert!(same(content[0].get("input").unwrap(), "{}"));
    assert_eq!(anthropic.stop_reason.as_deref(), Some("tool_use"));
    let back = translate_anthropic_to_openai_response(&anthropic, 7);
    assert_eq!(back.created, 7);
    assert_eq!(back.choices[0].finish_reason.as_deref(), Some("tool_calls"));
}
