use ai_provider_proxy::brain::protocol::{
    ContentPart, FinishReason, FunctionDef, Message, MessageContent, SpecificToolChoice,
    TaskBundle, Tool, ToolCall, ToolCallFunction, ToolChoice, ToolChoiceFunction,
};
use ai_provider_proxy::json::{parse, render, Json, Num};
use ai_provider_proxy::lmodel::bridge::{
    extract_error_message, map_finish_reason, task_error, Bridge, Step, Tally,
};
use ai_provider_proxy::lmodel::config::Config;
use ai_provider_proxy::lmodel::dechunk::dechunk;
use ai_provider_proxy::lmodel::protocol::{CancelMessage, Message as WorkerSide};
use ai_provider_proxy::lmodel::registry::{build_register_msg, context_of, heartbeat, real_context};
use ai_provider_proxy::lmodel::request::{task_body, task_request};
use ai_provider_proxy::lmodel::router::{Order, Tasks};
use ai_provider_proxy::lmodel::ws::{
    bootstrap_secret, brain_target, target_from_parts, upgrade_request, Answer, Backoff,
    Handshake, NO_SECRET,
};
use ai_provider_proxy::weburl::UrlParts;
use bytes::BytesMut;

fn json(text: &str) -> Json {
    parse(text).unwrap()
}

fn num(text: &str) -> Num {
    match json(text) {
        Json::Number(n) => n,
        _ => panic!("no number"),
    }
}

fn task() -> TaskBundle {
    TaskBundle {
        request_id: "r1".to_string(),
        session_id: "s1".to_string(),
        model: "qwen".to_string(),
        messages: vec![Message {
            role: "user".to_string(),
            content: MessageContent::Text("hi".to_string()),
            tool_calls: None,
            tool_call_id: None,
        }],
        max_tokens: 64,
        temperature: num("0.5"),
        top_p: None,
        top_k: None,
        stream: false,
        tools: None,
        tool_choice: None,
        parallel_tool_calls: None,
        stop: None,
    }
}

fn config() -> Config {
    Config {
        brain: "wss://brain.example/worker".to_string(),
        model: "qwen".to_string(),
        llamacpp_port: 18080,
        gpu: "T4".to_string(),
        vram_free_mb: 10240,
        max_context: 16384,
        worker_id: "w1".to_string(),
    }
}

// ── Chunked transfer encoding ───────────────────────────────────────────────

fn decode(input: &[u8]) -> (Result<bool, String>, Vec<u8>, Vec<u8>) {
    let mut raw = BytesMut::from(input);
    let mut out = BytesMut::new();
    let r = dechunk(&mut raw, &mut out);
    (r, raw.to_vec(), out.to_vec())
}

#[test]
fn chunks_are_decoded_up_to_the_last_one() {
    let (r, rest, out) = decode(b"5\r\nhello\r\n6;x=y\r\n world\r\n0\r\n\r\nbehind");
    assert_eq!(r, Ok(true));
    assert_eq!(out, b"hello world");
    assert_eq!(rest, b"behind");
}

#[test]
fn incomplete_chunk_waits_for_the_rest() {
    let (r, rest, out) = decode(b"3\r\nabc\r\n5\r\nde");
    assert_eq!(r, Ok(false));
    assert_eq!(out, b"abc");
    assert_eq!(rest, b"5\r\nde");
}

#[test]
fn trailers_behind_the_last_chunk_are_skipped() {
    let (r, rest, out) = decode(b"0\r\nX-Sum: 1\r\n\r\nnext");
    assert_eq!(r, Ok(true));
    assert_eq!(out, b"");
    assert_eq!(rest, b"next");
    let (r, rest, _) = decode(b"0\r\nX-Sum: 1\r\n");
    assert_eq!(r, Ok(false));
    assert_eq!(rest, b"0\r\nX-Sum: 1\r\n");
}

#[test]
fn bad_chunk_sizes_are_refused() {
    assert_eq!(decode(b"zz\r\n").0, Err("invalid chunk size \"zz\"".to_string()));
    assert_eq!(decode(b"\r\n").0, Err("invalid chunk size \"\"".to_string()));
    assert_eq!(
        decode(b"\xff\r\n").0,
        Err("chunk size line is not valid UTF-8".to_string())
    );
}

#[test]
fn chunk_sizes_are_hexadecimal_in_either_case() {
    let (r, _, out) = decode(b"A\r\n0123456789\r\na\r\n0123456789\r\n0\r\n\r\n");
    assert_eq!(r, Ok(true));
    assert_eq!(out.len(), 20);
}

// ── The request ─────────────────────────────────────────────────────────────

#[test]
fn task_without_options_leaves_them_out() {
    assert_eq!(
        render(&task_body(&task())),
        "{\"max_tokens\":64,\"messages\":[{\"content\":\"hi\",\"role\":\"user\"}],\
         \"model\":\"qwen\",\"stream\":true,\"temperature\":0.5}"
    );
}

#[test]
fn task_with_options_carries_them_all() {
    let mut t = task();
    t.messages = vec![
        Message {
            role: "user".to_string(),
            content: MessageContent::Parts(vec![
                ContentPart { part_type: "text".to_string(), text: Some("look".to_string()) },
                ContentPart { part_type: "image_url".to_string(), text: None },
            ]),
            tool_calls: None,
            tool_call_id: None,
        },
        Message {
            role: "assistant".to_string(),
            content: MessageContent::Text(String::new()),
            tool_calls: Some(vec![ToolCall {
                id: "c1".to_string(),
                call_type: "function".to_string(),
                function: ToolCallFunction {
                    name: "read".to_string(),
                    arguments: "{}".to_string(),
                },
            }]),
            tool_call_id: None,
        },
        Message {
            role: "tool".to_string(),
            content: MessageContent::Text("done".to_string()),
            tool_calls: None,
            tool_call_id: Some("c1".to_string()),
        },
    ];
    t.top_p = Some(num("0.25"));
    t.top_k = Some(40);
    t.stop = Some(vec!["END".to_string()]);
    t.tools = Some(vec![Tool {
        tool_type: "function".to_string(),
        function: FunctionDef { name: "read".to_string(), description: None, parameters: None },
    }]);
    t.tool_choice = Some(ToolChoice::Specific(SpecificToolChoice {
        choice_type: "function".to_string(),
        function: ToolChoiceFunction { name: "read".to_string() },
    }));
    t.parallel_tool_calls = Some(false);
    let body = task_body(&t);
    let expected = json(
        "{\"model\":\"qwen\",\"messages\":[\
         {\"role\":\"user\",\"content\":[{\"type\":\"text\",\"text\":\"look\"},{\"type\":\"image_url\"}]},\
         {\"role\":\"assistant\",\"content\":\"\",\"tool_calls\":[{\"id\":\"c1\",\"type\":\"function\",\"function\":{\"name\":\"read\",\"arguments\":\"{}\"}}]},\
         {\"role\":\"tool\",\"content\":\"done\",\"tool_call_id\":\"c1\"}],\
         \"max_tokens\":64,\"temperature\":0.5,\"stream\":true,\"stop\":[\"END\"],\"top_p\":0.25,\"top_k\":40,\
         \"tools\":[{\"type\":\"function\",\"function\":{\"name\":\"read\",\"description\":null,\"parameters\":null}}],\
         \"tool_choice\":{\"type\":\"function\",\"function\":{\"name\":\"read\"}},\"parallel_tool_calls\":false}",
    );
    assert_eq!(render(&body), render(&expected));
}

#[test]
fn task_request_states_the_length_of_its_body_in_bytes() {
    let mut t = task();
    t.model = "é".to_string();
    let body = render(&task_body(&t));
    assert_eq!(
        task_request(&t),
        format!(
            "POST /v1/chat/completions HTTP/1.1\r\nHost: 127.0.0.1\r\nContent-Type: application/json\r\n\
             Content-Length: {}\r\nConnection: close\r\n\r\n{}",
            body.len(),
            body
        )
    );
}

// ── The answer ──────────────────────────────────────────────────────────────

const HEAD: &str = "HTTP/1.1 200 OK\r\nContent-Type: text/event-stream\r\n\r\n";
const CHUNKED_HEAD: &str = "HTTP/1.1 200 OK\r\nTransfer-Encoding: Chunked\r\n\r\n";

fn lines(out: &Vec<ai_provider_proxy::lmodel::protocol::ChunkMessage>) -> Vec<String> {
    out.iter().map(|c| c.delta.clone()).collect()
}

#[test]
fn events_are_passed_on_verbatim_until_the_end() {
    let mut b = Bridge::new("r1");
    let text = format!(
        "{}data: {{\"choices\":[{{\"delta\":{{\"content\":\"a\"}}}}]}}\n\nnoise\n\
         data: not json\ndata: {{\"choices\":[{{\"delta\":{{\"tool_calls\":[]}}}}],\"usage\":{{\"prompt_tokens\":7,\"completion_tokens\":3}}}}\n\
         data: [DONE]\ndata: {{\"choices\":[]}}\n",
        HEAD
    );
    let (out, step) = b.on_bytes(text.as_bytes()).unwrap();
    assert_eq!(
        lines(&out),
        vec![
            "data: {\"choices\":[{\"delta\":{\"content\":\"a\"}}]}".to_string(),
            "data: {\"choices\":[{\"delta\":{\"tool_calls\":[]}}],\"usage\":{\"prompt_tokens\":7,\"completion_tokens\":3}}".to_string(),
        ]
    );
    assert_eq!(out[0].is_tool_call, false);
    assert_eq!(out[1].is_tool_call, true);
    assert_eq!(out[0].request_id, "r1");
    match step {
        Step::Ended(done) => {
            assert!(done.finish_reason == FinishReason::Stop);
            assert_eq!(done.prompt_tokens, 7);
            assert_eq!(done.comp_tokens, 3);
            assert_eq!(done.request_id, "r1");
        }
        _ => panic!("the answer has ended"),
    }
}

#[test]
fn finish_reason_ends_the_answer() {
    let mut b = Bridge::new("r1");
    let text = format!(
        "{}data: {{\"choices\":[{{\"delta\":{{}},\"finish_reason\":\"length\"}}]}}\n",
        HEAD
    );
    let (out, step) = b.on_bytes(text.as_bytes()).unwrap();
    assert_eq!(out.len(), 1);
    match step {
        Step::Ended(done) => assert!(done.finish_reason == FinishReason::Length),
        _ => panic!("the answer has ended"),
    }
}

#[test]
fn answer_is_the_same_however_it_is_cut() {
    let event = "data: {\"choices\":[{\"delta\":{\"content\":\"é\"}}]}\n";
    let chunk = format!("{:x}\r\n{}\r\n", event.len(), event);
    let text = format!("{}{}{}0\r\n\r\n", CHUNKED_HEAD, chunk, chunk);
    for size in 1..text.len() + 1 {
        let mut b = Bridge::new("r1");
        let mut seen: Vec<String> = Vec::new();
        let mut ended = false;
        for piece in text.as_bytes().chunks(size) {
            let (out, step) = b.on_bytes(piece).unwrap();
            seen.extend(lines(&out));
            ended = matches!(step, Step::BodyEnded);
        }
        assert_eq!(seen, vec![event.trim().to_string(), event.trim().to_string()]);
        assert!(ended);
        let done = b.finish().unwrap();
        assert!(done.finish_reason == FinishReason::Stop);
        assert_eq!(done.prompt_tokens, 0);
    }
}

#[test]
fn error_body_without_a_line_end_is_no_answer() {
    let mut b = Bridge::new("r1");
    let text = "HTTP/1.1 400 Bad Request\r\nContent-Length: 9\r\n\r\n\
                {\"error\":{\"message\":\"too long\"}}";
    let (out, step) = b.on_bytes(text.as_bytes()).unwrap();
    assert_eq!(out.len(), 0);
    assert!(matches!(step, Step::Wait));
    match b.finish() {
        Err(e) => assert_eq!(e, "llama.cpp: too long"),
        Ok(_) => panic!("the model server has failed"),
    }
}

#[test]
fn broken_chunks_fail_the_task() {
    let mut b = Bridge::new("r1");
    let text = format!("{}xyz\r\n", CHUNKED_HEAD);
    match b.on_bytes(text.as_bytes()) {
        Err(e) => assert_eq!(
            e,
            "Malformed chunked response from llama.cpp: invalid chunk size \"xyz\""
        ),
        Ok(_) => panic!("the body is not chunked"),
    }
}

#[test]
fn error_messages_are_found_in_their_three_shapes() {
    assert_eq!(
        extract_error_message(b"{\"error\":{\"message\":\"a\"}}"),
        Some("a".to_string())
    );
    assert_eq!(extract_error_message(b"{\"error\":\"b\"}"), Some("b".to_string()));
    assert_eq!(extract_error_message(b"{\"message\":\"c\"}"), Some("c".to_string()));
    assert_eq!(extract_error_message(b"{\"other\":1}"), None);
    assert_eq!(extract_error_message(b"no json"), None);
}

#[test]
fn model_servers_reasons_are_mapped() {
    assert!(map_finish_reason("stop") == FinishReason::Stop);
    assert!(map_finish_reason("length") == FinishReason::Length);
    assert!(map_finish_reason("tool_calls") == FinishReason::ToolCalls);
    assert!(map_finish_reason("content_filter") == FinishReason::ContentFilter);
    assert!(map_finish_reason("other") == FinishReason::Stop);
}

#[test]
fn tally_keeps_what_a_chunk_does_not_report() {
    let mut t = Tally { prompt_tokens: 4, comp_tokens: 5, reason: FinishReason::Stop };
    let r = t.on_chunk(&json("{\"usage\":{\"completion_tokens\":4294967298}}"));
    assert_eq!(r, (false, false));
    assert_eq!(t.prompt_tokens, 4);
    assert_eq!(t.comp_tokens, 2);
}

#[test]
fn failed_task_is_a_bad_gateway() {
    let e = task_error("r1", "gone");
    assert_eq!((e.request_id.as_str(), e.message.as_str(), e.code), ("r1", "gone", 502));
}

// ── Introducing oneself ─────────────────────────────────────────────────────

#[test]
fn real_context_wins_over_the_configured_one() {
    let cfg = config();
    assert_eq!(build_register_msg(&cfg, Some(32768)).max_context, 32768);
    let m = build_register_msg(&cfg, None);
    assert_eq!(m.max_context, 16384);
    assert_eq!(m.worker_id, "w1");
    assert_eq!(m.model, "qwen");
    assert_eq!(m.gpu, "T4");
    assert_eq!(m.vram_free_mb, 10240);
    assert_eq!(m.active_requests, 0);
}

#[test]
fn context_is_read_from_the_model_servers_account() {
    assert_eq!(
        real_context("{\"default_generation_settings\":{\"n_ctx\":8192},\"total_slots\":2}"),
        Some(8192)
    );
    assert_eq!(real_context("{\"default_generation_settings\":{\"n_ctx\":0}}"), None);
    assert_eq!(real_context("{}"), None);
    assert_eq!(real_context("busy"), None);
    assert_eq!(
        context_of(&json("{\"default_generation_settings\":{\"n_ctx\":512}}")),
        Some(512)
    );
}

#[test]
fn heartbeat_reports_the_work_in_hand() {
    let h = heartbeat(&config(), 3);
    assert_eq!((h.worker_id.as_str(), h.model.as_str()), ("w1", "qwen"));
    assert_eq!((h.vram_free_mb, h.active_requests), (1024, 3));
}

// ── Tasks in hand ───────────────────────────────────────────────────────────

#[test]
fn begun_tasks_can_be_called_off_until_they_are_over() {
    let mut tasks = Tasks::new();
    let order = tasks.on_message(WorkerSide::Task(task()));
    match order {
        Order::Run(t, number) => {
            assert_eq!(t.request_id, "r1");
            assert_eq!(number, 0);
        }
        _ => panic!("a task is to be run"),
    }
    assert_eq!(tasks.active, 1);
    assert_eq!(tasks.dispatch("r2"), 1);
    assert_eq!(tasks.active, 2);
    let order = tasks.on_message(WorkerSide::Cancel(CancelMessage { request_id: "r1".to_string() }));
    assert!(matches!(order, Order::CallOff(Some(0))));
    tasks.finish("r1");
    assert_eq!(tasks.active, 1);
    assert_eq!(tasks.cancel("r1"), None);
    assert_eq!(tasks.cancel("r2"), Some(1));
}

#[test]
fn pings_and_strange_messages_change_nothing() {
    let mut tasks = Tasks::new();
    assert!(matches!(tasks.on_message(WorkerSide::Ping), Order::KeepAlive));
    let strange = WorkerSide::Error(task_error("r1", "x"));
    assert!(matches!(tasks.on_message(strange), Order::Unexpected));
    assert_eq!(tasks.active, 0);
}

// ── Reaching the gateway ────────────────────────────────────────────────────

#[test]
fn waits_double_up_to_half_a_minute() {
    let mut b = Backoff::new();
    let mut waits: Vec<u64> = Vec::new();
    for _ in 0..7 {
        waits.push(b.next_delay());
    }
    assert_eq!(waits, vec![1, 2, 4, 8, 16, 30, 30]);
    b.reset();
    assert_eq!(b.attempt, 0);
    assert_eq!(b.next_delay(), 1);
    let mut tired = Backoff { attempt: u32::MAX };
    assert_eq!(tired.next_delay(), 30);
    assert_eq!(tired.attempt, u32::MAX);
}

#[test]
fn baked_secret_goes_first() {
    let a = Some("a".to_string());
    let b = Some("b".to_string());
    assert_eq!(bootstrap_secret(&a, &b), Ok("a".to_string()));
    assert_eq!(bootstrap_secret(&None, &b), Ok("b".to_string()));
    assert_eq!(bootstrap_secret(&None, &None), Err(NO_SECRET.to_string()));
}

#[test]
fn brains_url_gives_host_port_and_path() {
    let t = match brain_target("wss://brain.example/worker", "s3") {
        Ok(t) => t,
        Err(e) => panic!("{}", e),
    };
    assert_eq!((t.host.as_str(), t.port), ("brain.example", 443));
    assert_eq!(t.path, "/worker?token=s3");
    let t = match brain_target("ws://brain.example:9999/worker?a=b", "s3") {
        Ok(t) => t,
        Err(e) => panic!("{}", e),
    };
    assert_eq!((t.port, t.path.as_str()), (9999, "/worker?a=b&token=s3"));
    assert!(upgrade_request(&t).starts_with(
        "GET /worker?a=b&token=s3 HTTP/1.1\r\nHost: brain.example\r\nUpgrade: websocket\r\n"
    ));
}

fn target_error(url: &str) -> String {
    match brain_target(url, "s") {
        Ok(_) => panic!("no such target"),
        Err(e) => e,
    }
}

#[test]
fn brains_url_must_be_complete() {
    assert_eq!(
        target_error("brain.example"),
        "Invalid brain URL: relative URL without a base"
    );
    assert_eq!(target_error("data:text"), "URL missing host");
    assert_eq!(target_error("foo://host/x"), "URL missing port");
    let parts = UrlParts {
        scheme: "ws".to_string(),
        host: None,
        port: Some(1),
        path: "/".to_string(),
        query: None,
    };
    assert!(target_from_parts(&parts, "s").is_err());
}

#[test]
fn handshake_keeps_what_comes_behind_the_head() {
    let mut h = Handshake::new();
    assert!(matches!(h.push(b"HTTP/1.1 101 Switching Pro"), Answer::More));
    match h.push(b"tocols\r\nUpgrade: websocket\r\n\r\n{\"type\":\"ping\"}\n") {
        Answer::Accepted(rest) => assert_eq!(rest, b"{\"type\":\"ping\"}\n"),
        _ => panic!("the upgrade is granted"),
    }
}

#[test]
fn refused_handshake_says_why() {
    let mut h = Handshake::new();
    match h.push(b"HTTP/1.1 401 Unauthorized\r\nContent-Length: 0\r\n\r\n") {
        Answer::Rejected(e) => assert_eq!(e, "Upgrade rejected: HTTP/1.1 401 Unauthorized"),
        _ => panic!("the upgrade is refused"),
    }
    let mut h = Handshake::new();
    match h.push(b"\xff\r\n\r\n") {
        Answer::Rejected(e) => assert_eq!(e, "Upgrade rejected: "),
        _ => panic!("the upgrade is refused"),
    }
}
