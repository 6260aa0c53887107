use ai_provider_proxy::brain::config::EgressPolicy;
use ai_provider_proxy::brain::egress::{
    check_addresses, check_host, domain_list_allows, fetch_target, host_matches_domain,
    is_forbidden_ip, Ip, Resolved,
};
use ai_provider_proxy::brain::hosted_tools::{
    action_of, all_hosted, deliver_blocking_result, deliver_streaming_result, fetch_refused,
    fetch_wanted, fetched, hosted_tool_defs, is_hosted_tool_name, search_url, searched,
    ChunkState, HostedAction, HostedLoop, HostedLoopOutcome, Round, RoundStep, WebReply,
};
use ai_provider_proxy::brain::html::{fetched_text, html_to_text};
use ai_provider_proxy::brain::protocol::{
    DoneMessage, FinishReason, Message, MessageContent, TaskBundle, ToolCall, ToolCallFunction,
};
use ai_provider_proxy::converter::anthropic_events::render_all;
use ai_provider_proxy::json::{parse, render, Json, Num};

fn num(text: &str) -> Num {
    match parse(text) {
        Some(Json::Number(n)) => n,
        _ => panic!("no number"),
    }
}

fn call(id: &str, name: &str, arguments: &str) -> ToolCall {
    ToolCall {
        id: id.to_string(),
        call_type: "function".to_string(),
        function: ToolCallFunction { name: name.to_string(), arguments: arguments.to_string() },
    }
}

fn task() -> TaskBundle {
    TaskBundle {
        request_id: "outer".to_string(),
        session_id: "s1".to_string(),
        model: "qwen".to_string(),
        messages: vec![Message {
            role: "user".to_string(),
            content: MessageContent::Text("news?".to_string()),
            tool_calls: None,
            tool_call_id: None,
        }],
        max_tokens: 64,
        temperature: num("1.0"),
        top_p: None,
        top_k: Some(3),
        stream: true,
        tools: Some(hosted_tool_defs()),
        tool_choice: None,
        parallel_tool_calls: None,
        stop: None,
    }
}

fn done() -> DoneMessage {
    DoneMessage {
        request_id: "r".to_string(),
        finish_reason: FinishReason::Stop,
        prompt_tokens: 10,
        comp_tokens: 2,
    }
}

// ── Where a page may be fetched from ────────────────────────────────────────

#[test]
fn inner_addresses_are_forbidden() {
    for ip in [
        [127, 0, 0, 1],
        [10, 1, 2, 3],
        [172, 16, 0, 1],
        [172, 31, 255, 255],
        [192, 168, 0, 1],
        [169, 254, 169, 254],
        [255, 255, 255, 255],
        [192, 0, 2, 1],
        [198, 51, 100, 1],
        [203, 0, 113, 1],
        [0, 0, 0, 0],
    ] {
        assert!(is_forbidden_ip(&Ip::V4(ip)), "{:?}", ip);
    }
    for ip in [[8, 8, 8, 8], [172, 32, 0, 1], [172, 15, 0, 1], [0, 0, 0, 1], [198, 51, 101, 1]] {
        assert!(!is_forbidden_ip(&Ip::V4(ip)), "{:?}", ip);
    }
    assert!(is_forbidden_ip(&Ip::V6([0, 0, 0, 0, 0, 0, 0, 1])));
    assert!(is_forbidden_ip(&Ip::V6([0, 0, 0, 0, 0, 0, 0, 0])));
    assert!(is_forbidden_ip(&Ip::V6([0xfd00, 0, 0, 0, 0, 0, 0, 1])));
    assert!(is_forbidden_ip(&Ip::V6([0xfe80, 0, 0, 0, 0, 0, 0, 1])));
    assert!(!is_forbidden_ip(&Ip::V6([0x2001, 0xdb8, 0, 0, 0, 0, 0, 1])));
    assert!(!is_forbidden_ip(&Ip::V6([0xfec0, 0, 0, 0, 0, 0, 0, 1])));
}

#[test]
fn domains_cover_their_subdomains() {
    assert!(host_matches_domain("example.com", "example.com"));
    assert!(host_matches_domain("www.example.com", "example.com"));
    assert!(!host_matches_domain("badexample.com", "example.com"));
    assert!(!host_matches_domain("raw.githubusercontent.com", "github.com"));
    assert!(domain_list_allows("a.b", &vec!["x".to_string(), "b".to_string()]));
    assert!(!domain_list_allows("a.b", &vec![]));
}

#[test]
fn policy_decides_on_a_host() {
    let list = || vec!["example.com".to_string()];
    assert_eq!(check_host("any", &None, &EgressPolicy::AllowAll), Ok(()));
    assert_eq!(
        check_host("any", &None, &EgressPolicy::DenyAll),
        Err("web_fetch egress is disabled on this brain instance (BRAIN_EGRESS_MODE=deny_all)".to_string())
    );
    assert_eq!(check_host("www.example.com", &None, &EgressPolicy::Allowlist(list())), Ok(()));
    assert_eq!(
        check_host("other.org", &None, &EgressPolicy::Allowlist(list())),
        Err("\"other.org\" is not on the egress allowlist".to_string())
    );
    assert_eq!(
        check_host("example.com", &None, &EgressPolicy::Denylist(list())),
        Err("\"example.com\" is on the egress denylist".to_string())
    );
    assert_eq!(
        check_host("127.0.0.1", &Some(Ip::V4([127, 0, 0, 1])), &EgressPolicy::AllowAll),
        Err("target IP is in a private/loopback/link-local range".to_string())
    );
}

#[test]
fn names_must_lead_outside() {
    let outside = Resolved { ip: Ip::V4([8, 8, 8, 8]), shown: "8.8.8.8".to_string() };
    let inside = Resolved { ip: Ip::V4([10, 0, 0, 1]), shown: "10.0.0.1".to_string() };
    assert_eq!(
        check_addresses("h", &Ok(vec![outside, inside])),
        Err("\"h\" resolves to a private/internal IP (10.0.0.1) — refusing to fetch".to_string())
    );
    assert_eq!(
        check_addresses("h", &Ok(vec![])),
        Err("\"h\" did not resolve to any address".to_string())
    );
    assert_eq!(
        check_addresses("h", &Err("nope".to_string())),
        Err("DNS resolution failed for \"h\": nope".to_string())
    );
    let fine = Resolved { ip: Ip::V4([8, 8, 8, 8]), shown: "8.8.8.8".to_string() };
    assert_eq!(check_addresses("h", &Ok(vec![fine])), Ok(()));
}

#[test]
fn urls_give_a_host_and_a_port() {
    let t = match fetch_target("https://Example.COM/x") {
        Ok(t) => t,
        Err(e) => panic!("{}", e),
    };
    assert_eq!((t.host.as_str(), t.port), ("example.com", 443));
    let t = match fetch_target("http://h:8080") {
        Ok(t) => t,
        Err(e) => panic!("{}", e),
    };
    assert_eq!(t.port, 8080);
    let error = |u: &str| match fetch_target(u) {
        Ok(_) => panic!("no such target"),
        Err(e) => e,
    };
    assert_eq!(error("ftp://h/x"), "scheme \"ftp\" is not allowed (only http/https)");
    assert_eq!(error("h"), "invalid URL: relative URL without a base");
}

// ── Pages ───────────────────────────────────────────────────────────────────

#[test]
fn pages_lose_their_markup() {
    assert_eq!(
        html_to_text("<html><STYLE>p{}</style><p>Hello,\n  <b>world</b>!</p><script>x()</script>"),
        "Hello, world !".replace(" !", "!")
    );
    assert_eq!(html_to_text("a < b > c"), "a c");
    assert_eq!(html_to_text("é<br>€"), "é€");
    assert_eq!(html_to_text(""), "");
}

#[test]
fn second_pass_over_a_page_changes_nothing() {
    for page in [
        "a<br>b <i> c </i>\n\td",
        "x<ScRiPt src=y>if (1 < 2) { alert('>') }</sCrIpT >z",
        "<style>p > b {}</style> one <p class=\"q\">two</p>",
        " 1 < 2 > 3 ",
    ] {
        let once = html_to_text(page);
        assert_eq!(html_to_text(&once), once);
    }
    assert_eq!(html_to_text("a<br>b <i> c </i>\n\td"), "ab c d");
    assert_eq!(html_to_text("x<ScRiPt src=y>if (1 < 2) { alert('>') }</sCrIpT >z"), "xz");
    assert_eq!(html_to_text("<style>p > b {}</style> one <p class=\"q\">two</p>"), "one two");
}

#[test]
fn long_pages_are_cut() {
    let page = "x".repeat(8001);
    let text = fetched_text(&page);
    assert_eq!(
        text,
        format!("{}\n\n[truncated — page was longer than 8000 characters]", "x".repeat(8000))
    );
    assert_eq!(fetched_text(&"x".repeat(8000)), "x".repeat(8000));
}

// ── Searching and fetching ──────────────────────────────────────────────────

#[test]
fn search_needs_a_query_and_an_engine() {
    let base = Some("http://127.0.0.1:8119//".to_string());
    assert_eq!(
        search_url("rust & verus/é", &base),
        Ok("http://127.0.0.1:8119/search?q=rust%20%26%20verus%2F%C3%A9&format=json".to_string())
    );
    assert_eq!(search_url("  ", &base), Err("error: empty search query".to_string()));
    let unset = Err(
        "error: web_search is not configured on this brain instance (searxng_url is unset in db)"
            .to_string(),
    );
    assert_eq!(search_url("q", &None), unset);
    assert_eq!(search_url("q", &Some(" ".to_string())), unset);
}

#[test]
fn search_results_are_listed_up_to_five() {
    let one = "{\"title\":\"T\",\"url\":\"http://u\",\"content\":\"C\"}";
    let body = format!("{{\"results\":[{},{{}},{},{},{},{}]}}", one, one, one, one, one);
    let out = searched(&WebReply::Body(body));
    assert!(out.starts_with("1. T\nhttp://u\nC\n\n2. (no title)\n\n\n\n3. T\n"));
    assert!(out.contains("5. T\n"));
    assert!(!out.contains("6. "));
    assert_eq!(searched(&WebReply::Body("{\"results\":[]}".to_string())), "No results found.");
    assert!(searched(&WebReply::Body("<html>".to_string()))
        .starts_with("error: SearxNG response was not valid JSON (is `search.formats: [json]` enabled in its settings.yml?): "));
    assert_eq!(
        searched(&WebReply::Failed("x".to_string())),
        "error: search request to SearxNG failed: x"
    );
    assert_eq!(
        searched(&WebReply::Unreadable("x".to_string())),
        "error: could not read SearxNG response body: x"
    );
}

#[test]
fn fetches_are_answered_in_words() {
    assert_eq!(fetch_wanted(" "), Err("error: empty url".to_string()));
    assert_eq!(fetch_wanted("u"), Ok(()));
    assert_eq!(fetch_refused("u", "no"), "error: refused to fetch u: no");
    assert_eq!(fetched("u", &WebReply::Failed("x".to_string())), "error: fetch of u failed: x");
    assert_eq!(
        fetched("u", &WebReply::Unreadable("x".to_string())),
        "error: could not read response body from u: x"
    );
    assert_eq!(fetched("u", &WebReply::Body("<p>t</p>".to_string())), "t");
}

#[test]
fn calls_name_what_to_do() {
    assert!(is_hosted_tool_name("web_search"));
    assert!(is_hosted_tool_name("web_fetch"));
    assert!(!is_hosted_tool_name("bash"));
    match action_of(&call("c", "web_search", "{\"query\":\"q\"}")) {
        HostedAction::Search(q) => assert_eq!(q, "q"),
        _ => panic!("a search"),
    }
    match action_of(&call("c", "web_fetch", "junk")) {
        HostedAction::Fetch(u) => assert_eq!(u, ""),
        _ => panic!("a fetch"),
    }
    match action_of(&call("c", "bash", "{}")) {
        HostedAction::Unknown(t) => {
            assert_eq!(t, "error: \"bash\" is not a hosted tool brain can execute")
        }
        _ => panic!("unknown"),
    }
}

// ── Rounds ──────────────────────────────────────────────────────────────────

#[test]
fn hosted_calls_are_answered_and_the_worker_goes_on() {
    let mut l = HostedLoop::for_task(task(), 2);
    let first = l.next_task("q1").unwrap();
    assert_eq!(first.request_id, "q1");
    assert_eq!(first.stream, false);
    assert_eq!(first.parallel_tool_calls, Some(true));
    assert_eq!(first.top_k, Some(3));
    assert_eq!(first.messages.len(), 1);
    let calls = vec![call("c1", "web_search", "{}"), call("c2", "web_fetch", "{}")];
    assert!(l.on_round("thinking", &calls, &done()).is_none());
    l.add_results("thinking", &calls, &vec!["one".to_string(), "two".to_string()]);
    let second = l.next_task("q2").unwrap();
    assert_eq!(second.messages.len(), 4);
    assert_eq!(second.messages[1].role, "assistant");
    assert_eq!(second.messages[1].content.as_str(), "thinking");
    assert_eq!(second.messages[1].tool_calls.as_ref().map(|c| c.len()), Some(2));
    assert_eq!(second.messages[3].role, "tool");
    assert_eq!(second.messages[3].content.as_str(), "two");
    assert_eq!(second.messages[3].tool_call_id, Some("c2".to_string()));
    let end = l.on_round("answer", &vec![], &done()).unwrap();
    assert_eq!((end.prompt_tokens, end.comp_tokens), (20, 4));
    assert_eq!(end.full_text, "answer");
}

#[test]
fn mixed_round_goes_to_the_client() {
    let mut l = HostedLoop::for_task(task(), 2);
    let calls = vec![call("c1", "web_search", "{}"), call("c2", "bash", "{}")];
    let end = l.on_round("", &calls, &done()).unwrap();
    assert_eq!(end.tool_calls.len(), 2);
    assert!(!all_hosted(&vec![]));
}

#[test]
fn rounds_are_limited() {
    let mut l = HostedLoop::for_task(task(), 1);
    let calls = vec![call("c1", "web_search", "{}")];
    assert!(l.on_round("", &calls, &done()).is_none());
    l.add_results("", &calls, &vec!["x".to_string()]);
    match l.next_task("q2") {
        Err(e) => assert_eq!(e, "hosted tool loop did not resolve within 1 round(s)"),
        Ok(_) => panic!("there were too many rounds"),
    }
}

#[test]
fn tokens_of_all_rounds_are_counted() {
    let mut l = HostedLoop::for_task(task(), 3);
    let calls = vec![call("c1", "web_fetch", "{}")];
    for id in ["q1", "q2"] {
        assert!(l.next_task(id).is_ok());
        assert!(l.on_round("", &calls, &done()).is_none());
        l.add_results("", &calls, &vec!["x".to_string()]);
    }
    assert!(l.next_task("q3").is_ok());
    let end = l.on_round("end", &vec![], &done()).unwrap();
    assert_eq!((end.prompt_tokens, end.comp_tokens), (30, 6));
}

#[test]
fn rounds_are_drained_before_they_end() {
    let r = Round::new(1000);
    assert_eq!(r.step(ChunkState::Waiting, true, 120, 500000), RoundStep::Take);
    assert_eq!(r.step(ChunkState::Empty, true, 120, 500000), RoundStep::Finish);
    assert_eq!(r.step(ChunkState::Closed, true, 120, 500000), RoundStep::Finish);
    assert_eq!(r.step(ChunkState::Closed, false, 120, 500000), RoundStep::Lost);
    assert_eq!(r.step(ChunkState::Empty, false, 120, 121000), RoundStep::Silent);
    assert_eq!(r.step(ChunkState::Empty, false, 120, 120999), RoundStep::Wait);
    assert_eq!(
        RoundStep::Lost.failure(),
        Some("worker chunk channel disconnected mid hosted-tool round".to_string())
    );
    assert_eq!(
        RoundStep::Silent.failure(),
        Some("worker produced no output for too long during a hosted-tool round".to_string())
    );
    assert_eq!(RoundStep::Finish.failure(), None);
}

#[test]
fn round_gathers_what_the_worker_says() {
    let mut r = Round::new(1000);
    assert!(!r.is_silent(120, 120999));
    assert!(r.is_silent(120, 121000));
    r.on_chunk("data: {\"choices\":[{\"delta\":{\"content\":\"hi\"}}]}", 5000);
    r.on_chunk(
        "data: {\"choices\":[{\"delta\":{\"tool_calls\":[{\"index\":0,\"id\":\"c1\",\"function\":{\"name\":\"web_search\",\"arguments\":\"{}\"}}]}}]}",
        6000,
    );
    assert!(!r.is_silent(120, 121000));
    let (said, calls) = r.settle();
    assert_eq!(said, "hi");
    assert_eq!(calls.len(), 1);
    assert_eq!(calls[0].function.name, "web_search");
}

// ── Delivery ────────────────────────────────────────────────────────────────

fn outcome(text: &str, calls: Vec<ToolCall>) -> HostedLoopOutcome {
    HostedLoopOutcome {
        full_text: text.to_string(),
        tool_calls: calls,
        prompt_tokens: 20,
        comp_tokens: 4,
        finish_reason: FinishReason::Length,
    }
}

#[test]
fn outcome_is_streamed_as_a_whole_turn() {
    let out = render_all(&deliver_streaming_result(
        "r1",
        "m",
        &outcome("hi", vec![call("c1", "bash", "{}")]),
    ));
    assert!(out.contains("\"id\":\"msg_r1\""));
    assert!(out.contains("\"text\":\"hi\""));
    assert!(out.contains("\"partial_json\":\"{}\""));
    assert!(out.contains("\"stop_reason\":\"tool_use\""));
    assert_eq!(out.matches("event: content_block_start\n").count(), 2);
    assert_eq!(out.matches("event: content_block_stop\n").count(), 2);
    assert!(out.ends_with("event: message_stop\ndata: {\"type\":\"message_stop\"}\n\n"));
}

#[test]
fn outcome_is_answered_as_a_message() {
    let r = deliver_blocking_result("r1", "m", &outcome("hi", vec![]));
    assert_eq!(r.content.len(), 1);
    assert_eq!(r.stop_reason, Some("max_tokens".to_string()));
    let r = deliver_blocking_result("r1", "m", &outcome("hi", vec![call("c1", "bash", "[1]")]));
    assert_eq!(r.content.len(), 2);
    assert_eq!(r.content[0].text, Some("hi".to_string()));
    assert_eq!(r.content[1].input.as_ref().map(|v| render(v)), Some("[1]".to_string()));
    assert_eq!(r.stop_reason, Some("tool_use".to_string()));
    let r = deliver_blocking_result("r1", "m", &outcome("", vec![call("c1", "bash", "junk")]));
    assert_eq!(r.content.len(), 1);
    assert_eq!(r.content[0].input.as_ref().map(|v| render(v)), Some("{}".to_string()));
}
