use ai_provider_proxy::brain::accept::{
    asset_file_of, back_route_of, cached_head, choose_asset, compute_ws_accept, download_head,
    download_name, front_route_of, incoming_of, kept_head, preflight_answer, read_head,
    redirect_answer, target_path, token_from_query, upgrade_worker, AssetChoice, BackRoute,
    FrontRoute, HeadReader, Incoming, Upgrade,
};
use ai_provider_proxy::brain::api::{
    anthropic_route_of, anthropic_token, api_route_of, authenticate, bad_key_answer, model_names,
    unknown_endpoint, AnthropicRoute, ApiRoute,
};
use ai_provider_proxy::brain::auth::{
    claims_from_json, create_jwt, generate_api_key, get_user_id_from_auth, identify, login,
    new_account_is_trusted, new_api_key, require_admin_auth, validate_token, verify_jwt,
    vouched_identity, vouched_in, worker_is_authorized, UserInfo,
};
use ai_provider_proxy::brain::config::{
    parse_aliases, parse_domains, parse_policy, parse_prices, Config, EgressPolicy,
};
use ai_provider_proxy::brain::convert::{
    anthropic_models_response, extract_stop_sequences, extract_top_k,
    legacy_function_call_to_tool_choice, legacy_functions_to_tools, required_max_tokens,
};
use ai_provider_proxy::brain::http::{
    build_error_response, event_stream_head, extract_token, json_200, json_error, plain_json,
    raw_json, traced_json, truncate_for_log, Refusal,
};
use ai_provider_proxy::brain::idempotency::{IdempotencyStore, IdempotentResponse};
use ai_provider_proxy::brain::management::{
    access_of, body_value, check_access, health_body, id_token_of, key_name_of, key_user_of,
    management_route_of, session_of, settings_body, telemetry_hint, test_body, test_url,
    unreachable_engine, usage_windows, Access, ManagementRoute,
};
use ai_provider_proxy::brain::messages::{
    estimate_prompt_tokens, message_from_openai_value, openai_tool_choice_json_to_protocol,
    openai_tool_json_to_protocol_tool, stop_sequences_from_value,
};
use ai_provider_proxy::brain::metrics::Metrics;
use ai_provider_proxy::brain::plan::{admit_anthropic, admit_chat, RequestIds};
use ai_provider_proxy::brain::protocol::{
    CancelMessage, ChunkMessage, DoneMessage, ErrorMessage, FinishReason, HeartbeatMsg, Message,
    MessageContent, RegisterMsg, ToolChoice, WorkerMessage,
};
use ai_provider_proxy::brain::registry::{WorkerInfo, WorkerRegistry};
use ai_provider_proxy::brain::router::Router;
use ai_provider_proxy::brain::tunnel::{
    after_failed_send, before_send, on_close, on_first_message, on_message, Due, TunnelAction,
    TunnelClock,
};
use ai_provider_proxy::converter::types::{
    AnthropicMessage, AnthropicRequest, AnthropicTool, ChatCompletionsRequest,
};
use ai_provider_proxy::json::{parse, render, Json, Num, Object};
use ai_provider_proxy::strmap::StrMap;

fn json(text: &str) -> Json {
    parse(text).unwrap()
}

fn num(text: &str) -> Num {
    match json(text) {
        Json::Number(n) => n,
        _ => panic!("no number"),
    }
}

fn object(text: &str) -> Object {
    match json(text) {
        Json::Object(o) => o,
        _ => panic!("no object"),
    }
}

fn config_with(vars: Vec<(&str, &str)>) -> Config {
    let mut env: StrMap<String> = StrMap::new();
    for (k, v) in vars {
        env.insert(k, v.to_string());
    }
    Config::from_env(&Some("psk1".to_string()), &env).unwrap()
}

fn config() -> Config {
    config_with(vec![])
}

fn registration(id: &str, model: &str, active: u32, context: u32) -> RegisterMsg {
    RegisterMsg {
        worker_id: id.to_string(),
        model: model.to_string(),
        gpu: "T4".to_string(),
        vram_free_mb: 1000,
        max_context: context,
        active_requests: active,
        api_type: "openai".to_string(),
    }
}

fn worker(id: &str, model: &str, active: u32, context: u32, now: u64) -> WorkerInfo {
    WorkerInfo::from_register(registration(id, model, active, context), now)
}

fn some(s: &str) -> Option<String> {
    Some(s.to_string())
}

// ── Settings ────────────────────────────────────────────────────────────────

#[test]
fn settings_have_defaults() {
    let c = config();
    assert_eq!(c.psk, "psk1");
    assert_eq!(c.jwt_secret, "psk1");
    assert_eq!(c.db_path, "/etc/brain/brain.db");
    assert_eq!(c.addr, "127.0.0.1:9999");
    assert_eq!(c.downloads_dir, "/etc/brain/downloads");
    assert_eq!((c.worker_timeout_s, c.queue_timeout_s), (120, 10));
    assert!(c.allow_psk_as_token && c.metrics_enabled && c.telemetry_enabled);
    assert_eq!(c.idempotency_ttl_s, 300);
    assert_eq!((c.queue_wait_budget_s, c.prefill_budget_s), (10, 30));
    assert_eq!((c.decode_budget_s, c.tool_dispatch_budget_s), (60, 15));
    assert_eq!(c.default_context_window, 32768);
    assert_eq!(c.hosted_tool_max_rounds, 4);
    assert_eq!(c.stream_buffer_chunks, 1024);
    assert!(c.searxng_url.is_none());
    assert!(matches!(c.egress_policy, EgressPolicy::DenyAll));
    assert!(Config::from_env(&None, &StrMap::new()).is_none());
}

#[test]
fn settings_are_read_from_the_environment() {
    let c = config_with(vec![
        ("BRAIN_JWT_SECRET", "j"),
        ("BRAIN_WORKER_TIMEOUT", "5"),
        ("BRAIN_QUEUE_TIMEOUT", "x"),
        ("BRAIN_ALLOW_PSK_TOKEN", "no"),
        ("BRAIN_METRICS_ENABLED", "TRUE"),
        ("BRAIN_STREAM_BUFFER_CHUNKS", "0"),
        ("BRAIN_MODEL_ALIASES", "gpt-4 = qwen ,bad,=x"),
        ("BRAIN_EGRESS_MODE", "allowlist"),
        ("BRAIN_EGRESS_DOMAINS", " Example.COM ,,b"),
        ("BRAIN_SEARXNG_URL", "  "),
    ]);
    assert_eq!(c.jwt_secret, "j");
    assert_eq!((c.worker_timeout_s, c.queue_timeout_s), (5, 10));
    assert!(!c.allow_psk_as_token);
    assert!(c.metrics_enabled);
    assert_eq!(c.stream_buffer_chunks, 1024);
    assert_eq!(c.resolve_model("gpt-4"), "qwen");
    assert_eq!(c.resolve_model("other"), "other");
    assert!(c.searxng_url.is_none());
    match c.egress_policy {
        EgressPolicy::Allowlist(d) => {
            assert_eq!(d, vec!["example.com".to_string(), "b".to_string()])
        }
        _ => panic!("an allowlist"),
    }
}

#[test]
fn lists_in_settings_are_parsed() {
    let aliases = parse_aliases("a=b,c=d=e");
    assert_eq!(aliases.get("c"), Some(&"d=e".to_string()));
    assert_eq!(aliases.len(), 2);
    assert_eq!(parse_domains("A, b"), vec!["a".to_string(), "b".to_string()]);
    let prices = parse_prices("m=1.5:2,bad=1,=3:4");
    assert_eq!(prices.len(), 1);
    assert_eq!(prices[0].model, "m");
    assert_eq!((prices[0].prompt_rate.as_str(), prices[0].completion_rate.as_str()), ("1.5", "2"));
    assert!(matches!(parse_policy("allow_all", vec![]), EgressPolicy::AllowAll));
    assert!(matches!(parse_policy("denylist", vec![]), EgressPolicy::Denylist(_)));
    assert!(matches!(parse_policy("whatever", vec![]), EgressPolicy::DenyAll));
}

// ── Connections ─────────────────────────────────────────────────────────────

fn request(text: &str) -> Incoming {
    match read_head(text.as_bytes()) {
        Ok(Some(head)) => incoming_of(&head),
        _ => panic!("the head is complete"),
    }
}

#[test]
fn heads_are_read_as_they_come() {
    assert!(matches!(read_head(b"GET / HTTP/1.1\r\nHost"), Ok(None)));
    assert!(matches!(read_head(b"\x00\x01\r\n\r\n"), Err(())));
    let mut r = HeadReader::new();
    assert!(matches!(r.push(b"POST /v1/x HTTP/1.1\r\nContent-Length: 5\r\n"), Ok(None)));
    let head = match r.push(b"\r\nab") {
        Ok(Some(h)) => h,
        _ => panic!("the head is complete"),
    };
    let i = incoming_of(&head);
    assert_eq!((i.method.as_str(), i.path.as_str(), i.content_length), ("POST", "/v1/x", 5));
    let mut body = r.into_body(head.length, i.content_length);
    assert_eq!(body.body(), None);
    body.push(b"cde!");
    assert_eq!(body.body(), Some(b"abcde".to_vec()));
    assert_eq!(body.everything(), b"abcde!".to_vec());
}

#[test]
fn headers_are_taken_in() {
    let i = request(
        "GET http://host/v1/models?x=1 HTTP/1.1\r\nauthorization: Bearer t \r\nX-Session-Id: s\r\n\
         Sec-WebSocket-Key: k\r\nIdempotency-Key: i\r\nAnthropic-Version: 1\r\nContent-Length: x\r\n\r\n",
    );
    assert_eq!(i.path, "/v1/models?x=1");
    assert_eq!(i.auth, some("Bearer t"));
    assert_eq!(i.session_id, some("s"));
    assert_eq!(i.ws_key, some("k"));
    assert_eq!(i.idempotency_key, some("i"));
    assert!(i.is_anthropic);
    assert_eq!(i.content_length, 0);
    let i = request("GET / HTTP/1.1\r\nAuthorization: a\r\nx-api-key: b\r\n\r\n");
    assert_eq!(i.auth, some("b"));
    assert!(i.is_anthropic);
    assert_eq!(target_path("https://h"), "https://h");
    assert_eq!(target_path("/x"), "/x");
}

#[test]
fn websocket_key_is_answered() {
    assert_eq!(compute_ws_accept("dGhlIHNhbXBsZSBub25jZQ=="), "s3pPLMBiTxaQ9kYGzzhZRbK+xOo=");
}

#[test]
fn workers_need_the_shared_key() {
    let cfg = config();
    let key = "Sec-WebSocket-Key: dGhlIHNhbXBsZSBub25jZQ==\r\n";
    let accepted = |u: Upgrade| matches!(u, Upgrade::Accepted(_));
    assert_eq!(token_from_query("/worker?a=b&token=psk1"), some("psk1"));
    assert_eq!(token_from_query("/worker"), None);
    let r = request(&format!("GET /worker?token=psk1 HTTP/1.1\r\n{}\r\n", key));
    match upgrade_worker(&r, &cfg) {
        Upgrade::Accepted(a) => assert_eq!(
            a,
            "HTTP/1.1 101 Switching Protocols\r\nUpgrade: websocket\r\nConnection: Upgrade\r\n\
             Sec-WebSocket-Accept: s3pPLMBiTxaQ9kYGzzhZRbK+xOo=\r\n\r\n"
        ),
        Upgrade::Refused(_) => panic!("the worker has the key"),
    }
    let r = request(&format!("GET /worker HTTP/1.1\r\nX-Worker-Token: Bearer psk1\r\n{}\r\n", key));
    assert!(accepted(upgrade_worker(&r, &cfg)));
    let r = request(&format!("GET /worker?token=no HTTP/1.1\r\nAuthorization: psk1\r\n{}\r\n", key));
    match upgrade_worker(&r, &cfg) {
        Upgrade::Refused(a) => {
            assert_eq!(a, "HTTP/1.1 401 Unauthorized\r\nContent-Length: 0\r\n\r\n")
        }
        Upgrade::Accepted(_) => panic!("the worker lacks the key"),
    }
    let r = request("GET /worker?token=psk1 HTTP/1.1\r\n\r\n");
    match upgrade_worker(&r, &cfg) {
        Upgrade::Refused(a) => {
            assert_eq!(a, "HTTP/1.1 400 Bad Request\r\nContent-Length: 0\r\n\r\n")
        }
        Upgrade::Accepted(_) => panic!("there is no key to answer"),
    }
    assert!(worker_is_authorized(&some("Bearer psk1"), &cfg));
    assert!(!worker_is_authorized(&None, &cfg));
}

#[test]
fn requests_are_routed_by_their_path() {
    let cfg = config();
    let front = |m: &str, p: &str| front_route_of(&request(&format!("{} {} HTTP/1.1\r\n\r\n", m, p)), &cfg);
    let back = |m: &str, p: &str, pages: bool| {
        back_route_of(&request(&format!("{} {} HTTP/1.1\r\n\r\n", m, p)), pages)
    };
    assert!(front("OPTIONS", "/x") == FrontRoute::Preflight);
    assert!(front("GET", "/metrics") == FrontRoute::Metrics);
    assert!(front("GET", "/worker?x") == FrontRoute::Worker);
    assert!(front("GET", "/v1/x") == FrontRoute::Other);
    assert!(back("GET", "/v1/cc", true) == BackRoute::PagesRedirect);
    assert!(back("GET", "/brain/ui/a.js", true) == BackRoute::Pages);
    assert!(back("GET", "/v1/cc/a.js", false) == BackRoute::Api);
    assert!(back("GET", "/v1/download/x", true) == BackRoute::Download);
    assert!(back("POST", "/v1/api/keys", true) == BackRoute::Management);
    assert!(back("POST", "/v1/messages", true) == BackRoute::Api);
    assert!(back("GET", "/other", true) == BackRoute::NotFound);
    assert!(preflight_answer().starts_with("HTTP/1.1 204 No Content\r\n"));
    assert_eq!(
        redirect_answer("/v1/cc"),
        "HTTP/1.1 301 Moved Permanently\r\nLocation: /v1/cc/\r\nContent-Length: 0\r\n\r\n"
    );
}

#[test]
fn downloads_stay_in_their_directory() {
    assert_eq!(download_name("/v1/download/a%20b.zip"), some("a b.zip"));
    assert_eq!(download_name("/v1/download/..%2Fx"), None);
    assert_eq!(download_name("/v1/download/a\\b"), None);
    assert_eq!(download_name("/v1/download/..x"), None);
    assert_eq!(
        download_head("/d/a.json", 7, "a.json"),
        "HTTP/1.1 200 OK\r\nContent-Type: application/json\r\nContent-Length: 7\r\n\
         Content-Disposition: attachment; filename=\"a.json\"\r\n\r\n"
    );
    assert!(download_head("/d/a", 7, "a").contains("application/octet-stream"));
}

#[test]
fn pages_fall_back_to_the_start_page() {
    assert_eq!(asset_file_of("/brain/ui/"), "index.html");
    assert_eq!(asset_file_of("/v1/cc/a/b.js"), "a/b.js");
    match choose_asset("a.css", true, true) {
        AssetChoice::File(m) => assert_eq!(m, "text/css"),
        _ => panic!("the file is there"),
    }
    match choose_asset("users", false, true) {
        AssetChoice::StartPage(m) => assert_eq!(m, "text/html"),
        _ => panic!("the start page"),
    }
    assert!(matches!(choose_asset("a.css", false, true), AssetChoice::Missing));
    assert!(matches!(choose_asset("users", false, false), AssetChoice::Missing));
}

#[test]
fn kept_answers_have_a_head() {
    assert_eq!(
        kept_head(429, "a/b", 3),
        "HTTP/1.1 429 Too Many Requests\r\nContent-Type: a/b\r\nContent-Length: 3\r\n\r\n"
    );
    assert_eq!(
        cached_head(429, "a/b", 3),
        "HTTP/1.1 429 Internal Server Error\r\nContent-Type: a/b\r\nContent-Length: 3\r\n\r\n"
    );
    assert_eq!(cached_head(200, "a/b", 3), kept_head(200, "a/b", 3));
}

// ── Answers ─────────────────────────────────────────────────────────────────

#[test]
fn answers_are_written_out() {
    assert_eq!(
        render(&build_error_response(404, "c", "m")),
        "{\"error\":{\"code\":404,\"message\":\"m\",\"type\":\"c\"}}"
    );
    assert_eq!(
        json_200(&json("{}")),
        "HTTP/1.1 200 OK\r\nContent-Type: application/json\r\nAccess-Control-Allow-Origin: *\r\nContent-Length: 2\r\n\r\n{}"
    );
    assert!(raw_json(504, &json("[]")).starts_with("HTTP/1.1 504 Gateway Timeout\r\n"));
    assert!(json_error(413, "c", "m").starts_with("HTTP/1.1 413 Internal Server Error\r\n"));
    assert_eq!(json_error(400, "c", "m"), Refusal::new(400, "c", "m").render());
    assert!(event_stream_head().contains("text/event-stream"));
    assert_eq!(
        plain_json("{}"),
        "HTTP/1.1 200 OK\r\nContent-Type: application/json\r\nContent-Length: 2\r\n\r\n{}"
    );
    assert!(traced_json("r1", "{}").contains("x-request-id: r1\r\n"));
}

#[test]
fn long_texts_are_cut_for_the_log() {
    assert_eq!(truncate_for_log("short"), "short");
    let long = "é".repeat(301);
    assert_eq!(truncate_for_log(&long), format!("{}… (602 bytes total)", "é".repeat(300)));
}

#[test]
fn tokens_are_taken_from_the_header() {
    assert_eq!(extract_token(&some("Bearer  t ")), some("t"));
    assert_eq!(extract_token(&some(" t ")), some("t"));
    assert_eq!(extract_token(&some("")), None);
    assert_eq!(extract_token(&None), None);
    assert_eq!(anthropic_token(&None), "");
}

// ── Who is asking ───────────────────────────────────────────────────────────

fn now_s() -> u64 {
    std::time::SystemTime::now().duration_since(std::time::UNIX_EPOCH).unwrap().as_secs()
}

#[test]
fn tokens_are_opened_with_their_secret_only() {
    let token = create_jwt(7, "a@b", true, "s", now_s());
    let claims = verify_jwt(&token, "s").unwrap();
    assert_eq!((claims.sub.as_str(), claims.email.as_str(), claims.is_admin), ("7", "a@b", true));
    assert!(verify_jwt(&token, "other").is_none());
    assert!(verify_jwt("junk", "s").is_none());
    let old = create_jwt(7, "a@b", true, "s", 1000);
    assert!(verify_jwt(&old, "s").is_none());
}

#[test]
fn claims_need_all_their_fields() {
    assert!(claims_from_json(&json("{\"sub\":\"1\",\"exp\":2,\"is_admin\":false,\"email\":\"e\"}")).is_some());
    assert!(claims_from_json(&json("{\"sub\":\"1\",\"exp\":2,\"email\":\"e\"}")).is_none());
}

#[test]
fn callers_are_identified() {
    let cfg = config();
    let token = create_jwt(7, "a@b", false, &cfg.jwt_secret, now_s());
    assert_eq!(identify("psk1", &cfg, None), Some(None));
    assert_eq!(identify("key", &cfg, Some(3)), Some(Some(3)));
    assert_eq!(identify(&token, &cfg, None), Some(Some(7)));
    assert_eq!(identify("nobody", &cfg, None), None);
    assert!(validate_token("psk1", &cfg, false));
    assert!(validate_token("key", &cfg, true));
    assert!(!validate_token("nobody", &cfg, false));
    match authenticate(&None, &cfg, None) {
        Err(e) => assert_eq!((e.status, e.code.as_str()), (401, "missing_auth")),
        Ok(_) => panic!("nobody is asking"),
    }
    match authenticate(&some("Bearer nobody"), &cfg, None) {
        Err(e) => assert_eq!((e.status, e.code.as_str()), (401, "invalid_auth")),
        Ok(_) => panic!("nobody is known"),
    }
    assert!(matches!(authenticate(&some("Bearer psk1"), &cfg, None), Ok(None)));
    assert!(bad_key_answer().contains("Invalid x-api-key"));
}

#[test]
fn administrators_are_known() {
    let cfg = config();
    let admin = create_jwt(7, "a@b", true, &cfg.jwt_secret, now_s());
    let user = create_jwt(8, "a@b", false, &cfg.jwt_secret, now_s());
    assert!(require_admin_auth(&some("psk1"), &cfg, false));
    assert!(require_admin_auth(&Some(admin), &cfg, false));
    assert!(!require_admin_auth(&Some(user.clone()), &cfg, true));
    assert!(require_admin_auth(&some("key"), &cfg, true));
    assert!(!require_admin_auth(&None, &cfg, true));
    assert_eq!(get_user_id_from_auth(&Some(user), &cfg, None), Some(8));
    assert_eq!(get_user_id_from_auth(&some("psk1"), &cfg, Some(4)), None);
    assert_eq!(get_user_id_from_auth(&some("key"), &cfg, Some(4)), Some(4));
}

#[test]
fn accounts_are_vouched_for_and_approved() {
    assert_eq!(
        vouched_identity(&json("{\"email\":\"a@b\",\"name\":\"N\"}")),
        Ok(("a@b".to_string(), "N".to_string()))
    );
    assert_eq!(vouched_identity(&json("{}")), Err("No email in token".to_string()));
    assert_eq!(
        vouched_identity(&json("{\"error_description\":\"bad\",\"email\":\"a@b\"}")),
        Err("bad".to_string())
    );
    assert_eq!(
        vouched_identity(&json("{\"error_description\":1}")),
        Err("Invalid token".to_string())
    );
    assert_eq!(vouched_in("{\"email\":\"a@b\"}"), Ok(("a@b".to_string(), String::new())));
    assert_eq!(vouched_in("junk"), Err("expected value at line 1 column 1".to_string()));
    assert!(new_account_is_trusted(0));
    assert!(!new_account_is_trusted(1));
    let mut u = UserInfo {
        id: 1,
        email: "a@b".to_string(),
        name: None,
        is_admin: false,
        is_approved: false,
        created_at: 0,
    };
    assert_eq!(login(&u, "s", now_s()), Err("Account pending administrator approval".to_string()));
    u.is_approved = true;
    let token = login(&u, "s", now_s()).unwrap();
    assert_eq!(verify_jwt(&token, "s").unwrap().sub, "1");
}

#[test]
fn keys_are_random_and_their_names_unique() {
    let k = new_api_key();
    assert_eq!(k.len(), 51);
    assert!(k.starts_with("sk-"));
    assert!(k[3..].chars().all(|c| c.is_ascii_alphanumeric()));
    assert!(k != new_api_key());
    let a = match generate_api_key(5, "n", 0, 99) {
        Ok(a) => a,
        Err(e) => panic!("{}", e),
    };
    assert_eq!((a.user_id, a.name.as_str(), a.created_at, a.last_used), (5, "n", 99, None));
    match generate_api_key(5, "n", 1, 99) {
        Err(e) => assert_eq!(e, "An API key with this name already exists"),
        Ok(_) => panic!("the name is taken"),
    }
}

// ── Routes of the API ───────────────────────────────────────────────────────

#[test]
fn api_paths_are_told_apart() {
    assert!(api_route_of("GET", "/v1/models?x") == ApiRoute::Models);
    assert!(api_route_of("POST", "/v1/chat/completions") == ApiRoute::Chat);
    assert!(api_route_of("GET", "/v1/chat/completions") == ApiRoute::Unknown);
    let e = unknown_endpoint("GET", "/v1/x?y");
    assert_eq!((e.status, e.message.as_str()), (404, "Unknown endpoint: GET /v1/x"));
    assert!(anthropic_route_of("/v1/models?limit=100") == AnthropicRoute::Models);
    assert!(anthropic_route_of("/v1/messages?beta=true") == AnthropicRoute::Messages);
    assert!(anthropic_route_of("/v1/other") == AnthropicRoute::Unknown);
}

#[test]
fn models_and_aliases_are_listed_once() {
    let cfg = config_with(vec![("BRAIN_MODEL_ALIASES", "b=x,c=x")]);
    let mut w = WorkerRegistry::new();
    w.register(worker("w1", "b", 0, 0, 0));
    w.register(worker("w2", "a", 0, 0, 0));
    assert_eq!(model_names(&w, &cfg), vec!["a".to_string(), "b".to_string(), "c".to_string()]);
    assert_eq!(w.active_models(), vec!["a".to_string(), "b".to_string()]);
    let r = anthropic_models_response(&w.active_models());
    assert_eq!(r.data.len(), 2);
    assert_eq!(r.first_id, some("a"));
    assert_eq!(r.last_id, some("b"));
    assert_eq!(r.has_more, false);
    assert_eq!(r.data[0].type_, "model");
}

// ── Management ──────────────────────────────────────────────────────────────

#[test]
fn management_paths_are_told_apart() {
    assert!(matches!(
        management_route_of("POST", "/v1/api/admin/users/7/approve"),
        ManagementRoute::ApproveUser(Some(7))
    ));
    assert!(matches!(
        management_route_of("POST", "/v1/api/admin/users/approve"),
        ManagementRoute::ApproveUser(None)
    ));
    assert!(matches!(
        management_route_of("DELETE", "/v1/api/admin/users/-3"),
        ManagementRoute::DeleteUser(Some(-3))
    ));
    assert!(matches!(
        management_route_of("POST", "/v1/api/admin/users/7/revoke-admin"),
        ManagementRoute::SetAdmin { user: Some(7), grant: false }
    ));
    assert!(matches!(
        management_route_of("POST", "/v1/api/admin/users/7/admin"),
        ManagementRoute::SetAdmin { user: Some(7), grant: true }
    ));
    match management_route_of("DELETE", "/v1/api/keys/sk-1?x") {
        ManagementRoute::DeleteOwnKey(k) => assert_eq!(k, "sk-1"),
        _ => panic!("a key is deleted"),
    }
    match management_route_of("GET", "/v1/api/admin/telemetry?session=s1") {
        ManagementRoute::Telemetry(s) => assert_eq!(s, "s1"),
        _ => panic!("telemetry"),
    }
    assert_eq!(session_of("/x?session=a&session=b"), "a&");
    assert_eq!(session_of("/x"), "");
    assert!(matches!(management_route_of("GET", "/v1/api/health"), ManagementRoute::Health));
    match management_route_of("PUT", "/v1/api/x?y") {
        ManagementRoute::Unknown(p) => assert_eq!(p, "/v1/api/x"),
        _ => panic!("unknown"),
    }
}

#[test]
fn management_is_guarded() {
    let stats = management_route_of("GET", "/v1/api/admin/stats");
    assert!(access_of(&stats) == Access::Administrator);
    match check_access(&stats, false, Some(1)) {
        Some(e) => assert_eq!((e.status, e.message.as_str()), (403, "Admin required")),
        None => panic!("not for everybody"),
    }
    assert!(check_access(&stats, true, None).is_none());
    let keys = management_route_of("GET", "/v1/api/keys");
    assert!(access_of(&keys) == Access::User);
    match check_access(&keys, true, None) {
        Some(e) => assert_eq!((e.status, e.code.as_str()), (401, "unauthorized")),
        None => panic!("somebody must ask"),
    }
    let health = management_route_of("GET", "/v1/api/health");
    assert!(access_of(&health) == Access::Anyone);
    assert!(check_access(&health, false, None).is_none());
    let bad = management_route_of("DELETE", "/v1/api/admin/users/x");
    match check_access(&bad, true, None) {
        Some(e) => assert_eq!((e.status, e.code.as_str()), (400, "bad_id")),
        None => panic!("no user is named"),
    }
    let nothing = management_route_of("DELETE", "/v1/api/keys/");
    match check_access(&nothing, false, None) {
        Some(e) => assert_eq!((e.status, e.code.as_str()), (400, "missing_field")),
        None => panic!("no key is named"),
    }
    match check_access(&management_route_of("PUT", "/v1/api/x"), true, Some(1)) {
        Some(e) => assert_eq!((e.status, e.message.as_str()), (404, "Unknown: /v1/api/x")),
        None => panic!("nothing is there"),
    }
}

#[test]
fn bodies_of_management_are_read_and_written() {
    assert_eq!(render(&body_value(b"junk")), "{}");
    assert_eq!(id_token_of(&json("{\"id_token\":\"t\"}")).ok(), some("t"));
    assert!(id_token_of(&json("{}")).is_err());
    assert_eq!(key_name_of(&json("{}")), "default");
    assert_eq!(key_name_of(&json("{\"name\":\"n\"}")), "n");
    assert_eq!(key_user_of(&json("{\"user_id\":5}")).ok(), Some(5));
    assert!(key_user_of(&json("{\"user_id\":0}")).is_err());
    assert!(key_user_of(&json("{}")).is_err());
    assert_eq!(render(&health_body(0)), "{\"ok\":true,\"status\":\"no_workers\",\"workers\":0}");
    assert_eq!(render(&health_body(2)), "{\"ok\":true,\"status\":\"ready\",\"workers\":2}");
    assert_eq!(
        render(&settings_body(&some(" "), 4)),
        "{\"hosted_tool_max_rounds\":4,\"searxng_configured\":false,\"searxng_url\":\" \"}"
    );
    assert_eq!(
        render(&telemetry_hint()),
        "{\"metrics\":[],\"note\":\"add ?session=SESSION_ID\"}"
    );
    assert_eq!(
        test_url(&some("http://h/")).ok(),
        some("http://h/search?q=connectivity+check&format=json")
    );
    assert!(test_url(&None).is_err());
    assert!(render(&test_body(200, "[]")).contains("\"returned_json\":true"));
    assert!(render(&test_body(200, "<html>")).contains("\"returned_json\":false"));
    let e = unreachable_engine("http://h", "x");
    assert_eq!((e.status, e.message.as_str()), (502, "Could not reach SearxNG at http://h: x"));
}

#[test]
fn use_counts_by_the_day_and_by_the_calendar_month() {
    // Noon of 15 November 2026: the month started on 1 November, and 25 October is before it.
    assert_eq!(usage_windows(1794744000), (1794700800, 1793491200));
    assert!(1792929600 < usage_windows(1794744000).1);
    assert_eq!(usage_windows(0), (0, 0));
    assert_eq!(usage_windows(86400 * 40 + 5), (86400 * 40, 86400 * 31));
    // The last second of a leap February, and the first of March.
    assert_eq!(usage_windows(951868799).1, 949363200);
    assert_eq!(usage_windows(951868800).1, 951868800);
    // 2100 has no 29 February.
    assert_eq!(usage_windows(4107542400).1, 4107542400);
    assert_eq!(usage_windows(4107542399).1, 4105123200);
    // The end of a year.
    assert_eq!(usage_windows(1798761599).1, 1796083200);
    assert_eq!(usage_windows(1798761600).1, 1798761600);
}

// ── Messages and tools ──────────────────────────────────────────────────────

#[test]
fn openai_messages_are_taken_in() {
    let m = message_from_openai_value(&json(
        "{\"role\":\"user\",\"content\":[{\"type\":\"text\",\"text\":\"a\"},{\"type\":\"image_url\"},{\"type\":\"text\",\"text\":\"b\"}]}",
    ));
    assert_eq!(m.role, "user");
    assert_eq!(m.content.to_text(), "a\nb");
    let m = message_from_openai_value(&json(
        "{\"role\":\"assistant\",\"content\":null,\"tool_calls\":[{\"id\":\"c\",\"type\":\"function\",\"function\":{\"name\":\"f\",\"arguments\":\"{}\"}}]}",
    ));
    assert_eq!(m.content.as_str(), "");
    assert_eq!(m.tool_calls.map(|c| c.len()), Some(1));
}

#[test]
fn tools_and_choices_are_taken_in() {
    let t = openai_tool_json_to_protocol_tool(&json(
        "{\"type\":\"function\",\"function\":{\"name\":\"f\",\"description\":\"d\",\"parameters\":{}}}",
    ))
    .unwrap();
    assert_eq!((t.function.name.as_str(), t.function.description), ("f", some("d")));
    assert!(openai_tool_json_to_protocol_tool(&json("{}")).is_none());
    match openai_tool_choice_json_to_protocol(&json("\"required\"")) {
        ToolChoice::Mode(m) => assert_eq!(m, "required"),
        _ => panic!("a mode"),
    }
    match openai_tool_choice_json_to_protocol(&json("{\"type\":\"function\",\"function\":{\"name\":\"f\"}}")) {
        ToolChoice::Specific(s) => assert_eq!(s.function.name, "f"),
        _ => panic!("a function"),
    }
    assert_eq!(stop_sequences_from_value(&json("\"x\"")), Some(vec!["x".to_string()]));
    assert_eq!(
        stop_sequences_from_value(&json("[\"x\",\"y\"]")),
        Some(vec!["x".to_string(), "y".to_string()])
    );
    assert_eq!(stop_sequences_from_value(&json("1")), None);
}

#[test]
fn prompts_are_estimated() {
    let short = vec![Message {
        role: "user".to_string(),
        content: MessageContent::Text("x".repeat(400)),
        tool_calls: None,
        tool_call_id: None,
    }];
    let long = vec![Message {
        role: "user".to_string(),
        content: MessageContent::Text("x".repeat(4000)),
        tool_calls: None,
        tool_call_id: None,
    }];
    assert!(estimate_prompt_tokens(&short, &None) < estimate_prompt_tokens(&long, &None));
    assert!(estimate_prompt_tokens(&short, &None) >= 100);
}

#[test]
fn legacy_functions_become_tools() {
    let tools = legacy_functions_to_tools(&json("[{\"name\":\"f\"}]")).unwrap();
    assert_eq!(
        render(&tools[0]),
        "{\"function\":{\"description\":null,\"name\":\"f\",\"parameters\":null},\"type\":\"function\"}"
    );
    assert!(legacy_functions_to_tools(&json("{}")).is_none());
    assert_eq!(render(&legacy_function_call_to_tool_choice(&json("\"auto\""))), "\"auto\"");
    assert_eq!(
        render(&legacy_function_call_to_tool_choice(&json("{\"name\":\"f\"}"))),
        "{\"function\":{\"name\":\"f\"},\"type\":\"function\"}"
    );
}

// ── Admission ───────────────────────────────────────────────────────────────

fn chat(model: &str, messages: &str) -> ChatCompletionsRequest {
    ChatCompletionsRequest {
        model: model.to_string(),
        messages: match json(messages) {
            Json::Array(a) => a,
            _ => panic!("no list"),
        },
        stream: true,
        tools: None,
        tool_choice: None,
        parallel_tool_calls: None,
        max_tokens: None,
        temperature: None,
        top_p: None,
        response_format: None,
        stop: Some(json("\"END\"")),
        extra: object("{\"functions\":[{\"name\":\"f\"}],\"function_call\":\"auto\"}"),
    }
}

fn ids() -> RequestIds {
    RequestIds { request_id: "r1".to_string(), session_id: "s1".to_string() }
}

#[test]
fn chat_becomes_a_task_for_the_best_worker() {
    let cfg = config_with(vec![("BRAIN_MODEL_ALIASES", "gpt-4=qwen")]);
    let mut w = WorkerRegistry::new();
    w.register(worker("w1", "llama", 0, 8192, 0));
    w.register(worker("w2", "qwen2.5", 3, 8192, 0));
    let a = match admit_chat(
        &chat("gpt-4", "[{\"role\":\"user\",\"content\":\"hi\"}]"),
        &cfg,
        &w,
        &num("0.7"),
        &ids(),
    ) {
        Ok(a) => a,
        Err(e) => panic!("{}", e.message),
    };
    assert_eq!(a.worker_id, "w2");
    assert_eq!(a.task.model, "qwen2.5");
    assert_eq!(a.task.max_tokens, 4096);
    assert_eq!(render(&Json::Number(a.task.temperature)), "0.7");
    assert_eq!(a.task.stop, Some(vec!["END".to_string()]));
    assert_eq!(a.task.tools.map(|t| t.len()), Some(1));
    assert!(matches!(a.task.tool_choice, Some(ToolChoice::Mode(_))));
    assert_eq!(a.task.stream, true);
    assert!(!a.hosted);
}

fn refusal(model: &str, messages: &str, w: &WorkerRegistry) -> (u16, String) {
    match admit_chat(&chat(model, messages), &config(), w, &num("0.7"), &ids()) {
        Ok(_) => panic!("the request is refused"),
        Err(e) => (e.status, e.code),
    }
}

#[test]
fn chat_is_refused_for_three_reasons() {
    let none = WorkerRegistry::new();
    let hello = "[{\"role\":\"user\",\"content\":\"hi\"}]";
    assert_eq!(refusal("m", "[]", &none), (400, "invalid_request".to_string()));
    assert_eq!(refusal("m", hello, &none), (503, "no_worker_available".to_string()));
    let mut small = WorkerRegistry::new();
    small.register(worker("w1", "m", 0, 10, 0));
    let long = format!("[{{\"role\":\"user\",\"content\":\"{}\"}}]", "x".repeat(1000));
    assert_eq!(refusal("m", &long, &small), (413, "context_length_exceeded".to_string()));
}

fn anthropic(tools: Option<Vec<AnthropicTool>>) -> AnthropicRequest {
    AnthropicRequest {
        model: "m".to_string(),
        max_tokens: Some(50),
        temperature: None,
        top_p: None,
        stream: Some(true),
        system: None,
        messages: vec![AnthropicMessage {
            role: "user".to_string(),
            content: json("\"hi\""),
            extra: Object::new(),
        }],
        tools,
        tool_choice: None,
        metadata: None,
        output_config: None,
        thinking: None,
        extra: object("{\"top_k\":40,\"stop_sequences\":[\"END\"]}"),
    }
}

#[test]
fn anthropic_request_becomes_a_task() {
    let mut w = WorkerRegistry::new();
    w.register(worker("w1", "m", 0, 0, 0));
    let req = anthropic(None);
    assert_eq!(required_max_tokens(&req), 50);
    assert_eq!(extract_top_k(&req), Some(40));
    assert_eq!(extract_stop_sequences(&req), Some(vec!["END".to_string()]));
    let a = match admit_anthropic(&req, &config(), &w, &num("1.0"), &ids()) {
        Ok(a) => a,
        Err(e) => panic!("{}", e.message),
    };
    assert_eq!(a.task.top_k, Some(40));
    assert_eq!(a.task.stop, Some(vec!["END".to_string()]));
    assert_eq!(a.task.parallel_tool_calls, Some(true));
    assert!(!a.hosted);
}

#[test]
fn hosted_tools_are_offered_as_functions() {
    let mut w = WorkerRegistry::new();
    w.register(worker("w1", "m", 0, 0, 0));
    let req = anthropic(Some(vec![AnthropicTool {
        name: "web_search".to_string(),
        description: None,
        input_schema: None,
        extra: object("{\"type\":\"web_search_20250305\"}"),
    }]));
    let cfg = config_with(vec![("BRAIN_SEARXNG_URL", "http://search:8080")]);
    let a = match admit_anthropic(&req, &cfg, &w, &num("1.0"), &ids()) {
        Ok(a) => a,
        Err(e) => panic!("{}", e.message),
    };
    assert!(a.hosted);
    let tools = a.task.tools.unwrap();
    assert_eq!(tools.len(), 2);
    assert_eq!(tools[0].function.name, "web_search");
    assert_eq!(tools[1].function.name, "web_fetch");

    // Without a search engine the client is told so, and no task is made.
    let e = match admit_anthropic(&req, &config(), &w, &num("1.0"), &ids()) {
        Ok(_) => panic!("a task"),
        Err(e) => e,
    };
    assert_eq!((e.status, e.code.as_str()), (400, "not_configured"));
    assert!(e.message.contains("BRAIN_SEARXNG_URL"));
}

// ── Workers ─────────────────────────────────────────────────────────────────

#[test]
fn least_loaded_matching_worker_is_picked() {
    let mut w = WorkerRegistry::new();
    w.register(worker("w1", "qwen", 5, 100, 0));
    w.register(worker("w2", "qwen", 2, 200, 0));
    w.register(worker("w3", "llama", 0, 300, 0));
    assert_eq!(w.pick_best(&some("qwen")), Some(("w2".to_string(), 200)));
    assert_eq!(w.pick_best(&None), Some(("w3".to_string(), 300)));
    assert_eq!(
        w.pick_best_lenient("other"),
        Some(("w3".to_string(), "llama".to_string(), 300))
    );
    assert_eq!(w.count(), 3);
    assert!(WorkerRegistry::new().pick_best(&None).is_none());
}

#[test]
fn exact_model_is_picked_first() {
    let mut w = WorkerRegistry::new();
    w.register(worker("A", "qwen", 5, 8192, 0));
    w.register(worker("B", "qwen2.5", 0, 100, 0));
    w.register(worker("C", "llama", 0, 200, 0));
    assert_eq!(w.pick_best(&some("qwen")), Some(("A".to_string(), 8192)));
    assert_eq!(w.pick_best(&some("qwen2")), Some(("B".to_string(), 100)));
    assert_eq!(
        w.pick_best_lenient("qwen"),
        Some(("B".to_string(), "qwen2.5".to_string(), 100))
    );
}

#[test]
fn load_and_health_are_followed() {
    let mut w = WorkerRegistry::new();
    w.register(worker("w1", "qwen", 0, 100, 0));
    w.decrement_active("w1");
    assert_eq!(w.active_requests("w1"), 0);
    w.increment_active("w1");
    assert_eq!(w.active_requests("w1"), 1);
    w.update_load("w1", 7, 50, 2000);
    w.update_model("w1", "llama");
    w.heartbeat("gone", 5);
    let s = w.list_all(5500);
    assert_eq!(s.len(), 1);
    assert_eq!((s[0].active_requests, s[0].vram_free_mb), (7, 50));
    assert_eq!((s[0].last_heartbeat_s, s[0].connected_s), (3, 5));
    assert_eq!(s[0].model, "llama");
    assert_eq!(w.drop_stale(47999).len(), 0);
    assert_eq!(w.drop_stale(48000), vec!["w1".to_string()]);
    assert_eq!(w.count(), 0);
    assert!(!w.deregister("w1"));
}

#[test]
fn stranded_requests_are_failed() {
    let mut r = Router::new();
    r.register_pending("a", "w1");
    r.register_pending("b", "w2");
    r.register_pending("c", "w1");
    let failed = r.fail_all_for_worker("w1");
    let mut names: Vec<String> = failed.iter().map(|d| d.request_id.clone()).collect();
    names.sort();
    assert_eq!(names, vec!["a".to_string(), "c".to_string()]);
    assert!(failed.iter().all(|d| d.finish_reason == FinishReason::Error));
    assert!(r.is_pending("b"));
    let (w, c) = r.cancel("b").unwrap();
    assert_eq!((w.as_str(), c.request_id.as_str()), ("w2", "b"));
    assert!(r.cancel("b").is_none());
    r.finish("x");
}

// ── The tunnel ──────────────────────────────────────────────────────────────

#[test]
fn tunnel_pings_waits_and_gives_up() {
    let mut c = TunnelClock::new(0);
    assert!(c.due(0) == Due::Wait(5000));
    assert!(c.due(24000) == Due::Wait(1000));
    assert!(c.due(25000) == Due::Ping);
    c.pinged(25000);
    assert!(c.due(26000) == Due::Wait(5000));
    assert!(c.due(91000) == Due::Close);
    c.heard(30000);
    assert!(c.due(91000) == Due::Ping);
}

#[test]
fn worker_must_register_first() {
    let mut w = WorkerRegistry::new();
    assert_eq!(on_first_message(WorkerMessage::Ping, &mut w, 0), None);
    let hello = WorkerMessage::Register(registration("w1", "qwen", 0, 100));
    assert_eq!(on_first_message(hello, &mut w, 0), some("w1"));
    assert_eq!(w.count(), 1);
}

#[test]
fn messages_of_a_worker_are_acted_on() {
    let mut w = WorkerRegistry::new();
    let mut r = Router::new();
    let mut m = Metrics::new();
    w.register(worker("w1", "qwen", 0, 100, 0));
    let beat = WorkerMessage::Heartbeat(HeartbeatMsg {
        worker_id: "w1".to_string(),
        model: "llama".to_string(),
        vram_free_mb: 9,
        active_requests: 4,
    });
    assert!(matches!(on_message(beat, "w1", &mut w, &mut r, &mut m, 10), TunnelAction::Ping));
    assert_eq!(w.active_requests("w1"), 4);
    r.register_pending("q", "w1");
    let chunk = WorkerMessage::Chunk(ChunkMessage {
        request_id: "q".to_string(),
        delta: "data: {}".to_string(),
        is_tool_call: false,
    });
    assert!(matches!(on_message(chunk, "w1", &mut w, &mut r, &mut m, 20), TunnelAction::Chunk(_)));
    let done = WorkerMessage::Done(DoneMessage {
        request_id: "q".to_string(),
        finish_reason: FinishReason::Stop,
        prompt_tokens: 1,
        comp_tokens: 1,
    });
    assert!(matches!(on_message(done, "w1", &mut w, &mut r, &mut m, 30), TunnelAction::Done(_)));
    assert!(!r.is_pending("q"));
    assert_eq!(w.active_requests("w1"), 3);
    r.register_pending("q2", "w1");
    let error = WorkerMessage::Error(ErrorMessage {
        request_id: "q2".to_string(),
        message: "x".to_string(),
        code: 502,
    });
    match on_message(error, "w1", &mut w, &mut r, &mut m, 40) {
        TunnelAction::Done(d) => assert!(d.finish_reason == FinishReason::Error),
        _ => panic!("the request is over"),
    }
    assert_eq!(w.active_requests("w1"), 2);
    assert!(matches!(
        on_message(WorkerMessage::Ping, "w1", &mut w, &mut r, &mut m, 50),
        TunnelAction::Nothing
    ));
    let out = m.render_prometheus(&StrMap::new(), &StrMap::new());
    assert!(out.contains("brain_worker_health{worker=\"w1\"} 1\n"));
    assert!(out.contains("brain_queue_depth{worker=\"w1\"} 3\n"));
    r.register_pending("q3", "w1");
    assert_eq!(on_close("w1", &mut w, &mut r).len(), 1);
    assert_eq!(w.count(), 0);
}

#[test]
fn failed_send_is_not_counted() {
    let mut w = WorkerRegistry::new();
    w.register(worker("w1", "qwen", 0, 100, 0));
    let cancel = WorkerMessage::Cancel(CancelMessage { request_id: "q".to_string() });
    before_send(&cancel, "w1", &mut w);
    assert_eq!(w.active_requests("w1"), 0);
    after_failed_send(&cancel, "w1", &mut w);
    assert_eq!(w.active_requests("w1"), 0);
}

// ── Repeated requests ───────────────────────────────────────────────────────

fn kept(body: &str) -> IdempotentResponse {
    IdempotentResponse {
        status: 200,
        body: body.as_bytes().to_vec(),
        content_type: "application/json".to_string(),
        created_at: 0,
    }
}

#[test]
fn answers_are_kept_for_a_while() {
    let mut s = IdempotencyStore::new(2, 10);
    s.put("a", kept("1"), 0);
    assert_eq!(s.get("a", 9000).map(|r| r.body), Some(b"1".to_vec()));
    assert!(s.get("b", 0).is_none());
    s.put("b", kept("2"), 5000);
    s.put("c", kept("3"), 6000);
    assert!(s.get("a", 6000).is_none());
    assert!(s.get("b", 6000).is_some());
    assert!(s.get("c", 6000).is_some());
    s.cleanup(100000);
    assert!(s.get("c", 100000).is_none());
}

// ── Metrics ─────────────────────────────────────────────────────────────────

#[test]
fn counters_are_written_out() {
    let mut m = Metrics::new();
    m.record_request("w", "m", 200);
    m.record_request("w", "m", 200);
    m.record_ttft("w", "m", 300);
    m.record_rate("w", "m", 2500);
    m.record_cache_ratio("w", 1, 4);
    m.record_tool_call("f", "ok");
    m.set_worker_health("w", false);
    let rates = m.rates();
    assert_eq!(rates.len(), 1);
    assert_eq!((rates[0].over, rates[0].under), (2500, 1));
    let ratios = m.ratios();
    assert_eq!((ratios[0].over, ratios[0].under), (1, 4));
    let mut shown: StrMap<String> = StrMap::new();
    shown.insert("w:m", "2.50".to_string());
    let out = m.render_prometheus(&shown, &StrMap::new());
    assert!(out.contains("brain_requests_total{worker=\"w\",model=\"m\",status=\"200\"} 2\n"));
    assert!(out.contains("brain_ttft_ms_bucket{worker=\"w\",model=\"m\",le=\"500\"} 1\n"));
    assert!(out.contains("brain_ttft_ms_bucket{worker=\"w\",model=\"m\",le=\"+Inf\"} 1\n"));
    assert!(!out.contains("le=\"250\""));
    assert!(out.contains("brain_tokens_per_sec{worker=\"w\",model=\"m\"} 2.50\n"));
    assert!(out.contains("brain_tool_call_total{tool_name=\"f\",status=\"ok\"} 1\n"));
    assert!(out.contains("brain_worker_health{worker=\"w\"} 0\n"));
}
