//! What comes in over the wire and goes out over it.
use vstd::prelude::*;

use crate::brain::accept::{self, IncomingModel};
use crate::brain::api;
use crate::brain::auth;
use crate::brain::config::{self, PolicyModel, PriceModel, Vars};
use crate::brain::http;
use crate::brain::management::{self, RouteModel};
use crate::lmodel::ws;
use crate::text;
use crate::text_laws;
use crate::weburl::UrlModel;

verus! {

// ── Requests ────────────────────────────────────────────────────────────────

/// A header that says who asks is read, whichever of its names it has, and so are those that
/// name a session, a key for repeated requests and a tunnel; each says nothing else, but that
/// two of them tell an Anthropic client.
pub proof fn headers_are_read(r: IncomingModel, value: Seq<u8>, t: Seq<char>)
    requires
        vstd::utf8::valid_utf8(value),
        text::trim(vstd::utf8::decode_utf8(value)) == t,
    ensures
        accept::with_header(r, "authorization"@, value) == (IncomingModel { auth: Some(t), ..r }),
        accept::with_header(r, "x-worker-token"@, value) == (IncomingModel { auth: Some(t), ..r }),
        accept::with_header(r, "x-api-key"@, value) == (IncomingModel {
            auth: Some(t),
            is_anthropic: true,
            ..r
        }),
        accept::with_header(r, "anthropic-version"@, value) == (IncomingModel {
            is_anthropic: true,
            ..r
        }),
        accept::with_header(r, "x-session-id"@, value) == (IncomingModel {
            session_id: Some(t),
            ..r
        }),
        accept::with_header(r, "idempotency-key"@, value) == (IncomingModel {
            idempotency_key: Some(t),
            ..r
        }),
        accept::with_header(r, "sec-websocket-key"@, value) == (IncomingModel {
            ws_key: Some(t),
            ..r
        }),
        forall|n: nat|
            t == #[trigger] text::dec(n) && n <= usize::MAX ==> accept::with_header(
                r,
                "content-length"@,
                value,
            ) == (IncomingModel { content_length: n, ..r }),
{
    header_names_differ();
    assert forall|n: nat| t == #[trigger] text::dec(n) && n <= usize::MAX implies accept::with_header(
        r,
        "content-length"@,
        value,
    ) == (IncomingModel { content_length: n, ..r }) by {
        number_is_read(n);
    }
}

proof fn number_is_read(n: nat)
    ensures
        text::parse_unsigned(text::dec(n)) == Some(n),
{
    text::dec_survives(n);
}

proof fn lower_stays(s: Seq<char>)
    requires
        forall|i: int| 0 <= i < s.len() ==> !('A' <= #[trigger] s[i] <= 'Z'),
    ensures
        text::to_ascii_lower(s) == s,
{
    assert(text::to_ascii_lower(s) =~= s);
}

proof fn header_names_differ()
    ensures
        "content-length"@ != "authorization"@,
        "content-length"@ != "x-worker-token"@,
        "content-length"@ != "x-api-key"@,
        "content-length"@ != "anthropic-version"@,
        "content-length"@ != "x-session-id"@,
        "content-length"@ != "sec-websocket-key"@,
        "content-length"@ != "idempotency-key"@,
        "authorization"@ != "x-worker-token"@,
        "authorization"@ != "x-api-key"@,
        "authorization"@ != "anthropic-version"@,
        "authorization"@ != "x-session-id"@,
        "authorization"@ != "sec-websocket-key"@,
        "authorization"@ != "idempotency-key"@,
        "x-worker-token"@ != "x-api-key"@,
        "x-worker-token"@ != "anthropic-version"@,
        "x-worker-token"@ != "x-session-id"@,
        "x-worker-token"@ != "sec-websocket-key"@,
        "x-worker-token"@ != "idempotency-key"@,
        "x-api-key"@ != "anthropic-version"@,
        "x-api-key"@ != "x-session-id"@,
        "x-api-key"@ != "sec-websocket-key"@,
        "x-api-key"@ != "idempotency-key"@,
        "anthropic-version"@ != "x-session-id"@,
        "anthropic-version"@ != "sec-websocket-key"@,
        "anthropic-version"@ != "idempotency-key"@,
        "x-session-id"@ != "sec-websocket-key"@,
        "x-session-id"@ != "idempotency-key"@,
        "sec-websocket-key"@ != "idempotency-key"@,
        text::to_ascii_lower("content-length"@) == "content-length"@,
        text::to_ascii_lower("authorization"@) == "authorization"@,
        text::to_ascii_lower("x-worker-token"@) == "x-worker-token"@,
        text::to_ascii_lower("x-api-key"@) == "x-api-key"@,
        text::to_ascii_lower("anthropic-version"@) == "anthropic-version"@,
        text::to_ascii_lower("x-session-id"@) == "x-session-id"@,
        text::to_ascii_lower("sec-websocket-key"@) == "sec-websocket-key"@,
        text::to_ascii_lower("idempotency-key"@) == "idempotency-key"@,
{
    reveal_strlit("content-length");
    reveal_strlit("authorization");
    reveal_strlit("x-worker-token");
    reveal_strlit("x-api-key");
    reveal_strlit("anthropic-version");
    reveal_strlit("x-session-id");
    reveal_strlit("sec-websocket-key");
    reveal_strlit("idempotency-key");
    assert("content-length"@.len() == 14 && "authorization"@.len() == 13);
    assert("x-worker-token"@.len() == 14 && "x-api-key"@.len() == 9);
    assert("anthropic-version"@.len() == 17 && "x-session-id"@.len() == 12);
    assert("sec-websocket-key"@.len() == 17 && "idempotency-key"@.len() == 15);
    assert("anthropic-version"@[0] == 'a' && "content-length"@[0] == 'c');
    assert("sec-websocket-key"@[0] == 's' && "x-worker-token"@[0] == 'x');
    lower_stays("content-length"@);
    lower_stays("authorization"@);
    lower_stays("x-worker-token"@);
    lower_stays("x-api-key"@);
    lower_stays("anthropic-version"@);
    lower_stays("x-session-id"@);
    lower_stays("sec-websocket-key"@);
    lower_stays("idempotency-key"@);
}

/// A token is read with or without the word before it, and without blanks around it.
pub proof fn token_is_read(token: Seq<char>)
    requires
        token.len() > 0,
        !text::is_space(token[0]),
        !text::is_space(token.last()),
    ensures
        http::token_of(Some("Bearer "@ + token)) == Some(token),
        !"Bearer "@.is_prefix_of(token) ==> http::token_of(Some(token)) == Some(token),
        http::token_of(None) is None,
{
    let p = "Bearer "@;
    let a = p + token;
    text_laws::trimmed_text_stays(token);
    text_laws::prefix_is_taken_off(a, p);
    text_laws::prefix_is_taken_off(token, p);
    assert(a.subrange(0, p.len() as int) =~= p);
    assert(a.skip(p.len() as int) =~= token);
}

// ── Tunnels ─────────────────────────────────────────────────────────────────

/// A worker that knows the shared secret is let in: the gateway finds the secret where the
/// worker puts it. The path of the gateway's address has no query of its own.
pub proof fn worker_with_the_secret_is_let_in(r: IncomingModel, u: UrlModel, secret: Seq<char>)
    requires
        u.query is None,
        !u.path.contains('?'),
        !secret.contains('&'),
        r.path == ws::path_with_token(u, secret),
    ensures
        accept::query_token(r.path) == Some(secret),
        auth::worker_may_connect(accept::shown_token(r), secret),
{
    reveal_strlit("?token=");
    reveal_strlit("token=");
    let key = "token="@;
    let path = r.path;
    let k = u.path.len() as int;
    assert("?token="@ =~= seq!['?'] + key);
    assert(path[k] == '?');
    assert forall|i: int| 0 <= i < k implies path[i] != '?' by {
        assert(path[i] == u.path[i]);
        assert(u.path.contains(path[i]));
    }
    text::span_of_is(path, '?', k);
    let query = key + secret;
    assert(path.skip(k + 1) =~= query);
    assert forall|i: int| 0 <= i < query.len() implies query[i] != '&' by {
        if i >= key.len() {
            assert(secret.contains(query[i]));
        } else {
            assert(query[i] == key[i]);
        }
    }
    text::span_of_is(query, '&', query.len() as int);
    let parts = text::split(query, '&');
    assert(parts =~= seq![query]);
    assert(query.subrange(0, key.len() as int) =~= key);
    assert(query.skip(key.len() as int) =~= secret);
    assert(text::strip_prefix(query, key) == Some(secret));
}

// ── Answers ─────────────────────────────────────────────────────────────────

/// An answer ends with a blank line and its body, whose length in bytes stands before it.
pub proof fn body_is_announced(head: Seq<char>, body: Seq<char>)
    ensures
        http::with_body(head, body) == head + "Content-Length: "@ + text::dec(
            vstd::utf8::encode_utf8(body).len(),
        ) + "\r\n\r\n"@ + body,
{
}

/// The JSON of a refusal says what kind it is, why it came, and its status.
pub proof fn refusal_is_written(status: u16, code: Seq<char>, message: Seq<char>)
    ensures
        ({
            let e = http::error_model(status, code, message).field_or_null("error"@);
            &&& e.str_at("type"@) == Some(code)
            &&& e.str_at("message"@) == Some(message)
            &&& e.unsigned_at("code"@) == Some(status as u64)
        }),
{
    reveal_strlit("type");
    reveal_strlit("message");
    reveal_strlit("code");
    assert("type"@.len() == 4 && "message"@.len() == 7 && "code"@.len() == 4);
    assert("type"@[0] == 't' && "code"@[0] == 'c');
}

// ── Management ──────────────────────────────────────────────────────────────

proof fn path_without_query(p: Seq<char>)
    requires
        !p.contains('?'),
    ensures
        api::clean(p) == p,
{
    text_laws::cut_is_at_the_first(p, '?');
    assert forall|i: int| 0 <= i < p.len() implies p[i] != '?' by {
        assert(p.contains(p[i]));
    }
    text::span_of_is(p, '?', p.len() as int);
    assert(p.take(p.len() as int) =~= p);
}

proof fn stands_between(prefix: Seq<char>, t: Seq<char>, suffix: Seq<char>)
    ensures
        ({
            let p = prefix + t + suffix;
            &&& management::between(p, prefix, suffix) == t
            &&& text::contains(p, prefix)
            &&& text::starts_with(p, prefix)
            &&& text::ends_with(p, suffix)
        }),
{
    let p = prefix + t + suffix;
    let n = prefix.len() as int;
    let m = suffix.len() as int;
    assert(p.subrange(0, n) =~= prefix);
    assert(text::occurs_at(p, prefix, 0));
    text::find_from_is_first(p, prefix, 0);
    let rest = p.skip(n);
    assert(rest =~= t + suffix);
    assert(rest.subrange(rest.len() - m, rest.len() as int) =~= suffix);
    assert(rest.take(rest.len() - m) =~= t);
    assert(p.subrange(p.len() - m, p.len() as int) =~= suffix);
}

proof fn holds_no_query(prefix: Seq<char>, t: Seq<char>, suffix: Seq<char>)
    requires
        !prefix.contains('?'),
        !t.contains('?'),
        !suffix.contains('?'),
    ensures
        !(prefix + t + suffix).contains('?'),
{
    let p = prefix + t + suffix;
    assert forall|i: int| 0 <= i < p.len() implies p[i] != '?' by {
        if i < prefix.len() {
            assert(prefix.contains(p[i]));
        } else if i < prefix.len() + t.len() {
            assert(t.contains(p[i]));
        } else {
            assert(suffix.contains(p[i]));
        }
    }
}

proof fn number_holds_no_mark(n: int)
    ensures
        !text::dec_signed(n).contains('?'),
{
    let t = text::dec_signed(n);
    if n < 0 {
        text::dec_survives((-n) as nat);
        let d = text::dec((-n) as nat);
        assert forall|i: int| 0 <= i < t.len() implies t[i] != '?' by {
            if i > 0 {
                assert(t[i] == d[i - 1]);
                assert(text::is_digit(d[i - 1]));
            }
        }
    } else {
        text::dec_survives(n as nat);
        assert forall|i: int| 0 <= i < t.len() implies t[i] != '?' by {
            assert(text::is_digit(t[i]));
        }
    }
}

/// A request about a user is about the user whose number stands in its path: to let the user in,
/// to make the user an administrator or one no more, and to delete the user.
pub proof fn user_requests_name_their_user(user: i64)
    ensures
        ({
            let t = text::dec_signed(user as int);
            let users = "/v1/api/admin/users/"@;
            &&& management::management_route("POST"@, users + t + "/approve"@)
                == RouteModel::ApproveUser(Some(user))
            &&& management::management_route("POST"@, users + t + "/admin"@)
                == (RouteModel::SetAdmin { user: Some(user), grant: true })
            &&& management::management_route("POST"@, users + t + "/revoke-admin"@)
                == (RouteModel::SetAdmin { user: Some(user), grant: false })
            &&& management::management_route("DELETE"@, users + t) == RouteModel::DeleteUser(
                Some(user),
            )
        }),
{
    let t = text::dec_signed(user as int);
    text::signed_survives(user as int);
    number_holds_no_mark(user as int);
    reveal_strlit("POST");
    reveal_strlit("DELETE");
    reveal_strlit("/approve");
    reveal_strlit("/admin");
    reveal_strlit("/revoke-admin");
    reveal_strlit("/v1/api/admin/users/");
    reveal_strlit("/v1/api/keys/");
    reveal_strlit("/v1/api/admin/keys/");
    assert("POST"@.len() == 4 && "DELETE"@.len() == 6);
    let users = "/v1/api/admin/users/"@;
    let none = Seq::<char>::empty();
    stands_between(users, t, "/approve"@);
    stands_between(users, t, "/admin"@);
    stands_between(users, t, "/revoke-admin"@);
    stands_between(users, t, none);
    holds_no_query(users, t, "/approve"@);
    holds_no_query(users, t, "/admin"@);
    holds_no_query(users, t, "/revoke-admin"@);
    holds_no_query(users, t, none);
    let a = users + t + "/approve"@;
    let b = users + t + "/admin"@;
    let c = users + t + "/revoke-admin"@;
    let d = users + t;
    assert(d + none =~= d);
    path_without_query(a);
    path_without_query(b);
    path_without_query(c);
    path_without_query(d);
    assert(b.last() == 'n' && c.last() == 'n');
    assert("/approve"@.last() == 'e');
    if text::ends_with(b, "/approve"@) {
        assert(b.subrange(b.len() - 8, b.len() as int).last() == b.last());
    }
    if text::ends_with(c, "/approve"@) {
        assert(c.subrange(c.len() - 8, c.len() as int).last() == c.last());
    }
    if text::ends_with(c, "/admin"@) {
        let x = c.subrange(c.len() - 6, c.len() as int);
        assert(x[0] == c[c.len() - 6]);
        assert(c[c.len() - 6] == "/revoke-admin"@[7]);
        assert("/revoke-admin"@[7] == '-');
        assert("/admin"@[0] == '/');
    }
    assert(d[8] == users[8] && users[8] == 'a');
    assert("/v1/api/keys/"@[8] == 'k');
    if text::starts_with(d, "/v1/api/keys/"@) {
        assert(d.subrange(0, 13)[8] == d[8]);
    }
    assert(d[14] == users[14] && users[14] == 'u');
    assert("/v1/api/admin/keys/"@[14] == 'k');
    if text::starts_with(d, "/v1/api/admin/keys/"@) {
        assert(d.subrange(0, 19)[14] == d[14]);
    }
    assert(text::strip_prefix(d, users) == Some(t)) by {
        assert(d.subrange(0, users.len() as int) =~= users);
        assert(d.skip(users.len() as int) =~= t);
    }
}

/// A request to delete a key is about the key that stands in its path, one's own or anybody's.
pub proof fn key_requests_name_their_key(key: Seq<char>)
    requires
        !key.contains('?'),
    ensures
        management::management_route("DELETE"@, "/v1/api/keys/"@ + key)
            == RouteModel::DeleteOwnKey(key),
        management::management_route("DELETE"@, "/v1/api/admin/keys/"@ + key)
            == RouteModel::DeleteAnyKey(key),
{
    reveal_strlit("/v1/api/keys/");
    reveal_strlit("/v1/api/admin/keys/");
    let none = Seq::<char>::empty();
    let own = "/v1/api/keys/"@;
    let any = "/v1/api/admin/keys/"@;
    stands_between(own, key, none);
    stands_between(any, key, none);
    holds_no_query(own, key, none);
    holds_no_query(any, key, none);
    let a = own + key;
    let b = any + key;
    assert(a + none =~= a);
    assert(b + none =~= b);
    path_without_query(a);
    path_without_query(b);
    assert(a.skip(own.len() as int) =~= key);
    assert(b.skip(any.len() as int) =~= key);
    assert(b[8] == any[8] && any[8] == 'a' && own[8] == 'k');
    if text::starts_with(b, own) {
        assert(b.subrange(0, 13)[8] == b[8]);
    }
}

// ── Settings ────────────────────────────────────────────────────────────────

/// The environment sets a name to a number.
pub open spec fn sets_number(vars: Vars, name: Seq<char>, n: nat) -> bool {
    vars.dom().contains(name) && vars[name] == text::dec(n)
}

/// The environment sets a name to a text.
pub open spec fn sets(vars: Vars, name: Seq<char>, t: Seq<char>) -> bool {
    vars.dom().contains(name) && vars[name] == t
}

/// Each number is set by its own name.
pub proof fn numbers_are_set(psk: Seq<char>, vars: Vars, n: u32)
    ensures
        ({
            let c = config::config_of(psk, vars);
            &&& sets_number(vars, "BRAIN_WORKER_TIMEOUT"@, n as nat) ==> c.worker_timeout_s == n
            &&& sets_number(vars, "BRAIN_QUEUE_TIMEOUT"@, n as nat) ==> c.queue_timeout_s == n
            &&& sets_number(vars, "BRAIN_IDEMPOTENCY_TTL"@, n as nat) ==> c.idempotency_ttl_s == n
            &&& sets_number(vars, "BRAIN_QUEUE_WAIT_BUDGET"@, n as nat) ==> c.queue_wait_budget_s
                == n
            &&& sets_number(vars, "BRAIN_PREFILL_BUDGET"@, n as nat) ==> c.prefill_budget_s == n
            &&& sets_number(vars, "BRAIN_DECODE_BUDGET"@, n as nat) ==> c.decode_budget_s == n
            &&& sets_number(vars, "BRAIN_TOOL_DISPATCH_BUDGET"@, n as nat)
                ==> c.tool_dispatch_budget_s == n
            &&& sets_number(vars, "BRAIN_DEFAULT_CTX"@, n as nat) ==> c.default_context_window == n
            &&& sets_number(vars, "BRAIN_HOSTED_TOOL_MAX_ROUNDS"@, n as nat)
                ==> c.hosted_tool_max_rounds == n
            &&& sets_number(vars, "BRAIN_STREAM_BUFFER_CHUNKS"@, n as nat) && n > 0
                ==> c.stream_buffer_chunks == n
        }),
{
    number_is_read(n as nat);
}

/// Each text is set by its own name; the key of tokens is the shared key where it is not set.
pub proof fn texts_are_set(psk: Seq<char>, vars: Vars, t: Seq<char>)
    ensures
        ({
            let c = config::config_of(psk, vars);
            &&& c.psk == psk
            &&& sets(vars, "BRAIN_JWT_SECRET"@, t) ==> c.jwt_secret == t
            &&& !vars.dom().contains("BRAIN_JWT_SECRET"@) ==> c.jwt_secret == psk
            &&& sets(vars, "BRAIN_DB"@, t) ==> c.db_path == t
            &&& sets(vars, "BRAIN_ADDR"@, t) ==> c.addr == t
            &&& sets(vars, "BRAIN_DOWNLOADS_DIR"@, t) ==> c.downloads_dir == t
            &&& sets(vars, "BRAIN_SEARXNG_URL"@, t) && text::trim(t).len() > 0 ==> c.searxng_url
                == Some(t)
            &&& !vars.dom().contains("BRAIN_SEARXNG_URL"@) ==> c.searxng_url is None
        }),
{
}

/// Switches are on unless they are set to something that does not say so.
pub proof fn switches_are_set(psk: Seq<char>, vars: Vars)
    ensures
        ({
            let c = config::config_of(psk, vars);
            &&& sets(vars, "BRAIN_ALLOW_PSK_TOKEN"@, "0"@) ==> !c.allow_psk_as_token
            &&& sets(vars, "BRAIN_METRICS_ENABLED"@, "0"@) ==> !c.metrics_enabled
            &&& sets(vars, "BRAIN_TELEMETRY_ENABLED"@, "0"@) ==> !c.telemetry_enabled
            &&& sets(vars, "BRAIN_ALLOW_PSK_TOKEN"@, "1"@) ==> c.allow_psk_as_token
            &&& sets(vars, "BRAIN_METRICS_ENABLED"@, "1"@) ==> c.metrics_enabled
            &&& sets(vars, "BRAIN_TELEMETRY_ENABLED"@, "1"@) ==> c.telemetry_enabled
            &&& !vars.dom().contains("BRAIN_ALLOW_PSK_TOKEN"@) ==> c.allow_psk_as_token
            &&& !vars.dom().contains("BRAIN_METRICS_ENABLED"@) ==> c.metrics_enabled
            &&& !vars.dom().contains("BRAIN_TELEMETRY_ENABLED"@) ==> c.telemetry_enabled
        }),
{
    reveal_strlit("0");
    reveal_strlit("1");
    reveal_strlit("true");
    assert("0"@.len() == 1 && "1"@.len() == 1 && "true"@.len() == 4);
    assert("0"@[0] == '0' && "1"@[0] == '1');
    assert(text::to_ascii_lower("0"@).len() == 1);
}

/// A name for a model, and the model that it stands for.
pub struct Alias {
    pub name: Seq<char>,
    pub model: Seq<char>,
}

/// The names can be set: they are not empty, have no blanks around them, and hold none of the
/// signs between them.
pub open spec fn can_be_set(a: Alias) -> bool {
    &&& a.name.len() > 0 && !text::is_space(a.name[0]) && !text::is_space(a.name.last())
    &&& a.model.len() > 0 && !text::is_space(a.model[0]) && !text::is_space(a.model.last())
    &&& !a.name.contains('=') && !a.name.contains(',')
    &&& !a.model.contains(',')
}

/// A list of names for models as it is written.
pub open spec fn alias_list(all: Seq<Alias>) -> Seq<Seq<char>> {
    all.map_values(|a: Alias| a.name + "="@ + a.model)
}

proof fn alias_is_read(a: Alias)
    requires
        can_be_set(a),
    ensures
        config::alias_of(a.name + "="@ + a.model) == Some((a.name, a.model)),
        !(a.name + "="@ + a.model).contains(','),
{
    reveal_strlit("=");
    let s = a.name + "="@ + a.model;
    let k = a.name.len() as int;
    assert("="@ =~= seq!['=']);
    assert(s[k] == '=');
    assert forall|i: int| 0 <= i < k implies s[i] != '=' by {
        assert(a.name.contains(s[i]));
    }
    text::span_of_is(s, '=', k);
    assert(s.take(k) =~= a.name);
    assert(s.skip(k + 1) =~= a.model);
    text_laws::trimmed_text_stays(a.name);
    text_laws::trimmed_text_stays(a.model);
    assert forall|i: int| 0 <= i < s.len() implies s[i] != ',' by {
        if i < k {
            assert(a.name.contains(s[i]));
        } else if i > k {
            assert(a.model.contains(s[i]));
        }
    }
}

proof fn aliases_are_mapped(all: Seq<Alias>, i: int)
    requires
        forall|j: int| 0 <= j < all.len() ==> can_be_set(#[trigger] all[j]),
        0 <= i < all.len(),
        forall|j: int| i < j < all.len() ==> (#[trigger] all[j]).name != all[i].name,
    ensures
        ({
            let m = config::aliases_of(alias_list(all));
            m.dom().contains(all[i].name) && m[all[i].name] == all[i].model
        }),
    decreases all.len(),
{
    let list = alias_list(all);
    let rest = all.drop_last();
    assert(list.drop_last() =~= alias_list(rest));
    assert(can_be_set(all[all.len() - 1]));
    alias_is_read(all.last());
    assert(list.last() == all.last().name + "="@ + all.last().model);
    if i < all.len() - 1 {
        assert forall|j: int| 0 <= j < rest.len() implies can_be_set(#[trigger] rest[j]) by {
            assert(rest[j] == all[j]);
        }
        assert forall|j: int| i < j < rest.len() implies (#[trigger] rest[j]).name
            != rest[i].name by {
            assert(rest[j] == all[j]);
        }
        aliases_are_mapped(rest, i);
        assert(all[all.len() - 1].name != all[i].name);
    }
}

/// Each name that is set for a model stands for that model; of two settings of one name the
/// later one counts.
pub proof fn aliases_are_set(psk: Seq<char>, vars: Vars, all: Seq<Alias>, i: int)
    requires
        forall|j: int| 0 <= j < all.len() ==> can_be_set(#[trigger] all[j]),
        0 <= i < all.len(),
        forall|j: int| i < j < all.len() ==> (#[trigger] all[j]).name != all[i].name,
        sets(vars, "BRAIN_MODEL_ALIASES"@, text::join(alias_list(all), seq![','])),
    ensures
        ({
            let c = config::config_of(psk, vars);
            config::var_or(c.model_aliases, all[i].name, all[i].name) == all[i].model
        }),
{
    let list = alias_list(all);
    assert forall|j: int| 0 <= j < list.len() implies !(#[trigger] list[j]).contains(',') by {
        assert(can_be_set(all[j]));
        alias_is_read(all[j]);
    }
    text_laws::split_undoes_join(list, ',');
    aliases_are_mapped(all, i);
}

/// The policy for fetching pages is the one that is named, with the domains that are listed; any
/// other name allows nothing.
pub proof fn policy_is_set(psk: Seq<char>, vars: Vars, domains: Seq<Seq<char>>)
    requires
        domains.len() > 0,
        forall|i: int| 0 <= i < domains.len() ==> is_domain(#[trigger] domains[i]),
        sets(vars, "BRAIN_EGRESS_DOMAINS"@, text::join(domains, seq![','])),
    ensures
        ({
            let p = config::config_of(psk, vars).egress_policy;
            &&& sets(vars, "BRAIN_EGRESS_MODE"@, "allow_all"@) ==> p == PolicyModel::AllowAll
            &&& sets(vars, "BRAIN_EGRESS_MODE"@, "allowlist"@) ==> p == PolicyModel::Allowlist(
                domains,
            )
            &&& sets(vars, "BRAIN_EGRESS_MODE"@, "denylist"@) ==> p == PolicyModel::Denylist(
                domains,
            )
            &&& sets(vars, "BRAIN_EGRESS_MODE"@, "deny_all"@) ==> p == PolicyModel::DenyAll
            &&& !vars.dom().contains("BRAIN_EGRESS_MODE"@) ==> p == PolicyModel::DenyAll
        }),
{
    reveal_strlit("allow_all");
    reveal_strlit("allowlist");
    reveal_strlit("denylist");
    reveal_strlit("deny_all");
    assert("allow_all"@.len() == 9 && "allowlist"@.len() == 9 && "denylist"@.len() == 8
        && "deny_all"@.len() == 8);
    assert("allow_all"@[5] == '_' && "allowlist"@[5] == 'l');
    assert("denylist"@[4] == 'l' && "deny_all"@[4] == '_');
    assert forall|i: int| 0 <= i < domains.len() implies !(#[trigger] domains[i]).contains(',') by {
        assert(is_domain(domains[i]));
    }
    text_laws::split_undoes_join(domains, ',');
    domains_are_read(domains);
}

/// A domain that can be listed: it is not empty, has no blanks around it, holds no comma, and is
/// written in small letters.
pub open spec fn is_domain(d: Seq<char>) -> bool {
    &&& d.len() > 0 && !text::is_space(d[0]) && !text::is_space(d.last())
    &&& !d.contains(',')
    &&& text::lowercase(d) == d
}

proof fn domains_are_read(domains: Seq<Seq<char>>)
    requires
        forall|i: int| 0 <= i < domains.len() ==> is_domain(#[trigger] domains[i]),
    ensures
        config::domains_of(domains) == domains,
    decreases domains.len(),
{
    if domains.len() > 0 {
        let rest = domains.drop_last();
        assert forall|i: int| 0 <= i < rest.len() implies is_domain(#[trigger] rest[i]) by {
            assert(rest[i] == domains[i]);
        }
        domains_are_read(rest);
        let d = domains[domains.len() - 1];
        assert(is_domain(d));
        text_laws::trimmed_text_stays(d);
        assert(domains =~= rest.push(d));
    }
}

/// A price of a model as it is written: the rate of its prompts, and that of its answers.
pub proof fn price_is_read(model: Seq<char>, prompt: Seq<char>, answer: Seq<char>)
    requires
        model.len() > 0 && !text::is_space(model[0]) && !text::is_space(model.last()),
        prompt.len() > 0 && !text::is_space(prompt[0]) && !text::is_space(prompt.last()),
        answer.len() > 0 && !text::is_space(answer[0]) && !text::is_space(answer.last()),
        !model.contains('='),
        !prompt.contains(':'),
    ensures
        config::price_of(model + "="@ + prompt + ":"@ + answer) == Some(
            PriceModel { model, prompt_rate: prompt, completion_rate: answer },
        ),
{
    reveal_strlit("=");
    reveal_strlit(":");
    assert("="@ =~= seq!['='] && ":"@ =~= seq![':']);
    let rates = prompt + ":"@ + answer;
    let s = model + "="@ + prompt + ":"@ + answer;
    let k = model.len() as int;
    assert(s[k] == '=');
    assert forall|i: int| 0 <= i < k implies s[i] != '=' by {
        assert(model.contains(s[i]));
    }
    text::span_of_is(s, '=', k);
    assert(s.take(k) =~= model);
    assert(s.skip(k + 1) =~= rates);
    text_laws::trimmed_text_stays(model);
    text_laws::trimmed_text_stays(rates);
    let m = prompt.len() as int;
    assert(rates[m] == ':');
    assert forall|i: int| 0 <= i < m implies rates[i] != ':' by {
        assert(prompt.contains(rates[i]));
    }
    text::span_of_is(rates, ':', m);
    assert(rates.take(m) =~= prompt);
    assert(rates.skip(m + 1) =~= answer);
    text_laws::trimmed_text_stays(prompt);
    text_laws::trimmed_text_stays(answer);
}

/// The environment does not set a name.
pub open spec fn is_unset(vars: Vars, name: Seq<char>) -> bool {
    !vars.dom().contains(name)
}

/// What is not set has a value all the same.
pub proof fn unset_numbers_have_defaults(psk: Seq<char>, vars: Vars)
    ensures
        ({
            let c = config::config_of(psk, vars);
            &&& is_unset(vars, "BRAIN_WORKER_TIMEOUT"@) ==> c.worker_timeout_s == 120
            &&& is_unset(vars, "BRAIN_QUEUE_TIMEOUT"@) ==> c.queue_timeout_s == 10
            &&& is_unset(vars, "BRAIN_IDEMPOTENCY_TTL"@) ==> c.idempotency_ttl_s == 300
            &&& is_unset(vars, "BRAIN_QUEUE_WAIT_BUDGET"@) ==> c.queue_wait_budget_s == 10
            &&& is_unset(vars, "BRAIN_PREFILL_BUDGET"@) ==> c.prefill_budget_s == 30
            &&& is_unset(vars, "BRAIN_DECODE_BUDGET"@) ==> c.decode_budget_s == 60
            &&& is_unset(vars, "BRAIN_TOOL_DISPATCH_BUDGET"@) ==> c.tool_dispatch_budget_s == 15
            &&& is_unset(vars, "BRAIN_DEFAULT_CTX"@) ==> c.default_context_window == 32768
            &&& is_unset(vars, "BRAIN_HOSTED_TOOL_MAX_ROUNDS"@) ==> c.hosted_tool_max_rounds == 4
            &&& is_unset(vars, "BRAIN_STREAM_BUFFER_CHUNKS"@) ==> c.stream_buffer_chunks == 1024
            &&& is_unset(vars, "BRAIN_ADDR"@) ==> c.addr == "127.0.0.1:9999"@
        }),
{
}

// ── Blanks and paths ────────────────────────────────────────────────────────

/// Blanks around a token are no part of it.
pub proof fn blanks_around_a_token_go(s: Seq<char>)
    ensures
        http::token_of(Some("Bearer "@ + s)) == Some(text::trim(s)),
        !"Bearer "@.is_prefix_of(s) && s.len() > 0 ==> http::token_of(Some(s)) == Some(
            text::trim(s),
        ),
{
    let p = "Bearer "@;
    let a = p + s;
    text_laws::prefix_is_taken_off(a, p);
    text_laws::prefix_is_taken_off(s, p);
    assert(a.subrange(0, p.len() as int) =~= p);
    assert(a.skip(p.len() as int) =~= s);
}

proof fn sign_is_found(x: Seq<char>, c: char, y: Seq<char>)
    requires
        !x.contains(c),
    ensures
        text::cut_at(x + seq![c] + y, c) == Some((x, y)),
{
    let s = x + seq![c] + y;
    let k = x.len() as int;
    assert(s[k] == c);
    assert forall|i: int| 0 <= i < k implies s[i] != c by {
        assert(s[i] == x[i]);
        assert(x.contains(s[i]));
    }
    text::span_of_is(s, c, k);
    assert(s.take(k) =~= x);
    assert(s.skip(k + 1) =~= y);
}

/// Blanks around the names of models and the rates of their prices are no part of them.
pub proof fn blanks_in_settings_go(x: Seq<char>, y: Seq<char>, p: Seq<char>, c: Seq<char>)
    requires
        !x.contains('='),
        text::trim(x).len() > 0,
        text::trim(y).len() > 0,
        !p.contains(':'),
        p.len() > 0 && !text::is_space(p[0]),
        c.len() > 0 && !text::is_space(c.last()),
    ensures
        config::alias_of(x + seq!['='] + y) == Some((text::trim(x), text::trim(y))),
        config::price_of(x + seq!['='] + (p + seq![':'] + c)) == Some(
            PriceModel {
                model: text::trim(x),
                prompt_rate: text::trim(p),
                completion_rate: text::trim(c),
            },
        ),
{
    sign_is_found(x, '=', y);
    let rates = p + seq![':'] + c;
    sign_is_found(x, '=', rates);
    text_laws::trimmed_text_stays(rates);
    sign_is_found(p, ':', c);
}

/// Of a request that names the whole address, the path counts.
pub proof fn path_of_an_address_counts(host: Seq<char>, rest: Seq<char>)
    requires
        !host.contains('/'),
    ensures
        accept::path_of_target("http://"@ + host + "/"@ + rest) == "/"@ + rest,
{
    reveal_strlit("http://");
    reveal_strlit("://");
    reveal_strlit("/");
    let scheme = "http://"@;
    let mark = "://"@;
    let slash = "/"@;
    let s = scheme + host + slash + rest;
    assert(scheme.len() == 7 && mark.len() == 3 && slash.len() == 1);
    assert(s.subrange(0, 7) =~= scheme);
    assert(s.subrange(4, 7) =~= mark);
    assert forall|j: int| 0 <= j < 4 implies !#[trigger] text::occurs_at(s, mark, j) by {
        if text::occurs_at(s, mark, j) {
            assert(s.subrange(j, j + 3)[0] == s[j]);
            assert(s[j] == scheme[j]);
        }
    }
    text::find_from_hits(s, mark, 0, 4);
    let tail = s.skip(7);
    assert(tail =~= host + slash + rest);
    let k = host.len() as int;
    assert(tail.subrange(k, k + 1) =~= slash);
    assert forall|j: int| 0 <= j < k implies !#[trigger] text::occurs_at(tail, slash, j) by {
        if text::occurs_at(tail, slash, j) {
            assert(tail.subrange(j, j + 1)[0] == tail[j]);
            assert(tail[j] == host[j]);
            assert(host.contains('/'));
        }
    }
    text::find_from_hits(tail, slash, 0, k);
    assert(s.skip(7 + k) =~= slash + rest);
}

} // verus!
