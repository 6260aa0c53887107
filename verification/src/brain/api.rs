//! The chat API: who may use it, and where a request goes.
use vstd::prelude::*;

use crate::brain::auth::{self, ClaimsModel};
use crate::brain::config::{Config, ConfigModel};
use crate::brain::http::{self, Refusal};
use crate::brain::registry::WorkerRegistry;
use crate::json::{self, Json, JsonModel, Object};
use crate::text;

verus! {

// ── Access ──────────────────────────────────────────────────────────────────

/// The verdict on a token, for claims that it may have.
pub open spec fn is_access(
    r: Result<Option<i64>, Refusal>,
    token: Seq<char>,
    cfg: ConfigModel,
    key_owner: Option<i64>,
    claims: Option<ClaimsModel>,
) -> bool {
    &&& auth::may_verify(token, cfg.jwt_secret, claims)
    &&& match auth::caller(
        auth::is_shared_key(token, cfg.psk, cfg.allow_psk_as_token),
        key_owner,
        claims,
    ) {
        Some(user) => r == Ok::<Option<i64>, Refusal>(user),
        None => r matches Err(e) && http::is_refusal(
            e,
            401,
            "invalid_auth"@,
            "Invalid or expired token"@,
        ),
    }
}

/// Who makes a request in the OpenAI protocol. `key_owner` is the user whose API key the token
/// is, if it is one.
pub fn authenticate(auth: &Option<String>, cfg: &Config, key_owner: Option<i64>) -> (r: Result<
    Option<i64>,
    Refusal,
>)
    ensures
        http::token_of(text::opt_text(*auth)) is None ==> (r matches Err(e) && http::is_refusal(
            e,
            401,
            "missing_auth"@,
            "Authorization header required"@,
        )),
        http::token_of(text::opt_text(*auth)) is Some ==> exists|claims: Option<ClaimsModel>|
            #[trigger] is_access(
                r,
                http::token_of(text::opt_text(*auth))->Some_0,
                cfg@,
                key_owner,
                claims,
            ),
{
    let token = match http::extract_token(auth) {
        Some(t) => t,
        None => return Err(
            Refusal::new(401, "missing_auth", "Authorization header required"),
        ),
    };
    let found = auth::identify(token.as_str(), cfg, key_owner);
    let ghost claims = choose|claims: Option<ClaimsModel>|
        #[trigger] auth::may_verify(token@, cfg@.jwt_secret, claims) && found == auth::caller(
            auth::is_shared_key(token@, cfg@.psk, cfg@.allow_psk_as_token),
            key_owner,
            claims,
        );
    let r = match found {
        Some(user) => Ok(user),
        None => Err(Refusal::new(401, "invalid_auth", "Invalid or expired token")),
    };
    proof {
        let shown = http::token_of(text::opt_text(*auth))->Some_0;
        assert(shown =~= token@);
        assert(is_access(r, shown, cfg@, key_owner, claims));
    }
    r
}

/// What a request in the Anthropic protocol with a bad key is answered.
pub open spec fn bad_key_model() -> JsonModel {
    JsonModel::Object(
        json::nothing().insert("type"@, JsonModel::Str("error"@)).insert(
            "error"@,
            JsonModel::Object(
                json::nothing().insert("type"@, JsonModel::Str("authentication_error"@)).insert(
                    "message"@,
                    JsonModel::Str("Invalid x-api-key"@),
                ),
            ),
        ),
    )
}

pub fn bad_key_answer() -> (r: String)
    ensures
        r@ == http::with_body(
            "HTTP/1.1 401 Unauthorized\r\nContent-Type: application/json\r\n"@,
            json::json_text(bad_key_model()),
        ),
{
    let error = Object::new().with("type", Json::text("authentication_error")).with(
        "message",
        Json::text("Invalid x-api-key"),
    );
    let body = Json::Object(
        Object::new().with("type", Json::text("error")).with("error", Json::Object(error)),
    );
    let rendered = json::render(&body);
    http::answer(
        "HTTP/1.1 401 Unauthorized\r\nContent-Type: application/json\r\n",
        rendered.as_str(),
    )
}

/// The token of a request in the Anthropic protocol; without one it is empty.
pub fn anthropic_token(auth: &Option<String>) -> (r: String)
    ensures
        r@ == json::or_empty(http::token_of(text::opt_text(*auth))),
{
    match http::extract_token(auth) {
        Some(t) => t,
        None => {
            let r = String::new();
            assert(r@ =~= seq![]);
            r
        },
    }
}

// ── Routes ──────────────────────────────────────────────────────────────────

/// A path without its query.
pub open spec fn clean(path: Seq<char>) -> Seq<char> {
    text::head_of(path, '?')
}

#[derive(Clone, Copy, PartialEq, Eq, Structural)]
pub enum ApiRoute {
    Models,
    Chat,
    Unknown,
}

pub open spec fn api_route(method: Seq<char>, path: Seq<char>) -> ApiRoute {
    if method == "GET"@ && clean(path) == "/v1/models"@ {
        ApiRoute::Models
    } else if method == "POST"@ && text::contains(clean(path), "chat/completions"@) {
        ApiRoute::Chat
    } else {
        ApiRoute::Unknown
    }
}

/// Where a request in the OpenAI protocol goes.
pub fn api_route_of(method: &str, path: &str) -> (r: ApiRoute)
    ensures
        r == api_route(method@, path@),
{
    let p = text::head_text(path, '?');
    if text::str_eq(method, "GET") && text::str_eq(p.as_str(), "/v1/models") {
        ApiRoute::Models
    } else if text::str_eq(method, "POST") && text::has_part(p.as_str(), "chat/completions") {
        ApiRoute::Chat
    } else {
        ApiRoute::Unknown
    }
}

/// The refusal of a request that goes nowhere.
pub fn unknown_endpoint(method: &str, path: &str) -> (r: Refusal)
    ensures
        http::is_refusal(
            r,
            404,
            "not_found"@,
            "Unknown endpoint: "@ + method@ + " "@ + clean(path@),
        ),
{
    let p = text::head_text(path, '?');
    let mut m = text::concat3("Unknown endpoint: ", method, " ");
    m.append(p.as_str());
    Refusal { status: 404, code: text::owned("not_found"), message: m }
}

#[derive(Clone, Copy, PartialEq, Eq, Structural)]
pub enum AnthropicRoute {
    Models,
    Messages,
    Unknown,
}

pub open spec fn anthropic_route(path: Seq<char>) -> AnthropicRoute {
    if path == "/v1/models"@ || path == "/v1/models?limit=100"@ {
        AnthropicRoute::Models
    } else if text::contains(path, "messages"@) {
        AnthropicRoute::Messages
    } else {
        AnthropicRoute::Unknown
    }
}

/// Where a request in the Anthropic protocol goes.
pub fn anthropic_route_of(path: &str) -> (r: AnthropicRoute)
    ensures
        r == anthropic_route(path@),
{
    if text::str_eq(path, "/v1/models") || text::str_eq(path, "/v1/models?limit=100") {
        AnthropicRoute::Models
    } else if text::has_part(path, "messages") {
        AnthropicRoute::Messages
    } else {
        AnthropicRoute::Unknown
    }
}

// ── Models ──────────────────────────────────────────────────────────────────

/// The models that clients can ask for: those of the workers, and the aliases, each once and in
/// order.
pub fn model_names(workers: &WorkerRegistry, cfg: &Config) -> (r: Vec<String>)
    requires
        workers.wf(),
        cfg.model_aliases.wf(),
    ensures
        text::increasing(text::texts(r@)),
        forall|m: Seq<char>|
            #[trigger] text::texts(r@).contains(m) <==> cfg@.model_aliases.dom().contains(m) || (
            exists|id: Seq<char>|
                #[trigger] workers@.dom().contains(id) && workers@[id].model == m),
{
    let mut out = workers.active_models();
    let ghost first = text::texts(out@);
    let entries = &cfg.model_aliases.entries;
    let ghost all = entries@;
    let mut i: usize = 0;
    while i < entries.len()
        invariant
            i <= entries.len(),
            all == entries@,
            text::increasing(text::texts(out@)),
            forall|m: Seq<char>|
                #[trigger] text::texts(out@).contains(m) <==> first.contains(m) || (exists|j: int|
                    0 <= j < i && (#[trigger] all[j]).0@ == m),
        decreases entries.len() - i,
    {
        let ghost before = text::texts(out@);
        text::insert_sorted(&mut out, entries[i].0.as_str());
        proof {
            assert forall|m: Seq<char>| #[trigger] text::texts(out@).contains(m) <==> first.contains(
                m,
            ) || (exists|j: int| 0 <= j < i + 1 && (#[trigger] all[j]).0@ == m) by {
                if all[i as int].0@ == m {
                    assert(text::texts(out@).contains(m));
                }
                if before.contains(m) {
                    assert(text::texts(out@).contains(m));
                }
                if text::texts(out@).contains(m) && m != all[i as int].0@ {
                    assert(before.contains(m));
                }
            }
        }
        i = i + 1;
    }
    proof {
        assert forall|m: Seq<char>| #[trigger] text::texts(out@).contains(m)
            <==> cfg@.model_aliases.dom().contains(m) || (exists|id: Seq<char>|
            #[trigger] workers@.dom().contains(id) && workers@[id].model == m) by {
            if exists|j: int| 0 <= j < all.len() && (#[trigger] all[j]).0@ == m {
                let j = choose|j: int| 0 <= j < all.len() && (#[trigger] all[j]).0@ == m;
                cfg.model_aliases.entry_is_mapped(j);
            }
            if cfg@.model_aliases.dom().contains(m) {
                let p = crate::strmap::place(all, m);
                assert(crate::strmap::is_at(all, m, p));
                assert(all[p].0@ == m);
            }
        }
    }
    out
}

// ── Laws ────────────────────────────────────────────────────────────────────

/// A query does not change where a request goes.
pub proof fn query_does_not_matter(method: Seq<char>, path: Seq<char>, query: Seq<char>)
    requires
        !path.contains('?'),
    ensures
        api_route(method, path + "?"@ + query) == api_route(method, path),
{
    reveal_strlit("?");
    let full = path + "?"@ + query;
    assert(full[path.len() as int] == '?');
    assert forall|i: int| 0 <= i < path.len() implies full[i] != '?' by {
        assert(path.contains(path[i]));
        assert(full[i] == path[i]);
    }
    text::span_of_is(full, '?', path.len() as int);
    assert(full.take(path.len() as int) =~= path);
    assert forall|i: int| 0 <= i < path.len() implies path[i] != '?' by {
        assert(path.contains(path[i]));
    }
    text::span_of_is(path, '?', path.len() as int);
    assert(path.take(path.len() as int) =~= path);
}

} // verus!
