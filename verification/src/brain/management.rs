//! The management API: where a request goes, and who may make it.
use vstd::prelude::*;

use crate::brain::api;
use crate::brain::calendar::{self, DAY_S};
use crate::brain::hosted_tools;
use crate::brain::http::{self, Refusal};
use crate::json::{self, Json, JsonModel, Object};
use crate::text;

verus! {

// ── Routes ──────────────────────────────────────────────────────────────────

/// What a request to the management API asks for. Where a path names a user, there is none if it
/// names no number.
pub enum ManagementRoute {
    DeleteOwnKey(String),
    DeleteAnyKey(String),
    ApproveUser(Option<i64>),
    DeleteUser(Option<i64>),
    SetAdmin { user: Option<i64>, grant: bool },
    GoogleLogin,
    Me,
    Workers,
    Stats,
    Users,
    Downloads,
    MetricsText,
    /// The session whose turns are asked for.
    Telemetry(String),
    OwnKeys,
    NewOwnKey,
    AllKeys,
    NewKey,
    Settings,
    ChangeSettings,
    TestSettings,
    Usage,
    Health,
    /// Nothing, at this path.
    Unknown(String),
}

#[verifier::ext_equal]
pub enum RouteModel {
    DeleteOwnKey(Seq<char>),
    DeleteAnyKey(Seq<char>),
    ApproveUser(Option<i64>),
    DeleteUser(Option<i64>),
    SetAdmin { user: Option<i64>, grant: bool },
    GoogleLogin,
    Me,
    Workers,
    Stats,
    Users,
    Downloads,
    MetricsText,
    Telemetry(Seq<char>),
    OwnKeys,
    NewOwnKey,
    AllKeys,
    NewKey,
    Settings,
    ChangeSettings,
    TestSettings,
    Usage,
    Health,
    Unknown(Seq<char>),
}

impl View for ManagementRoute {
    type V = RouteModel;

    open spec fn view(&self) -> RouteModel {
        match *self {
            ManagementRoute::DeleteOwnKey(k) => RouteModel::DeleteOwnKey(k@),
            ManagementRoute::DeleteAnyKey(k) => RouteModel::DeleteAnyKey(k@),
            ManagementRoute::ApproveUser(u) => RouteModel::ApproveUser(u),
            ManagementRoute::DeleteUser(u) => RouteModel::DeleteUser(u),
            ManagementRoute::SetAdmin { user, grant } => RouteModel::SetAdmin { user, grant },
            ManagementRoute::GoogleLogin => RouteModel::GoogleLogin,
            ManagementRoute::Me => RouteModel::Me,
            ManagementRoute::Workers => RouteModel::Workers,
            ManagementRoute::Stats => RouteModel::Stats,
            ManagementRoute::Users => RouteModel::Users,
            ManagementRoute::Downloads => RouteModel::Downloads,
            ManagementRoute::MetricsText => RouteModel::MetricsText,
            ManagementRoute::Telemetry(s) => RouteModel::Telemetry(s@),
            ManagementRoute::OwnKeys => RouteModel::OwnKeys,
            ManagementRoute::NewOwnKey => RouteModel::NewOwnKey,
            ManagementRoute::AllKeys => RouteModel::AllKeys,
            ManagementRoute::NewKey => RouteModel::NewKey,
            ManagementRoute::Settings => RouteModel::Settings,
            ManagementRoute::ChangeSettings => RouteModel::ChangeSettings,
            ManagementRoute::TestSettings => RouteModel::TestSettings,
            ManagementRoute::Usage => RouteModel::Usage,
            ManagementRoute::Health => RouteModel::Health,
            ManagementRoute::Unknown(p) => RouteModel::Unknown(p@),
        }
    }
}

/// What stands between a prefix and a suffix, if both are there.
pub open spec fn between(s: Seq<char>, prefix: Seq<char>, suffix: Seq<char>) -> Seq<char> {
    json::or_empty(
        text::strip_suffix(json::or_empty(text::strip_prefix(s, prefix)), suffix),
    )
}

/// The user whose number stands between a prefix and a suffix.
pub open spec fn user_between(s: Seq<char>, prefix: Seq<char>, suffix: Seq<char>) -> Option<i64> {
    text::in_i64(text::parse_signed(between(s, prefix, suffix)))
}

/// What follows the first `session=`, up to the next one.
pub open spec fn session_in(path: Seq<char>) -> Seq<char> {
    match text::find(path, "session="@) {
        Some(i) => {
            let rest = path.skip(i + 8);
            match text::find(rest, "session="@) {
                Some(k) => rest.take(k),
                None => rest,
            }
        },
        None => seq![],
    }
}

/// A request that asks for something by its exact path.
pub open spec fn fixed_route(method: Seq<char>, p: Seq<char>, path: Seq<char>) -> RouteModel {
    let get = method == "GET"@;
    let post = method == "POST"@;
    if post && p == "/v1/api/auth/google"@ {
        RouteModel::GoogleLogin
    } else if get && p == "/v1/api/auth/me"@ {
        RouteModel::Me
    } else if get && p == "/v1/api/workers"@ {
        RouteModel::Workers
    } else if get && p == "/v1/api/admin/stats"@ {
        RouteModel::Stats
    } else if get && p == "/v1/api/admin/users"@ {
        RouteModel::Users
    } else if get && p == "/v1/api/admin/downloads"@ {
        RouteModel::Downloads
    } else if get && p == "/v1/api/admin/metrics"@ {
        RouteModel::MetricsText
    } else if get && p == "/v1/api/admin/telemetry"@ {
        RouteModel::Telemetry(session_in(path))
    } else if get && p == "/v1/api/keys"@ {
        RouteModel::OwnKeys
    } else if post && p == "/v1/api/keys"@ {
        RouteModel::NewOwnKey
    } else if get && p == "/v1/api/admin/keys"@ {
        RouteModel::AllKeys
    } else if post && p == "/v1/api/admin/keys"@ {
        RouteModel::NewKey
    } else if get && p == "/v1/api/admin/settings/hosted-tools"@ {
        RouteModel::Settings
    } else if post && p == "/v1/api/admin/settings/hosted-tools"@ {
        RouteModel::ChangeSettings
    } else if post && p == "/v1/api/admin/settings/hosted-tools/test"@ {
        RouteModel::TestSettings
    } else if get && p == "/v1/api/usage"@ {
        RouteModel::Usage
    } else if get && p == "/v1/api/health"@ {
        RouteModel::Health
    } else {
        RouteModel::Unknown(p)
    }
}

/// What a request asks for.
pub open spec fn management_route(method: Seq<char>, path: Seq<char>) -> RouteModel {
    let p = api::clean(path);
    let users = "/v1/api/admin/users/"@;
    let post = method == "POST"@;
    let delete = method == "DELETE"@;
    if delete && text::starts_with(p, "/v1/api/keys/"@) {
        RouteModel::DeleteOwnKey(text::without_prefix(p, "/v1/api/keys/"@))
    } else if delete && text::starts_with(p, "/v1/api/admin/keys/"@) {
        RouteModel::DeleteAnyKey(text::without_prefix(p, "/v1/api/admin/keys/"@))
    } else if post && text::contains(p, users) && text::ends_with(p, "/approve"@) {
        RouteModel::ApproveUser(user_between(p, users, "/approve"@))
    } else if delete && text::contains(p, users) {
        RouteModel::DeleteUser(
            text::in_i64(text::parse_signed(json::or_empty(text::strip_prefix(p, users)))),
        )
    } else if post && text::contains(p, users) && text::ends_with(p, "/admin"@) {
        RouteModel::SetAdmin { user: user_between(p, users, "/admin"@), grant: true }
    } else if post && text::contains(p, users) && text::ends_with(p, "/revoke-admin"@) {
        RouteModel::SetAdmin { user: user_between(p, users, "/revoke-admin"@), grant: false }
    } else {
        fixed_route(method, p, path)
    }
}

fn opt_or_empty(o: Option<String>) -> (r: String)
    ensures
        r@ == json::or_empty(text::opt_text(o)),
{
    match o {
        Some(s) => s,
        None => {
            let r = String::new();
            assert(r@ =~= seq![]);
            r
        },
    }
}

fn user_between_of(s: &str, prefix: &str, suffix: &str) -> (r: Option<i64>)
    ensures
        r == user_between(s@, prefix@, suffix@),
{
    let head = opt_or_empty(text::cut_prefix(s, prefix));
    let id = opt_or_empty(text::cut_suffix(head.as_str(), suffix));
    text::signed_of(id.as_str())
}

/// The session that a path names.
pub fn session_of(path: &str) -> (r: String)
    ensures
        r@ == session_in(path@),
{
    proof {
        reveal_strlit("session=");
        assert("session="@.len() == 8);
    }
    let chars = text::chars_of(path);
    let mark = text::chars_of("session=");
    match text::find_chars(&chars, &mark, 0) {
        Some(i) => {
            let n: usize = chars.len();
            let rest = text::slice_text(&chars, i + 8, n);
            assert(rest@ =~= path@.skip(i + 8));
            let rest_chars = text::chars_of(rest.as_str());
            match text::find_chars(&rest_chars, &mark, 0) {
                Some(k) => {
                    let r = text::slice_text(&rest_chars, 0, k);
                    assert(r@ =~= rest@.take(k as int));
                    r
                },
                None => rest,
            }
        },
        None => {
            let r = String::new();
            assert(r@ =~= seq![]);
            r
        },
    }
}

fn fixed_route_of(method: &str, p: &str, path: &str) -> (r: ManagementRoute)
    ensures
        r@ == fixed_route(method@, p@, path@),
{
    let get = text::str_eq(method, "GET");
    let post = text::str_eq(method, "POST");
    if post && text::str_eq(p, "/v1/api/auth/google") {
        ManagementRoute::GoogleLogin
    } else if get && text::str_eq(p, "/v1/api/auth/me") {
        ManagementRoute::Me
    } else if get && text::str_eq(p, "/v1/api/workers") {
        ManagementRoute::Workers
    } else if get && text::str_eq(p, "/v1/api/admin/stats") {
        ManagementRoute::Stats
    } else if get && text::str_eq(p, "/v1/api/admin/users") {
        ManagementRoute::Users
    } else if get && text::str_eq(p, "/v1/api/admin/downloads") {
        ManagementRoute::Downloads
    } else if get && text::str_eq(p, "/v1/api/admin/metrics") {
        ManagementRoute::MetricsText
    } else if get && text::str_eq(p, "/v1/api/admin/telemetry") {
        ManagementRoute::Telemetry(session_of(path))
    } else if get && text::str_eq(p, "/v1/api/keys") {
        ManagementRoute::OwnKeys
    } else if post && text::str_eq(p, "/v1/api/keys") {
        ManagementRoute::NewOwnKey
    } else if get && text::str_eq(p, "/v1/api/admin/keys") {
        ManagementRoute::AllKeys
    } else if post && text::str_eq(p, "/v1/api/admin/keys") {
        ManagementRoute::NewKey
    } else if get && text::str_eq(p, "/v1/api/admin/settings/hosted-tools") {
        ManagementRoute::Settings
    } else if post && text::str_eq(p, "/v1/api/admin/settings/hosted-tools") {
        ManagementRoute::ChangeSettings
    } else if post && text::str_eq(p, "/v1/api/admin/settings/hosted-tools/test") {
        ManagementRoute::TestSettings
    } else if get && text::str_eq(p, "/v1/api/usage") {
        ManagementRoute::Usage
    } else if get && text::str_eq(p, "/v1/api/health") {
        ManagementRoute::Health
    } else {
        ManagementRoute::Unknown(text::owned(p))
    }
}

/// What a request asks for.
pub fn management_route_of(method: &str, path: &str) -> (r: ManagementRoute)
    ensures
        r@ == management_route(method@, path@),
{
    let clean = text::head_text(path, '?');
    let p = clean.as_str();
    let users = "/v1/api/admin/users/";
    let post = text::str_eq(method, "POST");
    let delete = text::str_eq(method, "DELETE");
    if delete && text::has_prefix(p, "/v1/api/keys/") {
        ManagementRoute::DeleteOwnKey(text::drop_prefix(p, "/v1/api/keys/"))
    } else if delete && text::has_prefix(p, "/v1/api/admin/keys/") {
        ManagementRoute::DeleteAnyKey(text::drop_prefix(p, "/v1/api/admin/keys/"))
    } else if post && text::has_part(p, users) && text::has_suffix(p, "/approve") {
        ManagementRoute::ApproveUser(user_between_of(p, users, "/approve"))
    } else if delete && text::has_part(p, users) {
        let id = opt_or_empty(text::cut_prefix(p, users));
        ManagementRoute::DeleteUser(text::signed_of(id.as_str()))
    } else if post && text::has_part(p, users) && text::has_suffix(p, "/admin") {
        ManagementRoute::SetAdmin { user: user_between_of(p, users, "/admin"), grant: true }
    } else if post && text::has_part(p, users) && text::has_suffix(p, "/revoke-admin") {
        ManagementRoute::SetAdmin { user: user_between_of(p, users, "/revoke-admin"), grant: false }
    } else {
        fixed_route_of(method, p, path)
    }
}

// ── Access ──────────────────────────────────────────────────────────────────

/// Who may ask for something.
#[derive(Clone, Copy, PartialEq, Eq, Structural)]
pub enum Access {
    Anyone,
    /// A user, for what is theirs.
    User,
    Administrator,
}

pub open spec fn access(route: RouteModel) -> Access {
    match route {
        RouteModel::GoogleLogin => Access::Anyone,
        RouteModel::Health => Access::Anyone,
        RouteModel::Unknown(_) => Access::Anyone,
        RouteModel::DeleteOwnKey(_) => Access::User,
        RouteModel::Me => Access::User,
        RouteModel::OwnKeys => Access::User,
        RouteModel::NewOwnKey => Access::User,
        RouteModel::Usage => Access::User,
        _ => Access::Administrator,
    }
}

/// What is wrong with what a request names: its status, code and message.
pub open spec fn complaint(route: RouteModel) -> Option<(u16, Seq<char>, Seq<char>)> {
    match route {
        RouteModel::DeleteOwnKey(k) => if k.len() == 0 {
            Some((400, "missing_field"@, "key in URL path required"@))
        } else {
            None
        },
        RouteModel::DeleteAnyKey(k) => if k.len() == 0 {
            Some((400, "missing_field"@, "key in URL path required"@))
        } else {
            None
        },
        RouteModel::ApproveUser(None) => Some((400, "bad_id"@, "invalid user id"@)),
        RouteModel::DeleteUser(None) => Some((400, "bad_id"@, "invalid user id"@)),
        RouteModel::SetAdmin { user: None, .. } => Some((400, "bad_id"@, "invalid user id"@)),
        RouteModel::Unknown(p) => Some((404, "not_found"@, "Unknown: "@ + p)),
        _ => None,
    }
}

/// Why a request is turned away. An administrator's request is checked for who makes it first,
/// a user's for what it names.
pub open spec fn gate(route: RouteModel, is_admin: bool, user: Option<i64>) -> Option<
    (u16, Seq<char>, Seq<char>),
> {
    match access(route) {
        Access::Anyone => complaint(route),
        Access::User => match complaint(route) {
            Some(c) => Some(c),
            None => if user is None {
                Some((401, "unauthorized"@, "auth required"@))
            } else {
                None
            },
        },
        Access::Administrator => if !is_admin {
            Some((403, "forbidden"@, "Admin required"@))
        } else {
            complaint(route)
        },
    }
}

/// Who may ask for something.
pub fn access_of(route: &ManagementRoute) -> (r: Access)
    ensures
        r == access(route@),
{
    match route {
        ManagementRoute::GoogleLogin => Access::Anyone,
        ManagementRoute::Health => Access::Anyone,
        ManagementRoute::Unknown(_) => Access::Anyone,
        ManagementRoute::DeleteOwnKey(_) => Access::User,
        ManagementRoute::Me => Access::User,
        ManagementRoute::OwnKeys => Access::User,
        ManagementRoute::NewOwnKey => Access::User,
        ManagementRoute::Usage => Access::User,
        _ => Access::Administrator,
    }
}

pub open spec fn refusal_model(r: Option<Refusal>) -> Option<(u16, Seq<char>, Seq<char>)> {
    match r {
        Some(e) => Some((e.status, e.code@, e.message@)),
        None => None,
    }
}

fn complaint_of(route: &ManagementRoute) -> (r: Option<Refusal>)
    ensures
        refusal_model(r) == complaint(route@),
{
    match route {
        ManagementRoute::DeleteOwnKey(k) => if k.as_str().is_empty() {
            Some(Refusal::new(400, "missing_field", "key in URL path required"))
        } else {
            None
        },
        ManagementRoute::DeleteAnyKey(k) => if k.as_str().is_empty() {
            Some(Refusal::new(400, "missing_field", "key in URL path required"))
        } else {
            None
        },
        ManagementRoute::ApproveUser(None) => Some(
            Refusal::new(400, "bad_id", "invalid user id"),
        ),
        ManagementRoute::DeleteUser(None) => Some(Refusal::new(400, "bad_id", "invalid user id")),
        ManagementRoute::SetAdmin { user: None, .. } => Some(
            Refusal::new(400, "bad_id", "invalid user id"),
        ),
        ManagementRoute::Unknown(p) => {
            let m = text::concat("Unknown: ", p.as_str());
            Some(Refusal { status: 404, code: text::owned("not_found"), message: m })
        },
        _ => None,
    }
}

/// Turns a request away that may not be made, or that names nothing.
pub fn check_access(route: &ManagementRoute, is_admin: bool, user: Option<i64>) -> (r: Option<
    Refusal,
>)
    ensures
        refusal_model(r) == gate(route@, is_admin, user),
{
    match access_of(route) {
        Access::Anyone => complaint_of(route),
        Access::User => match complaint_of(route) {
            Some(c) => Some(c),
            None => if user.is_none() {
                Some(Refusal::new(401, "unauthorized", "auth required"))
            } else {
                None
            },
        },
        Access::Administrator => if !is_admin {
            Some(Refusal::new(403, "forbidden", "Admin required"))
        } else {
            complaint_of(route)
        },
    }
}

// ── Bodies ──────────────────────────────────────────────────────────────────

/// What a body holds; one that is no JSON counts as empty.
pub fn body_value(body: &[u8]) -> (r: Json)
    ensures
        r@ == (match json::json_parse_bytes(body@) {
            Some(v) => v,
            None => JsonModel::Object(json::nothing()),
        }),
{
    match json::parse_bytes(body) {
        Some(v) => v,
        None => Json::Object(Object::new()),
    }
}

/// The identity token of a login.
pub fn id_token_of(body: &Json) -> (r: Result<String, Refusal>)
    ensures
        match r {
            Ok(t) => body@.str_at("id_token"@) == Some(t@),
            Err(e) => body@.str_at("id_token"@) is None && http::is_refusal(
                e,
                400,
                "missing_field"@,
                "id_token required"@,
            ),
        },
{
    match body.str_at("id_token") {
        Some(t) => Ok(text::owned(t)),
        None => Err(Refusal::new(400, "missing_field", "id_token required")),
    }
}

/// The name for a new key.
pub open spec fn key_name(body: JsonModel) -> Seq<char> {
    hosted_tools::or_default(body.str_at("name"@), "default"@)
}

pub fn key_name_of(body: &Json) -> (r: String)
    ensures
        r@ == key_name(body@),
{
    match body.str_at("name") {
        Some(n) => text::owned(n),
        None => text::owned("default"),
    }
}

/// The user that a new key is for.
pub open spec fn key_user(body: JsonModel) -> i64 {
    match body.field("user_id"@) {
        Some(v) => match v.signed() {
            Some(n) => n,
            None => 0,
        },
        None => 0,
    }
}

pub fn key_user_of(body: &Json) -> (r: Result<i64, Refusal>)
    ensures
        match r {
            Ok(id) => id == key_user(body@) && id != 0,
            Err(e) => key_user(body@) == 0 && http::is_refusal(
                e,
                400,
                "missing_field"@,
                "user_id required"@,
            ),
        },
{
    let id: i64 = match body.get("user_id") {
        Some(v) => match v.as_i64() {
            Some(n) => n,
            None => 0,
        },
        None => 0,
    };
    if id == 0 {
        Err(Refusal::new(400, "missing_field", "user_id required"))
    } else {
        Ok(id)
    }
}

/// The setting that a body changes, if it does.
pub fn searxng_url_of(body: &Json) -> (r: Option<String>)
    ensures
        text::opt_text(r) == body@.str_at("searxng_url"@),
{
    match body.str_at("searxng_url") {
        Some(s) => Some(text::owned(s)),
        None => None,
    }
}

// ── Answers ─────────────────────────────────────────────────────────────────

/// That all went well.
pub open spec fn ok_model() -> JsonModel {
    JsonModel::Object(json::nothing().insert("ok"@, JsonModel::Bool(true)))
}

pub fn ok_body() -> (r: Json)
    ensures
        r@ == ok_model(),
{
    Json::Object(Object::new().with("ok", Json::Bool(true)))
}

/// That a user's rights were set.
pub fn admin_body(grant: bool) -> (r: Json)
    ensures
        r@ == JsonModel::Object(
            json::nothing().insert("ok"@, JsonModel::Bool(true)).insert(
                "is_admin"@,
                JsonModel::Bool(grant),
            ),
        ),
{
    Json::Object(
        Object::new().with("ok", Json::Bool(true)).with("is_admin", Json::Bool(grant)),
    )
}

/// A token.
pub fn token_body(token: &str) -> (r: Json)
    ensures
        r@ == JsonModel::Object(json::nothing().insert("token"@, JsonModel::Str(token@))),
{
    Json::Object(Object::new().with("token", Json::text(token)))
}

/// Whether there are workers.
pub fn health_body(workers: u64) -> (r: Json)
    ensures
        r@ == JsonModel::Object(
            json::nothing().insert("ok"@, JsonModel::Bool(true)).insert(
                "workers"@,
                json::number(workers),
            ).insert(
                "status"@,
                JsonModel::Str(
                    if workers > 0 {
                        "ready"@
                    } else {
                        "no_workers"@
                    },
                ),
            ),
        ),
{
    let status = if workers > 0 {
        "ready"
    } else {
        "no_workers"
    };
    Json::Object(
        Object::new().with("ok", Json::Bool(true)).with("workers", Json::number(workers)).with(
            "status",
            Json::text(status),
        ),
    )
}

/// The metrics as text.
pub fn metrics_body(prometheus: &str) -> (r: Json)
    ensures
        r@ == JsonModel::Object(
            json::nothing().insert("prometheus"@, JsonModel::Str(prometheus@)),
        ),
{
    Json::Object(Object::new().with("prometheus", Json::text(prometheus)))
}

/// The settings of the hosted tools.
pub fn settings_body(searxng_url: &Option<String>, max_rounds: u64) -> (r: Json)
    ensures
        r@ == JsonModel::Object(
            json::nothing().insert(
                "searxng_url"@,
                json::text_or_null(text::opt_text(*searxng_url)),
            ).insert(
                "searxng_configured"@,
                JsonModel::Bool(hosted_tools::is_set(text::opt_text(*searxng_url))),
            ).insert("hosted_tool_max_rounds"@, json::number(max_rounds)),
        ),
{
    let configured = match searxng_url {
        Some(s) => !text::trimmed(s.as_str()).as_str().is_empty(),
        None => false,
    };
    Json::Object(
        Object::new().with("searxng_url", Json::text_or_null(searxng_url)).with(
            "searxng_configured",
            Json::Bool(configured),
        ).with("hosted_tool_max_rounds", Json::number(max_rounds)),
    )
}

/// The address to test the search engine with, or why there is none.
pub fn test_url(searxng_url: &Option<String>) -> (r: Result<String, Refusal>)
    ensures
        match r {
            Ok(u) => hosted_tools::is_set(text::opt_text(*searxng_url)) && u@
                == hosted_tools::without_slashes(text::opt_text(*searxng_url)->Some_0)
                + "/search?q=connectivity+check&format=json"@,
            Err(e) => !hosted_tools::is_set(text::opt_text(*searxng_url)) && http::is_refusal(
                e,
                400,
                "not_configured"@,
                "searxng_url is not set in db"@,
            ),
        },
{
    match searxng_url {
        Some(s) => {
            if !text::trimmed(s.as_str()).as_str().is_empty() {
                let base = hosted_tools::trim_slashes(s.as_str());
                return Ok(
                    text::concat(base.as_str(), "/search?q=connectivity+check&format=json"),
                );
            }
        },
        None => {},
    }
    Err(Refusal::new(400, "not_configured", "searxng_url is not set in db"))
}

/// The outcome of a test of the search engine.
pub open spec fn test_json(status: u16, is_json: bool) -> JsonModel {
    JsonModel::Object(
        json::nothing().insert("ok"@, JsonModel::Bool(true)).insert(
            "status"@,
            json::number(status as u64),
        ).insert("returned_json"@, JsonModel::Bool(is_json)).insert(
            "note"@,
            JsonModel::Str(
                if is_json {
                    "Reachable and returning JSON."@
                } else {
                    "Reachable, but the response wasn't valid JSON — check that `search.formats` includes `json` in SearxNG's settings.yml."@
                },
            ),
        ),
    )
}

/// The outcome of a test of the search engine, from whether its answer is JSON.
pub fn test_body_with(status: u16, is_json: bool) -> (r: Json)
    ensures
        r@ == test_json(status, is_json),
{
    let note = if is_json {
        "Reachable and returning JSON."
    } else {
        "Reachable, but the response wasn't valid JSON — check that `search.formats` includes `json` in SearxNG's settings.yml."
    };
    Json::Object(
        Object::new().with("ok", Json::Bool(true)).with("status", Json::number(status as u64)).with(
            "returned_json",
            Json::Bool(is_json),
        ).with("note", Json::text(note)),
    )
}

/// The outcome of a test of the search engine, from its answer.
pub fn test_body(status: u16, body: &str) -> (r: Json)
    ensures
        r@ == test_json(status, json::json_parse(body@) is Some),
{
    test_body_with(status, json::parse(body).is_some())
}

/// The search engine could not be reached.
pub fn unreachable_engine(base: &str, why: &str) -> (r: Refusal)
    ensures
        http::is_refusal(
            r,
            502,
            "unreachable"@,
            "Could not reach SearxNG at "@ + base@ + ": "@ + why@,
        ),
{
    let mut message = text::concat3("Could not reach SearxNG at ", base, ": ");
    message.append(why);
    Refusal { status: 502, code: text::owned("unreachable"), message }
}

/// What is said of telemetry where no session is named.
pub fn telemetry_hint() -> (r: Json)
    ensures
        r@ == JsonModel::Object(
            json::nothing().insert("metrics"@, JsonModel::Array(seq![])).insert(
                "note"@,
                JsonModel::Str("add ?session=SESSION_ID"@),
            ),
        ),
{
    let none: Vec<Json> = Vec::new();
    assert(json::models(none@) =~= seq![]);
    Json::Object(
        Object::new().with("metrics", Json::Array(none)).with(
            "note",
            Json::text("add ?session=SESSION_ID"),
        ),
    )
}

// ── Windows of time ─────────────────────────────────────────────────────────

/// From when on use counts for today and for this month, at `now` in seconds: since midnight,
/// and since the month started.
pub fn usage_windows(now: i64) -> (r: (i64, i64))
    requires
        0 <= now,
    ensures
        r.0 % DAY_S == 0,
        r.0 <= now < r.0 + DAY_S,
        calendar::is_month_start(r.1 as int),
        r.1 <= now,
        forall|t: int| r.1 < t <= now ==> !#[trigger] calendar::is_month_start(t),
{
    let since_midnight: i64 = now % DAY_S;
    (now - since_midnight, calendar::month_start(now))
}

// ── Laws ────────────────────────────────────────────────────────────────────

/// Nobody but an administrator gets at what is the administrators'.
pub proof fn administration_is_closed_to_others(route: RouteModel, user: Option<i64>)
    requires
        access(route) == Access::Administrator,
    ensures
        gate(route, false, user) == Some((403u16, "forbidden"@, "Admin required"@)),
{
}

/// Nobody gets at a user's things without being a user.
pub proof fn users_things_are_closed_to_strangers(route: RouteModel, is_admin: bool)
    requires
        access(route) == Access::User,
    ensures
        gate(route, is_admin, None) is Some,
{
}

/// A request that passes names what it needs.
pub proof fn passed_request_is_complete(route: RouteModel, is_admin: bool, user: Option<i64>)
    requires
        gate(route, is_admin, user) is None,
    ensures
        complaint(route) is None,
        !(route is Unknown),
{
}

} // verus!
