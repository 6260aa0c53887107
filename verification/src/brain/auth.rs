//! Who a request comes from.
use vstd::prelude::*;
use jsonwebtoken::{DecodingKey, EncodingKey, Header, Validation};
use rand::distr::Alphanumeric;
use rand::RngExt;

use crate::brain::config::{Config, ConfigModel};
use crate::brain::http;
use crate::json::{self, Json, JsonModel, Num, Object};
use crate::text;

verus! {

// ── Tokens ──────────────────────────────────────────────────────────────────

/// What a signed token says of its bearer.
pub struct Claims {
    pub sub: String,
    pub exp: usize,
    pub is_admin: bool,
    pub email: String,
}

#[verifier::ext_equal]
pub struct ClaimsModel {
    pub sub: Seq<char>,
    pub exp: usize,
    pub is_admin: bool,
    pub email: Seq<char>,
}

impl View for Claims {
    type V = ClaimsModel;

    open spec fn view(&self) -> ClaimsModel {
        ClaimsModel {
            sub: self.sub@,
            exp: self.exp,
            is_admin: self.is_admin,
            email: self.email@,
        }
    }
}

pub open spec fn opt_claims(o: Option<Claims>) -> Option<ClaimsModel> {
    match o {
        Some(c) => Some(c@),
        None => None,
    }
}

/// The claims as JSON.
pub open spec fn claims_json(c: ClaimsModel) -> JsonModel {
    JsonModel::Object(
        json::nothing().insert("sub"@, JsonModel::Str(c.sub)).insert(
            "exp"@,
            json::number(c.exp as u64),
        ).insert("is_admin"@, JsonModel::Bool(c.is_admin)).insert(
            "email"@,
            JsonModel::Str(c.email),
        ),
    )
}

/// The claims that a JSON value holds, if it holds all of them.
pub open spec fn claims_of(v: JsonModel) -> Option<ClaimsModel> {
    match (
        v.str_at("sub"@),
        v.unsigned_at("exp"@),
        v.field("is_admin"@),
        v.str_at("email"@),
    ) {
        (Some(sub), Some(exp), Some(JsonModel::Bool(is_admin)), Some(email)) => if exp
            <= usize::MAX {
            Some(ClaimsModel { sub, exp: exp as usize, is_admin, email })
        } else {
            None
        },
        _ => None,
    }
}

/// An object of nothing but strings, booleans and whole numbers that are not negative.
pub open spec fn is_flat(v: JsonModel) -> bool {
    match v {
        JsonModel::Object(m) => forall|k: Seq<char>| #[trigger]
            m.dom().contains(k) ==> match m[k] {
                JsonModel::Str(_) => true,
                JsonModel::Bool(_) => true,
                JsonModel::Number(Num::Unsigned(_)) => true,
                _ => false,
            },
        _ => false,
    }
}

/// The token that `jsonwebtoken::encode` makes of claims with a secret.
pub uninterp spec fn jwt_token(claims: JsonModel, secret: Seq<char>) -> Seq<char>;

/// The claims of a token that is signed with a secret, as `jsonwebtoken::decode` reads them.
pub uninterp spec fn jwt_opened(token: Seq<char>, secret: Seq<char>) -> Option<JsonModel>;

/// `jsonwebtoken::encode` with its default header, HMAC with SHA-256: a function of the claims
/// and the secret alone. The token opens with the same secret, and gives back claims that are
/// strings, booleans and whole numbers.
#[verifier::external_body]
fn sign_claims(claims: &serde_json::Value, secret: &str) -> (r: String)
    ensures
        r@ == jwt_token(json::value_model(*claims), secret@),
        is_flat(json::value_model(*claims)) ==> jwt_opened(r@, secret@) == Some(
            json::value_model(*claims),
        ),
{
    let key = EncodingKey::from_secret(secret.as_ref());
    jsonwebtoken::encode(&Header::default(), claims, &key).unwrap()
}

/// `jsonwebtoken::decode` with its default checks: gives the claims of a token that is signed
/// with the secret, unless it has expired by the clock. Whether it has is left open here.
#[verifier::external_body]
fn open_token(token: &str, secret: &str) -> (r: Option<serde_json::Value>)
    ensures
        r matches Some(v) ==> jwt_opened(token@, secret@) == Some(json::value_model(v)),
{
    let key = DecodingKey::from_secret(secret.as_ref());
    match jsonwebtoken::decode::<serde_json::Value>(token, &key, &Validation::default()) {
        Ok(data) => Some(data.claims),
        Err(_) => None,
    }
}

fn claims_to_json(c: &Claims) -> (r: Json)
    ensures
        r@ == claims_json(c@),
{
    Json::Object(
        Object::new().with("sub", Json::text(c.sub.as_str())).with(
            "exp",
            Json::number(c.exp as u64),
        ).with("is_admin", Json::Bool(c.is_admin)).with("email", Json::text(c.email.as_str())),
    )
}

/// The claims that a JSON value holds.
pub fn claims_from_json(v: &Json) -> (r: Option<Claims>)
    ensures
        opt_claims(r) == claims_of(v@),
{
    let is_admin = match v.get("is_admin") {
        Some(Json::Bool(b)) => *b,
        _ => return None,
    };
    match (v.str_at("sub"), v.u64_at("exp"), v.str_at("email")) {
        (Some(sub), Some(exp), Some(email)) => if exp <= usize::MAX as u64 {
            Some(
                Claims {
                    sub: text::owned(sub),
                    exp: exp as usize,
                    is_admin,
                    email: text::owned(email),
                },
            )
        } else {
            None
        },
        _ => None,
    }
}

/// How many seconds a token is good for.
pub const TOKEN_LIFETIME_S: u64 = 86400;

/// The claims of a token for a user that is made at the time `now`.
pub open spec fn claims_for(user_id: i64, email: Seq<char>, is_admin: bool, now: u64) -> ClaimsModel {
    ClaimsModel {
        sub: text::dec_signed(user_id as int),
        exp: (now + TOKEN_LIFETIME_S) as usize,
        is_admin,
        email,
    }
}

/// A token for a user. It opens with the same secret, and says what was put in.
pub fn create_jwt(user_id: i64, email: &str, is_admin: bool, secret: &str, now: u64) -> (r: String)
    requires
        now + TOKEN_LIFETIME_S <= usize::MAX,
    ensures
        r@ == jwt_token(claims_json(claims_for(user_id, email@, is_admin, now)), secret@),
        jwt_opened(r@, secret@) == Some(claims_json(claims_for(user_id, email@, is_admin, now))),
{
    let claims = Claims {
        sub: text::decimal_signed(user_id),
        exp: (now + TOKEN_LIFETIME_S) as usize,
        is_admin,
        email: text::owned(email),
    };
    let body = claims_to_json(&claims);
    proof {
        claims_are_flat(claims@);
    }
    let value = json::value_of(&body);
    sign_claims(&value, secret)
}

/// What `verify_jwt` may give for a token.
pub open spec fn may_verify(token: Seq<char>, secret: Seq<char>, claims: Option<ClaimsModel>) -> bool {
    claims matches Some(c) ==> (jwt_opened(token, secret) matches Some(v) && claims_of(v) == Some(
        c,
    ))
}

/// The claims of a token that is signed with the secret and has not expired. The clock decides
/// whether it has, so that nothing is said here of when there are none.
pub fn verify_jwt(token: &str, secret: &str) -> (r: Option<Claims>)
    ensures
        may_verify(token@, secret@, opt_claims(r)),
{
    match open_token(token, secret) {
        Some(v) => claims_from_json(&json::json_of(v)),
        None => None,
    }
}

// ── Callers ─────────────────────────────────────────────────────────────────

/// Whether a token is the shared key, and that counts as a token.
pub open spec fn is_shared_key(token: Seq<char>, psk: Seq<char>, allowed: bool) -> bool {
    allowed && token == psk
}

pub fn is_psk(token: &str, cfg: &Config) -> (r: bool)
    ensures
        r == is_shared_key(token@, cfg@.psk, cfg@.allow_psk_as_token),
{
    cfg.allow_psk_as_token && text::str_eq(token, cfg.psk.as_str())
}

/// The user that claims name.
pub open spec fn user_of(c: ClaimsModel) -> Option<i64> {
    text::in_i64(text::parse_signed(c.sub))
}

/// Who may use the API: the shared key stands for no user, an API key for its owner, and a
/// signed token for the user that it names. None is nobody.
pub open spec fn caller(psk: bool, key_owner: Option<i64>, claims: Option<ClaimsModel>) -> Option<
    Option<i64>,
> {
    if psk {
        Some(None)
    } else {
        match key_owner {
            Some(id) => Some(Some(id)),
            None => match claims {
                Some(c) => Some(user_of(c)),
                None => None,
            },
        }
    }
}

/// Who a token stands for, from what was found out about it.
pub fn caller_with(psk: bool, key_owner: Option<i64>, claims: &Option<Claims>) -> (r: Option<
    Option<i64>,
>)
    ensures
        r == caller(psk, key_owner, opt_claims(*claims)),
{
    if psk {
        return Some(None);
    }
    match key_owner {
        Some(id) => Some(Some(id)),
        None => match claims {
            Some(c) => Some(text::signed_of(c.sub.as_str())),
            None => None,
        },
    }
}

/// Who a token stands for. `key_owner` is the user whose API key it is, if it is one.
pub fn identify(token: &str, cfg: &Config, key_owner: Option<i64>) -> (r: Option<Option<i64>>)
    ensures
        exists|claims: Option<ClaimsModel>|
            #[trigger] may_verify(token@, cfg@.jwt_secret, claims) && r == caller(
                is_shared_key(token@, cfg@.psk, cfg@.allow_psk_as_token),
                key_owner,
                claims,
            ),
{
    let claims = verify_jwt(token, cfg.jwt_secret.as_str());
    assert(may_verify(token@, cfg@.jwt_secret, opt_claims(claims)));
    caller_with(is_psk(token, cfg), key_owner, &claims)
}

/// Whether a token is good for anything: it is the shared key, an API key, or signed.
pub fn validate_token(token: &str, cfg: &Config, is_api_key: bool) -> (r: bool)
    ensures
        is_shared_key(token@, cfg@.psk, cfg@.allow_psk_as_token) || is_api_key ==> r,
        exists|claims: Option<ClaimsModel>|
            #[trigger] may_verify(token@, cfg@.jwt_secret, claims) && r == (is_shared_key(
                token@,
                cfg@.psk,
                cfg@.allow_psk_as_token,
            ) || is_api_key || claims is Some),
{
    let claims = verify_jwt(token, cfg.jwt_secret.as_str());
    assert(may_verify(token@, cfg@.jwt_secret, opt_claims(claims)));
    is_psk(token, cfg) || is_api_key || claims.is_some()
}

/// Who may administrate: the shared key always, a signed token if it says so, and an API key if
/// its owner is an administrator.
pub open spec fn administers(psk: bool, claims: Option<ClaimsModel>, owner_is_admin: bool) -> bool {
    psk || match claims {
        Some(c) => c.is_admin,
        None => owner_is_admin,
    }
}

/// Whether a caller may administrate, from what was found out about the token.
pub fn administers_with(psk: bool, claims: &Option<Claims>, owner_is_admin: bool) -> (r: bool)
    ensures
        r == administers(psk, opt_claims(*claims), owner_is_admin),
{
    psk || match claims {
        Some(c) => c.is_admin,
        None => owner_is_admin,
    }
}

/// The verdict for claims that the token may have.
pub open spec fn is_admin_verdict(
    r: bool,
    token: Seq<char>,
    cfg: ConfigModel,
    owner_is_admin: bool,
    claims: Option<ClaimsModel>,
) -> bool {
    may_verify(token, cfg.jwt_secret, claims) && r == administers(
        is_shared_key(token, cfg.psk, cfg.allow_psk_as_token),
        claims,
        owner_is_admin,
    )
}

/// Whether a request may administrate. `owner_is_admin` says whether the token is an API key of
/// an administrator.
pub fn require_admin_auth(auth: &Option<String>, cfg: &Config, owner_is_admin: bool) -> (r: bool)
    ensures
        http::token_of(text::opt_text(*auth)) is None ==> !r,
        http::token_of(text::opt_text(*auth)) is Some ==> exists|claims: Option<ClaimsModel>|
            #[trigger] is_admin_verdict(
                r,
                http::token_of(text::opt_text(*auth))->Some_0,
                cfg@,
                owner_is_admin,
                claims,
            ),
{
    let token = match http::extract_token(auth) {
        None => return false,
        Some(token) => token,
    };
    let claims = verify_jwt(token.as_str(), cfg.jwt_secret.as_str());
    let r = administers_with(is_psk(token.as_str(), cfg), &claims, owner_is_admin);
    proof {
        let shown = http::token_of(text::opt_text(*auth))->Some_0;
        assert(shown =~= token@);
        assert(is_admin_verdict(r, shown, cfg@, owner_is_admin, opt_claims(claims)));
    }
    r
}

/// The user of a request to the management API: that of a signed token, none for the shared
/// key, or the owner of an API key.
pub open spec fn managed_user(psk: bool, claims: Option<ClaimsModel>, key_owner: Option<i64>) -> Option<
    i64,
> {
    match claims {
        Some(c) => user_of(c),
        None => if psk {
            None
        } else {
            key_owner
        },
    }
}

/// The user of a request to the management API, from what was found out about the token.
pub fn managed_user_with(psk: bool, claims: &Option<Claims>, key_owner: Option<i64>) -> (r: Option<
    i64,
>)
    ensures
        r == managed_user(psk, opt_claims(*claims), key_owner),
{
    match claims {
        Some(c) => text::signed_of(c.sub.as_str()),
        None => if psk {
            None
        } else {
            key_owner
        },
    }
}

/// The user for claims that the token may have.
pub open spec fn is_managed_user(
    r: Option<i64>,
    token: Seq<char>,
    cfg: ConfigModel,
    key_owner: Option<i64>,
    claims: Option<ClaimsModel>,
) -> bool {
    may_verify(token, cfg.jwt_secret, claims) && r == managed_user(
        is_shared_key(token, cfg.psk, cfg.allow_psk_as_token),
        claims,
        key_owner,
    )
}

/// The user of a request to the management API. `key_owner` is the user whose API key the token
/// is, if it is one.
pub fn get_user_id_from_auth(auth: &Option<String>, cfg: &Config, key_owner: Option<i64>) -> (r:
    Option<i64>)
    ensures
        http::token_of(text::opt_text(*auth)) is None ==> r is None,
        http::token_of(text::opt_text(*auth)) is Some ==> exists|claims: Option<ClaimsModel>|
            #[trigger] is_managed_user(
                r,
                http::token_of(text::opt_text(*auth))->Some_0,
                cfg@,
                key_owner,
                claims,
            ),
{
    let token = match http::extract_token(auth) {
        None => return None,
        Some(token) => token,
    };
    let claims = verify_jwt(token.as_str(), cfg.jwt_secret.as_str());
    let r = managed_user_with(is_psk(token.as_str(), cfg), &claims, key_owner);
    proof {
        let shown = http::token_of(text::opt_text(*auth))->Some_0;
        assert(shown =~= token@);
        assert(is_managed_user(r, shown, cfg@, key_owner, opt_claims(claims)));
    }
    r
}

// ── Workers ─────────────────────────────────────────────────────────────────

/// Whether a worker may connect: it shows the shared key, as it is or as a bearer token.
pub open spec fn worker_may_connect(auth: Option<Seq<char>>, psk: Seq<char>) -> bool {
    match auth {
        Some(t) => t == psk || t == "Bearer "@ + psk,
        None => false,
    }
}

pub fn worker_is_authorized(auth: &Option<String>, cfg: &Config) -> (r: bool)
    ensures
        r == worker_may_connect(text::opt_text(*auth), cfg@.psk),
{
    match auth {
        Some(t) => {
            let bearer = text::concat("Bearer ", cfg.psk.as_str());
            text::str_eq(t.as_str(), cfg.psk.as_str()) || text::str_eq(
                t.as_str(),
                bearer.as_str(),
            )
        },
        None => false,
    }
}

// ── Users ───────────────────────────────────────────────────────────────────

/// A user account.
pub struct UserInfo {
    pub id: i64,
    pub email: String,
    pub name: Option<String>,
    pub is_admin: bool,
    pub is_approved: bool,
    pub created_at: i64,
}

/// The mail address and the name that an identity provider vouches for, or why it does not.
pub open spec fn vouched(v: JsonModel) -> Result<(Seq<char>, Seq<char>), Seq<char>> {
    match v.field("error_description"@) {
        Some(e) => Err(
            match e.str() {
                Some(m) => m,
                None => "Invalid token"@,
            },
        ),
        None => match v.str_at("email"@) {
            Some(email) => Ok((email, json::or_empty(v.str_at("name"@)))),
            None => Err("No email in token"@),
        },
    }
}

pub open spec fn vouched_texts(r: Result<(String, String), String>) -> Result<
    (Seq<char>, Seq<char>),
    Seq<char>,
> {
    match r {
        Ok((a, b)) => Ok((a@, b@)),
        Err(e) => Err(e@),
    }
}

/// The mail address and the name in an identity provider's answer.
pub fn vouched_identity(v: &Json) -> (r: Result<(String, String), String>)
    ensures
        vouched_texts(r) == vouched(v@),
{
    match v.get("error_description") {
        Some(e) => Err(
            match e.as_str() {
                Some(m) => text::owned(m),
                None => text::owned("Invalid token"),
            },
        ),
        None => match v.str_at("email") {
            Some(email) => {
                let name = match v.str_at("name") {
                    Some(n) => text::owned(n),
                    None => String::new(),
                };
                assert(name@ =~= json::or_empty(v@.str_at("name"@)));
                Ok((text::owned(email), name))
            },
            None => Err(text::owned("No email in token")),
        },
    }
}

/// The mail address and the name in the text of an identity provider's answer.
pub fn vouched_in(body: &str) -> (r: Result<(String, String), String>)
    ensures
        vouched_texts(r) == (match json::json_read(body@) {
            Ok(v) => vouched(v),
            Err(e) => Err(e),
        }),
{
    match json::from_str(body) {
        Ok(v) => vouched_identity(&json::json_of(v)),
        Err(e) => Err(json::error_text(&e)),
    }
}

/// Whether a new account is an administrator's and approved at once: the very first one is.
pub fn new_account_is_trusted(accounts: i64) -> (r: bool)
    ensures
        r == (accounts == 0),
{
    accounts == 0
}

/// The token for a user who has logged in, once the account is approved.
pub fn login(user: &UserInfo, secret: &str, now: u64) -> (r: Result<String, String>)
    requires
        now + TOKEN_LIFETIME_S <= usize::MAX,
    ensures
        match r {
            Ok(t) => user.is_approved && t@ == jwt_token(
                claims_json(claims_for(user.id, user.email@, user.is_admin, now)),
                secret@,
            ),
            Err(e) => !user.is_approved && e@ == "Account pending administrator approval"@,
        },
{
    if !user.is_approved {
        return Err(text::owned("Account pending administrator approval"));
    }
    Ok(create_jwt(user.id, user.email.as_str(), user.is_admin, secret, now))
}

// ── API keys ────────────────────────────────────────────────────────────────

/// An API key of a user.
pub struct ApiKey {
    pub key: String,
    pub name: String,
    pub user_id: i64,
    pub user_email: Option<String>,
    pub created_at: i64,
    pub last_used: Option<i64>,
}

pub open spec fn is_alphanumeric(c: char) -> bool {
    ('0' <= c <= '9') || ('A' <= c <= 'Z') || ('a' <= c <= 'z')
}

/// `rand::distr::Alphanumeric`, sampled from `rand::rng`: so many random letters and digits.
/// Which ones, chance decides.
#[verifier::external_body]
fn random_alphanumerics(n: usize) -> (r: String)
    ensures
        r@.len() == n,
        forall|i: int| 0 <= i < r@.len() ==> is_alphanumeric(#[trigger] r@[i]),
{
    rand::rng().sample_iter(&Alphanumeric).take(n).map(char::from).collect()
}

/// `sk-` and 48 letters and digits.
pub open spec fn is_api_key(key: Seq<char>) -> bool {
    key.len() == 51 && key.take(3) == "sk-"@ && forall|i: int|
        3 <= i < 51 ==> is_alphanumeric(#[trigger] key[i])
}

/// The text of a new API key.
pub fn new_api_key() -> (r: String)
    ensures
        is_api_key(r@),
{
    let raw = random_alphanumerics(48);
    let key = text::concat("sk-", raw.as_str());
    proof {
        reveal_strlit("sk-");
        assert("sk-"@.len() == 3);
        assert(key@.take(3) =~= "sk-"@);
        assert forall|i: int| 3 <= i < 51 implies is_alphanumeric(#[trigger] key@[i]) by {
            assert(key@[i] == raw@[i - 3]);
        }
    }
    key
}

/// A new API key for a user who has `namesakes` keys of that name already.
pub fn generate_api_key(user_id: i64, name: &str, namesakes: i64, now: i64) -> (r: Result<
    ApiKey,
    String,
>)
    ensures
        match r {
            Ok(k) => namesakes <= 0 && is_api_key(k.key@) && k.name@ == name@ && k.user_id
                == user_id && k.user_email is None && k.created_at == now && k.last_used is None,
            Err(e) => namesakes > 0 && e@ == "An API key with this name already exists"@,
        },
{
    if namesakes > 0 {
        return Err(text::owned("An API key with this name already exists"));
    }
    Ok(
        ApiKey {
            key: new_api_key(),
            name: text::owned(name),
            user_id,
            user_email: None,
            created_at: now,
            last_used: None,
        },
    )
}

// ── Laws ────────────────────────────────────────────────────────────────────

proof fn claims_are_flat(c: ClaimsModel)
    ensures
        is_flat(claims_json(c)),
{
}

/// Claims survive on their way through JSON.
pub proof fn claims_survive_json(c: ClaimsModel)
    ensures
        claims_of(claims_json(c)) == Some(c),
{
    reveal_strlit("sub");
    reveal_strlit("exp");
    reveal_strlit("is_admin");
    reveal_strlit("email");
    assert("sub"@.len() == 3 && "exp"@.len() == 3 && "is_admin"@.len() == 8 && "email"@.len()
        == 5);
    assert("sub"@[0] == 's' && "exp"@[0] == 'e');
}

/// Where a token that was made for a user is accepted, it stands for that user with the rights
/// that were given.
pub proof fn token_stands_for_its_user(
    token: Seq<char>,
    secret: Seq<char>,
    user_id: i64,
    email: Seq<char>,
    is_admin: bool,
    now: u64,
    claims: Option<ClaimsModel>,
)
    requires
        jwt_opened(token, secret) == Some(claims_json(claims_for(user_id, email, is_admin, now))),
        may_verify(token, secret, claims),
        claims is Some,
    ensures
        claims == Some(claims_for(user_id, email, is_admin, now)),
        administers(false, claims, false) == is_admin,
        user_of(claims->Some_0) == Some(user_id),
{
    claims_survive_json(claims_for(user_id, email, is_admin, now));
    text::signed_survives(user_id as int);
}

/// Without a token nobody is anybody.
pub proof fn nothing_without_a_token()
    ensures
        caller(false, None, None) is None,
        !administers(false, None, false),
        managed_user(false, None, None) is None,
        http::token_of(None) is None,
{
}

} // verus!
