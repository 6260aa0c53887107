//! What a client is told whose request is not taken.
use vstd::prelude::*;

use crate::brain::accept::{self, IncomingModel};
use crate::brain::auth::{self, ClaimsModel};
use crate::brain::http::{self, Refusal};
use crate::brain::management::{self, RouteModel};
use crate::brain::plan::{self, RequestIds};
use crate::brain::protocol::TaskBundle;
use crate::converter::translate;
use crate::converter::types::{AnthropicRequestModel, ChatRequestModel, MessageModel};
use crate::json::{JsonModel, Num};
use crate::text;
use crate::text_laws;

verus! {

/// The request was refused with the status and the code.
pub open spec fn is_refused(r: Result<TaskBundle, Refusal>, status: int, code: Seq<char>) -> bool {
    r matches Err(e) && e.status == status && e.code@ == code
}

/// A chat request without messages is the client's fault; one that no worker is there for, or
/// whose prompt no worker can hold, is told so; and any other is taken.
pub proof fn chat_refusals_say_why(
    r: Result<TaskBundle, Refusal>,
    req: ChatRequestModel,
    worker: Option<(Seq<char>, u32)>,
    default_context: u32,
    temperature: Num,
    ids: RequestIds,
)
    requires
        plan::is_chat_outcome(r, req, worker, default_context, temperature, ids),
    ensures
        req.messages.len() == 0 ==> is_refused(r, 400, "invalid_request"@),
        req.messages.len() > 0 && worker is None ==> is_refused(r, 503, "no_worker_available"@),
        req.messages.len() > 0 ==> (worker matches Some((model, context)) ==> {
            let t = plan::chat_task(req, model, ids.request_id@, ids.session_id@, temperature);
            let room = if context > 0 {
                context
            } else {
                default_context
            };
            &&& plan::estimate(t.messages, t.tools) > room ==> is_refused(
                r,
                413,
                "context_length_exceeded"@,
            )
            &&& plan::estimate(t.messages, t.tools) <= room ==> r is Ok
        }),
{
}

/// An Anthropic request with a turn of an unknown role is the client's fault; one that wants a
/// tool that the gateway cannot run, one that no worker is there for, or whose prompt no worker
/// can hold, is told so; and any other is taken.
pub proof fn anthropic_refusals_say_why(
    r: Result<TaskBundle, Refusal>,
    req: AnthropicRequestModel,
    resolved: Seq<char>,
    has_engine: bool,
    worker: Option<(Seq<char>, u32)>,
    default_context: u32,
    temperature: Num,
    ids: RequestIds,
)
    requires
        plan::is_anthropic_outcome(
            r,
            req,
            resolved,
            has_engine,
            worker,
            default_context,
            temperature,
            ids,
        ),
    ensures
        translate::unknown_role(req.messages) is Some ==> is_refused(r, 400, "invalid_request"@),
        translate::unknown_role(req.messages) is None && translate::hosted_tools_of(req).len() > 0
            && !has_engine ==> is_refused(r, 400, "not_configured"@),
        translate::unknown_role(req.messages) is None && (translate::hosted_tools_of(req).len() == 0
            || has_engine) && worker is None ==> is_refused(r, 503, "no_worker_available"@),
        translate::unknown_role(req.messages) is None && (translate::hosted_tools_of(req).len() == 0
            || has_engine) ==> (worker matches Some((model, context)) ==> {
            let t = plan::anthropic_task(
                req,
                resolved,
                model,
                ids.request_id@,
                ids.session_id@,
                temperature,
            );
            let room = if context > 0 {
                context
            } else {
                default_context
            };
            &&& plan::estimate(t.messages, t.tools) > room ==> is_refused(
                r,
                413,
                "context_length_exceeded"@,
            )
            &&& plan::estimate(t.messages, t.tools) <= room ==> r is Ok
        }),
{
}

/// A role is unknown exactly if some turn has it that is none of the three; it is the first one.
pub proof fn unknown_roles_are_found(turns: Seq<MessageModel>)
    ensures
        translate::unknown_role(turns) is None <==> forall|i: int|
            0 <= i < turns.len() ==> may_speak((#[trigger] turns[i]).role),
        translate::unknown_role(turns) matches Some(role) ==> exists|i: int|
            0 <= i < turns.len() && (#[trigger] turns[i]).role == role && !may_speak(role) && (
            forall|j: int| 0 <= j < i ==> may_speak((#[trigger] turns[j]).role)),
    decreases turns.len(),
{
    if turns.len() > 0 {
        let rest = turns.drop_last();
        unknown_roles_are_found(rest);
        match translate::unknown_role(rest) {
            Some(role) => {
                let i = choose|i: int|
                    0 <= i < rest.len() && (#[trigger] rest[i]).role == role && !may_speak(role)
                        && (forall|j: int| 0 <= j < i ==> may_speak((#[trigger] rest[j]).role));
                assert(turns[i].role == role);
                assert forall|j: int| 0 <= j < i implies may_speak((#[trigger] turns[j]).role) by {
                    assert(rest[j] == turns[j]);
                }
            },
            None => {
                let k = turns.len() - 1;
                assert(turns[k] == turns.last());
                assert forall|j: int| 0 <= j < k implies may_speak((#[trigger] turns[j]).role) by {
                    assert(may_speak(rest[j].role));
                }
            },
        }
    }
}

/// Those who may speak in a request.
pub open spec fn may_speak(role: Seq<char>) -> bool {
    role == "user"@ || role == "assistant"@ || role == "system"@
}

/// The words for the statuses that the gateway answers with.
pub proof fn statuses_have_their_words()
    ensures
        http::reason_phrase(400) == "Bad Request"@,
        http::reason_phrase(401) == "Unauthorized"@,
        http::reason_phrase(403) == "Forbidden"@,
        http::reason_phrase(404) == "Not Found"@,
        http::reason_phrase(503) == "Service Unavailable"@,
        http::reason_phrase(504) == "Gateway Timeout"@,
        http::reason_phrase(500) == "Internal Server Error"@,
{
}

/// Who is vouched for is known by the address that was vouched for, and by no other; what is
/// refused vouches for nobody.
pub proof fn vouching_names_the_address(v: JsonModel, email: Seq<char>)
    ensures
        v.field("error_description"@) is None && v.str_at("email"@) == Some(email) ==> (
        auth::vouched(v) matches Ok((e, name)) && e == email && (v.str_at("name"@) matches Some(n)
            ==> name == n)),
        v.field("error_description"@) is Some ==> auth::vouched(v) is Err,
        v.str_at("email"@) is None ==> auth::vouched(v) is Err,
{
}

/// The shared key stands for no user; the key of a user stands for that user; and claims stand
/// for the user that they name. Without any of them nobody asks.
pub proof fn tokens_stand_for_users(owner: i64, claims: ClaimsModel, user: i64)
    requires
        claims.sub == text::dec_signed(user as int),
    ensures
        auth::caller(true, Some(owner), Some(claims)) == Some(None::<i64>),
        auth::caller(false, Some(owner), None) == Some(Some(owner)),
        auth::caller(false, None, Some(claims)) == Some(Some(user)),
        auth::caller(false, None, None) is None,
        auth::managed_user(true, None, Some(owner)) is None,
        auth::managed_user(false, None, Some(owner)) == Some(owner),
        auth::managed_user(false, Some(claims), Some(owner)) == Some(user),
        auth::managed_user(false, None, None) is None,
{
    text::signed_survives(user as int);
}

/// The shared key administers; claims do where they say so, whatever key is shown with them; and
/// a key does where its owner may.
pub proof fn tokens_administer(claims: ClaimsModel, owner_is_admin: bool)
    ensures
        auth::administers(true, None, owner_is_admin),
        auth::administers(false, Some(claims), owner_is_admin) == claims.is_admin,
        auth::administers(false, None, owner_is_admin) == owner_is_admin,
{
}

/// A worker shows the shared key in the path or in a header; what stands in the path counts.
pub proof fn path_goes_before_header(r: IncomingModel, t: Seq<char>)
    ensures
        accept::query_token(r.path) == Some(t) ==> accept::shown_token(r) == Some(t),
        accept::query_token(r.path) is None ==> accept::shown_token(r) == r.auth,
        !r.path.contains('?') ==> accept::shown_token(r) == r.auth,
{
    if !r.path.contains('?') {
        text_laws::cut_is_at_the_first(r.path, '?');
        reveal_strlit("?");
        match text::cut_at(r.path, '?') {
            Some((a, b)) => {
                let k = a.len() as int;
                assert((a + seq!['?'] + b)[k] == '?');
                assert(r.path.contains('?'));
            },
            None => {},
        }
    }
}

/// A request that names no user or no key where it should is told so, and one for what is not
/// there as well.
pub proof fn incomplete_requests_are_refused(path: Seq<char>)
    ensures
        management::complaint(RouteModel::ApproveUser(None)) matches Some((status, code, _))
            && status == 400 && code == "bad_id"@,
        management::complaint(RouteModel::DeleteUser(None)) matches Some((status, code, _))
            && status == 400 && code == "bad_id"@,
        management::complaint((RouteModel::SetAdmin { user: None, grant: true })) matches Some(
            (status, code, _),
        ) && status == 400 && code == "bad_id"@,
        management::complaint(RouteModel::DeleteOwnKey(seq![])) matches Some((status, code, _))
            && status == 400 && code == "missing_field"@,
        management::complaint(RouteModel::DeleteAnyKey(seq![])) matches Some((status, code, _))
            && status == 400 && code == "missing_field"@,
        management::complaint(RouteModel::Unknown(path)) matches Some((status, code, _))
            && status == 404 && code == "not_found"@,
{
}

} // verus!
