//! Worker-side WebSocket upgrade forwarder for sync.
//!
//! The worker is a thin auth/routing edge for sync: it verifies the
//! sync macaroon, derives the DurableObject name from the signed
//! `database` claim, and forwards the upgrade request. A missing or invalid
//! token short-circuits with 401 here so the upgrade never reaches the
//! object; the object independently re-verifies on the inside as defense in
//! depth.

use vstd::prelude::*;

use super::do_sync_ws::issued_token_outcome;
use super::middleware::issued::law_issued_grant_is_decoded;
use super::middleware::{bearer_of, extract_bearer};
use super::routes::{text, text_reply, Reply};
use crate::shared::auth::keyring::Keyring;
use crate::shared::auth::session::{SyncContext, SyncView};
use crate::text::join2;
use crate::worker::auth::token_laws::{law_expired_sync_refused, law_sync_round_trip};
use crate::worker::auth::tokens::{sync_outcome, sync_result, sync_token, verify_sync, TokenError};
use crate::worker::middleware::session_auth::header_view;

verus! {

/// Single fixed path the sync WebSocket lives at. The macaroon's signed
/// `database` claim picks the object; the URL path doesn't carry routing
/// information beyond identifying this as a sync call.
pub const SYNC_PATH: &'static str = "/sync";

/// Binding name for the `EdgeReplica` DurableObject namespace.
pub const DO_BINDING: &'static str = "EDGE_REPLICA";

/// The bearer token of an authorization header.
pub open spec fn header_token(header: Option<Seq<char>>) -> Option<Seq<char>> {
    match header {
        Some(h) => bearer_of(h),
        None => None,
    }
}

/// Whether `r` is what verifying an upgrade request gives at a time: the grant
/// of its bearer token, or the 401 that answers a request without one or with
/// one that does not verify.
pub open spec fn forward_outcome(
    key: Seq<u8>,
    now_unix: i64,
    header: Option<Seq<char>>,
    r: Result<SyncContext, Reply>,
) -> bool {
    match header_token(header) {
        None => r matches Err(reply) && reply@ == text_reply(401, "missing bearer token"@),
        Some(t) => exists|v: Result<SyncContext, TokenError>| #[trigger]
            sync_outcome(key, now_unix, t, sync_result(v)) && match v {
                Ok(c) => r == Ok::<SyncContext, Reply>(c),
                Err(e) => r matches Err(reply) && reply@ == text_reply(
                    401,
                    "invalid sync token: "@ + e.text(),
                ),
            },
    }
}

/// Verifies an upgrade request by its authorization header at a time.
pub fn verify_request(keyring: &Keyring, now_unix: i64, authorization: Option<&str>) -> (r: Result<
    SyncContext,
    Reply,
>)
    ensures
        forward_outcome(keyring@, now_unix, header_view(authorization), r),
{
    let token: Option<String> = match authorization {
        Some(h) => extract_bearer(h),
        None => None,
    };
    match token {
        None => Err(text(401, "missing bearer token")),
        Some(t) => {
            let v: Result<SyncContext, TokenError> = verify_sync(keyring, now_unix, t.as_str());
            assert(sync_outcome(keyring@, now_unix, t@, sync_result(v)));
            match v {
                Ok(c) => Ok(c),
                Err(e) => Err(
                    text(401, join2("invalid sync token: ", e.to_string().as_str()).as_str()),
                ),
            }
        },
    }
}

/// The name of the object that a grant's database lives in.
pub fn object_name(ctx: &SyncContext) -> (r: &str)
    ensures
        r@ == ctx.database@,
{
    ctx.database.as_str()
}

/// The edge lets an issued token through, until it expires, with the grant
/// that it was issued for, and so does the object behind it.
pub proof fn law_edge_and_object_agree(
    key: Seq<u8>,
    s: SyncView,
    token: Seq<char>,
    header: Seq<char>,
    now_unix: i64,
    edge: Result<SyncContext, Reply>,
    object: Result<SyncContext, u16>,
)
    requires
        sync_token(key, s, token),
        s.user.len() > 0,
        s.org.len() > 0,
        s.database.len() > 0,
        bearer_of(header) == Some(token),
        forward_outcome(key, now_unix, Some(header), edge),
        issued_token_outcome(key, now_unix, Ok(Some(header)), object),
    ensures
        match (edge, object) {
            (Ok(a), Ok(b)) => now_unix < s.exp_unix && a@ == s && b@ == s,
            (Err(reply), Err(status)) => now_unix >= s.exp_unix && reply@.status == 401 && status
                == 401,
            _ => false,
        },
{
    let v = choose|v: Result<SyncContext, TokenError>| #[trigger]
        sync_outcome(key, now_unix, token, sync_result(v)) && match v {
            Ok(c) => edge == Ok::<SyncContext, Reply>(c),
            Err(e) => edge matches Err(reply) && reply@ == text_reply(
                401,
                "invalid sync token: "@ + e.text(),
            ),
        };
    let seen = match object {
        Ok(c) => Some(c@),
        Err(_) => None,
    };
    law_issued_grant_is_decoded(key, s, token, header, now_unix, seen);
    if now_unix < s.exp_unix {
        law_sync_round_trip(key, s, token, now_unix, sync_result(v));
    } else {
        law_expired_sync_refused(key, s, token, now_unix, sync_result(v));
    }
}

/// A request without a bearer token is answered with 401 and told so; one
/// whose token does not verify is answered with 401 and told why.
pub proof fn law_forward_refusals(
    key: Seq<u8>,
    now_unix: i64,
    header: Option<Seq<char>>,
    r: Result<SyncContext, Reply>,
)
    requires
        forward_outcome(key, now_unix, header, r),
    ensures
        r matches Err(reply) ==> reply@.status == 401 && reply@.content_type
            == "text/plain; charset=utf-8"@,
        header is None ==> (r matches Err(reply) && reply@.body == "missing bearer token"@),
        (header matches Some(h) && bearer_of(h) is None) ==> (r matches Err(reply) && reply@.body
            == "missing bearer token"@),
        (header matches Some(h) && bearer_of(h) is Some) ==> (r matches Err(reply)
            ==> crate::text::has_prefix(reply@.body, "invalid sync token: "@)),
{
    if let Some(h) = header {
        if bearer_of(h) is Some && r is Err {
            let t = bearer_of(h)->0;
            let v = choose|v: Result<SyncContext, TokenError>| #[trigger]
                sync_outcome(key, now_unix, t, sync_result(v)) && match v {
                    Ok(c) => r == Ok::<SyncContext, Reply>(c),
                    Err(e) => r matches Err(reply) && reply@ == text_reply(
                        401,
                        "invalid sync token: "@ + e.text(),
                    ),
                };
            let head = "invalid sync token: "@;
            let body = head + v->Err_0.text();
            assert(body.take(head.len() as int) =~= head);
        }
    }
}

} // verus!
