//! Request decoders: request ids and bearer tokens. Auth layers are decoders,
//! not gates: handlers ask for a session or sync context themselves.

pub mod do_sync_auth;
pub mod issued;
pub mod request_id;
pub mod session_auth;

use vstd::prelude::*;

use crate::shared::auth::session::{SessionContext, SyncContext};
use crate::text::{
    chars_of, eq_ignore_ascii_case, same_ignoring_case, text_of, trim, trimmed,
};
use crate::worker::services::rpc::{rpc_error, RpcCode, RpcError};

verus! {

/// The token of a bearer authorization: what follows `Bearer ` in any case,
/// without the white space around it.
pub open spec fn bearer_of(s: Seq<char>) -> Option<Seq<char>> {
    let t = trimmed(s);
    if t.len() > 7 && same_ignoring_case(t.take(7), "Bearer "@) {
        Some(trimmed(t.skip(7)))
    } else {
        None
    }
}

/// The token of a bearer authorization.
pub fn extract_bearer(s: &str) -> (r: Option<String>)
    ensures
        match (bearer_of(s@), r) {
            (Some(want), Some(got)) => got@ == want,
            (None, None) => true,
            _ => false,
        },
{
    let t: String = trim(s);
    let cs: Vec<char> = chars_of(t.as_str());
    if cs.len() > 7 {
        let head: String = text_of(&cs, 0, 7);
        assert(head@ =~= t@.take(7));
        if eq_ignore_ascii_case(head.as_str(), "Bearer ") {
            let rest: String = text_of(&cs, 7, cs.len());
            assert(rest@ =~= t@.skip(7));
            return Some(trim(rest.as_str()));
        }
    }
    None
}

/// The session of a request, or its refusal as unauthenticated.
pub fn require_session(ctx: Option<SessionContext>) -> (r: Result<SessionContext, RpcError>)
    ensures
        match ctx {
            Some(c) => r == Ok::<SessionContext, RpcError>(c),
            None => r matches Err(e) && e@ == rpc_error(
                RpcCode::Unauthenticated,
                "session token required"@,
            ),
        },
{
    match ctx {
        Some(c) => Ok(c),
        None => Err(RpcError::new(RpcCode::Unauthenticated, "session token required")),
    }
}

/// The sync grant of a request, or its refusal as unauthenticated.
pub fn require_sync(ctx: Option<SyncContext>) -> (r: Result<SyncContext, RpcError>)
    ensures
        match ctx {
            Some(c) => r == Ok::<SyncContext, RpcError>(c),
            None => r matches Err(e) && e@ == rpc_error(
                RpcCode::Unauthenticated,
                "sync token required"@,
            ),
        },
{
    match ctx {
        Some(c) => Ok(c),
        None => Err(RpcError::new(RpcCode::Unauthenticated, "sync token required")),
    }
}

} // verus!
