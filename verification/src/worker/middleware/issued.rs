//! Decoders for the tokens that the admin service issues, whose claims are
//! signed into the identifier.

use vstd::prelude::*;

use super::do_sync_auth::sync_view;
use super::session_auth::{header_view, session_view};
use super::{bearer_of, extract_bearer};
use crate::shared::auth::keyring::Keyring;
use crate::shared::auth::session::{SessionContext, SessionView, SyncContext, SyncView};
use crate::worker::auth::token_laws::{
    law_expired_session_refused, law_expired_sync_refused, law_session_round_trip,
    law_sync_round_trip,
};
use crate::worker::auth::tokens::{
    session_outcome, session_result, session_token, sync_outcome, sync_result, sync_token,
    verify_session, verify_sync, TokenError, TokenErrorView,
};

verus! {

/// What an outcome of verification yields.
pub open spec fn yielded<T>(o: Result<T, TokenErrorView>) -> Option<T> {
    match o {
        Ok(s) => Some(s),
        Err(_) => None,
    }
}

/// Whether `r` is the session that an authorization header yields at a time.
pub open spec fn issued_session_of_header(
    key: Seq<u8>,
    now_unix: i64,
    header: Option<Seq<char>>,
    r: Option<SessionView>,
) -> bool {
    match header {
        None => r is None,
        Some(h) => match bearer_of(h) {
            None => r is None,
            Some(token) => exists|o: Result<SessionView, TokenErrorView>| #[trigger]
                session_outcome(key, now_unix, token, o) && r == yielded(o),
        },
    }
}

/// The session of an authorization header at a time: none where the header is
/// missing, no bearer authorization, or its token does not verify.
pub fn issued_session_at(keyring: &Keyring, now_unix: i64, authorization: Option<&str>) -> (r:
    Option<SessionContext>)
    ensures
        issued_session_of_header(keyring@, now_unix, header_view(authorization), session_view(r)),
{
    match authorization {
        Some(h) => match extract_bearer(h) {
            Some(token) => {
                let verified: Result<SessionContext, TokenError> = verify_session(
                    keyring,
                    now_unix,
                    token.as_str(),
                );
                assert(session_outcome(keyring@, now_unix, token@, session_result(verified)));
                match verified {
                    Ok(c) => Some(c),
                    Err(_) => None,
                }
            },
            None => None,
        },
        None => None,
    }
}

/// Whether `r` is the grant that an authorization header yields at a time.
pub open spec fn issued_sync_of_header(
    key: Seq<u8>,
    now_unix: i64,
    header: Option<Seq<char>>,
    r: Option<SyncView>,
) -> bool {
    match header {
        None => r is None,
        Some(h) => match bearer_of(h) {
            None => r is None,
            Some(token) => exists|o: Result<SyncView, TokenErrorView>| #[trigger]
                sync_outcome(key, now_unix, token, o) && r == yielded(o),
        },
    }
}

/// The grant of an authorization header at a time: none where the header is
/// missing, no bearer authorization, or its token does not verify.
pub fn issued_sync_at(keyring: &Keyring, now_unix: i64, authorization: Option<&str>) -> (r: Option<
    SyncContext,
>)
    ensures
        issued_sync_of_header(keyring@, now_unix, header_view(authorization), sync_view(r)),
{
    match authorization {
        Some(h) => match extract_bearer(h) {
            Some(token) => {
                let verified: Result<SyncContext, TokenError> = verify_sync(
                    keyring,
                    now_unix,
                    token.as_str(),
                );
                assert(sync_outcome(keyring@, now_unix, token@, sync_result(verified)));
                match verified {
                    Ok(c) => Some(c),
                    Err(_) => None,
                }
            },
            None => None,
        },
        None => None,
    }
}

/// A request that bears an issued session token carries that session, until
/// the token expires.
pub proof fn law_issued_session_is_decoded(
    key: Seq<u8>,
    s: SessionView,
    token: Seq<char>,
    header: Seq<char>,
    now_unix: i64,
    r: Option<SessionView>,
)
    requires
        session_token(key, s, token),
        s.user.len() > 0,
        s.email.len() > 0,
        s.org.len() > 0,
        bearer_of(header) == Some(token),
        issued_session_of_header(key, now_unix, Some(header), r),
    ensures
        r == if now_unix < s.exp_unix {
            Some(s)
        } else {
            None
        },
{
    let o = choose|o: Result<SessionView, TokenErrorView>| #[trigger]
        session_outcome(key, now_unix, token, o) && r == yielded(o);
    if now_unix < s.exp_unix {
        law_session_round_trip(key, s, token, now_unix, o);
    } else {
        law_expired_session_refused(key, s, token, now_unix, o);
    }
}

/// A request that bears an issued sync token carries that grant, until the
/// token expires.
pub proof fn law_issued_grant_is_decoded(
    key: Seq<u8>,
    s: SyncView,
    token: Seq<char>,
    header: Seq<char>,
    now_unix: i64,
    r: Option<SyncView>,
)
    requires
        sync_token(key, s, token),
        s.user.len() > 0,
        s.org.len() > 0,
        s.database.len() > 0,
        bearer_of(header) == Some(token),
        issued_sync_of_header(key, now_unix, Some(header), r),
    ensures
        r == if now_unix < s.exp_unix {
            Some(s)
        } else {
            None
        },
{
    let o = choose|o: Result<SyncView, TokenErrorView>| #[trigger]
        sync_outcome(key, now_unix, token, o) && r == yielded(o);
    if now_unix < s.exp_unix {
        law_sync_round_trip(key, s, token, now_unix, o);
    } else {
        law_expired_sync_refused(key, s, token, now_unix, o);
    }
}

} // verus!
