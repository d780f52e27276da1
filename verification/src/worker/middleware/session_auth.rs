//! Optional session macaroon auth.
//!
//! Inspects the `Authorization: Bearer <token>` header of a request, verifies
//! the macaroon, and yields a [`SessionContext`] on success. Failures are
//! silent: handlers that require auth ask for the session themselves.
//!
//! Why optional? `Whoami`, `Signup`, `Login`, and the OAuth start/complete
//! RPCs run unauthenticated. A strict layer would force an awkward
//! "is_public" allowlist; treating the layer as a decoder keeps the
//! handler responsible for its own access policy.

use vstd::prelude::*;

use super::issued::{issued_session_at, issued_session_of_header};
use super::{bearer_of, extract_bearer};
use crate::shared::auth::keyring::Keyring;
use crate::shared::auth::session::{SessionContext, SessionView};
use crate::shared::auth::token_laws::{law_expired_session_refused, law_session_round_trip};
use crate::shared::auth::tokens::{
    session_outcome, session_result, session_token, verify_session, TokenError, TokenErrorView,
};
use crate::shared::clock::{shows_second, Clock};

verus! {

/// Decodes session tokens.
pub struct SessionAuthLayer<C: Clock> {
    keyring: Keyring,
    clock: C,
}

/// The session that an outcome of verification yields.
pub open spec fn yielded(o: Result<SessionView, TokenErrorView>) -> Option<SessionView> {
    match o {
        Ok(s) => Some(s),
        Err(_) => None,
    }
}

/// A session over characters.
pub open spec fn session_view(r: Option<SessionContext>) -> Option<SessionView> {
    match r {
        Some(c) => Some(c@),
        None => None,
    }
}

/// Whether `r` is what an authorization header yields at a time.
pub open spec fn session_of_header(
    key: Seq<u8>,
    now_unix: i64,
    header: Option<Seq<char>>,
    r: Option<SessionView>,
) -> bool {
    match header {
        None => r is None,
        Some(h) => match bearer_of(h) {
            None => r is None,
            Some(token) => exists|o: Result<SessionView, TokenErrorView>| #[trigger]
                session_outcome(key, now_unix, token, o) && r == yielded(o),
        },
    }
}

/// A header over characters.
pub open spec fn header_view(h: Option<&str>) -> Option<Seq<char>> {
    match h {
        Some(s) => Some(s@),
        None => None,
    }
}

/// The session of an authorization header at a time: none where the header is
/// missing, no bearer authorization, or its token does not verify.
pub fn session_at(keyring: &Keyring, now_unix: i64, authorization: Option<&str>) -> (r: Option<
    SessionContext,
>)
    ensures
        session_of_header(keyring@, now_unix, header_view(authorization), session_view(r)),
{
    match authorization {
        Some(h) => match extract_bearer(h) {
            Some(token) => {
                let verified: Result<SessionContext, TokenError> = verify_session(
                    keyring,
                    now_unix,
                    token.as_str(),
                );
                assert(session_outcome(keyring@, now_unix, token@, session_result(verified)));
                match verified {
                    Ok(c) => Some(c),
                    Err(_) => None,
                }
            },
            None => None,
        },
        None => None,
    }
}

impl<C: Clock> SessionAuthLayer<C> {
    /// The root key.
    pub closed spec fn key(&self) -> Seq<u8> {
        self.keyring@
    }

    /// The clock that the layer reads.
    pub closed spec fn clock(&self) -> C {
        self.clock
    }

    pub fn new(keyring: Keyring, clock: C) -> (r: Self)
        ensures
            r.key() == keyring@,
            r.clock() == clock,
    {
        SessionAuthLayer { keyring, clock }
    }

    /// The session of an authorization header with a caveat-carried token, now.
    pub fn decode(&self, authorization: Option<&str>) -> (r: Option<SessionContext>)
        ensures
            exists|now_unix: i64| #[trigger]
                shows_second(self.clock(), now_unix) && session_of_header(self.key(), now_unix, header_view(authorization), session_view(r)),
    {
        let now_unix: i64 = self.clock.now_unix_seconds();
        assert(shows_second(self.clock(), now_unix));
        let r: Option<SessionContext> = session_at(&self.keyring, now_unix, authorization);
        assert(session_of_header(self.key(), now_unix, header_view(authorization), session_view(r)));
        r
    }

    /// The session of an authorization header with a token that the admin
    /// service issued, now.
    pub fn decode_issued(&self, authorization: Option<&str>) -> (r: Option<SessionContext>)
        ensures
            exists|now_unix: i64| #[trigger]
                shows_second(self.clock(), now_unix) && issued_session_of_header(
                    self.key(),
                    now_unix,
                    header_view(authorization),
                    session_view(r),
                ),
    {
        let now_unix: i64 = self.clock.now_unix_seconds();
        assert(shows_second(self.clock(), now_unix));
        let r: Option<SessionContext> = issued_session_at(&self.keyring, now_unix, authorization);
        assert(issued_session_of_header(
            self.key(),
            now_unix,
            header_view(authorization),
            session_view(r),
        ));
        r
    }
}

/// A request that bears a session token carries that session, until the token
/// expires; one without a bearer token carries none.
pub proof fn law_session_is_decoded(
    key: Seq<u8>,
    s: SessionView,
    token: Seq<char>,
    header: Seq<char>,
    now_unix: i64,
    r: Option<SessionView>,
    none: Option<SessionView>,
)
    requires
        session_token(key, s, token),
        bearer_of(header) == Some(token),
        session_of_header(key, now_unix, Some(header), r),
        session_of_header(key, now_unix, None, none),
    ensures
        now_unix < s.exp_unix ==> (r matches Some(got) && got.user == s.user && got.email == s.email
            && got.org == s.org && got.role == s.role && got.exp_unix == s.exp_unix),
        now_unix >= s.exp_unix ==> r is None,
        none is None,
{
    let o = choose|o: Result<SessionView, TokenErrorView>| #[trigger]
        session_outcome(key, now_unix, token, o) && r == yielded(o);
    if now_unix < s.exp_unix {
        law_session_round_trip(key, s, token, now_unix, o);
    } else {
        law_expired_session_refused(key, s, token, now_unix, o);
    }
}

} // verus!
