//! Sync macaroon auth that runs **inside the DurableObject**.
//!
//! The worker's edge verifies the same macaroon before forwarding the
//! request; re-verifying here costs microseconds and gives defense in depth:
//! the object doesn't implicitly trust the worker's edge.
//!
//! Like [`super::session_auth`] this is a decoder, not a gate.

use vstd::prelude::*;

use super::issued::{issued_sync_at, issued_sync_of_header};
use super::session_auth::header_view;
use super::{bearer_of, extract_bearer};
use crate::shared::auth::keyring::Keyring;
use crate::shared::auth::session::{SyncContext, SyncView};
use crate::shared::auth::token_laws::{law_expired_sync_refused, law_sync_round_trip};
use crate::shared::auth::tokens::{
    sync_outcome, sync_result, sync_token, verify_sync, TokenError, TokenErrorView,
};
use crate::shared::clock::{shows_second, Clock};

verus! {

/// Decodes sync tokens.
pub struct DoSyncAuthLayer<C: Clock> {
    keyring: Keyring,
    clock: C,
}

/// The grant that an outcome of verification yields.
pub open spec fn yielded(o: Result<SyncView, TokenErrorView>) -> Option<SyncView> {
    match o {
        Ok(s) => Some(s),
        Err(_) => None,
    }
}

/// A grant over characters.
pub open spec fn sync_view(r: Option<SyncContext>) -> Option<SyncView> {
    match r {
        Some(c) => Some(c@),
        None => None,
    }
}

/// Whether `r` is what an authorization header yields at a time.
pub open spec fn sync_of_header(
    key: Seq<u8>,
    now_unix: i64,
    header: Option<Seq<char>>,
    r: Option<SyncView>,
) -> bool {
    match header {
        None => r is None,
        Some(h) => match bearer_of(h) {
            None => r is None,
            Some(token) => exists|o: Result<SyncView, TokenErrorView>| #[trigger]
                sync_outcome(key, now_unix, token, o) && r == yielded(o),
        },
    }
}

/// The grant of an authorization header at a time: none where the header is
/// missing, no bearer authorization, or its token does not verify.
pub fn sync_at(keyring: &Keyring, now_unix: i64, authorization: Option<&str>) -> (r: Option<
    SyncContext,
>)
    ensures
        sync_of_header(keyring@, now_unix, header_view(authorization), sync_view(r)),
{
    match authorization {
        Some(h) => match extract_bearer(h) {
            Some(token) => {
                let verified: Result<SyncContext, TokenError> = verify_sync(
                    keyring,
                    now_unix,
                    token.as_str(),
                );
                assert(sync_outcome(keyring@, now_unix, token@, sync_result(verified)));
                match verified {
                    Ok(c) => Some(c),
                    Err(_) => None,
                }
            },
            None => None,
        },
        None => None,
    }
}

impl<C: Clock> DoSyncAuthLayer<C> {
    /// The root key.
    pub closed spec fn key(&self) -> Seq<u8> {
        self.keyring@
    }

    /// The clock that the layer reads.
    pub closed spec fn clock(&self) -> C {
        self.clock
    }

    pub fn new(keyring: Keyring, clock: C) -> (r: Self)
        ensures
            r.key() == keyring@,
            r.clock() == clock,
    {
        DoSyncAuthLayer { keyring, clock }
    }

    /// The grant of an authorization header with a caveat-carried token, now.
    pub fn decode(&self, authorization: Option<&str>) -> (r: Option<SyncContext>)
        ensures
            exists|now_unix: i64| #[trigger]
                shows_second(self.clock(), now_unix) && sync_of_header(self.key(), now_unix, header_view(authorization), sync_view(r)),
    {
        let now_unix: i64 = self.clock.now_unix_seconds();
        assert(shows_second(self.clock(), now_unix));
        let r: Option<SyncContext> = sync_at(&self.keyring, now_unix, authorization);
        assert(sync_of_header(self.key(), now_unix, header_view(authorization), sync_view(r)));
        r
    }

    /// The grant of an authorization header with a token that the admin
    /// service issued, now.
    pub fn decode_issued(&self, authorization: Option<&str>) -> (r: Option<SyncContext>)
        ensures
            exists|now_unix: i64| #[trigger]
                shows_second(self.clock(), now_unix) && issued_sync_of_header(
                    self.key(),
                    now_unix,
                    header_view(authorization),
                    sync_view(r),
                ),
    {
        let now_unix: i64 = self.clock.now_unix_seconds();
        assert(shows_second(self.clock(), now_unix));
        let r: Option<SyncContext> = issued_sync_at(&self.keyring, now_unix, authorization);
        assert(issued_sync_of_header(
            self.key(),
            now_unix,
            header_view(authorization),
            sync_view(r),
        ));
        r
    }
}

/// A request that bears a sync token carries that grant, until the token
/// expires; one without a bearer token carries none.
pub proof fn law_grant_is_decoded(
    key: Seq<u8>,
    s: SyncView,
    token: Seq<char>,
    header: Seq<char>,
    now_unix: i64,
    r: Option<SyncView>,
    none: Option<SyncView>,
)
    requires
        sync_token(key, s, token),
        bearer_of(header) == Some(token),
        sync_of_header(key, now_unix, Some(header), r),
        sync_of_header(key, now_unix, None, none),
    ensures
        now_unix < s.exp_unix ==> (r matches Some(got) && got.user == s.user && got.org == s.org
            && got.database == s.database && got.direction == s.direction && got.exp_unix
            == s.exp_unix),
        now_unix >= s.exp_unix ==> r is None,
        none is None,
{
    let o = choose|o: Result<SyncView, TokenErrorView>| #[trigger]
        sync_outcome(key, now_unix, token, o) && r == yielded(o);
    if now_unix < s.exp_unix {
        law_sync_round_trip(key, s, token, now_unix, o);
    } else {
        law_expired_sync_refused(key, s, token, now_unix, o);
    }
}

} // verus!
