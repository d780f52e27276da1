//! What a token grants, field by field.

use vstd::prelude::*;
use vstd::utf8::encode_utf8;

use super::session::{SessionView, SyncView};
use super::token_laws::{law_session_round_trip, law_sync_round_trip};
use super::tokens::{
    session_asked, session_identifier, session_outcome, session_predicates, session_token,
    sync_asked, sync_identifier, sync_outcome, sync_predicates, sync_token, MintSessionInput,
    MintSyncInput, TokenErrorView,
};
use crate::macaroon::exp_predicate;
use crate::shared::domain::enums::{Direction, Role};

verus! {

/// A session token verifies, until it expires, to the user, email,
/// organization and role that it was minted from, and expires its lifetime
/// after it was minted.
pub proof fn law_minted_session(
    key: Seq<u8>,
    input: MintSessionInput<'_>,
    token: Seq<char>,
    now_unix: i64,
    r: Result<SessionView, TokenErrorView>,
)
    requires
        i64::MIN <= input.now_unix + input.ttl_seconds <= i64::MAX,
        session_token(key, session_asked(input), token),
        now_unix < input.now_unix + input.ttl_seconds,
        session_outcome(key, now_unix, token, r),
    ensures
        r matches Ok(s) && {
            &&& s.user == input.user_id@
            &&& s.email == input.email@
            &&& s.org == input.org@
            &&& s.role == input.role
            &&& s.exp_unix == input.now_unix + input.ttl_seconds
        },
{
    law_session_round_trip(key, session_asked(input), token, now_unix, r);
}

/// A sync token verifies, until it expires, to the user, organization,
/// database and direction that it was minted from, and expires its lifetime
/// after it was minted.
pub proof fn law_minted_sync(
    key: Seq<u8>,
    input: MintSyncInput<'_>,
    token: Seq<char>,
    now_unix: i64,
    r: Result<SyncView, TokenErrorView>,
)
    requires
        i64::MIN <= input.now_unix + input.ttl_seconds <= i64::MAX,
        sync_token(key, sync_asked(input), token),
        now_unix < input.now_unix + input.ttl_seconds,
        sync_outcome(key, now_unix, token, r),
    ensures
        r matches Ok(s) && {
            &&& s.user == input.user_id@
            &&& s.org == input.org@
            &&& s.database == input.database@
            &&& s.direction == input.direction
            &&& s.exp_unix == input.now_unix + input.ttl_seconds
        },
{
    law_sync_round_trip(key, sync_asked(input), token, now_unix, r);
}

/// The caveats of a session token: one for each field, under its name.
pub proof fn law_session_caveats(s: SessionView)
    ensures
        session_predicates(s).contains(encode_utf8("purpose="@ + "session"@)),
        session_predicates(s).contains(encode_utf8("user="@ + s.user)),
        session_predicates(s).contains(encode_utf8("email="@ + s.email)),
        session_predicates(s).contains(encode_utf8("org="@ + s.org)),
        s.role == Role::Admin ==> session_predicates(s).contains(
            encode_utf8("role="@ + "admin"@),
        ),
        s.role == Role::Member ==> session_predicates(s).contains(
            encode_utf8("role="@ + "member"@),
        ),
        session_predicates(s).contains(exp_predicate(s.exp_unix as int)),
        session_predicates(s).len() == 6,
        session_identifier(s) == encode_utf8("session:"@ + s.user),
{
    let ps = session_predicates(s);
    assert(ps[0] == encode_utf8("purpose="@ + "session"@));
    assert(ps[1] == encode_utf8("user="@ + s.user));
    assert(ps[2] == encode_utf8("email="@ + s.email));
    assert(ps[3] == encode_utf8("org="@ + s.org));
    assert(ps[4] == encode_utf8("role="@ + s.role.text()));
    assert(ps[5] == exp_predicate(s.exp_unix as int));
}

/// The caveats of a sync token: one for each field, under its name.
pub proof fn law_sync_caveats(s: SyncView)
    ensures
        sync_predicates(s).contains(encode_utf8("purpose="@ + "sync"@)),
        sync_predicates(s).contains(encode_utf8("user="@ + s.user)),
        sync_predicates(s).contains(encode_utf8("org="@ + s.org)),
        sync_predicates(s).contains(encode_utf8("database="@ + s.database)),
        s.direction == Direction::Push ==> sync_predicates(s).contains(
            encode_utf8("direction="@ + "push"@),
        ),
        s.direction == Direction::Pull ==> sync_predicates(s).contains(
            encode_utf8("direction="@ + "pull"@),
        ),
        sync_predicates(s).contains(exp_predicate(s.exp_unix as int)),
        sync_predicates(s).len() == 6,
        sync_identifier(s) == encode_utf8("sync:"@ + s.user + (":"@ + s.database)),
{
    let ps = sync_predicates(s);
    assert(ps[0] == encode_utf8("purpose="@ + "sync"@));
    assert(ps[1] == encode_utf8("user="@ + s.user));
    assert(ps[2] == encode_utf8("org="@ + s.org));
    assert(ps[3] == encode_utf8("database="@ + s.database));
    assert(ps[4] == encode_utf8("direction="@ + s.direction.text()));
    assert(ps[5] == exp_predicate(s.exp_unix as int));
}

} // verus!
