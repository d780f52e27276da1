//! What the admin service's handlers keep, taken together.

use vstd::prelude::*;

use super::admin_model::{
    granted, granted_ttl, home_session, is_home, is_listing, is_password_of, is_personal_of,
    is_session_of, issue_sync_outcome, linked_reply, login_as, login_outcome, login_through,
    oauth_outcome, password_due, session_reply, AuthView, IssueSyncTokenResponse,
};
use super::oauth::OAuthIdentityView;
use super::rpc::{RpcError, RpcErrorView};
use crate::shared::auth::session::{SessionView, SyncView};
use crate::shared::domain::entities::{DatabaseView, OrganizationView, UserView};
use crate::shared::domain::enums::{Direction, Role};
use crate::shared::repo::{
    has_email, identity_linked, is_database_of, is_identity, keyed, signed_up, signup_refusal,
    with_database, with_oauth_user, with_password_user, without_database, RepoView, SignupIds,
};
use crate::shared::repo_laws::{law_emails_stay_unique, law_signup_is_whole, unique_emails};
use crate::worker::auth::password::accepts_password;
use crate::worker::auth::token_laws::{law_session_round_trip, law_sync_round_trip};
use crate::worker::auth::tokens::{session_outcome, sync_outcome, TokenErrorView};
use crate::worker::config::ConfigView;

verus! {

/// No sync token is granted more than the cap.
pub proof fn law_sync_ttl_is_capped(config: ConfigView, requested: i64)
    ensures
        granted_ttl(config, requested) <= config.max_sync_token_ttl_seconds,
        0 < requested <= config.max_sync_token_ttl_seconds ==> granted_ttl(config, requested)
            == requested,
{
}

/// A sync token that was issued verifies, until it expires, to the session's
/// user and organization, the database and the direction that were asked for.
pub proof fn law_issued_sync_token_verifies(
    v: RepoView,
    reliable: bool,
    key: Seq<u8>,
    s: SessionView,
    id: Seq<char>,
    direction: Direction,
    exp_unix: int,
    resp: IssueSyncTokenResponse,
    now_unix: i64,
    r: Result<SyncView, TokenErrorView>,
)
    requires
        issue_sync_outcome(
            v,
            reliable,
            key,
            s,
            id,
            Some(direction),
            exp_unix,
            Ok::<IssueSyncTokenResponse, RpcError>(resp),
        ),
        s.user.len() > 0,
        s.org.len() > 0,
        id.len() > 0,
        now_unix < resp.exp_unix,
        sync_outcome(key, now_unix, resp.token@, r),
    ensures
        r == Ok::<SyncView, TokenErrorView>(granted(s, id, direction, exp_unix)),
{
    law_sync_round_trip(
        key,
        granted(s, id, direction, exp_unix),
        resp.token@,
        now_unix,
        r,
    );
}

/// A session that was issued verifies, until it expires, to the user and to
/// their home organization.
pub proof fn law_issued_session_verifies(
    v: RepoView,
    reliable: bool,
    key: Seq<u8>,
    user: UserView,
    exp_unix: int,
    with_whoami: bool,
    a: AuthView,
    now_unix: i64,
    r: Result<SessionView, TokenErrorView>,
)
    requires
        session_reply(
            v,
            reliable,
            key,
            user,
            exp_unix,
            with_whoami,
            Ok::<AuthView, RpcErrorView>(a),
        ),
        keyed(v),
        i64::MIN <= exp_unix <= i64::MAX,
        user.id.len() > 0,
        user.email.len() > 0,
        !v.organizations.contains_key(Seq::empty()),
        now_unix < exp_unix,
        session_outcome(key, now_unix, a.session_token, r),
    ensures
        r matches Ok(s) && s.user == user.id && s.email == user.email && s.exp_unix == exp_unix
            && exists|org: OrganizationView| #[trigger]
            is_home(v, user.id, (org, s.role)) && s.org == org.id,
{
    let (org, role) = choose|org: OrganizationView, role: Role| #[trigger]
        is_session_of(v, key, user, org, role, exp_unix, a.session_token);
    assert(is_session_of(v, key, user, org, role, exp_unix, a.session_token));
    let o = choose|o: Seq<char>|
        #![trigger v.memberships[(user.id, o)]]
        v.memberships.contains_key((user.id, o)) && v.organizations.contains_key(o) && (org, role)
            == (v.organizations[o], v.memberships[(user.id, o)].role);
    assert(v.organizations[o].id == o);
    assert(o.len() > 0) by {
        if o.len() == 0 {
            assert(o =~= Seq::empty());
        }
    }
    law_session_round_trip(
        key,
        home_session(user, (org, role), exp_unix),
        a.session_token,
        now_unix,
        r,
    );
    assert(is_home(v, user.id, (org, role)));
}

/// Whether no membership is of a user.
pub open spec fn unknown_member(v: RepoView, user: Seq<char>) -> bool {
    forall|org: Seq<char>| !#[trigger] v.memberships.contains_key((user, org))
}

/// Whether no identity is of a user.
pub open spec fn without_identity(v: RepoView, user: Seq<char>) -> bool {
    forall|id: Seq<char>|
        #![trigger v.identities[id]]
        v.identities.contains_key(id) ==> v.identities[id].user_id != user
}

/// The home of a user who just signed up under a fresh id is their personal
/// organization, and they are its admin.
pub proof fn law_home_of_a_new_user(
    v: RepoView,
    ids: SignupIds,
    email: Seq<char>,
    email_verified: bool,
    provider: Seq<char>,
    provider_user_id: Seq<char>,
    secret: Option<Seq<char>>,
    now_ms: i64,
    row: (OrganizationView, Role),
)
    requires
        unknown_member(v, ids.user),
    ensures
        ({
            let w = signed_up(
                v,
                ids,
                email,
                email_verified,
                provider,
                provider_user_id,
                secret,
                now_ms,
            );
            is_home(w, ids.user, row) <==> row == (w.organizations[ids.org], Role::Admin)
        }),
{
    let w = signed_up(
        v,
        ids,
        email,
        email_verified,
        provider,
        provider_user_id,
        secret,
        now_ms,
    );
    let own = (w.organizations[ids.org], Role::Admin);
    law_signup_is_whole(
        v,
        ids,
        email,
        email_verified,
        provider,
        provider_user_id,
        secret,
        now_ms,
    );
    assert(is_personal_of(w, ids.user, own));
    assert forall|other: (OrganizationView, Role)| #[trigger]
        is_personal_of(w, ids.user, other) implies other == own by {
        let o = choose|o: Seq<char>|
            #![trigger w.memberships[(ids.user, o)]]
            w.memberships.contains_key((ids.user, o)) && w.organizations.contains_key(o) && other
                == (w.organizations[o], w.memberships[(ids.user, o)].role);
        if o != ids.org {
            assert(!v.memberships.contains_key((ids.user, o)));
        }
    }
    lemma_reflexive(own.0.id);
}

proof fn lemma_reflexive(a: Seq<char>)
    ensures
        crate::shared::table::text_le(a, a),
    decreases a.len(),
{
    if a.len() > 0 {
        lemma_reflexive(a.skip(1));
    }
}

/// Logging in succeeds only for an email that is a user's and a password that
/// matches the stored hash of a password identity of theirs.
pub proof fn law_login_needs_the_password(
    v: RepoView,
    reliable: bool,
    key: Seq<u8>,
    email: Seq<char>,
    password: Seq<char>,
    exp_unix: int,
    a: AuthView,
)
    requires
        login_outcome(
            v,
            reliable,
            key,
            email,
            password,
            exp_unix,
            Ok::<AuthView, RpcErrorView>(a),
        ),
    ensures
        exists|user: Seq<char>, id: Seq<char>| #[trigger]
            has_email(v, user, email) && #[trigger] is_password_of(v, user, id)
                && (v.identities[id].secret matches Some(h) && accepts_password(h, password)),
{
    let r = Ok::<AuthView, RpcErrorView>(a);
    let user = choose|user: Seq<char>| #[trigger]
        login_as(v, reliable, key, user, email, password, exp_unix, r);
    let id = choose|id: Seq<char>| #[trigger]
        login_through(v, reliable, key, user, id, password, exp_unix, r);
    assert(has_email(v, user, email) && is_password_of(v, user, id));
    assert(password_due(v.identities[id].secret, password) is None);
}

/// Who signed up with a password under fresh ids is who logs in with it: the
/// reply is a session for that user, and fails only where it cannot be issued.
pub proof fn law_login_after_signup(
    v: RepoView,
    ids: SignupIds,
    email: Seq<char>,
    hash: Seq<char>,
    now_ms: i64,
    key: Seq<u8>,
    password: Seq<char>,
    exp_unix: int,
    r: Result<AuthView, RpcErrorView>,
)
    requires
        unique_emails(v),
        signup_refusal(v, email) is None,
        without_identity(v, ids.user),
        accepts_password(hash, password),
        login_outcome(
            with_password_user(v, ids, email, hash, now_ms),
            true,
            key,
            email,
            password,
            exp_unix,
            r,
        ),
    ensures
        ({
            let w = with_password_user(v, ids, email, hash, now_ms);
            session_reply(w, true, key, w.users[ids.user], exp_unix, true, r)
        }),
{
    let w = with_password_user(v, ids, email, hash, now_ms);
    law_emails_stay_unique(
        v,
        ids,
        email,
        false,
        "password"@,
        ids.user,
        Some(hash),
        now_ms,
    );
    law_signup_is_whole(v, ids, email, false, "password"@, ids.user, Some(hash), now_ms);
    assert(has_email(w, ids.user, email));
    let user = choose|user: Seq<char>| #[trigger]
        login_as(w, true, key, user, email, password, exp_unix, r);
    assert(login_as(w, true, key, user, email, password, exp_unix, r));
    assert(user == ids.user);
    assert(is_password_of(w, user, ids.identity));
    let id = choose|id: Seq<char>| #[trigger]
        login_through(w, true, key, user, id, password, exp_unix, r);
    assert(login_through(w, true, key, user, id, password, exp_unix, r));
    if id != ids.identity {
        assert(v.identities[id].user_id == ids.user);
    }
    assert(w.identities[ids.identity].secret == Some(hash));
}

/// Completing a second round trip with the identity that a user signed up with
/// opens a session for that same user and stores nothing.
pub proof fn law_oauth_identity_stays_with_its_user(
    v: RepoView,
    ids: SignupIds,
    identity: OAuthIdentityView,
    now_ms: i64,
    later: RepoView,
    key: Seq<u8>,
    later_ms: i64,
    exp_unix: int,
    r: Result<AuthView, RpcErrorView>,
)
    requires
        !identity_linked(v, identity.provider.text(), identity.provider_user_id),
        oauth_outcome(
            with_oauth_user(
                v,
                ids,
                identity.email,
                identity.provider.text(),
                identity.provider_user_id,
                now_ms,
            ),
            later,
            true,
            key,
            identity,
            later_ms,
            exp_unix,
            r,
        ),
    ensures
        ({
            let w = with_oauth_user(
                v,
                ids,
                identity.email,
                identity.provider.text(),
                identity.provider_user_id,
                now_ms,
            );
            &&& later == w
            &&& session_reply(w, true, key, w.users[ids.user], exp_unix, false, r)
        }),
{
    let p = identity.provider.text();
    let w = with_oauth_user(
        v,
        ids,
        identity.email,
        p,
        identity.provider_user_id,
        now_ms,
    );
    assert(is_identity(w, ids.identity, p, identity.provider_user_id));
    let id = choose|id: Seq<char>| #[trigger]
        linked_reply(w, true, key, identity, id, exp_unix, r);
    assert(linked_reply(w, true, key, identity, id, exp_unix, r));
    if id != ids.identity {
        assert(is_identity(v, id, p, identity.provider_user_id));
    }
}

/// A database that was created is listed in its organization, and is no longer
/// once it was deleted.
pub proof fn law_created_is_listed_until_deleted(
    v: RepoView,
    d: DatabaseView,
    listed: Seq<DatabaseView>,
    after: Seq<DatabaseView>,
)
    requires
        is_listing(with_database(v, d), d.org_id, listed),
        is_listing(without_database(with_database(v, d), d.id), d.org_id, after),
    ensures
        listed.contains(d),
        forall|i: int| 0 <= i < after.len() ==> (#[trigger] after[i]).id != d.id,
{
    assert(is_database_of(with_database(v, d), d.org_id, d));
    assert forall|i: int| 0 <= i < after.len() implies (#[trigger] after[i]).id != d.id by {
        assert(after.contains(after[i]));
    }
}

} // verus!
