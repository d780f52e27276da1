//! What the admin service's handlers give and store, field by field.

use vstd::prelude::*;

use super::admin_laws::{
    law_issued_session_verifies, law_issued_sync_token_verifies, unknown_member,
};
use super::admin_model::{
    create_outcome, database_info, delete_due, delete_outcome, expiry, granted_ttl, home_too_large,
    home_session, info_views, infos, is_home, is_listing, is_password_of, is_personal_of,
    is_session_of, issue_outcome, issue_sync_due, issue_sync_outcome, linked_reply, list_outcome,
    login_as, login_outcome, login_through, millis, oauth_outcome, password_due, redeem_due,
    redeem_outcome, redirect_uri, session_expiry, session_reply, signup_outcome, start_due,
    start_outcome, started_state, sync_expiry, whoami_due, whoami_of, whoami_outcome, AuthView,
    DatabaseInfo, DatabaseInfoView, IssueSyncTokenResponse, StartOAuthResponse, WhoamiInfo,
};
use super::common::database_name_fault;
use super::oauth::OAuthIdentityView;
use super::rpc::{RpcCode, RpcError, RpcErrorView};
use crate::shared::auth::session::{SessionView, SyncView};
use crate::shared::domain::entities::{DatabaseView, OrganizationView, UserView};
use crate::shared::domain::enums::{Direction, IdentityProvider, Role};
use crate::shared::repo::{
    are_drawn, email_taken, has_email, identity_linked, is_database_of, is_identity, keyed,
    with_oauth_user, with_password_user, RepoView, SignupIds,
};
use crate::shared::row_laws::{
    law_oauth_signup_rows, law_password_signup_rows, law_signup_refused_for_its_email,
    law_state_rows, same_databases_but, same_states_but,
};
use crate::shared::table::text_le;
use crate::text::{decimal, lowercase_text, trimmed, trimmed_end_of};
use crate::worker::auth::claims::claims_bytes;
use crate::worker::auth::password::{accepts_password, phc_fault};
use crate::worker::auth::tokens::{
    session_claims, session_outcome, sync_claims, sync_outcome, TokenErrorView,
};
use crate::worker::config::ConfigView;

verus! {

// ---------- sync tokens ----------

/// The lifetime of a sync token is what was asked for where that is positive,
/// and the default otherwise; it is cut to the cap.
pub proof fn law_sync_ttl(config: ConfigView, requested: i64)
    ensures
        granted_ttl(config, requested) <= config.max_sync_token_ttl_seconds,
        requested > 0 && requested <= config.max_sync_token_ttl_seconds ==> granted_ttl(
            config,
            requested,
        ) == requested,
        requested > config.max_sync_token_ttl_seconds && requested > 0 ==> granted_ttl(
            config,
            requested,
        ) == config.max_sync_token_ttl_seconds,
        requested <= 0 && config.sync_token_ttl_seconds <= config.max_sync_token_ttl_seconds
            ==> granted_ttl(config, requested) == config.sync_token_ttl_seconds,
{
}

/// A sync token that was issued for a direction verifies, until it expires, to
/// a grant of that direction, for the session's user and organization and for
/// the database that was asked for. It expires its lifetime after it was
/// issued, as the reply says.
pub proof fn law_issued_sync_grant(
    v: RepoView,
    reliable: bool,
    key: Seq<u8>,
    s: SessionView,
    id: Seq<char>,
    direction: Direction,
    issued_unix: i64,
    ttl_seconds: i64,
    resp: IssueSyncTokenResponse,
    now_unix: i64,
    r: Result<SyncView, TokenErrorView>,
)
    requires
        i64::MIN <= issued_unix + ttl_seconds <= i64::MAX,
        issue_sync_outcome(
            v,
            reliable,
            key,
            s,
            id,
            Some(direction),
            expiry(issued_unix, ttl_seconds),
            Ok::<IssueSyncTokenResponse, RpcError>(resp),
        ),
        s.user.len() > 0,
        s.org.len() > 0,
        id.len() > 0,
        now_unix < resp.exp_unix,
        sync_outcome(key, now_unix, resp.token@, r),
    ensures
        r matches Ok(grant) && {
            &&& grant.direction == direction
            &&& grant.user == s.user
            &&& grant.org == s.org
            &&& grant.database == id
            &&& grant.exp_unix == issued_unix + ttl_seconds
        },
        resp.exp_unix == issued_unix + ttl_seconds,
        v.databases.contains_key(id),
        v.databases[id].org_id == s.org,
{
    law_issued_sync_token_verifies(
        v,
        reliable,
        key,
        s,
        id,
        direction,
        expiry(issued_unix, ttl_seconds),
        resp,
        now_unix,
        r,
    );
}

/// No sync token is issued for a database that is not there, for one of
/// another organization, or without a direction, and the refusal says which.
pub proof fn law_sync_token_refusals(
    v: RepoView,
    key: Seq<u8>,
    s: SessionView,
    id: Seq<char>,
    direction: Option<Direction>,
    exp_unix: int,
    r: Result<IssueSyncTokenResponse, RpcError>,
)
    requires
        issue_sync_outcome(v, true, key, s, id, direction, exp_unix, r),
    ensures
        !v.databases.contains_key(id) ==> (r matches Err(e) && e@.code == RpcCode::NotFound
            && e@.message == "database not found"@),
        v.databases.contains_key(id) && v.databases[id].org_id != s.org ==> (r matches Err(e)
            && e@.code == RpcCode::PermissionDenied && e@.message
            == "database belongs to another organization"@),
        v.databases.contains_key(id) && v.databases[id].org_id == s.org && direction is None
            ==> (r matches Err(e) && e@.code == RpcCode::InvalidArgument && e@.message
            == "direction must be DIRECTION_PUSH or DIRECTION_PULL"@),
        v.databases.contains_key(id) && v.databases[id].org_id == s.org && direction is Some
            ==> r is Ok || (r matches Err(e) && e@.code == RpcCode::Unauthenticated),
{
}

// ---------- sessions ----------

/// A reply that opens a session says who the session speaks for: the user, by
/// id and email, and the home organization and role that the token verifies
/// to.
pub proof fn law_reply_names_the_session(
    v: RepoView,
    reliable: bool,
    key: Seq<u8>,
    user: UserView,
    issued_unix: i64,
    ttl_seconds: i64,
    a: AuthView,
    now_unix: i64,
    r: Result<SessionView, TokenErrorView>,
)
    requires
        session_reply(
            v,
            reliable,
            key,
            user,
            expiry(issued_unix, ttl_seconds),
            true,
            Ok::<AuthView, RpcErrorView>(a),
        ),
        keyed(v),
        user.id.len() > 0,
        user.email.len() > 0,
        !v.organizations.contains_key(Seq::empty()),
        i64::MIN <= issued_unix + ttl_seconds <= i64::MAX,
        now_unix < issued_unix + ttl_seconds,
        session_outcome(key, now_unix, a.session_token, r),
    ensures
        r matches Ok(s) && a.whoami matches Some(w) && {
            &&& s.user == user.id
            &&& s.email == user.email
            &&& s.exp_unix == issued_unix + ttl_seconds
            &&& w.user_id == user.id
            &&& w.email == user.email
            &&& w.org_id == s.org
            &&& s.role == Role::Admin ==> w.role == "admin"@
            &&& s.role == Role::Member ==> w.role == "member"@
            &&& v.memberships.contains_key((user.id, s.org))
            &&& v.memberships[(user.id, s.org)].role == s.role
            &&& v.organizations.contains_key(s.org)
            &&& v.organizations[s.org].personal
        },
{
    let exp_unix = expiry(issued_unix, ttl_seconds);
    let (org, role) = choose|org: OrganizationView, role: Role| #[trigger]
        is_session_of(v, key, user, org, role, exp_unix, a.session_token) && a.whoami == Some(
            whoami_of(user, org, role),
        );
    assert(is_session_of(v, key, user, org, role, exp_unix, a.session_token));
    assert(is_home(v, user.id, (org, role)));
    assert(is_personal_of(v, user.id, (org, role)));
    let o = choose|o: Seq<char>|
        #![trigger v.memberships[(user.id, o)]]
        v.memberships.contains_key((user.id, o)) && v.organizations.contains_key(o) && (org, role)
            == (v.organizations[o], v.memberships[(user.id, o)].role);
    assert(v.organizations[o].id == o);
    if o.len() == 0 {
        assert(o =~= Seq::empty());
    }
    crate::worker::auth::token_laws::law_session_round_trip(
        key,
        super::admin_model::home_session(user, (org, role), exp_unix),
        a.session_token,
        now_unix,
        r,
    );
}

/// Asking who a session speaks for gives the user's id and email as they are
/// stored, the session's organization and its role; it fails exactly where
/// the user or the organization is gone.
pub proof fn law_whoami(v: RepoView, s: SessionView)
    requires
        keyed(v),
    ensures
        whoami_due(v, s) is None <==> v.users.contains_key(s.user) && v.organizations.contains_key(
            s.org,
        ),
        !v.users.contains_key(s.user) ==> (whoami_due(v, s) matches Some(e) && e.code
            == RpcCode::Unauthenticated),
        v.users.contains_key(s.user) && !v.organizations.contains_key(s.org) ==> (whoami_due(
            v,
            s,
        ) matches Some(e) && e.code == RpcCode::FailedPrecondition),
        whoami_due(v, s) is None ==> {
            let w = whoami_of(v.users[s.user], v.organizations[s.org], s.role);
            &&& w.user_id == s.user
            &&& w.email == v.users[s.user].email
            &&& w.org_id == s.org
            &&& s.role == Role::Admin ==> w.role == "admin"@
            &&& s.role == Role::Member ==> w.role == "member"@
        },
{
    if v.users.contains_key(s.user) && v.organizations.contains_key(s.org) {
        assert(v.users[s.user].id == s.user);
        assert(v.organizations[s.org].id == s.org);
    }
}

// ---------- signing up and logging in ----------

/// A signup that succeeds stored a user with that email and a password
/// identity of theirs with that hash, and its session, until it expires, is
/// that user's at a personal organization; under an id that no member had
/// before, it is their own, and they are its admin.
pub proof fn law_signup_session(
    was: RepoView,
    now: RepoView,
    key: Seq<u8>,
    email: Seq<char>,
    hash: Seq<char>,
    now_ms: i64,
    exp_unix: int,
    a: AuthView,
    now_unix: i64,
    r: Result<SessionView, TokenErrorView>,
)
    requires
        signup_outcome(
            was,
            now,
            true,
            key,
            email,
            hash,
            now_ms,
            exp_unix,
            Ok::<AuthView, RpcErrorView>(a),
        ),
        keyed(now),
        !now.organizations.contains_key(Seq::empty()),
        email.len() > 0,
        i64::MIN <= exp_unix <= i64::MAX,
        now_unix < exp_unix,
        session_outcome(key, now_unix, a.session_token, r),
    ensures
        !email_taken(was, email),
        r matches Ok(s) && {
            &&& now.users.contains_key(s.user)
            &&& now.users[s.user].email == email
            &&& s.email == email
            &&& s.exp_unix == exp_unix
            &&& now.organizations.contains_key(s.org)
            &&& now.organizations[s.org].personal
            &&& unknown_member(was, s.user) ==> s.role == Role::Admin
                && now.organizations[s.org].owner_user_id == Some(s.user)
                && now.organizations[s.org].display_name == email + " (personal)"@
            &&& exists|id: Seq<char>| #[trigger]
                now.identities.contains_key(id) && now.identities[id].user_id == s.user
                    && now.identities[id].provider == "password"@ && now.identities[id].secret
                    == Some(hash)
        },
{
    let ids = choose|ids: SignupIds| #[trigger]
        with_password_user(was, ids, email, hash, now_ms) == now && are_drawn(ids)
            && session_reply(
            now,
            true,
            key,
            now.users[ids.user],
            exp_unix,
            true,
            Ok::<AuthView, RpcErrorView>(a),
        );
    law_password_signup_rows(was, ids, email, hash, now_ms);
    let user = now.users[ids.user];
    let b = choose|b: Seq<u8>|
        b.len() == 16 && ids.user == #[trigger] crate::shared::domain::ids::hex_text(b);
    assert(ids.user.len() == 32);
    law_issued_session_verifies(now, true, key, user, exp_unix, true, a, now_unix, r);
    let s = r->Ok_0;
    let org = choose|org: OrganizationView| #[trigger]
        is_home(now, user.id, (org, s.role)) && s.org == org.id;
    assert(is_personal_of(now, user.id, (org, s.role)));
    if unknown_member(was, ids.user) {
        super::admin_laws::law_home_of_a_new_user(
            was,
            ids,
            email,
            false,
            "password"@,
            ids.user,
            Some(hash),
            now_ms,
            (org, s.role),
        );
    }
    assert(now.identities.contains_key(ids.identity));
}

/// A signup under an email that some user has, in whatever case, is answered
/// as a conflict that names it, and stores nothing.
pub proof fn law_taken_email_is_refused(
    was: RepoView,
    now: RepoView,
    key: Seq<u8>,
    email: Seq<char>,
    hash: Seq<char>,
    now_ms: i64,
    exp_unix: int,
    user: Seq<char>,
    r: Result<AuthView, RpcErrorView>,
)
    requires
        signup_outcome(was, now, true, key, email, hash, now_ms, exp_unix, r),
        was.users.contains_key(user),
        lowercase_text(was.users[user].email) == lowercase_text(email),
    ensures
        now == was,
        r matches Err(e) && e.code == RpcCode::AlreadyExists && e.message == "user with email "@
            + email,
{
    law_signup_refused_for_its_email(was, email);
}

/// A login that succeeds opens, until it expires, a session of the user whose
/// email it is.
pub proof fn law_login_session(
    v: RepoView,
    reliable: bool,
    key: Seq<u8>,
    email: Seq<char>,
    password: Seq<char>,
    exp_unix: int,
    a: AuthView,
    now_unix: i64,
    r: Result<SessionView, TokenErrorView>,
)
    requires
        login_outcome(
            v,
            reliable,
            key,
            email,
            password,
            exp_unix,
            Ok::<AuthView, RpcErrorView>(a),
        ),
        keyed(v),
        !v.users.contains_key(Seq::empty()),
        !v.organizations.contains_key(Seq::empty()),
        forall|u: Seq<char>| #[trigger] v.users.contains_key(u) ==> v.users[u].email.len() > 0,
        i64::MIN <= exp_unix <= i64::MAX,
        now_unix < exp_unix,
        session_outcome(key, now_unix, a.session_token, r),
    ensures
        r matches Ok(s) && {
            &&& v.users.contains_key(s.user)
            &&& s.email == v.users[s.user].email
            &&& lowercase_text(s.email) == lowercase_text(email)
            &&& s.exp_unix == exp_unix
            &&& exists|id: Seq<char>| #[trigger]
                v.identities.contains_key(id) && v.identities[id].user_id == s.user
                    && v.identities[id].provider == "password"@ && (
                v.identities[id].secret matches Some(h) && accepts_password(h, password))
        },
{
    let ok = Ok::<AuthView, RpcErrorView>(a);
    let user = choose|user: Seq<char>| #[trigger]
        login_as(v, reliable, key, user, email, password, exp_unix, ok);
    let id = choose|id: Seq<char>| #[trigger]
        login_through(v, reliable, key, user, id, password, exp_unix, ok);
    assert(login_as(v, reliable, key, user, email, password, exp_unix, ok));
    assert(login_through(v, reliable, key, user, id, password, exp_unix, ok));
    assert(password_due(v.identities[id].secret, password) is None);
    assert(v.users[user].id == user);
    if user.len() == 0 {
        assert(user =~= Seq::empty());
    }
    law_issued_session_verifies(v, reliable, key, v.users[user], exp_unix, true, a, now_unix, r);
    assert(v.identities.contains_key(id));
}

/// Logging in with an email that no user has is answered in the same words as
/// with one whose user has no password; with a password that the stored hash
/// does not accept it is refused as well. Neither opens a session.
pub proof fn law_bad_login_is_refused(
    v: RepoView,
    key: Seq<u8>,
    email: Seq<char>,
    password: Seq<char>,
    exp_unix: int,
    r: Result<AuthView, RpcErrorView>,
)
    requires
        login_outcome(v, true, key, email, password, exp_unix, r),
    ensures
        (forall|u: Seq<char>| #[trigger]
            v.users.contains_key(u) ==> lowercase_text(v.users[u].email) != lowercase_text(email))
            ==> (r matches Err(e) && e.code == RpcCode::Unauthenticated && e.message
            == "invalid credentials"@),
        (forall|u: Seq<char>, id: Seq<char>|
            #![trigger v.users.contains_key(u), v.identities.contains_key(id)]
            v.users.contains_key(u) && lowercase_text(v.users[u].email) == lowercase_text(email)
                && v.identities.contains_key(id) && v.identities[id].user_id == u
                && v.identities[id].provider == "password"@ ==> (
            v.identities[id].secret matches Some(h) && phc_fault(h) is None && !accepts_password(
                h,
                password,
            ))) ==> (r matches Err(e) && e.code == RpcCode::Unauthenticated && (e.message
            == "invalid credentials"@ || e.message == "password mismatch"@)),
{
    if email_taken(v, email) {
        let user = choose|user: Seq<char>| #[trigger]
            login_as(v, true, key, user, email, password, exp_unix, r);
        assert(has_email(v, user, email));
        assert(v.users.contains_key(user));
        if !(r == Err::<AuthView, RpcErrorView>(super::admin_model::bad_credentials())) {
            let id = choose|id: Seq<char>| #[trigger]
                login_through(v, true, key, user, id, password, exp_unix, r);
            assert(login_through(v, true, key, user, id, password, exp_unix, r));
            assert(is_password_of(v, user, id));
            assert(v.identities.contains_key(id));
        }
    } else {
        assert forall|user: Seq<char>| !has_email(v, user, email) by {}
        if exists|user: Seq<char>| #[trigger]
            login_as(v, true, key, user, email, password, exp_unix, r) {
            let user = choose|user: Seq<char>| #[trigger]
                login_as(v, true, key, user, email, password, exp_unix, r);
            assert(has_email(v, user, email));
        }
    }
}

// ---------- databases ----------

/// A database that was created is stored for the session's organization and
/// user, under the trimmed name and with the time, and the reply describes it;
/// no other database changes. Only an admin creates one, and only where the
/// organization is there and has none of that name.
pub proof fn law_created_database(
    was: RepoView,
    now: RepoView,
    reliable: bool,
    s: SessionView,
    name: Seq<char>,
    now_ms: i64,
    info: DatabaseInfo,
)
    requires
        create_outcome(
            was,
            now,
            reliable,
            s,
            name,
            now_ms,
            Ok::<DatabaseInfo, RpcError>(info),
        ),
    ensures
        s.role == Role::Admin,
        database_name_fault(name) is None,
        was.organizations.contains_key(s.org),
        forall|id: Seq<char>| #[trigger]
            was.databases.contains_key(id) ==> !(was.databases[id].org_id == s.org
                && was.databases[id].name == trimmed(name)),
        now.databases.contains_key(info@.id),
        ({
            let d = now.databases[info@.id];
            &&& d.id == info@.id
            &&& d.org_id == s.org
            &&& d.name == trimmed(name)
            &&& d.created_by == s.user
            &&& d.created_at_ms == now_ms
        }),
        info@.org_id == s.org,
        info@.name == trimmed(name),
        now_ms >= 0 ==> info@.created_at_unix == now_ms / 1000,
        same_databases_but(was, now, info@.id),
        now.users == was.users,
        now.organizations == was.organizations,
        now.memberships == was.memberships,
        now.identities == was.identities,
{
    crate::shared::row_laws::law_database_refused_for_its_name(was, s.org, trimmed(name));
}

/// A database that is not created leaves everything as it was. Whoever is not
/// an admin is refused, whatever the name; so is a name that the organization
/// has.
pub proof fn law_refused_database(
    was: RepoView,
    now: RepoView,
    s: SessionView,
    name: Seq<char>,
    now_ms: i64,
    r: Result<DatabaseInfo, RpcError>,
)
    requires
        create_outcome(was, now, true, s, name, now_ms, r),
    ensures
        r is Err ==> now == was,
        s.role != Role::Admin ==> (r matches Err(e) && e@.code == RpcCode::PermissionDenied
            && e@.message == "admin role required to create a database"@),
        s.role == Role::Admin && database_name_fault(name) is Some ==> (r matches Err(e) && e@
            == database_name_fault(name)->0),
        (exists|id: Seq<char>| #[trigger]
            was.databases.contains_key(id) && was.databases[id].org_id == s.org
                && was.databases[id].name == trimmed(name)) && s.role == Role::Admin
            && database_name_fault(name) is None && was.organizations.contains_key(s.org) ==> (
        r matches Err(e) && e@.code == RpcCode::AlreadyExists),
{
    crate::shared::row_laws::law_database_refused_for_its_name(was, s.org, trimmed(name));
}

/// Listing gives each database of the organization once and no other, oldest
/// first, with its id, its organization and its name.
pub proof fn law_listed_databases(
    v: RepoView,
    org: Seq<char>,
    rows: Seq<DatabaseView>,
    out: Seq<DatabaseInfoView>,
)
    requires
        is_listing(v, org, rows),
        out == infos(rows),
        keyed(v),
    ensures
        forall|i: int|
            0 <= i < out.len() ==> {
                let info = #[trigger] out[i];
                &&& v.databases.contains_key(info.id)
                &&& v.databases[info.id].org_id == org
                &&& info.org_id == org
                &&& info.name == v.databases[info.id].name
            },
        forall|id: Seq<char>| #[trigger]
            v.databases.contains_key(id) && v.databases[id].org_id == org ==> exists|i: int|
                0 <= i < out.len() && (#[trigger] out[i]).id == id,
        forall|i: int, j: int|
            #![trigger out[i], out[j]]
            0 <= i < j < out.len() ==> out[i].id != out[j].id && v.databases[out[i].id].created_at_ms
                <= v.databases[out[j].id].created_at_ms,
{
    assert forall|i: int| 0 <= i < out.len() implies {
        let info = #[trigger] out[i];
        &&& v.databases.contains_key(info.id)
        &&& v.databases[info.id].org_id == org
        &&& info.org_id == org
        &&& info.name == v.databases[info.id].name
    } by {
        assert(rows.contains(rows[i]));
        assert(out[i] == database_info(rows[i]));
        assert(is_database_of(v, org, rows[i]));
    }
    assert forall|id: Seq<char>| #[trigger]
        v.databases.contains_key(id) && v.databases[id].org_id == org implies exists|i: int|
        0 <= i < out.len() && (#[trigger] out[i]).id == id by {
        let row = v.databases[id];
        assert(row.id == id);
        assert(is_database_of(v, org, row));
        assert(rows.contains(row));
        let i = choose|i: int| 0 <= i < rows.len() && rows[i] == row;
        assert(out[i].id == id);
    }
    assert forall|i: int, j: int|
        #![trigger out[i], out[j]]
        0 <= i < j < out.len() implies out[i].id != out[j].id
        && v.databases[out[i].id].created_at_ms <= v.databases[out[j].id].created_at_ms by {
        assert(rows.contains(rows[i]) && rows.contains(rows[j]));
        assert(is_database_of(v, org, rows[i]) && is_database_of(v, org, rows[j]));
        assert(out[i] == database_info(rows[i]) && out[j] == database_info(rows[j]));
        if rows[i].id == rows[j].id {
            assert(rows[i] == rows[j]);
        }
    }
}

/// A session deletes a database exactly where its role is admin and the
/// database is there and its organization's own; otherwise the refusal says
/// what is wrong.
pub proof fn law_delete_database(v: RepoView, s: SessionView, id: Seq<char>)
    ensures
        delete_due(v, s, id) is None <==> s.role == Role::Admin && v.databases.contains_key(id)
            && v.databases[id].org_id == s.org,
        s.role != Role::Admin ==> (delete_due(v, s, id) matches Some(e) && e.code
            == RpcCode::PermissionDenied && e.message == "admin role required to delete a database"@),
        s.role == Role::Admin && !v.databases.contains_key(id) ==> (delete_due(
            v,
            s,
            id,
        ) matches Some(e) && e.code == RpcCode::NotFound && e.message == "database not found"@),
        s.role == Role::Admin && v.databases.contains_key(id) && v.databases[id].org_id != s.org
            ==> (delete_due(v, s, id) matches Some(e) && e.code == RpcCode::PermissionDenied
            && e.message == "database belongs to another organization"@),
{
}

// ---------- oauth ----------

/// A round trip starts exactly where the provider is the one that is
/// supported, its credentials are configured and a redirect base is set.
pub proof fn law_oauth_starts(config: ConfigView, provider: Seq<char>)
    ensures
        start_due(config, provider) is None <==> provider == "github"@
            && config.github_client_id is Some && config.github_client_secret is Some && trimmed(
            config.oauth_redirect_base,
        ).len() > 0,
        start_due(config, provider) matches Some(e) ==> e.code == RpcCode::InvalidArgument || e.code
            == RpcCode::Unimplemented,
        provider == "github"@ ==> (start_due(config, provider) matches Some(e) ==> e.code
            == RpcCode::Unimplemented),
        provider != "github"@ && provider != "google"@ && provider != "password"@ ==> start_due(
            config,
            provider,
        ) == Some(
            RpcErrorView {
                code: RpcCode::InvalidArgument,
                message: "unknown oauth provider `"@ + provider + "`"@,
            },
        ),
{
    crate::shared::domain::enums::law_identity_provider_round_trip(IdentityProvider::GitHub);
    crate::shared::domain::enums::law_identity_provider_round_trip(IdentityProvider::Google);
    crate::shared::domain::enums::law_identity_provider_round_trip(IdentityProvider::Password);
}

/// The state of a round trip is stored under its own text for the provider,
/// with the time, and expires its configured lifetime later.
pub proof fn law_started_state(config: ConfigView, state: Seq<char>, now_ms: i64)
    ensures
        ({
            let s = started_state(config, state, now_ms);
            &&& s.state == state
            &&& s.provider == "github"@
            &&& s.created_at_ms == now_ms
            &&& i64::MIN <= config.oauth_state_ttl_seconds * 1000 <= i64::MAX && i64::MIN <= now_ms
                + config.oauth_state_ttl_seconds * 1000 <= i64::MAX ==> s.expires_at_ms == now_ms
                + config.oauth_state_ttl_seconds * 1000
        }),
        i64::MIN <= config.oauth_state_ttl_seconds * 1000 <= i64::MAX ==> millis(
            config.oauth_state_ttl_seconds,
        ) == config.oauth_state_ttl_seconds * 1000,
{
}

/// The provider sends the user back under the configured base, whatever number
/// of slashes it ends in.
pub proof fn law_redirect_uri(config: ConfigView, provider: Seq<char>)
    ensures
        ({
            let base = trimmed_end_of(config.oauth_redirect_base, '/');
            let tail = "/oauth/"@ + provider + "/callback"@;
            let uri = redirect_uri(config, provider);
            &&& uri.len() == base.len() + tail.len()
            &&& uri.take(base.len() as int) == base
            &&& uri.skip(base.len() as int) == tail
        }),
{
    let base = trimmed_end_of(config.oauth_redirect_base, '/');
    let tail = "/oauth/"@ + provider + "/callback"@;
    assert(redirect_uri(config, provider) =~= base + tail);
    assert((base + tail).take(base.len() as int) =~= base);
    assert((base + tail).skip(base.len() as int) =~= tail);
}

/// A stored state is redeemed exactly where its time is not past, it is of the
/// supported provider, and the deployment could start a round trip. A state
/// that is not stored, or whose time is past, is refused.
pub proof fn law_redeemed_state(v: RepoView, config: ConfigView, state: Seq<char>, now_ms: i64)
    ensures
        redeem_due(v, config, state, now_ms) is None <==> {
            &&& v.oauth_states.contains_key(state)
            &&& now_ms <= v.oauth_states[state].expires_at_ms
            &&& start_due(config, v.oauth_states[state].provider) is None
        },
        !(v.oauth_states.contains_key(state) && now_ms <= v.oauth_states[state].expires_at_ms)
            ==> redeem_due(v, config, state, now_ms) == Some(
            RpcErrorView {
                code: RpcCode::PermissionDenied,
                message: "invalid or expired oauth state"@,
            },
        ),
{
}

/// Completing a round trip with an identity that is linked opens a session for
/// the user that it is linked to, and stores nothing.
pub proof fn law_linked_identity_session(
    was: RepoView,
    now: RepoView,
    key: Seq<u8>,
    identity: OAuthIdentityView,
    now_ms: i64,
    exp_unix: int,
    a: AuthView,
    now_unix: i64,
    r: Result<SessionView, TokenErrorView>,
)
    requires
        oauth_outcome(
            was,
            now,
            true,
            key,
            identity,
            now_ms,
            exp_unix,
            Ok::<AuthView, RpcErrorView>(a),
        ),
        identity_linked(was, identity.provider.text(), identity.provider_user_id),
        keyed(was),
        !was.users.contains_key(Seq::empty()),
        !was.organizations.contains_key(Seq::empty()),
        forall|u: Seq<char>| #[trigger] was.users.contains_key(u) ==> was.users[u].email.len() > 0,
        i64::MIN <= exp_unix <= i64::MAX,
        now_unix < exp_unix,
        session_outcome(key, now_unix, a.session_token, r),
    ensures
        now == was,
        a.whoami is None,
        r matches Ok(s) && {
            &&& was.users.contains_key(s.user)
            &&& s.email == was.users[s.user].email
            &&& s.exp_unix == exp_unix
            &&& exists|id: Seq<char>| #[trigger]
                was.identities.contains_key(id) && was.identities[id].user_id == s.user
                    && was.identities[id].provider == identity.provider.text()
                    && was.identities[id].provider_user_id == identity.provider_user_id
        },
{
    let ok = Ok::<AuthView, RpcErrorView>(a);
    let id = choose|id: Seq<char>| #[trigger]
        super::admin_model::linked_reply(was, true, key, identity, id, exp_unix, ok);
    assert(super::admin_model::linked_reply(was, true, key, identity, id, exp_unix, ok));
    let user = was.identities[id].user_id;
    assert(was.users[user].id == user);
    if user.len() == 0 {
        assert(user =~= Seq::empty());
    }
    law_issued_session_verifies(
        was,
        true,
        key,
        was.users[user],
        exp_unix,
        false,
        a,
        now_unix,
        r,
    );
    assert(was.identities.contains_key(id));
}

/// Completing a round trip with an identity that is not linked signs its user
/// up: with the identity's email, verified, and linked to that identity. Where
/// another user has the email it is refused, and nothing is stored.
pub proof fn law_new_identity_signs_up(
    was: RepoView,
    now: RepoView,
    key: Seq<u8>,
    identity: OAuthIdentityView,
    now_ms: i64,
    exp_unix: int,
    r: Result<AuthView, RpcErrorView>,
)
    requires
        oauth_outcome(was, now, true, key, identity, now_ms, exp_unix, r),
        !identity_linked(was, identity.provider.text(), identity.provider_user_id),
    ensures
        r is Ok ==> exists|user: Seq<char>, id: Seq<char>|
            #![trigger now.users.contains_key(user), now.identities.contains_key(id)]
            {
                &&& now.users.contains_key(user)
                &&& now.users[user].email == identity.email
                &&& now.users[user].email_verified
                &&& now.users[user].created_at_ms == now_ms
                &&& now.identities.contains_key(id)
                &&& now.identities[id].user_id == user
                &&& now.identities[id].provider == identity.provider.text()
                &&& now.identities[id].provider_user_id == identity.provider_user_id
                &&& now.identities[id].secret is None
                &&& session_reply(now, true, key, now.users[user], exp_unix, false, r)
            },
        email_taken(was, identity.email) ==> now == was && (r matches Err(e) && e.code
            == RpcCode::AlreadyExists && e.message == "user with email "@ + identity.email),
{
    let provider = identity.provider.text();
    let pid = identity.provider_user_id;
    assert forall|id: Seq<char>| !#[trigger] is_identity(was, id, provider, pid) by {}
    if exists|id: Seq<char>| #[trigger]
        super::admin_model::linked_reply(was, true, key, identity, id, exp_unix, r) {
        let id = choose|id: Seq<char>| #[trigger]
            super::admin_model::linked_reply(was, true, key, identity, id, exp_unix, r);
        assert(is_identity(was, id, provider, pid));
    }
    if r is Ok {
        let ids = choose|ids: SignupIds| #[trigger]
            with_oauth_user(was, ids, identity.email, provider, pid, now_ms) == now && are_drawn(ids)
                && session_reply(now, true, key, now.users[ids.user], exp_unix, false, r);
        law_oauth_signup_rows(was, ids, identity.email, provider, pid, now_ms);
        assert(now.users.contains_key(ids.user));
        assert(now.identities.contains_key(ids.identity));
    }
}

/// Deleting takes away the database that was named, and no other row, and
/// only for an admin of its own organization; a deletion that fails takes
/// nothing away.
pub proof fn law_deleted_database(
    was: RepoView,
    now: RepoView,
    reliable: bool,
    s: SessionView,
    id: Seq<char>,
    r: Result<(), RpcError>,
)
    requires
        delete_outcome(was, now, reliable, s, id, r),
    ensures
        r is Ok ==> {
            &&& s.role == Role::Admin
            &&& was.databases.contains_key(id)
            &&& was.databases[id].org_id == s.org
            &&& !now.databases.contains_key(id)
            &&& same_databases_but(was, now, id)
            &&& now.users == was.users && now.organizations == was.organizations
                && now.memberships == was.memberships && now.identities == was.identities
                && now.oauth_states == was.oauth_states
        },
        r is Err ==> now == was,
        reliable && s.role == Role::Admin && was.databases.contains_key(id)
            && was.databases[id].org_id == s.org ==> r is Ok,
{
}

/// A listing that is answered names each database of the session's
/// organization once and no other, with its name, oldest first.
pub proof fn law_database_listing(
    v: RepoView,
    reliable: bool,
    s: SessionView,
    out: Vec<DatabaseInfo>,
)
    requires
        list_outcome(v, reliable, s, Ok::<Vec<DatabaseInfo>, RpcError>(out)),
        keyed(v),
    ensures
        forall|i: int|
            0 <= i < out@.len() ==> {
                let info = (#[trigger] out@[i])@;
                &&& v.databases.contains_key(info.id)
                &&& v.databases[info.id].org_id == s.org
                &&& info.org_id == s.org
                &&& info.name == v.databases[info.id].name
            },
        forall|id: Seq<char>| #[trigger]
            v.databases.contains_key(id) && v.databases[id].org_id == s.org ==> exists|i: int|
                0 <= i < out@.len() && (#[trigger] out@[i])@.id == id,
        forall|i: int, j: int|
            #![trigger out@[i], out@[j]]
            0 <= i < j < out@.len() ==> out@[i]@.id != out@[j]@.id
                && v.databases[out@[i]@.id].created_at_ms <= v.databases[out@[j]@.id].created_at_ms,
{
    let rows = choose|rows: Seq<DatabaseView>| #[trigger]
        is_listing(v, s.org, rows) && info_views(out@) == infos(rows);
    let views = info_views(out@);
    law_listed_databases(v, s.org, rows, views);
    assert forall|i: int| 0 <= i < out@.len() implies #[trigger] views[i] == out@[i]@ by {}
    assert forall|i: int| 0 <= i < out@.len() implies {
        let info = (#[trigger] out@[i])@;
        &&& v.databases.contains_key(info.id)
        &&& v.databases[info.id].org_id == s.org
        &&& info.org_id == s.org
        &&& info.name == v.databases[info.id].name
    } by {
        assert(views[i] == out@[i]@);
    }
    assert forall|id: Seq<char>| #[trigger]
        v.databases.contains_key(id) && v.databases[id].org_id == s.org implies exists|i: int|
        0 <= i < out@.len() && (#[trigger] out@[i])@.id == id by {
        let i = choose|i: int| 0 <= i < views.len() && (#[trigger] views[i]).id == id;
        assert(out@[i]@.id == id);
    }
    assert forall|i: int, j: int|
        #![trigger out@[i], out@[j]]
        0 <= i < j < out@.len() implies out@[i]@.id != out@[j]@.id
        && v.databases[out@[i]@.id].created_at_ms <= v.databases[out@[j]@.id].created_at_ms by {
        assert(views[i] == out@[i]@ && views[j] == out@[j]@);
    }
}

/// Asking who a session speaks for is answered where the user and the
/// organization are there: with the user's id and email as stored, and the
/// session's organization and role.
pub proof fn law_whoami_reply(
    v: RepoView,
    s: SessionView,
    r: Result<WhoamiInfo, RpcError>,
)
    requires
        whoami_outcome(v, true, s, r),
        keyed(v),
    ensures
        r is Ok <==> v.users.contains_key(s.user) && v.organizations.contains_key(s.org),
        r matches Ok(w) ==> {
            &&& w@.user_id == s.user
            &&& w@.email == v.users[s.user].email
            &&& w@.org_id == s.org
            &&& s.role == Role::Admin ==> w@.role == "admin"@
            &&& s.role == Role::Member ==> w@.role == "member"@
        },
        r matches Err(e) ==> e@.code == if v.users.contains_key(s.user) {
            RpcCode::FailedPrecondition
        } else {
            RpcCode::Unauthenticated
        },
{
    law_whoami(v, s);
}

/// A round trip that starts stores its state, for the provider and until its
/// time, and hands out a URL for that state; one that does not start stores
/// nothing.
pub proof fn law_started_round_trip(
    was: RepoView,
    now: RepoView,
    reliable: bool,
    config: ConfigView,
    provider: Seq<char>,
    state: Seq<char>,
    now_ms: i64,
    r: Result<StartOAuthResponse, RpcError>,
)
    requires
        start_outcome(was, now, reliable, config, provider, state, now_ms, r),
        i64::MIN <= config.oauth_state_ttl_seconds * 1000 <= i64::MAX,
        i64::MIN <= now_ms + config.oauth_state_ttl_seconds * 1000 <= i64::MAX,
    ensures
        r is Ok ==> provider == "github"@,
        r matches Ok(resp) ==> {
            &&& resp.state@ == state
            &&& now.oauth_states.contains_key(state)
            &&& now.oauth_states[state].state == state
            &&& now.oauth_states[state].provider == "github"@
            &&& now.oauth_states[state].created_at_ms == now_ms
            &&& now.oauth_states[state].expires_at_ms == now_ms + config.oauth_state_ttl_seconds
                * 1000
            &&& same_states_but(was, now, state)
            &&& now.users == was.users && now.identities == was.identities && now.organizations
                == was.organizations && now.memberships == was.memberships && now.databases
                == was.databases
        },
        r is Err ==> now == was,
{
    law_oauth_starts(config, provider);
    law_started_state(config, state, now_ms);
    law_state_rows(was, started_state(config, state, now_ms), state);
}

/// A state that was started is redeemed once, up to its expiry, for the URI
/// that the provider sends the user back to; it is gone afterwards, so that a
/// second try is refused.
pub proof fn law_redeemed_once(
    was: RepoView,
    now: RepoView,
    later: RepoView,
    config: ConfigView,
    state: Seq<char>,
    now_ms: i64,
    later_ms: i64,
    r: Result<String, RpcError>,
    again: Result<String, RpcError>,
)
    requires
        redeem_outcome(was, now, true, config, state, now_ms, r),
        redeem_outcome(now, later, true, config, state, later_ms, again),
    ensures
        r is Ok <==> was.oauth_states.contains_key(state) && now_ms
            <= was.oauth_states[state].expires_at_ms && start_due(
            config,
            was.oauth_states[state].provider,
        ) is None,
        r matches Ok(uri) ==> uri@ == trimmed_end_of(config.oauth_redirect_base, '/') + "/oauth/"@
            + "github"@ + "/callback"@,
        !now.oauth_states.contains_key(state),
        same_states_but(was, now, state),
        again matches Err(e) && e@.code == RpcCode::PermissionDenied && e@.message
            == "invalid or expired oauth state"@,
        now.users == was.users && now.identities == was.identities && now.organizations
            == was.organizations && now.memberships == was.memberships && now.databases
            == was.databases,
{
    law_redeemed_state(was, config, state, now_ms);
    law_redeemed_state(now, config, state, later_ms);
}

/// A user's home is a personal organization of theirs, and no other one of
/// theirs comes before it by its id.
pub proof fn law_home_is_the_first(
    v: RepoView,
    user: Seq<char>,
    org: OrganizationView,
    role: Role,
    other: Seq<char>,
)
    requires
        keyed(v),
        is_home(v, user, (org, role)),
    ensures
        org.personal,
        v.organizations.contains_key(org.id),
        v.organizations[org.id] == org,
        v.memberships.contains_key((user, org.id)),
        v.memberships[(user, org.id)].role == role,
        v.memberships.contains_key((user, other)) && v.organizations.contains_key(other)
            && v.organizations[other].personal ==> text_le(org.id, other),
{
    assert(is_personal_of(v, user, (org, role)));
    let o = choose|o: Seq<char>|
        #![trigger v.memberships[(user, o)]]
        v.memberships.contains_key((user, o)) && v.organizations.contains_key(o) && (org, role)
            == (v.organizations[o], v.memberships[(user, o)].role);
    assert(v.organizations[o].id == o);
    if v.memberships.contains_key((user, other)) && v.organizations.contains_key(other)
        && v.organizations[other].personal {
        let row = (v.organizations[other], v.memberships[(user, other)].role);
        assert(is_personal_of(v, user, row));
        assert(v.organizations[other].id == other);
    }
}

/// A password is checked against the stored hash of the identity: without a
/// hash, and with one that cannot be read, the check is an internal error;
/// with one that does not accept the password it is a mismatch.
pub proof fn law_password_check(hash: Seq<char>, password: Seq<char>)
    ensures
        password_due(None, password) matches Some(e) && e.code == RpcCode::Internal,
        phc_fault(hash) is Some ==> (password_due(Some(hash), password) matches Some(e) && e.code
            == RpcCode::Internal),
        phc_fault(hash) is None ==> (password_due(Some(hash), password) is None
            <==> accepts_password(hash, password)),
        phc_fault(hash) is None && !accepts_password(hash, password) ==> (password_due(
            Some(hash),
            password,
        ) matches Some(e) && e.code == RpcCode::Unauthenticated && e.message
            == "password mismatch"@),
{
}

/// A user without a personal organization gets no session: that is an internal
/// error, which says so. A user with one gets a session, or an error that it
/// does not fit a token.
pub proof fn law_session_needs_a_home(
    v: RepoView,
    key: Seq<u8>,
    user: UserView,
    exp_unix: int,
    org: Seq<char>,
    r: Result<(Seq<char>, OrganizationView, Role), RpcErrorView>,
)
    requires
        issue_outcome(v, true, key, user, exp_unix, r),
    ensures
        (forall|o: Seq<char>| #[trigger]
            v.memberships.contains_key((user.id, o)) && v.organizations.contains_key(o)
                ==> !v.organizations[o].personal) ==> (r matches Err(e) && e.code
            == RpcCode::Internal && e.message == "personal org missing for user"@),
        v.memberships.contains_key((user.id, org)) && v.organizations.contains_key(org)
            && v.organizations[org].personal ==> r is Ok || (r matches Err(e) && e.code
            == RpcCode::Unauthenticated),
{
    if forall|o: Seq<char>| #[trigger]
        v.memberships.contains_key((user.id, o)) && v.organizations.contains_key(o)
            ==> !v.organizations[o].personal {
        assert forall|row: (OrganizationView, Role)| !#[trigger]
            is_personal_of(v, user.id, row) by {
            if is_personal_of(v, user.id, row) {
                let o = choose|o: Seq<char>|
                    #![trigger v.memberships[(user.id, o)]]
                    v.memberships.contains_key((user.id, o)) && v.organizations.contains_key(o)
                        && row == (v.organizations[o], v.memberships[(user.id, o)].role);
                assert(v.memberships.contains_key((user.id, o)));
            }
        }
        if let Ok((token, o, role)) = r {
            assert(is_home(v, user.id, (o, role)));
            assert(is_personal_of(v, user.id, (o, role)));
        }
        if exists|row: (OrganizationView, Role)| #[trigger]
            home_too_large(v, user, row, exp_unix, r->Err_0) {
            let row = choose|row: (OrganizationView, Role)| #[trigger]
                home_too_large(v, user, row, exp_unix, r->Err_0);
            assert(is_personal_of(v, user.id, row));
        }
    }
    if v.memberships.contains_key((user.id, org)) && v.organizations.contains_key(org)
        && v.organizations[org].personal {
        let row = (v.organizations[org], v.memberships[(user.id, org)].role);
        assert(is_personal_of(v, user.id, row));
    }
}

/// A session expires the configured lifetime after it was opened. A sync token
/// expires the lifetime that was asked for after it was issued, or the default
/// one where none was, and never later than the cap allows.
pub proof fn law_expiries(config: ConfigView, requested: i64, now_unix: i64)
    ensures
        session_expiry(config, now_unix) == now_unix + config.session_ttl_seconds,
        sync_expiry(config, requested, now_unix) <= now_unix + config.max_sync_token_ttl_seconds,
        0 < requested <= config.max_sync_token_ttl_seconds ==> sync_expiry(
            config,
            requested,
            now_unix,
        ) == now_unix + requested,
        requested > 0 && requested > config.max_sync_token_ttl_seconds ==> sync_expiry(
            config,
            requested,
            now_unix,
        ) == now_unix + config.max_sync_token_ttl_seconds,
        requested <= 0 && config.sync_token_ttl_seconds <= config.max_sync_token_ttl_seconds
            ==> sync_expiry(config, requested, now_unix) == now_unix
            + config.sync_token_ttl_seconds,
{
}

// ---------- refusals ----------

/// Seconds are a thousand milliseconds each, as far as the type reaches.
pub proof fn law_millis(seconds: i64)
    ensures
        i64::MIN <= seconds * 1000 <= i64::MAX ==> millis(seconds) == seconds * 1000,
        seconds * 1000 > i64::MAX ==> millis(seconds) == i64::MAX,
        seconds * 1000 < i64::MIN ==> millis(seconds) == i64::MIN,
{
}

/// A provider that is known but not served is named; where the served one is
/// not set up, what is missing is told, the credentials before the address.
pub proof fn law_oauth_refusals(config: ConfigView)
    ensures
        start_due(config, "google"@) matches Some(e) && e.code == RpcCode::Unimplemented
            && e.message == "oauth provider `"@ + "google"@ + "` not supported"@,
        start_due(config, "password"@) matches Some(e) && e.code == RpcCode::Unimplemented
            && e.message == "oauth provider `"@ + "password"@ + "` not supported"@,
        config.github_client_id is None || config.github_client_secret is None ==> (start_due(
            config,
            "github"@,
        ) matches Some(e) && e.message == "github oauth not configured on this deployment"@),
        config.github_client_id is Some && config.github_client_secret is Some && trimmed(
            config.oauth_redirect_base,
        ).len() == 0 ==> (start_due(config, "github"@) matches Some(e) && e.message
            == "OAUTH_REDIRECT_BASE not set on this deployment"@),
{
    crate::shared::domain::enums::law_identity_provider_round_trip(IdentityProvider::GitHub);
    crate::shared::domain::enums::law_identity_provider_round_trip(IdentityProvider::Google);
    crate::shared::domain::enums::law_identity_provider_round_trip(IdentityProvider::Password);
}

/// A state that can still be redeemed is refused for what its provider would
/// be refused for at the start; a provider that no start lets in is the
/// server's own fault.
pub proof fn law_redeem_refusals(v: RepoView, config: ConfigView, state: Seq<char>, now_ms: i64)
    requires
        v.oauth_states.contains_key(state),
        now_ms <= v.oauth_states[state].expires_at_ms,
    ensures
        ({
            let provider = v.oauth_states[state].provider;
            let known = provider == "github"@ || provider == "google"@ || provider == "password"@;
            &&& known ==> redeem_due(v, config, state, now_ms) == start_due(config, provider)
            &&& !known ==> redeem_due(v, config, state, now_ms) == Some(
                RpcErrorView {
                    code: RpcCode::Internal,
                    message: "stored oauth state has unknown provider `"@ + provider + "`"@,
                },
            )
        }),
{
    crate::shared::domain::enums::law_identity_provider_round_trip(IdentityProvider::GitHub);
    crate::shared::domain::enums::law_identity_provider_round_trip(IdentityProvider::Google);
    crate::shared::domain::enums::law_identity_provider_round_trip(IdentityProvider::Password);
}

/// Where every identity of a provider's user points at a user that is gone,
/// signing in fails as the server's fault, and nothing changes.
pub proof fn law_dangling_identity(
    was: RepoView,
    now: RepoView,
    key: Seq<u8>,
    identity: OAuthIdentityView,
    now_ms: i64,
    exp_unix: int,
    r: Result<AuthView, RpcErrorView>,
)
    requires
        oauth_outcome(was, now, true, key, identity, now_ms, exp_unix, r),
        identity_linked(was, identity.provider.text(), identity.provider_user_id),
        forall|id: Seq<char>| #[trigger]
            was.identities.contains_key(id) && was.identities[id].provider
                == identity.provider.text() && was.identities[id].provider_user_id
                == identity.provider_user_id ==> !was.users.contains_key(
                was.identities[id].user_id,
            ),
    ensures
        now == was,
        r == Err::<AuthView, RpcErrorView>(
            (RpcErrorView {
                code: RpcCode::Internal,
                message: "oauth identity points at missing user"@,
            }),
        ),
{
    let id = choose|id: Seq<char>| #[trigger]
        linked_reply(was, true, key, identity, id, exp_unix, r);
    assert(is_identity(was, id, identity.provider.text(), identity.provider_user_id));
    assert(was.identities.contains_key(id));
}

/// Claims that do not fit a token are told with their size.
pub proof fn law_oversized_claims(
    v: RepoView,
    user: UserView,
    row: (OrganizationView, Role),
    exp_unix: int,
    e: RpcErrorView,
    s: SessionView,
    id: Seq<char>,
    d: Direction,
)
    ensures
        home_too_large(v, user, row, exp_unix, e) ==> e.code == RpcCode::Unauthenticated
            && e.message == "malformed token: "@ + ("Macaroon field `"@ + "identifier"@ + "` is "@
            + decimal(claims_bytes(session_claims(home_session(user, row, exp_unix))).len())
            + " bytes, exceeds the maximum of 65535 bytes"@),
        v.databases.contains_key(id) && v.databases[id].org_id == s.org ==> ({
            let size = claims_bytes(
                sync_claims(
                    (SyncView {
                        user: s.user,
                        org: s.org,
                        database: id,
                        direction: d,
                        exp_unix: exp_unix as i64,
                    }),
                ),
            ).len();
            &&& issue_sync_due(v, s, id, Some(d), exp_unix) is Some <==> size > 65535
            &&& issue_sync_due(v, s, id, Some(d), exp_unix) matches Some(f) ==> f.code
                == RpcCode::Unauthenticated && f.message == "malformed token: "@ + (
            "Macaroon field `"@ + "identifier"@ + "` is "@ + decimal(size)
                + " bytes, exceeds the maximum of 65535 bytes"@)
        }),
{
}

} // verus!
