//! What the admin service answers, over the storage that it reads.

use vstd::prelude::*;

use super::common::{database_name_fault, store_rpc_error};
use super::oauth::{authorize_url, credentials, OAuthIdentityView};
use super::rpc::{fails_as, rpc_error, RpcCode, RpcError, RpcErrorView};
use crate::macaroon::MAX_FIELD_BYTES;
use crate::shared::auth::session::{SessionContext, SessionView, SyncView};
use crate::shared::clock::whole_seconds;
use crate::shared::domain::entities::{DatabaseView, OAuthStateView, OrganizationView, UserView};
use crate::shared::domain::enums::{Direction, IdentityProvider, Role};
use crate::shared::domain::ids::is_hex_id;
use crate::shared::repo::{
    are_drawn, database_refusal, email_taken, has_email, identity_linked, is_database_of,
    is_identity, is_org_of, lists, signup_refusal, usable_state, with_database, with_oauth_user,
    with_password_user, with_state, without_database, without_state, RepoView, SignupIds,
};
use crate::shared::table::text_le;
use crate::text::{trimmed, trimmed_end_of};
use crate::worker::auth::claims::claims_bytes;
use crate::worker::auth::password::{accepts_password, phc_fault};
use crate::worker::auth::tokens::{
    claims_too_large, session_claims, session_token, sync_claims, sync_token,
};
use crate::worker::config::ConfigView;

verus! {

// ---------- replies ----------

/// Who a session speaks for.
#[derive(Debug, PartialEq, Eq)]
pub struct WhoamiInfo {
    pub user_id: String,
    pub email: String,
    pub org_id: String,
    pub role: String,
}

/// [`WhoamiInfo`] over characters.
#[verifier::ext_equal]
pub struct WhoamiView {
    pub user_id: Seq<char>,
    pub email: Seq<char>,
    pub org_id: Seq<char>,
    pub role: Seq<char>,
}

impl View for WhoamiInfo {
    type V = WhoamiView;

    open spec fn view(&self) -> WhoamiView {
        WhoamiView {
            user_id: self.user_id@,
            email: self.email@,
            org_id: self.org_id@,
            role: self.role@,
        }
    }
}

/// A fresh session.
#[derive(Debug, PartialEq, Eq)]
pub struct AuthResponse {
    pub session_token: String,
    pub whoami: Option<WhoamiInfo>,
}

/// [`AuthResponse`] over characters.
#[verifier::ext_equal]
pub struct AuthView {
    pub session_token: Seq<char>,
    pub whoami: Option<WhoamiView>,
}

impl View for AuthResponse {
    type V = AuthView;

    open spec fn view(&self) -> AuthView {
        AuthView {
            session_token: self.session_token@,
            whoami: match self.whoami {
                Some(w) => Some(w@),
                None => None,
            },
        }
    }
}

/// A database as clients see it.
#[derive(Debug, PartialEq, Eq)]
pub struct DatabaseInfo {
    pub id: String,
    pub org_id: String,
    pub name: String,
    pub created_at_unix: i64,
}

/// [`DatabaseInfo`] over characters.
#[verifier::ext_equal]
pub struct DatabaseInfoView {
    pub id: Seq<char>,
    pub org_id: Seq<char>,
    pub name: Seq<char>,
    pub created_at_unix: i64,
}

impl View for DatabaseInfo {
    type V = DatabaseInfoView;

    open spec fn view(&self) -> DatabaseInfoView {
        DatabaseInfoView {
            id: self.id@,
            org_id: self.org_id@,
            name: self.name@,
            created_at_unix: self.created_at_unix,
        }
    }
}

/// Where to send the user for an OAuth round trip.
#[derive(Debug, PartialEq, Eq)]
pub struct StartOAuthResponse {
    pub redirect_url: String,
    pub state: String,
}

/// A fresh sync token.
#[derive(Debug, PartialEq, Eq)]
pub struct IssueSyncTokenResponse {
    pub token: String,
    pub exp_unix: i64,
}

/// A result over characters.
pub open spec fn rpc_result<T: View>(r: Result<T, RpcError>) -> Result<T::V, RpcErrorView> {
    match r {
        Ok(v) => Ok(v@),
        Err(e) => Err(e@),
    }
}

pub open spec fn whoami_of(user: UserView, org: OrganizationView, role: Role) -> WhoamiView {
    WhoamiView { user_id: user.id, email: user.email, org_id: org.id, role: role.text() }
}

/// A database as clients see it: its time in whole seconds.
pub open spec fn database_info(d: DatabaseView) -> DatabaseInfoView {
    DatabaseInfoView {
        id: d.id,
        org_id: d.org_id,
        name: d.name,
        created_at_unix: whole_seconds(d.created_at_ms as int) as i64,
    }
}

/// Whether a result is a success where no error is due, and otherwise the
/// error that is due; an unreliable backend may fail in its place.
pub open spec fn answers<T>(r: Result<T, RpcError>, due: Option<RpcErrorView>, reliable: bool) -> bool {
    match r {
        Ok(_) => due is None,
        Err(e) => due == Some(e@) || (!reliable && e@.code == RpcCode::Internal),
    }
}

/// A handler that needs a session is refused without one.
pub open spec fn no_session() -> RpcErrorView {
    rpc_error(RpcCode::Unauthenticated, "session token required"@)
}

/// When a token of a lifetime that is issued at a time expires.
pub open spec fn expiry(now_unix: i64, ttl_seconds: i64) -> int {
    now_unix + ttl_seconds
}

/// When a session that is opened at a time expires.
pub open spec fn session_expiry(config: ConfigView, now_unix: i64) -> int {
    expiry(now_unix, config.session_ttl_seconds)
}

/// When a sync token that is issued at a time, for a lifetime that was asked
/// for, expires.
pub open spec fn sync_expiry(config: ConfigView, requested: i64, now_unix: i64) -> int {
    expiry(now_unix, granted_ttl(config, requested))
}

// ---------- sessions ----------

/// Whether a row is a personal organization of a user, with their role.
pub open spec fn is_personal_of(
    v: RepoView,
    user: Seq<char>,
    row: (OrganizationView, Role),
) -> bool {
    is_org_of(v, user, row) && row.0.personal
}

/// Whether a row is the first personal organization of a user, by id.
pub open spec fn is_home(v: RepoView, user: Seq<char>, row: (OrganizationView, Role)) -> bool {
    &&& is_personal_of(v, user, row)
    &&& forall|other: (OrganizationView, Role)| #[trigger]
        is_personal_of(v, user, other) ==> text_le(row.0.id, other.0.id)
}

/// The session of a user in an organization.
pub open spec fn home_session(
    user: UserView,
    row: (OrganizationView, Role),
    exp_unix: int,
) -> SessionView {
    SessionView {
        user: user.id,
        email: user.email,
        org: row.0.id,
        role: row.1,
        exp_unix: exp_unix as i64,
    }
}

/// The error for a session whose claims do not fit a token.
pub open spec fn session_too_large(s: SessionView) -> RpcErrorView {
    rpc_error(
        RpcCode::Unauthenticated,
        "malformed token: "@ + claims_too_large(session_claims(s)),
    )
}

/// Whether a home's session does not fit a token, with the error for it.
pub open spec fn home_too_large(
    v: RepoView,
    user: UserView,
    row: (OrganizationView, Role),
    exp_unix: int,
    e: RpcErrorView,
) -> bool {
    let s = home_session(user, row, exp_unix);
    &&& is_home(v, user.id, row)
    &&& claims_bytes(session_claims(s)).len() > MAX_FIELD_BYTES
    &&& e == session_too_large(s)
}

/// Whether a token is a session of a user at their home.
pub open spec fn is_session_of(
    v: RepoView,
    key: Seq<u8>,
    user: UserView,
    org: OrganizationView,
    role: Role,
    exp_unix: int,
    token: Seq<char>,
) -> bool {
    &&& is_home(v, user.id, (org, role))
    &&& session_token(key, home_session(user, (org, role), exp_unix), token)
}

/// What issuing a session for a user comes to: a token rooted on the user's
/// first personal organization.
pub open spec fn issue_outcome(
    v: RepoView,
    reliable: bool,
    key: Seq<u8>,
    user: UserView,
    exp_unix: int,
    r: Result<(Seq<char>, OrganizationView, Role), RpcErrorView>,
) -> bool {
    match r {
        Ok((token, org, role)) => is_session_of(v, key, user, org, role, exp_unix, token),
        Err(e) => {
            ||| !reliable && e.code == RpcCode::Internal
            ||| {
                &&& e == rpc_error(RpcCode::Internal, "personal org missing for user"@)
                &&& forall|row: (OrganizationView, Role)| !#[trigger] is_personal_of(v, user.id, row)
            }
            ||| exists|row: (OrganizationView, Role)| #[trigger]
                home_too_large(v, user, row, exp_unix, e)
        },
    }
}

/// Whether a reply is a session issued for a user, with or without saying who
/// they are.
pub open spec fn session_reply(
    v: RepoView,
    reliable: bool,
    key: Seq<u8>,
    user: UserView,
    exp_unix: int,
    with_whoami: bool,
    r: Result<AuthView, RpcErrorView>,
) -> bool {
    match r {
        Ok(a) => exists|org: OrganizationView, role: Role| #[trigger]
            is_session_of(v, key, user, org, role, exp_unix, a.session_token) && a.whoami == (
            if with_whoami {
                Some(whoami_of(user, org, role))
            } else {
                None
            }),
        Err(e) => issue_outcome(v, reliable, key, user, exp_unix, Err(e)),
    }
}

// ---------- whoami ----------

pub open spec fn whoami_due(v: RepoView, s: SessionView) -> Option<RpcErrorView> {
    if !v.users.contains_key(s.user) {
        Some(rpc_error(RpcCode::Unauthenticated, "session user no longer exists"@))
    } else if !v.organizations.contains_key(s.org) {
        Some(rpc_error(RpcCode::FailedPrecondition, "session org no longer exists"@))
    } else {
        None
    }
}

/// What asking who a session speaks for comes to.
pub open spec fn whoami_outcome(
    v: RepoView,
    reliable: bool,
    s: SessionView,
    r: Result<WhoamiInfo, RpcError>,
) -> bool {
    &&& answers(r, whoami_due(v, s), reliable)
    &&& r matches Ok(w) ==> w@ == whoami_of(v.users[s.user], v.organizations[s.org], s.role)
}

// ---------- signup ----------

/// What signing up comes to once the email passed and the password was hashed:
/// the user is stored whole, and a session for them is issued.
pub open spec fn signup_outcome(
    was: RepoView,
    now: RepoView,
    reliable: bool,
    key: Seq<u8>,
    email: Seq<char>,
    hash: Seq<char>,
    now_ms: i64,
    exp_unix: int,
    r: Result<AuthView, RpcErrorView>,
) -> bool {
    ||| {
        &&& now == was
        &&& r matches Err(e) && ((signup_refusal(was, email) matches Some(due) && e
            == store_rpc_error(due)) || (e.code == RpcCode::Internal && (!reliable
            || signup_refusal(was, email) is None)))
    }
    ||| {
        &&& signup_refusal(was, email) is None
        &&& exists|ids: SignupIds| #[trigger]
            with_password_user(was, ids, email, hash, now_ms) == now && are_drawn(ids)
                && session_reply(
                now,
                reliable,
                key,
                now.users[ids.user],
                exp_unix,
                true,
                r,
            )
    }
}

// ---------- login ----------

/// Whether an identity is a password identity of a user.
pub open spec fn is_password_of(v: RepoView, user: Seq<char>, id: Seq<char>) -> bool {
    v.identities.contains_key(id) && v.identities[id].user_id == user && v.identities[id].provider
        == "password"@
}

pub open spec fn bad_credentials() -> RpcErrorView {
    rpc_error(RpcCode::Unauthenticated, "invalid credentials"@)
}

/// What checking a password against an identity's secret comes to.
pub open spec fn password_due(secret: Option<Seq<char>>, password: Seq<char>) -> Option<
    RpcErrorView,
> {
    match secret {
        None => Some(rpc_error(RpcCode::Internal, "password identity missing secret"@)),
        Some(h) => match phc_fault(h) {
            Some(text) => Some(rpc_error(RpcCode::Internal, "invalid stored hash: "@ + text)),
            None => if accepts_password(h, password) {
                None
            } else {
                Some(rpc_error(RpcCode::Unauthenticated, "password mismatch"@))
            },
        },
    }
}

/// What logging in as a user through a password identity of theirs comes to.
pub open spec fn login_through(
    v: RepoView,
    reliable: bool,
    key: Seq<u8>,
    user: Seq<char>,
    identity: Seq<char>,
    password: Seq<char>,
    exp_unix: int,
    r: Result<AuthView, RpcErrorView>,
) -> bool {
    &&& is_password_of(v, user, identity)
    &&& match password_due(v.identities[identity].secret, password) {
        Some(e) => r == Err::<AuthView, RpcErrorView>(e),
        None => session_reply(v, reliable, key, v.users[user], exp_unix, true, r),
    }
}

/// What logging in as a user comes to.
pub open spec fn login_as(
    v: RepoView,
    reliable: bool,
    key: Seq<u8>,
    user: Seq<char>,
    email: Seq<char>,
    password: Seq<char>,
    exp_unix: int,
    r: Result<AuthView, RpcErrorView>,
) -> bool {
    &&& has_email(v, user, email)
    &&& {
        ||| {
            &&& r == Err::<AuthView, RpcErrorView>(bad_credentials())
            &&& forall|id: Seq<char>| !#[trigger] is_password_of(v, user, id)
        }
        ||| exists|id: Seq<char>| #[trigger]
            login_through(v, reliable, key, user, id, password, exp_unix, r)
    }
}

/// What logging in comes to: a session where the email is a user's and the
/// password matches their stored hash.
pub open spec fn login_outcome(
    v: RepoView,
    reliable: bool,
    key: Seq<u8>,
    email: Seq<char>,
    password: Seq<char>,
    exp_unix: int,
    r: Result<AuthView, RpcErrorView>,
) -> bool {
    ||| !reliable && (r matches Err(e) && e.code == RpcCode::Internal)
    ||| !email_taken(v, email) && r == Err::<AuthView, RpcErrorView>(bad_credentials())
    ||| exists|user: Seq<char>| #[trigger]
        login_as(v, reliable, key, user, email, password, exp_unix, r)
}

// ---------- oauth ----------

pub open spec fn unsupported_provider(p: IdentityProvider) -> RpcErrorView {
    rpc_error(RpcCode::Unimplemented, "oauth provider `"@ + p.text() + "` not supported"@)
}

/// The redirect base must be set.
pub open spec fn redirect_due(config: ConfigView) -> Option<RpcErrorView> {
    if trimmed(config.oauth_redirect_base).len() == 0 {
        Some(
            rpc_error(
                RpcCode::Unimplemented,
                "OAUTH_REDIRECT_BASE not set on this deployment"@,
            ),
        )
    } else {
        None
    }
}

/// Where a provider sends the user back to.
pub open spec fn redirect_uri(config: ConfigView, provider: Seq<char>) -> Seq<char> {
    trimmed_end_of(config.oauth_redirect_base, '/') + "/oauth/"@ + provider + "/callback"@
}

/// What keeps an OAuth round trip from starting.
pub open spec fn start_due(config: ConfigView, provider: Seq<char>) -> Option<RpcErrorView> {
    match IdentityProvider::parsed(provider) {
        Err(_) => Some(
            rpc_error(
                RpcCode::InvalidArgument,
                "unknown oauth provider `"@ + provider + "`"@,
            ),
        ),
        Ok(p) => if p != IdentityProvider::GitHub {
            Some(unsupported_provider(p))
        } else if credentials(config) is None {
            Some(
                rpc_error(
                    RpcCode::Unimplemented,
                    "github oauth not configured on this deployment"@,
                ),
            )
        } else {
            redirect_due(config)
        },
    }
}

/// Seconds in milliseconds, held to the range of `i64`.
pub open spec fn millis(seconds: i64) -> i64 {
    if seconds * 1000 > i64::MAX {
        i64::MAX
    } else if seconds * 1000 < i64::MIN {
        i64::MIN
    } else {
        (seconds * 1000) as i64
    }
}

/// The state that starting a round trip stores.
pub open spec fn started_state(
    config: ConfigView,
    state: Seq<char>,
    now_ms: i64,
) -> OAuthStateView {
    OAuthStateView {
        state,
        provider: "github"@,
        created_at_ms: now_ms,
        expires_at_ms: now_ms.wrapping_add(millis(config.oauth_state_ttl_seconds)),
    }
}

/// What starting a round trip under a state comes to.
pub open spec fn start_outcome(
    was: RepoView,
    now: RepoView,
    reliable: bool,
    config: ConfigView,
    provider: Seq<char>,
    state: Seq<char>,
    now_ms: i64,
    r: Result<StartOAuthResponse, RpcError>,
) -> bool {
    &&& answers(r, start_due(config, provider), reliable)
    &&& match r {
        Ok(resp) => {
            &&& resp.state@ == state
            &&& credentials(config) matches Some(c) && resp.redirect_url@ == authorize_url(
                c.0,
                redirect_uri(config, "github"@),
                state,
            )
            &&& now == with_state(was, started_state(config, state, now_ms))
        },
        Err(_) => now == was,
    }
}

/// What keeps a state from being redeemed.
pub open spec fn redeem_due(
    v: RepoView,
    config: ConfigView,
    state: Seq<char>,
    now_ms: i64,
) -> Option<RpcErrorView> {
    match usable_state(v, state, now_ms) {
        None => Some(rpc_error(RpcCode::PermissionDenied, "invalid or expired oauth state"@)),
        Some(s) => match IdentityProvider::parsed(s.provider) {
            Err(_) => Some(
                rpc_error(
                    RpcCode::Internal,
                    "stored oauth state has unknown provider `"@ + s.provider + "`"@,
                ),
            ),
            Ok(p) => if p != IdentityProvider::GitHub {
                Some(unsupported_provider(p))
            } else if credentials(config) is None {
                Some(
                    rpc_error(
                        RpcCode::Unimplemented,
                        "github oauth not configured on this deployment"@,
                    ),
                )
            } else {
                redirect_due(config)
            },
        },
    }
}

/// What redeeming a state comes to: it is gone, whatever else.
pub open spec fn redeem_outcome(
    was: RepoView,
    now: RepoView,
    reliable: bool,
    config: ConfigView,
    state: Seq<char>,
    now_ms: i64,
    r: Result<String, RpcError>,
) -> bool {
    ||| {
        &&& !reliable
        &&& now == was
        &&& r matches Err(e) && e@.code == RpcCode::Internal
    }
    ||| {
        &&& now == without_state(was, state)
        &&& fails_as(r, redeem_due(was, config, state, now_ms))
        &&& r matches Ok(uri) ==> uri@ == redirect_uri(config, "github"@)
    }
}

/// What logging in through an identity that is linked comes to.
pub open spec fn linked_reply(
    v: RepoView,
    reliable: bool,
    key: Seq<u8>,
    identity: OAuthIdentityView,
    id: Seq<char>,
    exp_unix: int,
    r: Result<AuthView, RpcErrorView>,
) -> bool {
    &&& is_identity(v, id, identity.provider.text(), identity.provider_user_id)
    &&& if v.users.contains_key(v.identities[id].user_id) {
        session_reply(v, reliable, key, v.users[v.identities[id].user_id], exp_unix, false, r)
    } else {
        r == Err::<AuthView, RpcErrorView>(
            rpc_error(RpcCode::Internal, "oauth identity points at missing user"@),
        )
    }
}

/// What completing an OAuth round trip comes to: a session for the user that
/// the identity is linked to, or for a user who signs up with it.
pub open spec fn oauth_outcome(
    was: RepoView,
    now: RepoView,
    reliable: bool,
    key: Seq<u8>,
    identity: OAuthIdentityView,
    now_ms: i64,
    exp_unix: int,
    r: Result<AuthView, RpcErrorView>,
) -> bool {
    ||| !reliable && now == was && (r matches Err(e) && e.code == RpcCode::Internal)
    ||| now == was && exists|id: Seq<char>| #[trigger]
        linked_reply(was, reliable, key, identity, id, exp_unix, r)
    ||| {
        &&& !identity_linked(was, identity.provider.text(), identity.provider_user_id)
        &&& {
            ||| {
                &&& now == was
                &&& r matches Err(e) && match signup_refusal(was, identity.email) {
                    Some(due) => e == store_rpc_error(due),
                    None => e.code == RpcCode::Internal,
                }
            }
            ||| {
                &&& signup_refusal(was, identity.email) is None
                &&& exists|ids: SignupIds| #[trigger]
                    with_oauth_user(
                        was,
                        ids,
                        identity.email,
                        identity.provider.text(),
                        identity.provider_user_id,
                        now_ms,
                    ) == now && are_drawn(ids) && session_reply(
                        now,
                        reliable,
                        key,
                        now.users[ids.user],
                        exp_unix,
                        false,
                        r,
                    )
            }
        }
    }
}

// ---------- databases ----------

/// What keeps a database from being created.
pub open spec fn create_due(v: RepoView, s: SessionView, name: Seq<char>) -> Option<RpcErrorView> {
    if s.role != Role::Admin {
        Some(rpc_error(RpcCode::PermissionDenied, "admin role required to create a database"@))
    } else {
        match database_name_fault(name) {
            Some(e) => Some(e),
            None => match database_refusal(v, s.org, trimmed(name)) {
                Some(e) => Some(store_rpc_error(e)),
                None => None,
            },
        }
    }
}

/// What creating a database comes to.
pub open spec fn create_outcome(
    was: RepoView,
    now: RepoView,
    reliable: bool,
    s: SessionView,
    name: Seq<char>,
    now_ms: i64,
    r: Result<DatabaseInfo, RpcError>,
) -> bool {
    match r {
        Ok(info) => {
            let d = DatabaseView {
                id: info@.id,
                org_id: s.org,
                name: trimmed(name),
                created_by: s.user,
                created_at_ms: now_ms,
            };
            &&& create_due(was, s, name) is None
            &&& info@ == database_info(d)
            &&& now == with_database(was, d)
            &&& is_hex_id(d.id)
        },
        Err(e) => {
            &&& now == was
            &&& match create_due(was, s, name) {
                Some(due) => e@ == due || (!reliable && e@.code == RpcCode::Internal),
                None => e@.code == RpcCode::Internal,
            }
        },
    }
}

/// The databases of an organization, oldest first.
pub open spec fn is_listing(v: RepoView, org: Seq<char>, rows: Seq<DatabaseView>) -> bool {
    &&& lists(rows, |d: DatabaseView| is_database_of(v, org, d))
    &&& forall|i: int, j: int|
        #![trigger rows[i], rows[j]]
        0 <= i < j < rows.len() ==> rows[i].created_at_ms <= rows[j].created_at_ms
}

pub open spec fn info_views(s: Seq<DatabaseInfo>) -> Seq<DatabaseInfoView> {
    s.map_values(|i: DatabaseInfo| i@)
}

pub open spec fn infos(rows: Seq<DatabaseView>) -> Seq<DatabaseInfoView> {
    rows.map_values(|d: DatabaseView| database_info(d))
}

/// What listing a session's databases comes to.
pub open spec fn list_outcome(
    v: RepoView,
    reliable: bool,
    s: SessionView,
    r: Result<Vec<DatabaseInfo>, RpcError>,
) -> bool {
    match r {
        Ok(out) => exists|rows: Seq<DatabaseView>| #[trigger]
            is_listing(v, s.org, rows) && info_views(out@) == infos(rows),
        Err(e) => !reliable && e@.code == RpcCode::Internal,
    }
}

/// A session reaches the databases of its own organization.
pub open spec fn access_due(v: RepoView, s: SessionView, id: Seq<char>) -> Option<RpcErrorView> {
    if !v.databases.contains_key(id) {
        Some(rpc_error(RpcCode::NotFound, "database not found"@))
    } else if v.databases[id].org_id != s.org {
        Some(
            rpc_error(RpcCode::PermissionDenied, "database belongs to another organization"@),
        )
    } else {
        None
    }
}

/// What keeps a database from being deleted.
pub open spec fn delete_due(v: RepoView, s: SessionView, id: Seq<char>) -> Option<RpcErrorView> {
    if s.role != Role::Admin {
        Some(rpc_error(RpcCode::PermissionDenied, "admin role required to delete a database"@))
    } else {
        access_due(v, s, id)
    }
}

/// What deleting a database comes to.
pub open spec fn delete_outcome(
    was: RepoView,
    now: RepoView,
    reliable: bool,
    s: SessionView,
    id: Seq<char>,
    r: Result<(), RpcError>,
) -> bool {
    &&& answers(r, delete_due(was, s, id), reliable)
    &&& match r {
        Ok(()) => now == without_database(was, id),
        Err(_) => now == was,
    }
}

// ---------- sync tokens ----------

/// The lifetime of a sync token: what was asked for, or the default where
/// nothing was, and no more than the cap.
pub open spec fn granted_ttl(config: ConfigView, requested: i64) -> i64 {
    let wanted = if requested <= 0 {
        config.sync_token_ttl_seconds
    } else {
        requested
    };
    if wanted <= config.max_sync_token_ttl_seconds {
        wanted
    } else {
        config.max_sync_token_ttl_seconds
    }
}

/// The grant that a sync token is issued for.
pub open spec fn granted(
    s: SessionView,
    id: Seq<char>,
    direction: Direction,
    exp_unix: int,
) -> SyncView {
    SyncView { user: s.user, org: s.org, database: id, direction, exp_unix: exp_unix as i64 }
}

/// What keeps a sync token from being issued.
pub open spec fn issue_sync_due(
    v: RepoView,
    s: SessionView,
    id: Seq<char>,
    direction: Option<Direction>,
    exp_unix: int,
) -> Option<RpcErrorView> {
    match access_due(v, s, id) {
        Some(e) => Some(e),
        None => match direction {
            None => Some(
                rpc_error(
                    RpcCode::InvalidArgument,
                    "direction must be DIRECTION_PUSH or DIRECTION_PULL"@,
                ),
            ),
            Some(d) => {
                let claims = sync_claims(granted(s, id, d, exp_unix));
                if claims_bytes(claims).len() > MAX_FIELD_BYTES {
                    Some(
                        rpc_error(
                            RpcCode::Unauthenticated,
                            "malformed token: "@ + claims_too_large(claims),
                        ),
                    )
                } else {
                    None
                }
            },
        },
    }
}

/// What issuing a sync token at a time comes to.
pub open spec fn issue_sync_outcome(
    v: RepoView,
    reliable: bool,
    key: Seq<u8>,
    s: SessionView,
    id: Seq<char>,
    direction: Option<Direction>,
    exp_unix: int,
    r: Result<IssueSyncTokenResponse, RpcError>,
) -> bool {
    &&& answers(r, issue_sync_due(v, s, id, direction, exp_unix), reliable)
    &&& r matches Ok(resp) ==> resp.exp_unix == exp_unix && sync_token(
        key,
        granted(s, id, direction->0, exp_unix),
        resp.token@,
    )
}

/// The session of a request, over characters.
pub open spec fn session_view(ctx: Option<SessionContext>) -> Option<SessionView> {
    match ctx {
        Some(c) => Some(c@),
        None => None,
    }
}

} // verus!
