//! The admin service: whoami, signup, login, OAuth, database CRUD, sync-token
//! issuance. Sessions carry signed claims and an `exp` caveat. OAuth
//! start/complete answer `Unimplemented` until configured.

use vstd::prelude::*;

use super::admin_model::{
    access_due, answers, create_outcome, database_info, delete_outcome, granted_ttl,
    home_too_large, info_views, infos, is_home, is_listing, is_password_of, is_personal_of,
    is_session_of, issue_outcome, issue_sync_outcome, linked_reply, list_outcome, login_as,
    login_outcome, login_through, millis, no_session, oauth_outcome, redeem_outcome, redirect_due,
    redirect_uri, rpc_result, session_expiry, session_reply, session_view, signup_outcome, start_due,
    start_outcome, started_state, sync_expiry, unsupported_provider, whoami_of, whoami_outcome, AuthResponse,
    DatabaseInfo, IssueSyncTokenResponse, StartOAuthResponse, WhoamiInfo,
};
use super::common::{
    email_fault, map_password_error, map_store_error, map_token_error, no_text, password_rpc_error,
    validate_database_name, validate_email,
};
use super::oauth::{authorize_url, credentials, github_authorize_url, github_credentials, OAuthIdentity};
use super::rpc::{fails_as, RpcCode, RpcError, RpcErrorView};
use crate::shared::auth::session::SessionContext;
use crate::shared::clock::{shows_second, to_unix_seconds, Clock};
use crate::shared::domain::entities::{
    Database, Identity, OAuthState, Organization, OrganizationView, User,
};
use crate::shared::domain::enums::{Direction, IdentityProvider, Role};
use crate::shared::domain::ids::{is_hex_id, random_hex, DatabaseId};
use crate::shared::repo::{
    are_drawn, database_views, identity_views, org_views, with_oauth_user, with_password_user,
    with_state, NewOAuthUser, NewPasswordUser, OrgWithRole, Repo, SignupIds,
};
use crate::shared::table::text_le;
use crate::text::{join2, join3, str_eq, trim, trim_end_of};
use crate::worker::auth::password::{
    accepts_password, hash_new_password, verify_password, PasswordError, MIN_PASSWORD_LEN,
};
use crate::worker::auth::tokens::{mint_session, mint_sync, MintSessionInput, MintSyncInput};
use crate::worker::config::Config;
use crate::worker::middleware::require_session;
use crate::worker::state::AppState;

verus! {

/// The admin service over a storage and a clock.
pub struct AdminServer<R: Repo, C: Clock> {
    pub state: AppState<R, C>,
}

fn whoami_info(user: &User, org: &Organization, role: Role) -> (r: WhoamiInfo)
    ensures
        r@ == whoami_of(user@, org@, role),
{
    WhoamiInfo {
        user_id: user.id.as_str().to_owned(),
        email: user.email.clone(),
        org_id: org.id.as_str().to_owned(),
        role: role.as_str().to_owned(),
    }
}

fn database_info_of(db: &Database) -> (r: DatabaseInfo)
    ensures
        r@ == database_info(db@),
{
    DatabaseInfo {
        id: db.id.as_str().to_owned(),
        org_id: db.org_id.as_str().to_owned(),
        name: db.name.clone(),
        created_at_unix: to_unix_seconds(db.created_at_ms),
    }
}

/// The redirect URI of a provider, where the deployment has a base for it.
fn oauth_redirect_uri(config: &Config, provider: &str) -> (r: Result<String, RpcError>)
    ensures
        fails_as(r, redirect_due(config@)),
        r matches Ok(uri) ==> uri@ == redirect_uri(config@, provider@),
{
    if no_text(trim(config.oauth_redirect_base.as_str()).as_str()) {
        return Err(
            RpcError::new(
                RpcCode::Unimplemented,
                "OAUTH_REDIRECT_BASE not set on this deployment",
            ),
        );
    }
    let base: String = trim_end_of(config.oauth_redirect_base.as_str(), '/');
    let path: String = join3(base.as_str(), "/oauth/", provider);
    Ok(join2(path.as_str(), "/callback"))
}

/// Seconds in milliseconds, held to the range of `i64`.
fn to_millis(seconds: i64) -> (r: i64)
    ensures
        r == millis(seconds),
{
    if seconds > 9223372036854775 {
        i64::MAX
    } else if seconds < -9223372036854775 {
        i64::MIN
    } else {
        seconds * 1000
    }
}

fn unsupported(provider: IdentityProvider) -> (r: RpcError)
    ensures
        r@ == unsupported_provider(provider),
{
    RpcError {
        code: RpcCode::Unimplemented,
        message: join3("oauth provider `", provider.as_str(), "` not supported"),
    }
}

/// What issuing a session gave, over characters.
pub open spec fn issued(r: Result<(String, Organization, Role), RpcError>) -> Result<
    (Seq<char>, OrganizationView, Role),
    RpcErrorView,
> {
    match r {
        Ok((token, org, role)) => Ok((token@, org@, role)),
        Err(e) => Err(e@),
    }
}

/// The first personal organization of a listing.
fn first_personal(orgs: &Vec<OrgWithRole>) -> (r: Option<usize>)
    ensures
        match r {
            Some(i) => i < orgs@.len() && orgs@[i as int].0.personal && forall|j: int|
                0 <= j < i ==> !(#[trigger] orgs@[j]).0.personal,
            None => forall|j: int| 0 <= j < orgs@.len() ==> !(#[trigger] orgs@[j]).0.personal,
        },
{
    let mut i: usize = 0;
    while i < orgs.len()
        invariant
            i <= orgs.len(),
            forall|j: int| 0 <= j < i ==> !(#[trigger] orgs@[j]).0.personal,
        decreases orgs.len() - i,
    {
        if orgs[i].0.personal {
            return Some(i);
        }
        i = i + 1;
    }
    None
}

impl<R: Repo, C: Clock> AdminServer<R, C> {
    pub fn new(state: AppState<R, C>) -> (r: Self)
        ensures
            r.state == state,
    {
        AdminServer { state }
    }

    /// Mint a session token rooted on `user`'s first personal org.
    pub fn issue_session_for(&self, user: &User, now_unix: i64) -> (r: Result<
        (String, Organization, Role),
        RpcError,
    >)
        requires
            self.state.valid(),
            -9223372036854775 <= now_unix <= 9223372036854775,
        ensures
            issue_outcome(
                self.state.repo.stored(),
                self.state.repo.reliable(),
                self.state.keyring@,
                user@,
                session_expiry(self.state.config@, now_unix),
                issued(r),
            ),
    {
        let ghost v = self.state.repo.stored();
        let orgs: Vec<OrgWithRole> = match self.state.repo.list_organizations_for_user(&user.id) {
            Ok(orgs) => orgs,
            Err(e) => {
                return Err(map_store_error(e));
            },
        };
        match first_personal(&orgs) {
            None => {
                proof {
                    assert forall|row: (OrganizationView, Role)| !#[trigger]
                        is_personal_of(v, user@.id, row) by {
                        if is_personal_of(v, user@.id, row) {
                            assert(org_views(orgs@).contains(row));
                            let i = choose|i: int|
                                0 <= i < org_views(orgs@).len() && org_views(orgs@)[i] == row;
                            assert(orgs@[i].0@ == row.0);
                        }
                    }
                }
                Err(RpcError::new(RpcCode::Internal, "personal org missing for user"))
            },
            Some(i) => {
                let org: Organization = orgs[i].0.clone();
                let role: Role = orgs[i].1;
                proof {
                    assert(org_views(orgs@)[i as int] == (org@, role));
                    assert(org_views(orgs@).contains((org@, role)));
                    assert(is_personal_of(v, user@.id, (org@, role)));
                    assert forall|other: (OrganizationView, Role)| #[trigger]
                        is_personal_of(v, user@.id, other) implies text_le(org@.id, other.0.id) by {
                        assert(org_views(orgs@).contains(other));
                        let j = choose|j: int|
                            0 <= j < org_views(orgs@).len() && org_views(orgs@)[j] == other;
                        assert(orgs@[j].0@ == other.0);
                        if j == i {
                            lemma_text_reflexive(org@.id);
                        } else {
                            assert(i < j);
                            assert(crate::shared::table::Ranked::le(&orgs@[i as int], &orgs@[j]));
                        }
                    }
                    assert(is_home(v, user@.id, (org@, role)));
                }
                let minted: Result<String, crate::worker::auth::tokens::TokenError> = mint_session(
                    &self.state.keyring,
                    MintSessionInput {
                        user_id: &user.id,
                        email: user.email.as_str(),
                        org: &org.id,
                        role,
                        now_unix,
                        ttl_seconds: self.state.config.session_ttl_seconds,
                    },
                );
                match minted {
                    Ok(token) => Ok((token, org, role)),
                    Err(e) => {
                        let err: RpcError = map_token_error(e);
                        proof {
                            assert(home_too_large(
                                v,
                                user@,
                                (org@, role),
                                session_expiry(self.state.config@, now_unix),
                                err@,
                            ));
                        }
                        Err(err)
                    },
                }
            },
        }
    }

    /// A session for a user, as a reply.
    fn session_response(&self, user: &User, now_unix: i64, with_whoami: bool) -> (r: Result<
        AuthResponse,
        RpcError,
    >)
        requires
            self.state.valid(),
            -9223372036854775 <= now_unix <= 9223372036854775,
        ensures
            session_reply(
                self.state.repo.stored(),
                self.state.repo.reliable(),
                self.state.keyring@,
                user@,
                session_expiry(self.state.config@, now_unix),
                with_whoami,
                rpc_result(r),
            ),
    {
        match self.issue_session_for(user, now_unix) {
            Ok((token, org, role)) => {
                let whoami: Option<WhoamiInfo> = if with_whoami {
                    Some(whoami_info(user, &org, role))
                } else {
                    None
                };
                let resp: AuthResponse = AuthResponse { session_token: token, whoami };
                proof {
                    assert(is_session_of(
                        self.state.repo.stored(),
                        self.state.keyring@,
                        user@,
                        org@,
                        role,
                        session_expiry(self.state.config@, now_unix),
                        resp@.session_token,
                    ));
                }
                Ok(resp)
            },
            Err(e) => Err(e),
        }
    }

    /// Who a session speaks for, as long as they and the organization exist.
    pub fn whoami(&self, session: Option<SessionContext>) -> (r: Result<WhoamiInfo, RpcError>)
        requires
            self.state.valid(),
        ensures
            match session_view(session) {
                None => r matches Err(e) && e@ == no_session(),
                Some(s) => whoami_outcome(
                    self.state.repo.stored(),
                    self.state.repo.reliable(),
                    s,
                    r,
                ),
            },
    {
        let session: SessionContext = match require_session(session) {
            Ok(s) => s,
            Err(e) => {
                return Err(e);
            },
        };
        let user: User = match self.state.repo.get_user(&session.user) {
            Ok(Some(u)) => u,
            Ok(None) => {
                return Err(
                    RpcError::new(RpcCode::Unauthenticated, "session user no longer exists"),
                );
            },
            Err(e) => {
                return Err(map_store_error(e));
            },
        };
        let org: Organization = match self.state.repo.get_organization(&session.org) {
            Ok(Some(o)) => o,
            Ok(None) => {
                return Err(
                    RpcError::new(RpcCode::FailedPrecondition, "session org no longer exists"),
                );
            },
            Err(e) => {
                return Err(map_store_error(e));
            },
        };
        Ok(whoami_info(&user, &org, session.role))
    }

    /// The rest of signing up, once the email passed and the password was
    /// hashed.
    pub fn signup_with_hash(
        &mut self,
        email: &str,
        password_hash: String,
        now_ms: i64,
        now_unix: i64,
    ) -> (r: Result<AuthResponse, RpcError>)
        requires
            old(self).state.valid(),
            -9223372036854775 <= now_unix <= 9223372036854775,
        ensures
            final(self).state.valid(),
            old(self).state.same_but_repo(&final(self).state),
            signup_outcome(
                old(self).state.repo.stored(),
                final(self).state.repo.stored(),
                old(self).state.repo.reliable(),
                old(self).state.keyring@,
                email@,
                password_hash@,
                now_ms,
                session_expiry(old(self).state.config@, now_unix),
                rpc_result(r),
            ),
    {
        let ghost hash = password_hash@;
        let created = self.state.repo.create_password_user(
            NewPasswordUser { email: email.to_owned(), password_hash },
            now_ms,
        );
        match created {
            Ok(user) => {
                let r: Result<AuthResponse, RpcError> = self.session_response(
                    &user,
                    now_unix,
                    true,
                );
                proof {
                    let was = old(self).state.repo.stored();
                    let now = self.state.repo.stored();
                    let ids = choose|ids: SignupIds| #[trigger]
                        with_password_user(was, ids, email@, hash, now_ms) == now && ids.user
                            == user@.id && are_drawn(ids);
                    assert(with_password_user(was, ids, email@, hash, now_ms) == now);
                    assert(now.users[ids.user] == user@);
                }
                r
            },
            Err(e) => Err(map_store_error(e)),
        }
    }

    /// Signs a user up with a password and opens a session for them.
    pub fn signup(&mut self, email: &str, password: &str) -> (r: Result<AuthResponse, RpcError>)
        requires
            old(self).state.valid(),
        ensures
            final(self).state.valid(),
            old(self).state.same_but_repo(&final(self).state),
            match email_fault(email@) {
                Some(due) => r matches Err(e) && e@ == due && final(self).state.repo.stored()
                    == old(self).state.repo.stored(),
                None => {
                    ||| {
                        &&& final(self).state.repo.stored() == old(self).state.repo.stored()
                        &&& r matches Err(e) && if password@.len() < MIN_PASSWORD_LEN {
                            e@ == password_rpc_error(
                                PasswordError::TooShort(password@.len() as usize),
                            )
                        } else {
                            e@.code == RpcCode::Internal
                        }
                    }
                    ||| {
                        &&& password@.len() >= MIN_PASSWORD_LEN
                        &&& exists|hash: Seq<char>, now_ms: i64, now_unix: i64|
                            old(self).state.clock.shows(now_ms) && shows_second(
                                old(self).state.clock,
                                now_unix,
                            ) && #[trigger] signup_outcome(
                                old(self).state.repo.stored(),
                                final(self).state.repo.stored(),
                                old(self).state.repo.reliable(),
                                old(self).state.keyring@,
                                email@,
                                hash,
                                now_ms,
                                session_expiry(old(self).state.config@, now_unix),
                                rpc_result(r),
                            ) && accepts_password(hash, password@)
                    }
                },
            },
    {
        match validate_email(email) {
            Ok(()) => {},
            Err(e) => {
                return Err(e);
            },
        }
        let now_ms: i64 = self.state.clock.now_ms();
        let hash: String = match hash_new_password(password) {
            Ok(h) => h,
            Err(e) => {
                return Err(map_password_error(e));
            },
        };
        let now_unix: i64 = self.state.clock.now_unix_seconds();
        let ghost h = hash@;
        assert(shows_second(self.state.clock, now_unix));
        let r: Result<AuthResponse, RpcError> = self.signup_with_hash(
            email,
            hash,
            now_ms,
            now_unix,
        );
        proof {
            assert(signup_outcome(
                old(self).state.repo.stored(),
                self.state.repo.stored(),
                old(self).state.repo.reliable(),
                old(self).state.keyring@,
                email@,
                h,
                now_ms,
                session_expiry(old(self).state.config@, now_unix),
                rpc_result(r),
            ));
        }
        r
    }

    /// The first password identity among a user's identities.
    fn password_identity(identities: &Vec<Identity>) -> (r: Option<Identity>)
        ensures
            match r {
                Some(i) => i@.provider == "password"@ && identity_views(identities@).contains(i@),
                None => forall|j: int|
                    0 <= j < identities@.len() ==> (#[trigger] identities@[j])@.provider
                        != "password"@,
            },
    {
        let mut i: usize = 0;
        while i < identities.len()
            invariant
                i <= identities.len(),
                forall|j: int| 0 <= j < i ==> (#[trigger] identities@[j])@.provider != "password"@,
            decreases identities.len() - i,
        {
            if str_eq(identities[i].provider.as_str(), IdentityProvider::Password.as_str()) {
                let found: Identity = identities[i].clone();
                assert(identity_views(identities@)[i as int] == found@);
                return Some(found);
            }
            i = i + 1;
        }
        None
    }

    /// Logging in at a given time.
    pub fn login_at(&self, email: &str, password: &str, now_unix: i64) -> (r: Result<
        AuthResponse,
        RpcError,
    >)
        requires
            self.state.valid(),
            -9223372036854775 <= now_unix <= 9223372036854775,
        ensures
            login_outcome(
                self.state.repo.stored(),
                self.state.repo.reliable(),
                self.state.keyring@,
                email@,
                password@,
                session_expiry(self.state.config@, now_unix),
                rpc_result(r),
            ),
    {
        let ghost v = self.state.repo.stored();
        let ghost reliable = self.state.repo.reliable();
        let ghost key = self.state.keyring@;
        let ghost exp = session_expiry(self.state.config@, now_unix);
        proof {
            self.state.repo.lemma_keyed();
        }
        let user: User = match self.state.repo.get_user_by_email(email) {
            Ok(Some(u)) => u,
            Ok(None) => {
                return Err(RpcError::new(RpcCode::Unauthenticated, "invalid credentials"));
            },
            Err(e) => {
                return Err(map_store_error(e));
            },
        };
        let identities: Vec<Identity> = match self.state.repo.list_identities(&user.id) {
            Ok(found) => found,
            Err(e) => {
                return Err(map_store_error(e));
            },
        };
        let identity: Identity = match Self::password_identity(&identities) {
            Some(i) => i,
            None => {
                let r: Result<AuthResponse, RpcError> = Err(
                    RpcError::new(RpcCode::Unauthenticated, "invalid credentials"),
                );
                proof {
                    assert forall|id: Seq<char>| !#[trigger] is_password_of(v, user@.id, id) by {
                        if is_password_of(v, user@.id, id) {
                            let i = v.identities[id];
                            assert(identity_views(identities@).contains(i));
                            let j = choose|j: int|
                                0 <= j < identity_views(identities@).len() && identity_views(
                                    identities@,
                                )[j] == i;
                            assert(identities@[j]@ == i);
                        }
                    }
                    assert(login_as(
                        v,
                        reliable,
                        key,
                        user@.id,
                        email@,
                        password@,
                        exp,
                        rpc_result(r),
                    ));
                }
                return r;
            },
        };
        assert(is_password_of(v, user@.id, identity@.id));
        let r: Result<AuthResponse, RpcError> = match &identity.secret {
            None => Err(RpcError::new(RpcCode::Internal, "password identity missing secret")),
            Some(stored) => match verify_password(stored.as_str(), password) {
                Ok(()) => self.session_response(&user, now_unix, true),
                Err(e) => Err(map_password_error(e)),
            },
        };
        proof {
            assert(login_through(
                v,
                reliable,
                key,
                user@.id,
                identity@.id,
                password@,
                exp,
                rpc_result(r),
            ));
            assert(login_as(v, reliable, key, user@.id, email@, password@, exp, rpc_result(r)));
        }
        r
    }

    /// Opens a session for a user who proves their password.
    pub fn login(&self, email: &str, password: &str) -> (r: Result<AuthResponse, RpcError>)
        requires
            self.state.valid(),
        ensures
            exists|now_unix: i64| #[trigger]
                shows_second(self.state.clock, now_unix) && login_outcome(
                    self.state.repo.stored(),
                    self.state.repo.reliable(),
                    self.state.keyring@,
                    email@,
                    password@,
                    session_expiry(self.state.config@, now_unix),
                    rpc_result(r),
                ),
    {
        let now_unix: i64 = self.state.clock.now_unix_seconds();
        assert(shows_second(self.state.clock, now_unix));
        let r: Result<AuthResponse, RpcError> = self.login_at(email, password, now_unix);
        proof {
            assert(login_outcome(
                self.state.repo.stored(),
                self.state.repo.reliable(),
                self.state.keyring@,
                email@,
                password@,
                session_expiry(self.state.config@, now_unix),
                rpc_result(r),
            ));
        }
        r
    }

    // ----- OAuth -----

    /// The client id and the redirect URI of a round trip that may start.
    fn oauth_route(&self, provider: &str) -> (r: Result<(String, String), RpcError>)
        ensures
            fails_as(r, start_due(self.state.config@, provider@)),
            r matches Ok((id, uri)) ==> credentials(self.state.config@) matches Some(c) && c.0
                == id@ && uri@ == redirect_uri(self.state.config@, "github"@),
    {
        let parsed: IdentityProvider = match IdentityProvider::from_str(provider) {
            Ok(p) => p,
            Err(_) => {
                return Err(
                    RpcError {
                        code: RpcCode::InvalidArgument,
                        message: join3("unknown oauth provider `", provider, "`"),
                    },
                );
            },
        };
        if parsed != IdentityProvider::GitHub {
            return Err(unsupported(parsed));
        }
        match github_credentials(&self.state.config) {
            None => Err(
                RpcError::new(
                    RpcCode::Unimplemented,
                    "github oauth not configured on this deployment",
                ),
            ),
            Some((client_id, _)) => {
                match oauth_redirect_uri(&self.state.config, parsed.as_str()) {
                    Ok(uri) => Ok((client_id.to_owned(), uri)),
                    Err(e) => Err(e),
                }
            },
        }
    }

    /// Starting an OAuth round trip with a given state at a given time.
    pub fn start_o_auth_with(&mut self, provider: &str, state: String, now_ms: i64) -> (r: Result<
        StartOAuthResponse,
        RpcError,
    >)
        requires
            old(self).state.valid(),
        ensures
            final(self).state.valid(),
            old(self).state.same_but_repo(&final(self).state),
            start_outcome(
                old(self).state.repo.stored(),
                final(self).state.repo.stored(),
                old(self).state.repo.reliable(),
                old(self).state.config@,
                provider@,
                state@,
                now_ms,
                r,
            ),
    {
        let (client_id, uri): (String, String) = match self.oauth_route(provider) {
            Ok(route) => route,
            Err(e) => {
                return Err(e);
            },
        };
        let ttl_ms: i64 = to_millis(self.state.config.oauth_state_ttl_seconds);
        let row: OAuthState = OAuthState {
            state: state.clone(),
            provider: IdentityProvider::GitHub.as_str().to_owned(),
            created_at_ms: now_ms,
            expires_at_ms: now_ms.wrapping_add(ttl_ms),
        };
        assert(row@ == started_state(self.state.config@, state@, now_ms));
        match self.state.repo.store_oauth_state(row) {
            Ok(()) => {},
            Err(e) => {
                return Err(map_store_error(e));
            },
        }
        let redirect_url: String = github_authorize_url(
            client_id.as_str(),
            uri.as_str(),
            state.as_str(),
        );
        Ok(StartOAuthResponse { redirect_url, state })
    }

    /// Starts an OAuth round trip: stores a fresh CSRF state and says where to
    /// send the user.
    pub fn start_o_auth(&mut self, provider: &str) -> (r: Result<StartOAuthResponse, RpcError>)
        requires
            old(self).state.valid(),
        ensures
            final(self).state.valid(),
            old(self).state.same_but_repo(&final(self).state),
            match start_due(old(self).state.config@, provider@) {
                Some(due) => r matches Err(e) && e@ == due,
                None => r matches Err(e) ==> e@.code == RpcCode::Internal,
            },
            match r {
                Ok(resp) => {
                    let config = old(self).state.config@;
                    &&& credentials(config) matches Some(c) && resp.redirect_url@ == authorize_url(
                        c.0,
                        redirect_uri(config, "github"@),
                        resp.state@,
                    )
                    &&& is_hex_id(resp.state@)
                    &&& exists|now_ms: i64| #[trigger]
                        old(self).state.clock.shows(now_ms) && final(self).state.repo.stored()
                            == with_state(
                            old(self).state.repo.stored(),
                            started_state(config, resp.state@, now_ms),
                        )
                },
                Err(_) => final(self).state.repo.stored() == old(self).state.repo.stored(),
            },
    {
        match self.oauth_route(provider) {
            Ok(_) => {},
            Err(e) => {
                return Err(e);
            },
        }
        let state: String = match random_hex() {
            Ok(s) => s,
            Err(e) => {
                return Err(RpcError { code: RpcCode::Internal, message: e });
            },
        };
        let now_ms: i64 = self.state.clock.now_ms();
        self.start_o_auth_with(provider, state, now_ms)
    }

    /// Redeems a state that came back from the provider: it is consumed, and
    /// the redirect URI that the code must be exchanged under is given.
    pub fn redeem_o_auth_state(&mut self, state: &str, now_ms: i64) -> (r: Result<String, RpcError>)
        requires
            old(self).state.valid(),
        ensures
            final(self).state.valid(),
            old(self).state.same_but_repo(&final(self).state),
            redeem_outcome(
                old(self).state.repo.stored(),
                final(self).state.repo.stored(),
                old(self).state.repo.reliable(),
                old(self).state.config@,
                state@,
                now_ms,
                r,
            ),
    {
        let stored: OAuthState = match self.state.repo.consume_oauth_state(state, now_ms) {
            Ok(Some(s)) => s,
            Ok(None) => {
                return Err(
                    RpcError::new(RpcCode::PermissionDenied, "invalid or expired oauth state"),
                );
            },
            Err(e) => {
                return Err(map_store_error(e));
            },
        };
        let provider: IdentityProvider = match IdentityProvider::from_str(
            stored.provider.as_str(),
        ) {
            Ok(p) => p,
            Err(_) => {
                return Err(
                    RpcError {
                        code: RpcCode::Internal,
                        message: join3(
                            "stored oauth state has unknown provider `",
                            stored.provider.as_str(),
                            "`",
                        ),
                    },
                );
            },
        };
        if provider != IdentityProvider::GitHub {
            return Err(unsupported(provider));
        }
        if github_credentials(&self.state.config).is_none() {
            return Err(
                RpcError::new(
                    RpcCode::Unimplemented,
                    "github oauth not configured on this deployment",
                ),
            );
        }
        oauth_redirect_uri(&self.state.config, provider.as_str())
    }

    /// Completes an OAuth round trip with the identity that the provider gave:
    /// opens a session for the user that it is linked to, or signs a user up.
    pub fn complete_o_auth(
        &mut self,
        identity: OAuthIdentity,
        now_ms: i64,
        now_unix: i64,
    ) -> (r: Result<AuthResponse, RpcError>)
        requires
            old(self).state.valid(),
            -9223372036854775 <= now_unix <= 9223372036854775,
        ensures
            final(self).state.valid(),
            old(self).state.same_but_repo(&final(self).state),
            oauth_outcome(
                old(self).state.repo.stored(),
                final(self).state.repo.stored(),
                old(self).state.repo.reliable(),
                old(self).state.keyring@,
                identity@,
                now_ms,
                session_expiry(old(self).state.config@, now_unix),
                rpc_result(r),
            ),
    {
        let ghost was = self.state.repo.stored();
        let ghost reliable = self.state.repo.reliable();
        let ghost key = self.state.keyring@;
        let ghost exp = session_expiry(self.state.config@, now_unix);
        let existing = self.state.repo.find_identity(
            identity.provider.as_str(),
            identity.provider_user_id.as_str(),
        );
        match existing {
            Err(e) => Err(map_store_error(e)),
            Ok(Some(linked)) => {
                let r: Result<AuthResponse, RpcError> = match self.state.repo.get_user(
                    &linked.user_id,
                ) {
                    Ok(Some(user)) => self.session_response(&user, now_unix, false),
                    Ok(None) => Err(
                        RpcError::new(RpcCode::Internal, "oauth identity points at missing user"),
                    ),
                    Err(e) => {
                        return Err(map_store_error(e));
                    },
                };
                proof {
                    assert(linked_reply(
                        was,
                        reliable,
                        key,
                        identity@,
                        linked@.id,
                        exp,
                        rpc_result(r),
                    ));
                }
                r
            },
            Ok(None) => {
                let ghost i = identity@;
                let created = self.state.repo.create_oauth_user(
                    NewOAuthUser {
                        email: identity.email,
                        provider: identity.provider.as_str().to_owned(),
                        provider_user_id: identity.provider_user_id,
                    },
                    now_ms,
                );
                match created {
                    Ok(user) => {
                        let r: Result<AuthResponse, RpcError> = self.session_response(
                            &user,
                            now_unix,
                            false,
                        );
                        proof {
                            let now = self.state.repo.stored();
                            let ids = choose|ids: SignupIds| #[trigger]
                                with_oauth_user(
                                    was,
                                    ids,
                                    i.email,
                                    i.provider.text(),
                                    i.provider_user_id,
                                    now_ms,
                                ) == now && ids.user == user@.id && are_drawn(ids);
                            assert(with_oauth_user(
                                was,
                                ids,
                                i.email,
                                i.provider.text(),
                                i.provider_user_id,
                                now_ms,
                            ) == now);
                            assert(now.users[ids.user] == user@);
                        }
                        r
                    },
                    Err(e) => Err(map_store_error(e)),
                }
            },
        }
    }

    // ----- databases -----

    /// Creating a database at a given time.
    pub fn create_database_at(
        &mut self,
        session: Option<SessionContext>,
        name: &str,
        now_ms: i64,
    ) -> (r: Result<DatabaseInfo, RpcError>)
        requires
            old(self).state.valid(),
        ensures
            final(self).state.valid(),
            old(self).state.same_but_repo(&final(self).state),
            match session_view(session) {
                None => r matches Err(e) && e@ == no_session() && final(self).state.repo.stored()
                    == old(self).state.repo.stored(),
                Some(s) => create_outcome(
                    old(self).state.repo.stored(),
                    final(self).state.repo.stored(),
                    old(self).state.repo.reliable(),
                    s,
                    name@,
                    now_ms,
                    r,
                ),
            },
    {
        let session: SessionContext = match require_session(session) {
            Ok(s) => s,
            Err(e) => {
                return Err(e);
            },
        };
        if session.role != Role::Admin {
            return Err(
                RpcError::new(
                    RpcCode::PermissionDenied,
                    "admin role required to create a database",
                ),
            );
        }
        match validate_database_name(name) {
            Ok(()) => {},
            Err(e) => {
                return Err(e);
            },
        }
        let created = self.state.repo.create_database(
            session.org.clone(),
            trim(name),
            session.user.clone(),
            now_ms,
        );
        match created {
            Ok(db) => Ok(database_info_of(&db)),
            Err(e) => Err(map_store_error(e)),
        }
    }

    /// Creates a database in the session's organization; admins only.
    pub fn create_database(&mut self, session: Option<SessionContext>, name: &str) -> (r: Result<
        DatabaseInfo,
        RpcError,
    >)
        requires
            old(self).state.valid(),
        ensures
            final(self).state.valid(),
            old(self).state.same_but_repo(&final(self).state),
            match session_view(session) {
                None => r matches Err(e) && e@ == no_session() && final(self).state.repo.stored()
                    == old(self).state.repo.stored(),
                Some(s) => exists|now_ms: i64| #[trigger]
                    old(self).state.clock.shows(now_ms) && create_outcome(
                        old(self).state.repo.stored(),
                        final(self).state.repo.stored(),
                        old(self).state.repo.reliable(),
                        s,
                        name@,
                        now_ms,
                        r,
                    ),
            },
    {
        let now_ms: i64 = self.state.clock.now_ms();
        self.create_database_at(session, name, now_ms)
    }

    /// The databases of the session's organization, oldest first.
    pub fn list_databases(&self, session: Option<SessionContext>) -> (r: Result<
        Vec<DatabaseInfo>,
        RpcError,
    >)
        requires
            self.state.valid(),
        ensures
            match session_view(session) {
                None => r matches Err(e) && e@ == no_session(),
                Some(s) => list_outcome(
                    self.state.repo.stored(),
                    self.state.repo.reliable(),
                    s,
                    r,
                ),
            },
    {
        let session: SessionContext = match require_session(session) {
            Ok(s) => s,
            Err(e) => {
                return Err(e);
            },
        };
        let dbs: Vec<Database> = match self.state.repo.list_databases_for_org(&session.org) {
            Ok(dbs) => dbs,
            Err(e) => {
                return Err(map_store_error(e));
            },
        };
        let ghost rows = database_views(dbs@);
        proof {
            assert forall|i: int, j: int|
                #![trigger rows[i], rows[j]]
                0 <= i < j < rows.len() implies rows[i].created_at_ms <= rows[j].created_at_ms by {
                assert(crate::shared::table::Ranked::le(&dbs@[i], &dbs@[j]));
            }
            assert(is_listing(self.state.repo.stored(), session@.org, rows));
        }
        let mut out: Vec<DatabaseInfo> = Vec::new();
        let mut i: usize = 0;
        while i < dbs.len()
            invariant
                i <= dbs.len(),
                rows == database_views(dbs@),
                info_views(out@) == infos(rows.take(i as int)),
            decreases dbs.len() - i,
        {
            let ghost before = out@;
            out.push(database_info_of(&dbs[i]));
            proof {
                assert(info_views(out@) =~= info_views(before).push(
                    database_info(rows[i as int]),
                ));
                assert(infos(rows.take(i + 1)) =~= infos(rows.take(i as int)).push(
                    database_info(rows[i as int]),
                ));
            }
            i = i + 1;
        }
        assert(rows.take(i as int) =~= rows);
        Ok(out)
    }

    /// The database of the session's organization under an id.
    fn own_database(&self, session: &SessionContext, id: &DatabaseId) -> (r: Result<
        Database,
        RpcError,
    >)
        requires
            self.state.valid(),
        ensures
            answers(
                r,
                access_due(self.state.repo.stored(), session@, id@),
                self.state.repo.reliable(),
            ),
            r matches Ok(db) ==> db@ == self.state.repo.stored().databases[id@],
    {
        let db: Database = match self.state.repo.get_database(id) {
            Ok(Some(db)) => db,
            Ok(None) => {
                return Err(RpcError::new(RpcCode::NotFound, "database not found"));
            },
            Err(e) => {
                return Err(map_store_error(e));
            },
        };
        if db.org_id != session.org {
            return Err(
                RpcError::new(
                    RpcCode::PermissionDenied,
                    "database belongs to another organization",
                ),
            );
        }
        Ok(db)
    }

    /// Deletes a database of the session's organization; admins only.
    pub fn delete_database(&mut self, session: Option<SessionContext>, database_id: &str) -> (r:
        Result<(), RpcError>)
        requires
            old(self).state.valid(),
        ensures
            final(self).state.valid(),
            old(self).state.same_but_repo(&final(self).state),
            match session_view(session) {
                None => r matches Err(e) && e@ == no_session() && final(self).state.repo.stored()
                    == old(self).state.repo.stored(),
                Some(s) => delete_outcome(
                    old(self).state.repo.stored(),
                    final(self).state.repo.stored(),
                    old(self).state.repo.reliable(),
                    s,
                    database_id@,
                    r,
                ),
            },
    {
        let session: SessionContext = match require_session(session) {
            Ok(s) => s,
            Err(e) => {
                return Err(e);
            },
        };
        if session.role != Role::Admin {
            return Err(
                RpcError::new(
                    RpcCode::PermissionDenied,
                    "admin role required to delete a database",
                ),
            );
        }
        let id: DatabaseId = DatabaseId::from(database_id);
        match self.own_database(&session, &id) {
            Ok(_) => {},
            Err(e) => {
                return Err(e);
            },
        }
        match self.state.repo.delete_database(&id) {
            Ok(()) => Ok(()),
            Err(e) => Err(map_store_error(e)),
        }
    }

    // ----- sync tokens -----

    /// The lifetime of a sync token: what was asked for, or the default where
    /// nothing was, and no more than the cap.
    pub fn sync_ttl(&self, requested: i64) -> (r: i64)
        ensures
            r == granted_ttl(self.state.config@, requested),
    {
        let wanted: i64 = if requested <= 0 {
            self.state.config.sync_token_ttl_seconds
        } else {
            requested
        };
        if wanted <= self.state.config.max_sync_token_ttl_seconds {
            wanted
        } else {
            self.state.config.max_sync_token_ttl_seconds
        }
    }

    /// Issuing a sync token at a given time.
    pub fn issue_sync_token_at(
        &self,
        session: Option<SessionContext>,
        database_id: &str,
        direction: Option<Direction>,
        ttl_seconds: i64,
        now_unix: i64,
    ) -> (r: Result<IssueSyncTokenResponse, RpcError>)
        requires
            self.state.valid(),
            -9223372036854775 <= now_unix <= 9223372036854775,
        ensures
            match session_view(session) {
                None => r matches Err(e) && e@ == no_session(),
                Some(s) => issue_sync_outcome(
                    self.state.repo.stored(),
                    self.state.repo.reliable(),
                    self.state.keyring@,
                    s,
                    database_id@,
                    direction,
                    sync_expiry(self.state.config@, ttl_seconds, now_unix),
                    r,
                ),
            },
    {
        let session: SessionContext = match require_session(session) {
            Ok(s) => s,
            Err(e) => {
                return Err(e);
            },
        };
        let id: DatabaseId = DatabaseId::from(database_id);
        let db: Database = match self.own_database(&session, &id) {
            Ok(db) => db,
            Err(e) => {
                return Err(e);
            },
        };
        let direction: Direction = match direction {
            Some(d) => d,
            None => {
                return Err(
                    RpcError::new(
                        RpcCode::InvalidArgument,
                        "direction must be DIRECTION_PUSH or DIRECTION_PULL",
                    ),
                );
            },
        };
        proof {
            self.state.repo.lemma_keyed();
            assert(self.state.repo.stored().databases[id@].id == id@);
        }
        let ttl: i64 = self.sync_ttl(ttl_seconds);
        let minted = mint_sync(
            &self.state.keyring,
            MintSyncInput {
                user_id: &session.user,
                org: &session.org,
                database: &db.id,
                direction,
                now_unix,
                ttl_seconds: ttl,
            },
        );
        match minted {
            Ok(token) => Ok(IssueSyncTokenResponse { token, exp_unix: now_unix + ttl }),
            Err(e) => Err(map_token_error(e)),
        }
    }

    /// Issues a sync token for a database of the session's organization.
    pub fn issue_sync_token(
        &self,
        session: Option<SessionContext>,
        database_id: &str,
        direction: Option<Direction>,
        ttl_seconds: i64,
    ) -> (r: Result<IssueSyncTokenResponse, RpcError>)
        requires
            self.state.valid(),
        ensures
            match session_view(session) {
                None => r matches Err(e) && e@ == no_session(),
                Some(s) => exists|now_unix: i64| #[trigger]
                    shows_second(self.state.clock, now_unix) && issue_sync_outcome(
                        self.state.repo.stored(),
                        self.state.repo.reliable(),
                        self.state.keyring@,
                        s,
                        database_id@,
                        direction,
                        sync_expiry(self.state.config@, ttl_seconds, now_unix),
                        r,
                    ),
            },
    {
        let now_unix: i64 = self.state.clock.now_unix_seconds();
        assert(shows_second(self.state.clock, now_unix));
        self.issue_sync_token_at(session, database_id, direction, ttl_seconds, now_unix)
    }
}

proof fn lemma_text_reflexive(a: Seq<char>)
    ensures
        text_le(a, a),
    decreases a.len(),
{
    if a.len() > 0 {
        lemma_text_reflexive(a.skip(1));
    }
}

} // verus!
