//! The single `Repo` trait that backs every domain operation.
//!
//! High-level "do everything" methods exist for the multi-row state changes
//! that need to be atomic in production: `create_password_user` bundles
//! user + identity + personal org + admin membership creation, etc.

use vstd::prelude::*;

use super::domain::entities::{
    Database, DatabaseView, Identity, IdentityView, OAuthState, OAuthStateView, OrgMembership,
    OrgMembershipView, Organization, OrganizationView, User, UserView, opt_chars,
};
use super::domain::enums::Role;
use super::domain::ids::{is_hex_id, DatabaseId, IdentityId, OrgId, UserId};
use super::error::{StoreErrorView, StoreResult};
use super::table::{in_order, text_le, Ranked};
use crate::text::lowercase_text;

verus! {

/// A user who signs up with a password.
#[derive(Debug, PartialEq, Eq)]
pub struct NewPasswordUser {
    pub email: String,
    pub password_hash: String,
}

/// A user who signs up through an identity provider.
#[derive(Debug, PartialEq, Eq)]
pub struct NewOAuthUser {
    pub email: String,
    /// `github` or `google`.
    pub provider: String,
    /// IdP-issued user id (`sub`).
    pub provider_user_id: String,
}

pub type OrgWithRole = (Organization, Role);

pub type OrgMemberRow = (OrgMembership, User);

// ---------- the model ----------

/// Everything that is stored. Memberships are found by user and organization.
#[verifier::ext_equal]
pub struct RepoView {
    pub users: Map<Seq<char>, UserView>,
    pub identities: Map<Seq<char>, IdentityView>,
    pub organizations: Map<Seq<char>, OrganizationView>,
    pub memberships: Map<(Seq<char>, Seq<char>), OrgMembershipView>,
    pub databases: Map<Seq<char>, DatabaseView>,
    pub oauth_states: Map<Seq<char>, OAuthStateView>,
}

pub open spec fn empty_repo() -> RepoView {
    RepoView {
        users: Map::empty(),
        identities: Map::empty(),
        organizations: Map::empty(),
        memberships: Map::empty(),
        databases: Map::empty(),
        oauth_states: Map::empty(),
    }
}

/// Whether the user under `id` has this email, but for case.
pub open spec fn has_email(v: RepoView, id: Seq<char>, email: Seq<char>) -> bool {
    v.users.contains_key(id) && lowercase_text(v.users[id].email) == lowercase_text(email)
}

/// Whether any user has this email, but for case.
pub open spec fn email_taken(v: RepoView, email: Seq<char>) -> bool {
    exists|id: Seq<char>| has_email(v, id, email)
}

/// Whether the identity under `id` is the one of a provider's user.
pub open spec fn is_identity(
    v: RepoView,
    id: Seq<char>,
    provider: Seq<char>,
    provider_user_id: Seq<char>,
) -> bool {
    v.identities.contains_key(id) && v.identities[id].provider == provider
        && v.identities[id].provider_user_id == provider_user_id
}

/// Whether a provider's user is linked to anyone.
pub open spec fn identity_linked(
    v: RepoView,
    provider: Seq<char>,
    provider_user_id: Seq<char>,
) -> bool {
    exists|id: Seq<char>| is_identity(v, id, provider, provider_user_id)
}

/// The ids that signing up draws.
pub struct SignupIds {
    pub user: Seq<char>,
    pub identity: Seq<char>,
    pub org: Seq<char>,
}

/// Signing up: the user, their identity, a personal organization that they
/// own, and their admin membership of it.
pub open spec fn signed_up(
    v: RepoView,
    ids: SignupIds,
    email: Seq<char>,
    email_verified: bool,
    provider: Seq<char>,
    provider_user_id: Seq<char>,
    secret: Option<Seq<char>>,
    now_ms: i64,
) -> RepoView {
    RepoView {
        users: v.users.insert(
            ids.user,
            UserView { id: ids.user, email, email_verified, created_at_ms: now_ms },
        ),
        identities: v.identities.insert(
            ids.identity,
            IdentityView {
                id: ids.identity,
                user_id: ids.user,
                provider,
                provider_user_id,
                secret,
                created_at_ms: now_ms,
            },
        ),
        organizations: v.organizations.insert(
            ids.org,
            OrganizationView {
                id: ids.org,
                display_name: email + " (personal)"@,
                personal: true,
                owner_user_id: Some(ids.user),
                created_at_ms: now_ms,
            },
        ),
        memberships: v.memberships.insert(
            (ids.user, ids.org),
            OrgMembershipView {
                user_id: ids.user,
                org_id: ids.org,
                role: Role::Admin,
                created_at_ms: now_ms,
            },
        ),
        ..v
    }
}

/// Signing up with a password: the identity's id at the provider is the
/// user's own.
pub open spec fn with_password_user(
    v: RepoView,
    ids: SignupIds,
    email: Seq<char>,
    hash: Seq<char>,
    now_ms: i64,
) -> RepoView {
    signed_up(v, ids, email, false, "password"@, ids.user, Some(hash), now_ms)
}

/// Signing up through a provider, which has verified the email.
pub open spec fn with_oauth_user(
    v: RepoView,
    ids: SignupIds,
    email: Seq<char>,
    provider: Seq<char>,
    provider_user_id: Seq<char>,
    now_ms: i64,
) -> RepoView {
    signed_up(v, ids, email, true, provider, provider_user_id, None, now_ms)
}

/// A new organization with its owner as its admin.
pub open spec fn with_organization(
    v: RepoView,
    id: Seq<char>,
    display_name: Seq<char>,
    owner: Seq<char>,
    now_ms: i64,
) -> RepoView {
    RepoView {
        organizations: v.organizations.insert(
            id,
            OrganizationView {
                id,
                display_name,
                personal: false,
                owner_user_id: Some(owner),
                created_at_ms: now_ms,
            },
        ),
        memberships: v.memberships.insert(
            (owner, id),
            OrgMembershipView {
                user_id: owner,
                org_id: id,
                role: Role::Admin,
                created_at_ms: now_ms,
            },
        ),
        ..v
    }
}

/// Whether an organization has a database of this name.
pub open spec fn name_taken(v: RepoView, org: Seq<char>, name: Seq<char>) -> bool {
    exists|id: Seq<char>|
        #![trigger v.databases[id]]
        v.databases.contains_key(id) && v.databases[id].org_id == org && v.databases[id].name
            == name
}

/// Whether an organization has any database.
pub open spec fn has_databases(v: RepoView, org: Seq<char>) -> bool {
    exists|id: Seq<char>|
        #![trigger v.databases[id]]
        v.databases.contains_key(id) && v.databases[id].org_id == org
}

/// A new database.
pub open spec fn with_database(v: RepoView, d: DatabaseView) -> RepoView {
    RepoView { databases: v.databases.insert(d.id, d), ..v }
}

/// The organizations of a user, each with the user's role in it.
pub open spec fn is_org_of(v: RepoView, user: Seq<char>, row: (OrganizationView, Role)) -> bool {
    exists|org: Seq<char>|
        #![trigger v.memberships[(user, org)]]
        v.memberships.contains_key((user, org)) && v.organizations.contains_key(org) && row == (
            v.organizations[org],
            v.memberships[(user, org)].role,
        )
}

/// The members of an organization.
pub open spec fn is_member_of(
    v: RepoView,
    org: Seq<char>,
    row: (OrgMembershipView, UserView),
) -> bool {
    exists|user: Seq<char>|
        #![trigger v.memberships[(user, org)]]
        v.memberships.contains_key((user, org)) && v.users.contains_key(user) && row == (
            v.memberships[(user, org)],
            v.users[user],
        )
}

/// The admins of an organization.
pub open spec fn admins(v: RepoView, org: Seq<char>) -> Set<Seq<char>> {
    Set::new(
        |u: Seq<char>|
            v.memberships.contains_key((u, org)) && v.memberships[(u, org)].role == Role::Admin,
    )
}

/// Whether `user` is the one admin of an organization.
pub open spec fn is_last_admin(v: RepoView, user: Seq<char>, org: Seq<char>) -> bool {
    admins(v, org) =~= set![user]
}

/// Without an organization and its memberships.
pub open spec fn without_organization(v: RepoView, org: Seq<char>) -> RepoView {
    RepoView {
        organizations: v.organizations.remove(org),
        memberships: Map::new(
            |k: (Seq<char>, Seq<char>)| v.memberships.contains_key(k) && k.1 != org,
            |k: (Seq<char>, Seq<char>)| v.memberships[k],
        ),
        ..v
    }
}

/// Whether a row is a database of an organization.
pub open spec fn is_database_of(v: RepoView, org: Seq<char>, d: DatabaseView) -> bool {
    v.databases.contains_key(d.id) && v.databases[d.id] == d && d.org_id == org
}

/// The id of the identity that linking gave.
pub open spec fn link_id(r: StoreResult<Identity>) -> Seq<char> {
    match r {
        Ok(i) => i@.id,
        Err(_) => Seq::empty(),
    }
}

/// Whether the ids of a signup are of the form that is drawn.
pub open spec fn are_drawn(ids: SignupIds) -> bool {
    is_hex_id(ids.user) && is_hex_id(ids.identity) && is_hex_id(ids.org)
}

/// What linking comes to: the identity that is there where it is the user's
/// own, a conflict where it is another's, and otherwise a new identity under
/// the id `new_id`.
pub open spec fn link_outcome(
    was: RepoView,
    now: RepoView,
    new_id: Seq<char>,
    user: Seq<char>,
    provider: Seq<char>,
    provider_user_id: Seq<char>,
    secret: Option<Seq<char>>,
    now_ms: i64,
    r: StoreResult<Identity>,
    reliable: bool,
) -> bool {
    match r {
        Ok(i) => if identity_linked(was, provider, provider_user_id) {
            &&& is_identity(was, i@.id, provider, provider_user_id)
            &&& i@ == was.identities[i@.id]
            &&& i@.user_id == user
            &&& now == was
        } else {
            &&& i@ == (IdentityView {
                id: new_id,
                user_id: user,
                provider,
                provider_user_id,
                secret,
                created_at_ms: now_ms,
            })
            &&& now == (RepoView { identities: was.identities.insert(new_id, i@), ..was })
        },
        Err(e) => {
            &&& now == was
            &&& if e@ is Backend {
                !reliable || !identity_linked(was, provider, provider_user_id)
            } else {
                &&& e@ == StoreErrorView::Conflict(
                    "identity "@ + provider + ":"@ + provider_user_id + " belongs to another user"@,
                )
                &&& linked_elsewhere(was, user, provider, provider_user_id)
            }
        },
    }
}

/// Whether a provider's user is linked to another user than `user`.
pub open spec fn linked_elsewhere(
    v: RepoView,
    user: Seq<char>,
    provider: Seq<char>,
    provider_user_id: Seq<char>,
) -> bool {
    exists|id: Seq<char>| #[trigger]
        is_identity(v, id, provider, provider_user_id) && v.identities[id].user_id != user
}

/// Whether a list holds each row of a kind exactly once.
pub open spec fn lists<T>(out: Seq<T>, wanted: spec_fn(T) -> bool) -> bool {
    &&& out.no_duplicates()
    &&& forall|row: T| #![trigger out.contains(row)] out.contains(row) <==> wanted(row)
}

pub open spec fn identity_views(v: Seq<Identity>) -> Seq<IdentityView> {
    v.map_values(|i: Identity| i@)
}

pub open spec fn org_views(v: Seq<OrgWithRole>) -> Seq<(OrganizationView, Role)> {
    v.map_values(|p: OrgWithRole| (p.0@, p.1))
}

pub open spec fn member_views(v: Seq<OrgMemberRow>) -> Seq<(OrgMembershipView, UserView)> {
    v.map_values(|p: OrgMemberRow| (p.0@, p.1@))
}

pub open spec fn database_views(v: Seq<Database>) -> Seq<DatabaseView> {
    v.map_values(|d: Database| d@)
}

/// Who signs up under which email is refused.
pub open spec fn signup_refusal(v: RepoView, email: Seq<char>) -> Option<StoreErrorView> {
    if email_taken(v, email) {
        Some(StoreErrorView::AlreadyExists("user with email "@ + email))
    } else {
        None
    }
}

/// An identity that is not there keeps no secret.
pub open spec fn secret_refusal(v: RepoView, id: Seq<char>) -> Option<StoreErrorView> {
    if v.identities.contains_key(id) {
        None
    } else {
        Some(StoreErrorView::NotFound("identity "@ + id))
    }
}

/// With another secret of an identity.
pub open spec fn with_secret(v: RepoView, id: Seq<char>, secret: Seq<char>) -> RepoView {
    RepoView {
        identities: v.identities.insert(
            id,
            IdentityView { secret: Some(secret), ..v.identities[id] },
        ),
        ..v
    }
}

/// An organization needs an owner who is there.
pub open spec fn owner_refusal(v: RepoView, owner: Seq<char>) -> Option<StoreErrorView> {
    if v.users.contains_key(owner) {
        None
    } else {
        Some(StoreErrorView::NotFound("user "@ + owner))
    }
}

/// A personal organization, and one that still has databases, stays.
pub open spec fn org_removal_refusal(v: RepoView, id: Seq<char>) -> Option<StoreErrorView> {
    if !v.organizations.contains_key(id) {
        Some(StoreErrorView::NotFound("organization "@ + id))
    } else if v.organizations[id].personal {
        Some(StoreErrorView::Conflict("personal organizations are deleted with the user"@))
    } else if has_databases(v, id) {
        Some(StoreErrorView::Conflict("cannot delete organization: databases still attached"@))
    } else {
        None
    }
}

/// A user joins an organization once.
pub open spec fn membership_refusal(v: RepoView, user: Seq<char>, org: Seq<char>) -> Option<
    StoreErrorView,
> {
    if v.memberships.contains_key((user, org)) {
        Some(StoreErrorView::AlreadyExists("org membership "@ + user + " -> "@ + org))
    } else {
        None
    }
}

/// With a membership.
pub open spec fn with_membership(
    v: RepoView,
    user: Seq<char>,
    org: Seq<char>,
    role: Role,
    now_ms: i64,
) -> RepoView {
    RepoView {
        memberships: v.memberships.insert(
            (user, org),
            OrgMembershipView { user_id: user, org_id: org, role, created_at_ms: now_ms },
        ),
        ..v
    }
}

/// The last admin of an organization stays.
pub open spec fn leaving_refusal(v: RepoView, user: Seq<char>, org: Seq<char>) -> Option<
    StoreErrorView,
> {
    if !v.memberships.contains_key((user, org)) {
        Some(StoreErrorView::NotFound("org membership"@))
    } else if is_last_admin(v, user, org) {
        Some(StoreErrorView::Conflict("cannot remove the last admin of an organization"@))
    } else {
        None
    }
}

/// Without a membership.
pub open spec fn without_membership(v: RepoView, user: Seq<char>, org: Seq<char>) -> RepoView {
    RepoView { memberships: v.memberships.remove((user, org)), ..v }
}

/// A database needs an organization, and a name that is free in it.
pub open spec fn database_refusal(v: RepoView, org: Seq<char>, name: Seq<char>) -> Option<
    StoreErrorView,
> {
    if !v.organizations.contains_key(org) {
        Some(StoreErrorView::NotFound("organization "@ + org))
    } else if name_taken(v, org, name) {
        Some(StoreErrorView::AlreadyExists("database '"@ + name + "' in "@ + org))
    } else {
        None
    }
}

/// A database that is not there is not deleted.
pub open spec fn database_removal_refusal(v: RepoView, id: Seq<char>) -> Option<StoreErrorView> {
    if v.databases.contains_key(id) {
        None
    } else {
        Some(StoreErrorView::NotFound("database "@ + id))
    }
}

/// Without a database.
pub open spec fn without_database(v: RepoView, id: Seq<char>) -> RepoView {
    RepoView { databases: v.databases.remove(id), ..v }
}

/// With an OAuth state.
pub open spec fn with_state(v: RepoView, s: OAuthStateView) -> RepoView {
    RepoView { oauth_states: v.oauth_states.insert(s.state, s), ..v }
}

/// Without an OAuth state.
pub open spec fn without_state(v: RepoView, state: Seq<char>) -> RepoView {
    RepoView { oauth_states: v.oauth_states.remove(state), ..v }
}

/// What consuming an OAuth state gives: nothing where it is unknown or past
/// its time.
pub open spec fn usable_state(v: RepoView, state: Seq<char>, now_ms: i64) -> Option<
    OAuthStateView,
> {
    if v.oauth_states.contains_key(state) && v.oauth_states[state].expires_at_ms >= now_ms {
        Some(v.oauth_states[state])
    } else {
        None
    }
}

/// The error of an operation that failed: the refusal that its rules give,
/// or a failure of the backend. A reliable backend fails only where an
/// operation that breaks no rule cannot draw a fresh id.
pub open spec fn failed_as(
    e: StoreErrorView,
    refusal: Option<StoreErrorView>,
    reliable: bool,
    draws_id: bool,
) -> bool {
    ||| refusal == Some(e)
    ||| e is Backend && (!reliable || (draws_id && refusal is None))
}

/// Whether every row is found under its own id.
pub open spec fn keyed(v: RepoView) -> bool {
    &&& forall|k: Seq<char>|
        #![trigger v.users[k]]
        v.users.contains_key(k) ==> v.users[k].id == k
    &&& forall|k: Seq<char>|
        #![trigger v.identities[k]]
        v.identities.contains_key(k) ==> v.identities[k].id == k
    &&& forall|k: Seq<char>|
        #![trigger v.organizations[k]]
        v.organizations.contains_key(k) ==> v.organizations[k].id == k
    &&& forall|u: Seq<char>, o: Seq<char>|
        #![trigger v.memberships[(u, o)]]
        v.memberships.contains_key((u, o)) ==> v.memberships[(u, o)].user_id == u
            && v.memberships[(u, o)].org_id == o
    &&& forall|k: Seq<char>|
        #![trigger v.databases[k]]
        v.databases.contains_key(k) ==> v.databases[k].id == k
    &&& forall|k: Seq<char>|
        #![trigger v.oauth_states[k]]
        v.oauth_states.contains_key(k) ==> v.oauth_states[k].state == k
}

impl Ranked for OrgWithRole {
    open spec fn le(&self, other: &Self) -> bool {
        text_le(self.0.id@, other.0.id@)
    }

    proof fn lemma_total(a: &Self, b: &Self) {
        super::table::lemma_text_total(a.0.id@, b.0.id@);
    }

    proof fn lemma_transitive(a: &Self, b: &Self, c: &Self) {
        super::table::lemma_text_transitive(a.0.id@, b.0.id@, c.0.id@);
    }

    fn at_most(&self, other: &Self) -> (r: bool) {
        super::table::text_at_most(self.0.id.as_str(), other.0.id.as_str())
    }
}

impl Ranked for OrgMemberRow {
    open spec fn le(&self, other: &Self) -> bool {
        text_le(self.0.user_id@, other.0.user_id@)
    }

    proof fn lemma_total(a: &Self, b: &Self) {
        super::table::lemma_text_total(a.0.user_id@, b.0.user_id@);
    }

    proof fn lemma_transitive(a: &Self, b: &Self, c: &Self) {
        super::table::lemma_text_transitive(a.0.user_id@, b.0.user_id@, c.0.user_id@);
    }

    fn at_most(&self, other: &Self) -> (r: bool) {
        super::table::text_at_most(self.0.user_id.as_str(), other.0.user_id.as_str())
    }
}

impl Ranked for Database {
    open spec fn le(&self, other: &Self) -> bool {
        self.created_at_ms <= other.created_at_ms
    }

    proof fn lemma_total(a: &Self, b: &Self) {
    }

    proof fn lemma_transitive(a: &Self, b: &Self, c: &Self) {
    }

    fn at_most(&self, other: &Self) -> (r: bool) {
        self.created_at_ms <= other.created_at_ms
    }
}

// ---------- the trait ----------

/// Storage of users, organizations, databases and OAuth states. Any method may
/// fail with `Backend`, and one that fails changes nothing; a reliable backend
/// fails so only where it cannot draw a fresh id.
pub trait Repo: Sized {
    /// Everything that is stored.
    spec fn stored(&self) -> RepoView;

    /// Whether the backend is in a usable state.
    spec fn valid(&self) -> bool;

    /// Whether the backend fails only where it cannot draw a fresh id.
    spec fn reliable(&self) -> bool;

    /// Every row is found under its own id.
    proof fn lemma_keyed(&self)
        requires
            self.valid(),
        ensures
            keyed(self.stored()),
    ;

    // ----- Users / identities -----

    fn get_user(&self, id: &UserId) -> (r: StoreResult<Option<User>>)
        requires
            self.valid(),
        ensures
            match r {
                Ok(Some(u)) => self.stored().users.contains_key(id@) && u@
                    == self.stored().users[id@],
                Ok(None) => !self.stored().users.contains_key(id@),
                Err(e) => failed_as(e@, None, self.reliable(), false),
            },
    ;

    /// The user with this email, but for case.
    fn get_user_by_email(&self, email: &str) -> (r: StoreResult<Option<User>>)
        requires
            self.valid(),
        ensures
            match r {
                Ok(Some(u)) => has_email(self.stored(), u@.id, email@) && u@
                    == self.stored().users[u@.id],
                Ok(None) => !email_taken(self.stored(), email@),
                Err(e) => failed_as(e@, None, self.reliable(), false),
            },
    ;

    fn list_identities(&self, user_id: &UserId) -> (r: StoreResult<Vec<Identity>>)
        requires
            self.valid(),
        ensures
            match r {
                Ok(out) => lists(
                    identity_views(out@),
                    |i: IdentityView|
                        self.stored().identities.contains_key(i.id)
                            && self.stored().identities[i.id] == i && i.user_id == user_id@,
                ),
                Err(e) => failed_as(e@, None, self.reliable(), false),
            },
    ;

    /// An identity of a provider's user.
    fn find_identity(&self, provider: &str, provider_user_id: &str) -> (r: StoreResult<
        Option<Identity>,
    >)
        requires
            self.valid(),
        ensures
            match r {
                Ok(Some(i)) => is_identity(self.stored(), i@.id, provider@, provider_user_id@)
                    && i@ == self.stored().identities[i@.id],
                Ok(None) => !identity_linked(self.stored(), provider@, provider_user_id@),
                Err(e) => failed_as(e@, None, self.reliable(), false),
            },
    ;

    /// Links a provider's user to a user. Linking again gives the identity
    /// that is there; one that belongs to another user is a conflict.
    fn link_identity(
        &mut self,
        user_id: &UserId,
        provider: &str,
        provider_user_id: &str,
        secret: Option<String>,
        now_ms: i64,
    ) -> (r: StoreResult<Identity>)
        requires
            old(self).valid(),
        ensures
            final(self).valid(),
            final(self).reliable() == old(self).reliable(),
            link_outcome(
                old(self).stored(),
                final(self).stored(),
                link_id(r),
                user_id@,
                provider@,
                provider_user_id@,
                opt_chars(secret),
                now_ms,
                r,
                old(self).reliable(),
            ),
            !identity_linked(old(self).stored(), provider@, provider_user_id@) ==> (r matches Ok(i)
                ==> is_hex_id(i@.id)),
    ;

    fn update_identity_secret(&mut self, identity_id: &IdentityId, new_secret: String) -> (r:
        StoreResult<()>)
        requires
            old(self).valid(),
        ensures
            final(self).valid(),
            final(self).reliable() == old(self).reliable(),
            match r {
                Ok(()) => secret_refusal(old(self).stored(), identity_id@) is None && final(
                    self).stored() == with_secret(
                    old(self).stored(),
                    identity_id@,
                    new_secret@,
                ),
                Err(e) => final(self).stored() == old(self).stored() && failed_as(
                    e@,
                    secret_refusal(old(self).stored(), identity_id@),
                    old(self).reliable(),
                    false,
                ),
            },
    ;

    /// Atomic: insert user + password identity + personal org + admin
    /// membership. Returns the created user.
    fn create_password_user(&mut self, input: NewPasswordUser, now_ms: i64) -> (r: StoreResult<User>)
        requires
            old(self).valid(),
        ensures
            final(self).valid(),
            final(self).reliable() == old(self).reliable(),
            match r {
                Ok(u) => signup_refusal(old(self).stored(), input.email@) is None && u@ == (
                UserView {
                    id: u@.id,
                    email: input.email@,
                    email_verified: false,
                    created_at_ms: now_ms,
                }) && exists|ids: SignupIds| #[trigger]
                    with_password_user(
                        old(self).stored(),
                        ids,
                        input.email@,
                        input.password_hash@,
                        now_ms,
                    ) == final(self).stored() && ids.user == u@.id && are_drawn(ids),
                Err(e) => final(self).stored() == old(self).stored() && failed_as(
                    e@,
                    signup_refusal(old(self).stored(), input.email@),
                    old(self).reliable(),
                    true,
                ),
            },
    ;

    /// Atomic: insert user + OAuth identity + personal org + admin
    /// membership. Used at the OAuth callback when the IdP-issued
    /// (provider, sub) doesn't match an existing identity.
    fn create_oauth_user(&mut self, input: NewOAuthUser, now_ms: i64) -> (r: StoreResult<User>)
        requires
            old(self).valid(),
        ensures
            final(self).valid(),
            final(self).reliable() == old(self).reliable(),
            match r {
                Ok(u) => signup_refusal(old(self).stored(), input.email@) is None && u@ == (
                UserView {
                    id: u@.id,
                    email: input.email@,
                    email_verified: true,
                    created_at_ms: now_ms,
                }) && exists|ids: SignupIds| #[trigger]
                    with_oauth_user(
                        old(self).stored(),
                        ids,
                        input.email@,
                        input.provider@,
                        input.provider_user_id@,
                        now_ms,
                    ) == final(self).stored() && ids.user == u@.id && are_drawn(ids),
                Err(e) => final(self).stored() == old(self).stored() && failed_as(
                    e@,
                    signup_refusal(old(self).stored(), input.email@),
                    old(self).reliable(),
                    true,
                ),
            },
    ;

    // ----- Organizations -----

    fn get_organization(&self, id: &OrgId) -> (r: StoreResult<Option<Organization>>)
        requires
            self.valid(),
        ensures
            match r {
                Ok(Some(o)) => self.stored().organizations.contains_key(id@) && o@
                    == self.stored().organizations[id@],
                Ok(None) => !self.stored().organizations.contains_key(id@),
                Err(e) => failed_as(e@, None, self.reliable(), false),
            },
    ;

    /// A new organization, with its owner as its admin.
    fn create_organization(
        &mut self,
        display_name: String,
        owner_user_id: UserId,
        now_ms: i64,
    ) -> (r: StoreResult<Organization>)
        requires
            old(self).valid(),
        ensures
            final(self).valid(),
            final(self).reliable() == old(self).reliable(),
            match r {
                Ok(o) => owner_refusal(old(self).stored(), owner_user_id@) is None && final(
                    self).stored() == with_organization(
                    old(self).stored(),
                    o@.id,
                    display_name@,
                    owner_user_id@,
                    now_ms,
                ) && o@ == final(self).stored().organizations[o@.id] && is_hex_id(
                    o@.id,
                ),
                Err(e) => final(self).stored() == old(self).stored() && failed_as(
                    e@,
                    owner_refusal(old(self).stored(), owner_user_id@),
                    old(self).reliable(),
                    true,
                ),
            },
    ;

    /// The organizations of a user with their role, by id.
    fn list_organizations_for_user(&self, user_id: &UserId) -> (r: StoreResult<Vec<OrgWithRole>>)
        requires
            self.valid(),
        ensures
            match r {
                Ok(out) => in_order(out@) && lists(
                    org_views(out@),
                    |row: (OrganizationView, Role)| is_org_of(self.stored(), user_id@, row),
                ),
                Err(e) => failed_as(e@, None, self.reliable(), false),
            },
    ;

    /// Deletes an organization with its memberships. A personal one, and one
    /// that still has databases, stays.
    fn delete_organization(&mut self, id: &OrgId) -> (r: StoreResult<()>)
        requires
            old(self).valid(),
        ensures
            final(self).valid(),
            final(self).reliable() == old(self).reliable(),
            match r {
                Ok(()) => org_removal_refusal(old(self).stored(), id@) is None && final(
                    self).stored() == without_organization(old(self).stored(), id@),
                Err(e) => final(self).stored() == old(self).stored() && failed_as(
                    e@,
                    org_removal_refusal(old(self).stored(), id@),
                    old(self).reliable(),
                    false,
                ),
            },
    ;

    // ----- Memberships -----

    fn get_org_membership(&self, user_id: &UserId, org_id: &OrgId) -> (r: StoreResult<
        Option<OrgMembership>,
    >)
        requires
            self.valid(),
        ensures
            match r {
                Ok(Some(m)) => self.stored().memberships.contains_key((user_id@, org_id@)) && m@
                    == self.stored().memberships[(user_id@, org_id@)],
                Ok(None) => !self.stored().memberships.contains_key((user_id@, org_id@)),
                Err(e) => failed_as(e@, None, self.reliable(), false),
            },
    ;

    fn add_org_membership(&mut self, user_id: &UserId, org_id: &OrgId, role: Role, now_ms: i64) -> (r:
        StoreResult<()>)
        requires
            old(self).valid(),
        ensures
            final(self).valid(),
            final(self).reliable() == old(self).reliable(),
            match r {
                Ok(()) => membership_refusal(old(self).stored(), user_id@, org_id@) is None
                    && final(self).stored() == with_membership(
                    old(self).stored(),
                    user_id@,
                    org_id@,
                    role,
                    now_ms,
                ),
                Err(e) => final(self).stored() == old(self).stored() && failed_as(
                    e@,
                    membership_refusal(old(self).stored(), user_id@, org_id@),
                    old(self).reliable(),
                    false,
                ),
            },
    ;

    /// Removes a membership; the last admin of an organization stays.
    fn remove_org_membership(&mut self, user_id: &UserId, org_id: &OrgId) -> (r: StoreResult<()>)
        requires
            old(self).valid(),
        ensures
            final(self).valid(),
            final(self).reliable() == old(self).reliable(),
            match r {
                Ok(()) => leaving_refusal(old(self).stored(), user_id@, org_id@) is None && final(
                    self).stored() == without_membership(old(self).stored(), user_id@, org_id@),
                Err(e) => final(self).stored() == old(self).stored() && failed_as(
                    e@,
                    leaving_refusal(old(self).stored(), user_id@, org_id@),
                    old(self).reliable(),
                    false,
                ),
            },
    ;

    /// The members of an organization, by user id.
    fn list_org_memberships(&self, org_id: &OrgId) -> (r: StoreResult<Vec<OrgMemberRow>>)
        requires
            self.valid(),
        ensures
            match r {
                Ok(out) => in_order(out@) && lists(
                    member_views(out@),
                    |row: (OrgMembershipView, UserView)| is_member_of(self.stored(), org_id@, row),
                ),
                Err(e) => failed_as(e@, None, self.reliable(), false),
            },
    ;

    // ----- Databases -----

    fn create_database(
        &mut self,
        org_id: OrgId,
        name: String,
        created_by: UserId,
        now_ms: i64,
    ) -> (r: StoreResult<Database>)
        requires
            old(self).valid(),
        ensures
            final(self).valid(),
            final(self).reliable() == old(self).reliable(),
            match r {
                Ok(d) => database_refusal(old(self).stored(), org_id@, name@) is None && d@ == (
                DatabaseView {
                    id: d@.id,
                    org_id: org_id@,
                    name: name@,
                    created_by: created_by@,
                    created_at_ms: now_ms,
                }) && final(self).stored() == with_database(old(self).stored(), d@) && is_hex_id(
                    d@.id,
                ),
                Err(e) => final(self).stored() == old(self).stored() && failed_as(
                    e@,
                    database_refusal(old(self).stored(), org_id@, name@),
                    old(self).reliable(),
                    true,
                ),
            },
    ;

    fn get_database(&self, id: &DatabaseId) -> (r: StoreResult<Option<Database>>)
        requires
            self.valid(),
        ensures
            match r {
                Ok(Some(d)) => self.stored().databases.contains_key(id@) && d@
                    == self.stored().databases[id@],
                Ok(None) => !self.stored().databases.contains_key(id@),
                Err(e) => failed_as(e@, None, self.reliable(), false),
            },
    ;

    /// The databases of an organization, oldest first.
    fn list_databases_for_org(&self, org_id: &OrgId) -> (r: StoreResult<Vec<Database>>)
        requires
            self.valid(),
        ensures
            match r {
                Ok(out) => in_order(out@) && lists(
                    database_views(out@),
                    |d: DatabaseView| is_database_of(self.stored(), org_id@, d),
                ),
                Err(e) => failed_as(e@, None, self.reliable(), false),
            },
    ;

    fn delete_database(&mut self, id: &DatabaseId) -> (r: StoreResult<()>)
        requires
            old(self).valid(),
        ensures
            final(self).valid(),
            final(self).reliable() == old(self).reliable(),
            match r {
                Ok(()) => database_removal_refusal(old(self).stored(), id@) is None && final(
                    self).stored() == without_database(old(self).stored(), id@),
                Err(e) => final(self).stored() == old(self).stored() && failed_as(
                    e@,
                    database_removal_refusal(old(self).stored(), id@),
                    old(self).reliable(),
                    false,
                ),
            },
    ;

    // ----- OAuth state (cross-request CSRF token) -----

    fn store_oauth_state(&mut self, state: OAuthState) -> (r: StoreResult<()>)
        requires
            old(self).valid(),
        ensures
            final(self).valid(),
            final(self).reliable() == old(self).reliable(),
            match r {
                Ok(()) => final(self).stored() == with_state(old(self).stored(), state@),
                Err(e) => final(self).stored() == old(self).stored() && failed_as(
                    e@,
                    None,
                    old(self).reliable(),
                    false,
                ),
            },
    ;

    /// Single-use: returns `Some` only on first matching call within TTL.
    /// Subsequent calls (or expired state) return `None`.
    fn consume_oauth_state(&mut self, state: &str, now_ms: i64) -> (r: StoreResult<
        Option<OAuthState>,
    >)
        requires
            old(self).valid(),
        ensures
            final(self).valid(),
            final(self).reliable() == old(self).reliable(),
            match r {
                Ok(found) => final(self).stored() == without_state(old(self).stored(), state@)
                    && match found {
                    Some(s) => usable_state(old(self).stored(), state@, now_ms) == Some(s@),
                    None => usable_state(old(self).stored(), state@, now_ms) is None,
                },
                Err(e) => final(self).stored() == old(self).stored() && failed_as(
                    e@,
                    None,
                    old(self).reliable(),
                    false,
                ),
            },
    ;
}

} // verus!
