//! In-memory implementation of [`Repo`].

use vstd::prelude::*;

use super::domain::entities::{
    personal_org_name, Database, DatabaseView, Identity, IdentityView, OAuthState, OrgMembership,
    OrgMembershipView, Organization, OrganizationView, User, UserView,
};
use super::domain::enums::Role;
use super::domain::ids::{is_hex_id, random_hex, DatabaseId, IdentityId, OrgId, UserId};
use super::error::{StoreError, StoreErrorView, StoreResult};
use super::repo::{
    admins, database_refusal, database_views, email_taken, empty_repo, has_databases, has_email,
    identity_linked, identity_views, is_database_of, is_identity, is_last_admin, is_member_of,
    is_org_of, keyed, link_outcome, member_views, name_taken, org_views, owner_refusal, signed_up,
    signup_refusal, with_database, with_oauth_user, with_organization, with_password_user,
    without_organization, NewOAuthUser, NewPasswordUser, OrgMemberRow, OrgWithRole, Repo, RepoView,
    SignupIds,
};
use super::table::{in_order, insert_ranked, lemma_key, lemma_row, Row, Table};
use crate::text::{join2, join3, str_eq, to_lowercase};

verus! {

// ---------- rows ----------

impl Row for User {
    type Key = Seq<char>;

    type Probe = UserId;

    open spec fn key(&self) -> Seq<char> {
        self.id@
    }

    open spec fn wanted(probe: &UserId) -> Seq<char> {
        probe@
    }

    fn has_key(&self, probe: &UserId) -> (r: bool) {
        self.id == *probe
    }

    fn same_key(&self, other: &Self) -> (r: bool) {
        self.id == other.id
    }

    fn copied(&self) -> (r: Self) {
        self.clone()
    }
}

impl Row for Identity {
    type Key = Seq<char>;

    type Probe = IdentityId;

    open spec fn key(&self) -> Seq<char> {
        self.id@
    }

    open spec fn wanted(probe: &IdentityId) -> Seq<char> {
        probe@
    }

    fn has_key(&self, probe: &IdentityId) -> (r: bool) {
        self.id == *probe
    }

    fn same_key(&self, other: &Self) -> (r: bool) {
        self.id == other.id
    }

    fn copied(&self) -> (r: Self) {
        self.clone()
    }
}

impl Row for Organization {
    type Key = Seq<char>;

    type Probe = OrgId;

    open spec fn key(&self) -> Seq<char> {
        self.id@
    }

    open spec fn wanted(probe: &OrgId) -> Seq<char> {
        probe@
    }

    fn has_key(&self, probe: &OrgId) -> (r: bool) {
        self.id == *probe
    }

    fn same_key(&self, other: &Self) -> (r: bool) {
        self.id == other.id
    }

    fn copied(&self) -> (r: Self) {
        self.clone()
    }
}

impl Row for OrgMembership {
    type Key = (Seq<char>, Seq<char>);

    type Probe = (UserId, OrgId);

    open spec fn key(&self) -> (Seq<char>, Seq<char>) {
        (self.user_id@, self.org_id@)
    }

    open spec fn wanted(probe: &(UserId, OrgId)) -> (Seq<char>, Seq<char>) {
        (probe.0@, probe.1@)
    }

    fn has_key(&self, probe: &(UserId, OrgId)) -> (r: bool) {
        self.user_id == probe.0 && self.org_id == probe.1
    }

    fn same_key(&self, other: &Self) -> (r: bool) {
        self.user_id == other.user_id && self.org_id == other.org_id
    }

    fn copied(&self) -> (r: Self) {
        self.clone()
    }
}

impl Row for Database {
    type Key = Seq<char>;

    type Probe = DatabaseId;

    open spec fn key(&self) -> Seq<char> {
        self.id@
    }

    open spec fn wanted(probe: &DatabaseId) -> Seq<char> {
        probe@
    }

    fn has_key(&self, probe: &DatabaseId) -> (r: bool) {
        self.id == *probe
    }

    fn same_key(&self, other: &Self) -> (r: bool) {
        self.id == other.id
    }

    fn copied(&self) -> (r: Self) {
        self.clone()
    }
}

impl Row for OAuthState {
    type Key = Seq<char>;

    type Probe = String;

    open spec fn key(&self) -> Seq<char> {
        self.state@
    }

    open spec fn wanted(probe: &String) -> Seq<char> {
        probe@
    }

    fn has_key(&self, probe: &String) -> (r: bool) {
        str_eq(self.state.as_str(), probe.as_str())
    }

    fn same_key(&self, other: &Self) -> (r: bool) {
        str_eq(self.state.as_str(), other.state.as_str())
    }

    fn copied(&self) -> (r: Self) {
        self.clone()
    }
}

// ---------- picking rows ----------

/// Whether `out` holds what `pick` gives of the first `n` rows, each once.
spec fn picked<T, V>(out: Seq<V>, rows: Seq<T>, n: int, pick: spec_fn(T) -> Option<V>) -> bool {
    &&& out.no_duplicates()
    &&& forall|v: V|
        #![trigger out.contains(v)]
        out.contains(v) <==> exists|j: int| 0 <= j < n && pick(#[trigger] rows[j]) == Some(v)
}

proof fn lemma_pick_none<T, V>(out: Seq<V>, rows: Seq<T>, n: int, pick: spec_fn(T) -> Option<V>)
    requires
        picked(out, rows, n, pick),
        0 <= n < rows.len(),
        pick(rows[n]) is None,
    ensures
        picked(out, rows, n + 1, pick),
{
    assert forall|v: V|
        #![trigger out.contains(v)]
        out.contains(v) <==> exists|j: int|
            0 <= j < n + 1 && pick(#[trigger] rows[j]) == Some(v) by {
        if exists|j: int| 0 <= j < n + 1 && pick(#[trigger] rows[j]) == Some(v) {
            let j = choose|j: int| 0 <= j < n + 1 && pick(#[trigger] rows[j]) == Some(v);
            assert(0 <= j < n && pick(rows[j]) == Some(v));
        }
    }
}

proof fn lemma_pick<T, V>(
    out: Seq<V>,
    rows: Seq<T>,
    n: int,
    pick: spec_fn(T) -> Option<V>,
    p: int,
    x: V,
)
    requires
        picked(out, rows, n, pick),
        0 <= n < rows.len(),
        pick(rows[n]) == Some(x),
        0 <= p <= out.len(),
        forall|j: int| 0 <= j < n ==> pick(#[trigger] rows[j]) != Some(x),
    ensures
        picked(out.insert(p, x), rows, n + 1, pick),
{
    let new = out.insert(p, x);
    assert(!out.contains(x));
    assert forall|i: int, j: int| 0 <= i < new.len() && 0 <= j < new.len() && i != j implies new[i]
        != new[j] by {
        let a = if i < p {
            i
        } else {
            i - 1
        };
        let b = if j < p {
            j
        } else {
            j - 1
        };
        if i == p {
            assert(new[j] == out[b]);
            assert(out.contains(out[b]));
        } else if j == p {
            assert(new[i] == out[a]);
            assert(out.contains(out[a]));
        } else {
            assert(new[i] == out[a] && new[j] == out[b]);
        }
    }
    assert forall|v: V|
        #![trigger new.contains(v)]
        new.contains(v) <==> exists|j: int|
            0 <= j < n + 1 && pick(#[trigger] rows[j]) == Some(v) by {
        if new.contains(v) {
            let i = choose|i: int| 0 <= i < new.len() && new[i] == v;
            if i == p {
                assert(pick(rows[n]) == Some(v));
            } else {
                let a = if i < p {
                    i
                } else {
                    i - 1
                };
                assert(out[a] == v);
                assert(out.contains(v));
            }
        }
        if exists|j: int| 0 <= j < n + 1 && pick(#[trigger] rows[j]) == Some(v) {
            let j = choose|j: int| 0 <= j < n + 1 && pick(#[trigger] rows[j]) == Some(v);
            if j < n {
                assert(out.contains(v));
                let a = choose|a: int| 0 <= a < out.len() && out[a] == v;
                if a < p {
                    assert(new[a] == v);
                } else {
                    assert(new[a + 1] == v);
                }
            } else {
                assert(new[p] == v);
            }
        }
    }
}

spec fn pick_identity(user: Seq<char>) -> spec_fn(Identity) -> Option<IdentityView> {
    |i: Identity|
        if i@.user_id == user {
            Some(i@)
        } else {
            None
        }
}

spec fn pick_database(org: Seq<char>) -> spec_fn(Database) -> Option<DatabaseView> {
    |d: Database|
        if d@.org_id == org {
            Some(d@)
        } else {
            None
        }
}

spec fn pick_org(v: RepoView, user: Seq<char>) -> spec_fn(OrgMembership) -> Option<
    (OrganizationView, Role),
> {
    |m: OrgMembership|
        if m@.user_id == user && v.organizations.contains_key(m@.org_id) {
            Some((v.organizations[m@.org_id], m@.role))
        } else {
            None
        }
}

spec fn pick_member(v: RepoView, org: Seq<char>) -> spec_fn(OrgMembership) -> Option<
    (OrgMembershipView, UserView),
> {
    |m: OrgMembership|
        if m@.org_id == org && v.users.contains_key(m@.user_id) {
            Some((m@, v.users[m@.user_id]))
        } else {
            None
        }
}

// ---------- the repository ----------

/// Everything in memory.
pub struct InMemoryRepo {
    users: Table<User>,
    identities: Table<Identity>,
    organizations: Table<Organization>,
    org_memberships: Table<OrgMembership>,
    databases: Table<Database>,
    oauth_states: Table<OAuthState>,
}

/// A fresh id, or the backend failure that there is none.
fn fresh_id() -> (r: StoreResult<String>)
    ensures
        match r {
            Ok(s) => s@.len() == 32 && is_hex_id(s@),
            Err(e) => e@ is Backend,
        },
{
    drawn_id(random_hex())
}

/// A drawn id as it is; the reason that none was drawn as a backend failure.
pub fn drawn_id(drawn: Result<String, String>) -> (r: StoreResult<String>)
    ensures
        match (drawn, r) {
            (Ok(id), Ok(s)) => s@ == id@,
            (Err(why), Err(e)) => e@ == StoreErrorView::Backend(why@),
            _ => false,
        },
{
    match drawn {
        Ok(s) => Ok(s),
        Err(e) => Err(StoreError::Backend(e)),
    }
}

impl InMemoryRepo {
    closed spec fn tables_valid(&self) -> bool {
        &&& self.users.valid()
        &&& self.identities.valid()
        &&& self.organizations.valid()
        &&& self.org_memberships.valid()
        &&& self.databases.valid()
        &&& self.oauth_states.valid()
    }

    /// An empty repository.
    pub fn new() -> (r: Self)
        ensures
            r.valid(),
            r.reliable(),
            r.stored() == empty_repo(),
    {
        InMemoryRepo {
            users: Table::new(),
            identities: Table::new(),
            organizations: Table::new(),
            org_memberships: Table::new(),
            databases: Table::new(),
            oauth_states: Table::new(),
        }
    }

    fn find_user_by_email(&self, email: &str) -> (r: Option<User>)
        requires
            self.valid(),
        ensures
            match r {
                Some(u) => has_email(self.stored(), u@.id, email@) && u@
                    == self.stored().users[u@.id],
                None => !email_taken(self.stored(), email@),
            },
    {
        let needle: String = to_lowercase(email);
        let mut i: usize = 0;
        while i < self.users.len()
            invariant
                self.users.valid(),
                needle@ == crate::text::lowercase_text(email@),
                i <= self.users.list().len(),
                forall|j: int|
                    0 <= j < i ==> crate::text::lowercase_text(
                        (#[trigger] self.users.list()[j])@.email,
                    ) != needle@,
            decreases self.users.list().len() - i,
        {
            let u: &User = self.users.at(i);
            let lowered: String = to_lowercase(u.email.as_str());
            if str_eq(lowered.as_str(), needle.as_str()) {
                proof {
                    self.users.lemma_list();
                    lemma_row(self.users.list(), i as int);
                }
                return Some(u.clone());
            }
            i = i + 1;
        }
        proof {
            self.users.lemma_list();
            assert forall|id: Seq<char>| !has_email(self.stored(), id, email@) by {
                if has_email(self.stored(), id, email@) {
                    let j = lemma_key(self.users.list(), id);
                    assert(self.users.list()[j]@.email == self.stored().users[id].email);
                }
            }
        }
        None
    }

    fn find_by_provider(&self, provider: &str, provider_user_id: &str) -> (r: Option<Identity>)
        requires
            self.valid(),
        ensures
            match r {
                Some(i) => is_identity(self.stored(), i@.id, provider@, provider_user_id@) && i@
                    == self.stored().identities[i@.id],
                None => !identity_linked(self.stored(), provider@, provider_user_id@),
            },
    {
        let mut i: usize = 0;
        while i < self.identities.len()
            invariant
                self.identities.valid(),
                i <= self.identities.list().len(),
                forall|j: int|
                    0 <= j < i ==> !((#[trigger] self.identities.list()[j])@.provider == provider@
                        && self.identities.list()[j]@.provider_user_id == provider_user_id@),
            decreases self.identities.list().len() - i,
        {
            let x: &Identity = self.identities.at(i);
            if str_eq(x.provider.as_str(), provider) && str_eq(
                x.provider_user_id.as_str(),
                provider_user_id,
            ) {
                proof {
                    self.identities.lemma_list();
                    lemma_row(self.identities.list(), i as int);
                }
                return Some(x.clone());
            }
            i = i + 1;
        }
        proof {
            self.identities.lemma_list();
            assert forall|id: Seq<char>|
                !is_identity(self.stored(), id, provider@, provider_user_id@) by {
                if is_identity(self.stored(), id, provider@, provider_user_id@) {
                    let j = lemma_key(self.identities.list(), id);
                    assert(self.identities.list()[j]@ == self.stored().identities[id]);
                }
            }
        }
        None
    }
}

impl Default for InMemoryRepo {
    fn default() -> (r: Self)
        ensures
            r.valid(),
            r.reliable(),
            r.stored() == empty_repo(),
    {
        Self::new()
    }
}

impl InMemoryRepo {
    /// Puts in a user with their identity, their personal organization and
    /// their admin membership of it.
    fn insert_signup(
        &mut self,
        user: User,
        identity: Identity,
        org_id: OrgId,
        now_ms: i64,
    )
        requires
            old(self).valid(),
            identity.user_id@ == user.id@,
            identity.created_at_ms == now_ms,
            user.created_at_ms == now_ms,
        ensures
            final(self).valid(),
            final(self).stored() == signed_up(
                old(self).stored(),
                (SignupIds { user: user.id@, identity: identity.id@, org: org_id@ }),
                user.email@,
                user.email_verified,
                identity.provider@,
                identity.provider_user_id@,
                super::domain::entities::opt_chars(identity.secret),
                now_ms,
            ),
    {
        let org: Organization = Organization {
            id: org_id.clone(),
            display_name: personal_org_name(user.email.as_str()),
            personal: true,
            owner_user_id: Some(user.id.clone()),
            created_at_ms: now_ms,
        };
        let membership: OrgMembership = OrgMembership {
            user_id: user.id.clone(),
            org_id,
            role: Role::Admin,
            created_at_ms: now_ms,
        };
        self.users.insert(user);
        self.identities.insert(identity);
        self.organizations.insert(org);
        self.org_memberships.insert(membership);
    }

    /// Signing up with a password under given ids.
    pub fn create_password_user_with_ids(
        &mut self,
        input: NewPasswordUser,
        user_id: UserId,
        identity_id: IdentityId,
        org_id: OrgId,
        now_ms: i64,
    ) -> (r: StoreResult<User>)
        requires
            old(self).valid(),
        ensures
            final(self).valid(),
            match signup_refusal(old(self).stored(), input.email@) {
                Some(e) => r matches Err(x) && x@ == e && final(self).stored() == old(
                    self).stored(),
                None => r matches Ok(u) && u@ == (UserView {
                    id: user_id@,
                    email: input.email@,
                    email_verified: false,
                    created_at_ms: now_ms,
                }) && final(self).stored() == with_password_user(
                    old(self).stored(),
                    (SignupIds { user: user_id@, identity: identity_id@, org: org_id@ }),
                    input.email@,
                    input.password_hash@,
                    now_ms,
                ),
            },
    {
        if self.find_user_by_email(input.email.as_str()).is_some() {
            return Err(
                StoreError::AlreadyExists(join2("user with email ", input.email.as_str())),
            );
        }
        let user: User = User {
            id: user_id.clone(),
            email: input.email,
            email_verified: false,
            created_at_ms: now_ms,
        };
        let identity: Identity = Identity {
            id: identity_id,
            provider_user_id: user_id.as_str().to_owned(),
            user_id,
            provider: "password".to_owned(),
            secret: Some(input.password_hash),
            created_at_ms: now_ms,
        };
        let created: User = user.clone();
        self.insert_signup(user, identity, org_id, now_ms);
        Ok(created)
    }

    /// Signing up through an identity provider under given ids.
    pub fn create_oauth_user_with_ids(
        &mut self,
        input: NewOAuthUser,
        user_id: UserId,
        identity_id: IdentityId,
        org_id: OrgId,
        now_ms: i64,
    ) -> (r: StoreResult<User>)
        requires
            old(self).valid(),
        ensures
            final(self).valid(),
            match signup_refusal(old(self).stored(), input.email@) {
                Some(e) => r matches Err(x) && x@ == e && final(self).stored() == old(
                    self).stored(),
                None => r matches Ok(u) && u@ == (UserView {
                    id: user_id@,
                    email: input.email@,
                    email_verified: true,
                    created_at_ms: now_ms,
                }) && final(self).stored() == with_oauth_user(
                    old(self).stored(),
                    (SignupIds { user: user_id@, identity: identity_id@, org: org_id@ }),
                    input.email@,
                    input.provider@,
                    input.provider_user_id@,
                    now_ms,
                ),
            },
    {
        if self.find_user_by_email(input.email.as_str()).is_some() {
            return Err(
                StoreError::AlreadyExists(join2("user with email ", input.email.as_str())),
            );
        }
        let user: User = User {
            id: user_id.clone(),
            email: input.email,
            email_verified: true,
            created_at_ms: now_ms,
        };
        let identity: Identity = Identity {
            id: identity_id,
            user_id,
            provider: input.provider,
            provider_user_id: input.provider_user_id,
            secret: None,
            created_at_ms: now_ms,
        };
        let created: User = user.clone();
        self.insert_signup(user, identity, org_id, now_ms);
        Ok(created)
    }

    /// Linking a provider's user under a given identity id.
    pub fn link_identity_with_id(
        &mut self,
        id: IdentityId,
        user_id: &UserId,
        provider: &str,
        provider_user_id: &str,
        secret: Option<String>,
        now_ms: i64,
    ) -> (r: StoreResult<Identity>)
        requires
            old(self).valid(),
        ensures
            final(self).valid(),
            r matches Err(e) ==> !(e@ is Backend),
            link_outcome(
                old(self).stored(),
                final(self).stored(),
                id@,
                user_id@,
                provider@,
                provider_user_id@,
                super::domain::entities::opt_chars(secret),
                now_ms,
                r,
                true,
            ),
    {
        match self.find_by_provider(provider, provider_user_id) {
            Some(existing) => {
                assert(is_identity(self.stored(), existing@.id, provider@, provider_user_id@));
                if existing.user_id != *user_id {
                    let subject: String = join3(provider, ":", provider_user_id);
                    let message: String = join3(
                        "identity ",
                        subject.as_str(),
                        " belongs to another user",
                    );
                    proof {
                        assert(message@ =~= "identity "@ + provider@ + ":"@ + provider_user_id@
                            + " belongs to another user"@);
                        assert(is_identity(
                            old(self).stored(),
                            existing@.id,
                            provider@,
                            provider_user_id@,
                        ));
                        assert(old(self).stored().identities[existing@.id].user_id != user_id@);
                    }
                    return Err(StoreError::Conflict(message));
                }
                Ok(existing)
            },
            None => {
                let identity: Identity = Identity {
                    id,
                    user_id: user_id.clone(),
                    provider: provider.to_owned(),
                    provider_user_id: provider_user_id.to_owned(),
                    secret,
                    created_at_ms: now_ms,
                };
                let created: Identity = identity.clone();
                self.identities.insert(identity);
                Ok(created)
            },
        }
    }

    /// A new organization under a given id.
    pub fn create_organization_with_id(
        &mut self,
        id: OrgId,
        display_name: String,
        owner_user_id: UserId,
        now_ms: i64,
    ) -> (r: StoreResult<Organization>)
        requires
            old(self).valid(),
        ensures
            final(self).valid(),
            match owner_refusal(old(self).stored(), owner_user_id@) {
                Some(e) => r matches Err(x) && x@ == e && final(self).stored() == old(
                    self).stored(),
                None => r matches Ok(o) && final(self).stored() == with_organization(
                    old(self).stored(),
                    id@,
                    display_name@,
                    owner_user_id@,
                    now_ms,
                ) && o@ == final(self).stored().organizations[id@],
            },
    {
        if !self.users.contains(&owner_user_id) {
            return Err(StoreError::NotFound(join2("user ", owner_user_id.as_str())));
        }
        let org: Organization = Organization {
            id: id.clone(),
            display_name,
            personal: false,
            owner_user_id: Some(owner_user_id.clone()),
            created_at_ms: now_ms,
        };
        let created: Organization = org.clone();
        self.organizations.insert(org);
        self.org_memberships.insert(
            OrgMembership {
                user_id: owner_user_id,
                org_id: id,
                role: Role::Admin,
                created_at_ms: now_ms,
            },
        );
        Ok(created)
    }

    fn org_has_databases(&self, org_id: &OrgId) -> (r: bool)
        requires
            self.valid(),
        ensures
            r == has_databases(self.stored(), org_id@),
    {
        let mut i: usize = 0;
        while i < self.databases.len()
            invariant
                self.databases.valid(),
                i <= self.databases.list().len(),
                forall|j: int|
                    0 <= j < i ==> (#[trigger] self.databases.list()[j])@.org_id != org_id@,
            decreases self.databases.list().len() - i,
        {
            let d: &Database = self.databases.at(i);
            if d.org_id == *org_id {
                proof {
                    self.databases.lemma_list();
                    lemma_row(self.databases.list(), i as int);
                    assert(self.stored().databases[d@.id].org_id == org_id@);
                }
                return true;
            }
            i = i + 1;
        }
        proof {
            self.databases.lemma_list();
            if has_databases(self.stored(), org_id@) {
                let id = choose|id: Seq<char>|
                    #![trigger self.stored().databases[id]]
                    self.stored().databases.contains_key(id) && self.stored().databases[id].org_id
                        == org_id@;
                let j = lemma_key(self.databases.list(), id);
                assert(self.databases.list()[j]@.org_id == org_id@);
            }
        }
        false
    }

    fn org_has_name(&self, org_id: &OrgId, name: &str) -> (r: bool)
        requires
            self.valid(),
        ensures
            r == name_taken(self.stored(), org_id@, name@),
    {
        let mut i: usize = 0;
        while i < self.databases.len()
            invariant
                self.databases.valid(),
                i <= self.databases.list().len(),
                forall|j: int|
                    0 <= j < i ==> !((#[trigger] self.databases.list()[j])@.org_id == org_id@
                        && self.databases.list()[j]@.name == name@),
            decreases self.databases.list().len() - i,
        {
            let d: &Database = self.databases.at(i);
            if d.org_id == *org_id && str_eq(d.name.as_str(), name) {
                proof {
                    self.databases.lemma_list();
                    lemma_row(self.databases.list(), i as int);
                    assert(self.stored().databases[d@.id].org_id == org_id@);
                }
                return true;
            }
            i = i + 1;
        }
        proof {
            self.databases.lemma_list();
            if name_taken(self.stored(), org_id@, name@) {
                let id = choose|id: Seq<char>|
                    #![trigger self.stored().databases[id]]
                    self.stored().databases.contains_key(id) && self.stored().databases[id].org_id
                        == org_id@ && self.stored().databases[id].name == name@;
                let j = lemma_key(self.databases.list(), id);
                assert(self.databases.list()[j]@.org_id == org_id@);
            }
        }
        false
    }

    /// A new database under a given id.
    pub fn create_database_with_id(
        &mut self,
        id: DatabaseId,
        org_id: OrgId,
        name: String,
        created_by: UserId,
        now_ms: i64,
    ) -> (r: StoreResult<Database>)
        requires
            old(self).valid(),
        ensures
            final(self).valid(),
            match database_refusal(old(self).stored(), org_id@, name@) {
                Some(e) => r matches Err(x) && x@ == e && final(self).stored() == old(
                    self).stored(),
                None => r matches Ok(d) && d@ == (DatabaseView {
                    id: id@,
                    org_id: org_id@,
                    name: name@,
                    created_by: created_by@,
                    created_at_ms: now_ms,
                }) && final(self).stored() == with_database(old(self).stored(), d@),
            },
    {
        if !self.organizations.contains(&org_id) {
            return Err(StoreError::NotFound(join2("organization ", org_id.as_str())));
        }
        if self.org_has_name(&org_id, name.as_str()) {
            let quoted: String = join3("database '", name.as_str(), "' in ");
            return Err(StoreError::AlreadyExists(join2(quoted.as_str(), org_id.as_str())));
        }
        let db: Database = Database { id, org_id, name, created_by, created_at_ms: now_ms };
        let created: Database = db.clone();
        self.databases.insert(db);
        Ok(created)
    }

    /// Whether an organization has an admin other than `user_id`.
    fn has_other_admin(&self, user_id: &UserId, org_id: &OrgId) -> (r: bool)
        requires
            self.valid(),
        ensures
            r == exists|u: Seq<char>| u != user_id@ && admins(self.stored(), org_id@).contains(u),
    {
        let mut i: usize = 0;
        while i < self.org_memberships.len()
            invariant
                self.org_memberships.valid(),
                i <= self.org_memberships.list().len(),
                forall|j: int|
                    0 <= j < i ==> !((#[trigger] self.org_memberships.list()[j])@.org_id == org_id@
                        && self.org_memberships.list()[j]@.role == Role::Admin
                        && self.org_memberships.list()[j]@.user_id != user_id@),
            decreases self.org_memberships.list().len() - i,
        {
            let m: &OrgMembership = self.org_memberships.at(i);
            if m.org_id == *org_id && m.role == Role::Admin && m.user_id != *user_id {
                proof {
                    self.org_memberships.lemma_list();
                    lemma_row(self.org_memberships.list(), i as int);
                    assert(admins(self.stored(), org_id@).contains(m@.user_id));
                }
                return true;
            }
            i = i + 1;
        }
        proof {
            self.org_memberships.lemma_list();
            assert forall|u: Seq<char>| u != user_id@ implies !admins(
                self.stored(),
                org_id@,
            ).contains(u) by {
                if admins(self.stored(), org_id@).contains(u) {
                    let j = lemma_key(self.org_memberships.list(), (u, org_id@));
                    assert(self.org_memberships.list()[j]@.user_id == u);
                }
            }
        }
        false
    }

    /// Takes out every membership of an organization.
    fn drop_memberships(&mut self, org_id: &OrgId)
        requires
            old(self).valid(),
        ensures
            final(self).valid(),
            final(self).stored() == (RepoView {
                memberships: without_organization(old(self).stored(), org_id@).memberships,
                ..old(self).stored()
            }),
    {
        let ghost was = self.org_memberships@;
        let mut kept: Table<OrgMembership> = Table::new();
        let mut i: usize = 0;
        while i < self.org_memberships.len()
            invariant
                self.org_memberships.valid(),
                self.org_memberships@ == was,
                kept.valid(),
                i <= self.org_memberships.list().len(),
                forall|k: (Seq<char>, Seq<char>)|
                    #![trigger kept@.contains_key(k)]
                    kept@.contains_key(k) <==> k.1 != org_id@ && exists|j: int|
                        0 <= j < i && (#[trigger] self.org_memberships.list()[j]).key() == k,
                kept@.submap_of(was),
            decreases self.org_memberships.list().len() - i,
        {
            let m: &OrgMembership = self.org_memberships.at(i);
            let ghost before = kept@;
            proof {
                self.org_memberships.lemma_list();
                lemma_row(self.org_memberships.list(), i as int);
            }
            if m.org_id != *org_id {
                kept.insert(m.clone());
            }
            proof {
                let rows = self.org_memberships.list();
                assert forall|k: (Seq<char>, Seq<char>)|
                    #![trigger kept@.contains_key(k)]
                    kept@.contains_key(k) <==> k.1 != org_id@ && exists|j: int|
                        0 <= j < i + 1 && (#[trigger] rows[j]).key() == k by {
                    assert(before.contains_key(k) <==> k.1 != org_id@ && exists|j: int|
                        0 <= j < i && (#[trigger] rows[j]).key() == k);
                    if k == rows[i as int].key() {
                        assert(0 <= i < i + 1 && rows[i as int].key() == k);
                    }
                    if exists|j: int| 0 <= j < i + 1 && (#[trigger] rows[j]).key() == k {
                        let j = choose|j: int| 0 <= j < i + 1 && (#[trigger] rows[j]).key() == k;
                        if j < i {
                            assert(0 <= j < i && rows[j].key() == k);
                        }
                    }
                }
                assert(kept@.submap_of(was));
            }
            i = i + 1;
        }
        proof {
            self.org_memberships.lemma_list();
            let want = without_organization(old(self).stored(), org_id@).memberships;
            assert forall|k: (Seq<char>, Seq<char>)|
                kept@.contains_key(k) == want.contains_key(k) by {
                if want.contains_key(k) {
                    let j = lemma_key(self.org_memberships.list(), k);
                    assert(self.org_memberships.list()[j].key() == k);
                }
                if kept@.contains_key(k) {
                    assert(kept@[k] == was[k]);
                }
            }
            assert(kept@ =~= want);
        }
        self.org_memberships = kept;
    }
}

impl Repo for InMemoryRepo {
    closed spec fn stored(&self) -> RepoView {
        RepoView {
            users: self.users@,
            identities: self.identities@,
            organizations: self.organizations@,
            memberships: self.org_memberships@,
            databases: self.databases@,
            oauth_states: self.oauth_states@,
        }
    }

    closed spec fn valid(&self) -> bool {
        self.tables_valid()
    }

    open spec fn reliable(&self) -> bool {
        true
    }

    proof fn lemma_keyed(&self) {
        let v = self.stored();
        self.users.lemma_list();
        self.identities.lemma_list();
        self.organizations.lemma_list();
        self.org_memberships.lemma_list();
        self.databases.lemma_list();
        self.oauth_states.lemma_list();
        assert forall|k: Seq<char>|
            #![trigger v.users[k]]
            v.users.contains_key(k) implies v.users[k].id == k by {
            lemma_key(self.users.list(), k);
        }
        assert forall|k: Seq<char>|
            #![trigger v.identities[k]]
            v.identities.contains_key(k) implies v.identities[k].id == k by {
            lemma_key(self.identities.list(), k);
        }
        assert forall|k: Seq<char>|
            #![trigger v.organizations[k]]
            v.organizations.contains_key(k) implies v.organizations[k].id == k by {
            lemma_key(self.organizations.list(), k);
        }
        assert forall|u: Seq<char>, o: Seq<char>|
            #![trigger v.memberships[(u, o)]]
            v.memberships.contains_key((u, o)) implies v.memberships[(u, o)].user_id == u
            && v.memberships[(u, o)].org_id == o by {
            lemma_key(self.org_memberships.list(), (u, o));
        }
        assert forall|k: Seq<char>|
            #![trigger v.databases[k]]
            v.databases.contains_key(k) implies v.databases[k].id == k by {
            lemma_key(self.databases.list(), k);
        }
        assert forall|k: Seq<char>|
            #![trigger v.oauth_states[k]]
            v.oauth_states.contains_key(k) implies v.oauth_states[k].state == k by {
            lemma_key(self.oauth_states.list(), k);
        }
    }

    fn get_user(&self, id: &UserId) -> (r: StoreResult<Option<User>>) {
        Ok(self.users.get(id))
    }

    fn get_user_by_email(&self, email: &str) -> (r: StoreResult<Option<User>>) {
        Ok(self.find_user_by_email(email))
    }

    fn list_identities(&self, user_id: &UserId) -> (r: StoreResult<Vec<Identity>>) {
        let mut out: Vec<Identity> = Vec::new();
        let ghost rows = self.identities.list();
        let ghost pick = pick_identity(user_id@);
        let mut i: usize = 0;
        while i < self.identities.len()
            invariant
                self.identities.valid(),
                rows == self.identities.list(),
                pick == pick_identity(user_id@),
                i <= rows.len(),
                picked(identity_views(out@), rows, i as int, pick),
            decreases rows.len() - i,
        {
            proof {
                self.identities.lemma_list();
            }
            let x: &Identity = self.identities.at(i);
            let ghost was = out@;
            if x.user_id == *user_id {
                proof {
                    assert forall|j: int| 0 <= j < i implies pick(#[trigger] rows[j]) != Some(
                        x@,
                    ) by {
                        assert(rows[j].key() != rows[i as int].key());
                    }
                    lemma_pick(
                        identity_views(was),
                        rows,
                        i as int,
                        pick,
                        was.len() as int,
                        x@,
                    );
                }
                out.push(x.clone());
                assert(identity_views(out@) =~= identity_views(was).insert(was.len() as int, x@));
            } else {
                proof {
                    lemma_pick_none(identity_views(was), rows, i as int, pick);
                }
            }
            i = i + 1;
        }
        proof {
            self.identities.lemma_list();
            assert forall|v: IdentityView|
                #![trigger identity_views(out@).contains(v)]
                identity_views(out@).contains(v) <==> (self.stored().identities.contains_key(v.id)
                    && self.stored().identities[v.id] == v && v.user_id == user_id@) by {
                if identity_views(out@).contains(v) {
                    let j = choose|j: int|
                        0 <= j < rows.len() && pick(#[trigger] rows[j]) == Some(v);
                    lemma_row(rows, j);
                }
                if self.stored().identities.contains_key(v.id) && self.stored().identities[v.id]
                    == v && v.user_id == user_id@ {
                    let j = lemma_key(rows, v.id);
                    assert(pick(rows[j]) == Some(v));
                }
            }
        }
        Ok(out)
    }

    fn find_identity(&self, provider: &str, provider_user_id: &str) -> (r: StoreResult<
        Option<Identity>,
    >) {
        Ok(self.find_by_provider(provider, provider_user_id))
    }

    fn link_identity(
        &mut self,
        user_id: &UserId,
        provider: &str,
        provider_user_id: &str,
        secret: Option<String>,
        now_ms: i64,
    ) -> (r: StoreResult<Identity>) {
        if self.find_by_provider(provider, provider_user_id).is_some() {
            // Nothing is drawn: the identity that is there decides.
            return self.link_identity_with_id(
                IdentityId::from(""),
                user_id,
                provider,
                provider_user_id,
                secret,
                now_ms,
            );
        }
        let id: IdentityId = IdentityId(fresh_id()?);
        self.link_identity_with_id(id, user_id, provider, provider_user_id, secret, now_ms)
    }

    fn update_identity_secret(&mut self, identity_id: &IdentityId, new_secret: String) -> (r:
        StoreResult<()>) {
        match self.identities.get(identity_id) {
            Some(mut identity) => {
                identity.secret = Some(new_secret);
                self.identities.insert(identity);
                Ok(())
            },
            None => Err(StoreError::NotFound(join2("identity ", identity_id.as_str()))),
        }
    }

    fn create_password_user(&mut self, input: NewPasswordUser, now_ms: i64) -> (r: StoreResult<
        User,
    >) {
        if self.find_user_by_email(input.email.as_str()).is_some() {
            return Err(
                StoreError::AlreadyExists(join2("user with email ", input.email.as_str())),
            );
        }
        let user_id: UserId = UserId(fresh_id()?);
        let identity_id: IdentityId = IdentityId(fresh_id()?);
        let org_id: OrgId = OrgId(fresh_id()?);
        self.create_password_user_with_ids(input, user_id, identity_id, org_id, now_ms)
    }

    fn create_oauth_user(&mut self, input: NewOAuthUser, now_ms: i64) -> (r: StoreResult<User>) {
        if self.find_user_by_email(input.email.as_str()).is_some() {
            return Err(
                StoreError::AlreadyExists(join2("user with email ", input.email.as_str())),
            );
        }
        let user_id: UserId = UserId(fresh_id()?);
        let identity_id: IdentityId = IdentityId(fresh_id()?);
        let org_id: OrgId = OrgId(fresh_id()?);
        self.create_oauth_user_with_ids(input, user_id, identity_id, org_id, now_ms)
    }

    fn get_organization(&self, id: &OrgId) -> (r: StoreResult<Option<Organization>>) {
        Ok(self.organizations.get(id))
    }

    fn create_organization(
        &mut self,
        display_name: String,
        owner_user_id: UserId,
        now_ms: i64,
    ) -> (r: StoreResult<Organization>) {
        if !self.users.contains(&owner_user_id) {
            return Err(StoreError::NotFound(join2("user ", owner_user_id.as_str())));
        }
        let id: OrgId = OrgId(fresh_id()?);
        self.create_organization_with_id(id, display_name, owner_user_id, now_ms)
    }

    fn list_organizations_for_user(&self, user_id: &UserId) -> (r: StoreResult<Vec<OrgWithRole>>) {
        let mut out: Vec<OrgWithRole> = Vec::new();
        let ghost rows = self.org_memberships.list();
        let ghost v = self.stored();
        let ghost pick = pick_org(v, user_id@);
        proof {
            self.lemma_keyed();
        }
        let mut i: usize = 0;
        while i < self.org_memberships.len()
            invariant
                self.valid(),
                keyed(v),
                v == self.stored(),
                rows == self.org_memberships.list(),
                pick == pick_org(v, user_id@),
                i <= rows.len(),
                in_order(out@),
                picked(org_views(out@), rows, i as int, pick),
            decreases rows.len() - i,
        {
            proof {
                self.org_memberships.lemma_list();
            }
            let m: &OrgMembership = self.org_memberships.at(i);
            let ghost was = out@;
            if m.user_id == *user_id {
                match self.organizations.get(&m.org_id) {
                    Some(org) => {
                        let ghost x = (org@, m.role);
                        let p: usize = insert_ranked(&mut out, (org, m.role));
                        proof {
                            assert(pick(rows[i as int]) == Some(x));
                            assert forall|j: int| 0 <= j < i implies pick(#[trigger] rows[j])
                                != Some(x) by {
                                assert(rows[j].key() != rows[i as int].key());
                                if pick(rows[j]) == Some(x) {
                                    assert(v.organizations[rows[j]@.org_id].id == rows[j]@.org_id);
                                    assert(v.organizations[m@.org_id].id == m@.org_id);
                                }
                            }
                            lemma_pick(org_views(was), rows, i as int, pick, p as int, x);
                            assert(org_views(out@) =~= org_views(was).insert(p as int, x));
                        }
                    },
                    None => {
                        proof {
                            lemma_pick_none(org_views(was), rows, i as int, pick);
                        }
                    },
                }
            } else {
                proof {
                    lemma_pick_none(org_views(was), rows, i as int, pick);
                }
            }
            i = i + 1;
        }
        proof {
            self.org_memberships.lemma_list();
            assert forall|row: (OrganizationView, Role)|
                #![trigger org_views(out@).contains(row)]
                org_views(out@).contains(row) <==> is_org_of(self.stored(), user_id@, row) by {
                if org_views(out@).contains(row) {
                    let j = choose|j: int|
                        0 <= j < rows.len() && pick(#[trigger] rows[j]) == Some(row);
                    lemma_row(rows, j);
                    assert(v.memberships[(user_id@, rows[j]@.org_id)] == rows[j]@);
                }
                if is_org_of(self.stored(), user_id@, row) {
                    let org = choose|org: Seq<char>|
                        #![trigger v.memberships[(user_id@, org)]]
                        v.memberships.contains_key((user_id@, org)) && v.organizations.contains_key(
                            org,
                        ) && row == (v.organizations[org], v.memberships[(user_id@, org)].role);
                    let j = lemma_key(rows, (user_id@, org));
                    assert(pick(rows[j]) == Some(row));
                }
            }
        }
        Ok(out)
    }

    fn delete_organization(&mut self, id: &OrgId) -> (r: StoreResult<()>) {
        match self.organizations.get(id) {
            None => Err(StoreError::NotFound(join2("organization ", id.as_str()))),
            Some(org) => {
                if org.personal {
                    return Err(
                        StoreError::conflict("personal organizations are deleted with the user"),
                    );
                }
                if self.org_has_databases(id) {
                    return Err(
                        StoreError::conflict(
                            "cannot delete organization: databases still attached",
                        ),
                    );
                }
                self.organizations.remove(id);
                self.drop_memberships(id);
                Ok(())
            },
        }
    }

    fn get_org_membership(&self, user_id: &UserId, org_id: &OrgId) -> (r: StoreResult<
        Option<OrgMembership>,
    >) {
        Ok(self.org_memberships.get(&(user_id.clone(), org_id.clone())))
    }

    fn add_org_membership(&mut self, user_id: &UserId, org_id: &OrgId, role: Role, now_ms: i64) -> (r:
        StoreResult<()>) {
        if self.org_memberships.contains(&(user_id.clone(), org_id.clone())) {
            let from: String = join3("org membership ", user_id.as_str(), " -> ");
            return Err(StoreError::AlreadyExists(join2(from.as_str(), org_id.as_str())));
        }
        self.org_memberships.insert(
            OrgMembership {
                user_id: user_id.clone(),
                org_id: org_id.clone(),
                role,
                created_at_ms: now_ms,
            },
        );
        Ok(())
    }

    fn remove_org_membership(&mut self, user_id: &UserId, org_id: &OrgId) -> (r: StoreResult<()>) {
        let key: (UserId, OrgId) = (user_id.clone(), org_id.clone());
        match self.org_memberships.get(&key) {
            None => Err(StoreError::not_found("org membership")),
            Some(existing) => {
                if existing.role == Role::Admin && !self.has_other_admin(user_id, org_id) {
                    assert(admins(self.stored(), org_id@).contains(user_id@));
                    assert(admins(self.stored(), org_id@) =~= set![user_id@]);
                    return Err(
                        StoreError::conflict("cannot remove the last admin of an organization"),
                    );
                }
                assert(!is_last_admin(self.stored(), user_id@, org_id@)) by {
                    if is_last_admin(self.stored(), user_id@, org_id@) {
                        assert(set![user_id@].contains(user_id@));
                        assert(admins(self.stored(), org_id@).contains(user_id@));
                    }
                }
                self.org_memberships.remove(&key);
                Ok(())
            },
        }
    }

    fn list_org_memberships(&self, org_id: &OrgId) -> (r: StoreResult<Vec<OrgMemberRow>>) {
        let mut out: Vec<OrgMemberRow> = Vec::new();
        let ghost rows = self.org_memberships.list();
        let ghost v = self.stored();
        let ghost pick = pick_member(v, org_id@);
        let mut i: usize = 0;
        while i < self.org_memberships.len()
            invariant
                self.valid(),
                v == self.stored(),
                rows == self.org_memberships.list(),
                pick == pick_member(v, org_id@),
                i <= rows.len(),
                in_order(out@),
                picked(member_views(out@), rows, i as int, pick),
            decreases rows.len() - i,
        {
            proof {
                self.org_memberships.lemma_list();
            }
            let m: &OrgMembership = self.org_memberships.at(i);
            let ghost was = out@;
            if m.org_id == *org_id {
                match self.users.get(&m.user_id) {
                    Some(user) => {
                        let ghost x = (m@, user@);
                        let p: usize = insert_ranked(&mut out, (m.clone(), user));
                        proof {
                            assert(pick(rows[i as int]) == Some(x));
                            assert forall|j: int| 0 <= j < i implies pick(#[trigger] rows[j])
                                != Some(x) by {
                                assert(rows[j].key() != rows[i as int].key());
                            }
                            lemma_pick(member_views(was), rows, i as int, pick, p as int, x);
                            assert(member_views(out@) =~= member_views(was).insert(p as int, x));
                        }
                    },
                    None => {
                        proof {
                            lemma_pick_none(member_views(was), rows, i as int, pick);
                        }
                    },
                }
            } else {
                proof {
                    lemma_pick_none(member_views(was), rows, i as int, pick);
                }
            }
            i = i + 1;
        }
        proof {
            self.org_memberships.lemma_list();
            assert forall|row: (OrgMembershipView, UserView)|
                #![trigger member_views(out@).contains(row)]
                member_views(out@).contains(row) <==> is_member_of(
                    self.stored(),
                    org_id@,
                    row,
                ) by {
                if member_views(out@).contains(row) {
                    let j = choose|j: int|
                        0 <= j < rows.len() && pick(#[trigger] rows[j]) == Some(row);
                    lemma_row(rows, j);
                    assert(v.memberships[(rows[j]@.user_id, org_id@)] == rows[j]@);
                }
                if is_member_of(self.stored(), org_id@, row) {
                    let user = choose|user: Seq<char>|
                        #![trigger v.memberships[(user, org_id@)]]
                        v.memberships.contains_key((user, org_id@)) && v.users.contains_key(user)
                            && row == (v.memberships[(user, org_id@)], v.users[user]);
                    let j = lemma_key(rows, (user, org_id@));
                    assert(pick(rows[j]) == Some(row));
                }
            }
        }
        Ok(out)
    }

    fn create_database(
        &mut self,
        org_id: OrgId,
        name: String,
        created_by: UserId,
        now_ms: i64,
    ) -> (r: StoreResult<Database>) {
        if !self.organizations.contains(&org_id) || self.org_has_name(&org_id, name.as_str()) {
            // Nothing is drawn: the rules refuse it.
            return self.create_database_with_id(
                DatabaseId::from(""),
                org_id,
                name,
                created_by,
                now_ms,
            );
        }
        let id: DatabaseId = DatabaseId(fresh_id()?);
        self.create_database_with_id(id, org_id, name, created_by, now_ms)
    }

    fn get_database(&self, id: &DatabaseId) -> (r: StoreResult<Option<Database>>) {
        Ok(self.databases.get(id))
    }

    fn list_databases_for_org(&self, org_id: &OrgId) -> (r: StoreResult<Vec<Database>>) {
        let mut out: Vec<Database> = Vec::new();
        let ghost rows = self.databases.list();
        let ghost pick = pick_database(org_id@);
        let mut i: usize = 0;
        while i < self.databases.len()
            invariant
                self.databases.valid(),
                rows == self.databases.list(),
                pick == pick_database(org_id@),
                i <= rows.len(),
                in_order(out@),
                picked(database_views(out@), rows, i as int, pick),
            decreases rows.len() - i,
        {
            proof {
                self.databases.lemma_list();
            }
            let d: &Database = self.databases.at(i);
            let ghost was = out@;
            if d.org_id == *org_id {
                let p: usize = insert_ranked(&mut out, d.clone());
                proof {
                    assert forall|j: int| 0 <= j < i implies pick(#[trigger] rows[j]) != Some(
                        d@,
                    ) by {
                        assert(rows[j].key() != rows[i as int].key());
                    }
                    lemma_pick(database_views(was), rows, i as int, pick, p as int, d@);
                    assert(database_views(out@) =~= database_views(was).insert(p as int, d@));
                }
            } else {
                proof {
                    lemma_pick_none(database_views(was), rows, i as int, pick);
                }
            }
            i = i + 1;
        }
        proof {
            self.databases.lemma_list();
            assert forall|d: DatabaseView|
                #![trigger database_views(out@).contains(d)]
                database_views(out@).contains(d) <==> is_database_of(
                    self.stored(),
                    org_id@,
                    d,
                ) by {
                if database_views(out@).contains(d) {
                    let j = choose|j: int|
                        0 <= j < rows.len() && pick(#[trigger] rows[j]) == Some(d);
                    lemma_row(rows, j);
                }
                if is_database_of(self.stored(), org_id@, d) {
                    let j = lemma_key(rows, d.id);
                    assert(pick(rows[j]) == Some(d));
                }
            }
        }
        Ok(out)
    }

    fn delete_database(&mut self, id: &DatabaseId) -> (r: StoreResult<()>) {
        match self.databases.remove(id) {
            Some(_) => Ok(()),
            None => {
                assert(self.databases@ =~= old(self).databases@);
                Err(StoreError::NotFound(join2("database ", id.as_str())))
            },
        }
    }

    fn store_oauth_state(&mut self, state: OAuthState) -> (r: StoreResult<()>) {
        self.oauth_states.insert(state);
        Ok(())
    }

    fn consume_oauth_state(&mut self, state: &str, now_ms: i64) -> (r: StoreResult<
        Option<OAuthState>,
    >) {
        match self.oauth_states.remove(&state.to_owned()) {
            None => Ok(None),
            Some(s) => {
                if s.expires_at_ms < now_ms {
                    return Ok(None);
                }
                Ok(Some(s))
            },
        }
    }
}

} // verus!
