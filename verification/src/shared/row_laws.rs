//! What each operation of the store writes, row by row, and whom it refuses.

use vstd::prelude::*;

use super::domain::entities::{
    DatabaseView, Identity, OAuthStateView, OrgMembershipView, OrganizationView, UserView,
};
use super::domain::enums::Role;
use super::error::{StoreErrorView, StoreResult};
use super::repo::{
    database_refusal, database_removal_refusal, failed_as, identity_linked, is_identity, is_member_of,
    is_org_of, keyed, leaving_refusal, link_outcome, membership_refusal, org_removal_refusal, owner_refusal, secret_refusal, signup_refusal, usable_state, with_database,
    with_membership, with_oauth_user, with_organization, with_password_user, with_secret,
    with_state, without_database, without_membership, without_organization, without_state, RepoView,
    SignupIds,
};
use super::table::text_le;
use crate::text::lowercase_text;

verus! {

/// Whether two stores have the same users, but for one.
pub open spec fn same_users_but(v: RepoView, w: RepoView, user: Seq<char>) -> bool {
    forall|k: Seq<char>|
        k != user ==> (#[trigger] w.users.contains_key(k) <==> v.users.contains_key(k)) && (
        v.users.contains_key(k) ==> w.users[k] == v.users[k])
}

/// Whether two stores have the same identities, but for one.
pub open spec fn same_identities_but(v: RepoView, w: RepoView, id: Seq<char>) -> bool {
    forall|k: Seq<char>|
        k != id ==> (#[trigger] w.identities.contains_key(k) <==> v.identities.contains_key(k)) && (
        v.identities.contains_key(k) ==> w.identities[k] == v.identities[k])
}

/// Whether two stores have the same organizations, but for one.
pub open spec fn same_organizations_but(v: RepoView, w: RepoView, org: Seq<char>) -> bool {
    forall|k: Seq<char>|
        k != org ==> (#[trigger] w.organizations.contains_key(k)
            <==> v.organizations.contains_key(k)) && (v.organizations.contains_key(k)
            ==> w.organizations[k] == v.organizations[k])
}

/// Whether two stores have the same memberships, but for one.
pub open spec fn same_memberships_but(
    v: RepoView,
    w: RepoView,
    user: Seq<char>,
    org: Seq<char>,
) -> bool {
    forall|k: (Seq<char>, Seq<char>)|
        k != (user, org) ==> (#[trigger] w.memberships.contains_key(k)
            <==> v.memberships.contains_key(k)) && (v.memberships.contains_key(k)
            ==> w.memberships[k] == v.memberships[k])
}

/// Whether two stores have the same databases, but for one.
pub open spec fn same_databases_but(v: RepoView, w: RepoView, id: Seq<char>) -> bool {
    forall|k: Seq<char>|
        k != id ==> (#[trigger] w.databases.contains_key(k) <==> v.databases.contains_key(k)) && (
        v.databases.contains_key(k) ==> w.databases[k] == v.databases[k])
}

/// Whether two stores have the same OAuth states, but for one.
pub open spec fn same_states_but(v: RepoView, w: RepoView, state: Seq<char>) -> bool {
    forall|k: Seq<char>|
        k != state ==> (#[trigger] w.oauth_states.contains_key(k)
            <==> v.oauth_states.contains_key(k)) && (v.oauth_states.contains_key(k)
            ==> w.oauth_states[k] == v.oauth_states[k])
}

/// What signing up with a password stores: a user with the email, not
/// verified; a password identity of theirs with the hash; their personal
/// organization, named after the email; and their membership of it as its
/// admin. All four bear the time, and no other row changes.
pub proof fn law_password_signup_rows(
    v: RepoView,
    ids: SignupIds,
    email: Seq<char>,
    hash: Seq<char>,
    now_ms: i64,
)
    ensures
        ({
            let w = with_password_user(v, ids, email, hash, now_ms);
            let user = w.users[ids.user];
            let identity = w.identities[ids.identity];
            let org = w.organizations[ids.org];
            let member = w.memberships[(ids.user, ids.org)];
            &&& w.users.contains_key(ids.user) && user.id == ids.user && user.email == email
                && !user.email_verified && user.created_at_ms == now_ms
            &&& w.identities.contains_key(ids.identity) && identity.id == ids.identity
                && identity.user_id == ids.user && identity.provider == "password"@
                && identity.provider_user_id == ids.user && identity.secret == Some(hash)
                && identity.created_at_ms == now_ms
            &&& w.organizations.contains_key(ids.org) && org.id == ids.org && org.display_name
                == email + " (personal)"@ && org.personal && org.owner_user_id == Some(ids.user)
                && org.created_at_ms == now_ms
            &&& w.memberships.contains_key((ids.user, ids.org)) && member.user_id == ids.user
                && member.org_id == ids.org && member.role == Role::Admin && member.created_at_ms
                == now_ms
            &&& same_users_but(v, w, ids.user)
            &&& same_identities_but(v, w, ids.identity)
            &&& same_organizations_but(v, w, ids.org)
            &&& same_memberships_but(v, w, ids.user, ids.org)
            &&& w.databases == v.databases && w.oauth_states == v.oauth_states
        }),
{
}

/// What signing up through a provider stores: a user with the email, verified;
/// an identity of theirs at the provider, without a secret; their personal
/// organization; and their membership of it as its admin. All four bear the
/// time, and no other row changes.
pub proof fn law_oauth_signup_rows(
    v: RepoView,
    ids: SignupIds,
    email: Seq<char>,
    provider: Seq<char>,
    provider_user_id: Seq<char>,
    now_ms: i64,
)
    ensures
        ({
            let w = with_oauth_user(v, ids, email, provider, provider_user_id, now_ms);
            let user = w.users[ids.user];
            let identity = w.identities[ids.identity];
            let org = w.organizations[ids.org];
            let member = w.memberships[(ids.user, ids.org)];
            &&& w.users.contains_key(ids.user) && user.id == ids.user && user.email == email
                && user.email_verified && user.created_at_ms == now_ms
            &&& w.identities.contains_key(ids.identity) && identity.id == ids.identity
                && identity.user_id == ids.user && identity.provider == provider
                && identity.provider_user_id == provider_user_id && identity.secret is None
                && identity.created_at_ms == now_ms
            &&& w.organizations.contains_key(ids.org) && org.id == ids.org && org.display_name
                == email + " (personal)"@ && org.personal && org.owner_user_id == Some(ids.user)
                && org.created_at_ms == now_ms
            &&& w.memberships.contains_key((ids.user, ids.org)) && member.user_id == ids.user
                && member.org_id == ids.org && member.role == Role::Admin && member.created_at_ms
                == now_ms
            &&& same_users_but(v, w, ids.user)
            &&& same_identities_but(v, w, ids.identity)
            &&& same_organizations_but(v, w, ids.org)
            &&& same_memberships_but(v, w, ids.user, ids.org)
            &&& w.databases == v.databases && w.oauth_states == v.oauth_states
        }),
{
}

/// What creating an organization stores: the organization with its name and
/// its owner, not personal, and the owner's membership of it as its admin.
pub proof fn law_organization_rows(
    v: RepoView,
    id: Seq<char>,
    display_name: Seq<char>,
    owner: Seq<char>,
    now_ms: i64,
)
    ensures
        ({
            let w = with_organization(v, id, display_name, owner, now_ms);
            let org = w.organizations[id];
            let member = w.memberships[(owner, id)];
            &&& w.organizations.contains_key(id) && org.id == id && org.display_name == display_name
                && !org.personal && org.owner_user_id == Some(owner) && org.created_at_ms == now_ms
            &&& w.memberships.contains_key((owner, id)) && member.user_id == owner && member.org_id
                == id && member.role == Role::Admin && member.created_at_ms == now_ms
            &&& same_organizations_but(v, w, id)
            &&& same_memberships_but(v, w, owner, id)
            &&& w.users == v.users && w.identities == v.identities && w.databases == v.databases
                && w.oauth_states == v.oauth_states
        }),
{
}

/// Deleting an organization takes it and its memberships away, and no other
/// row.
pub proof fn law_organization_goes(v: RepoView, id: Seq<char>)
    ensures
        ({
            let w = without_organization(v, id);
            &&& !w.organizations.contains_key(id)
            &&& same_organizations_but(v, w, id)
            &&& forall|k: (Seq<char>, Seq<char>)| #[trigger]
                w.memberships.contains_key(k) <==> v.memberships.contains_key(k) && k.1 != id
            &&& forall|k: (Seq<char>, Seq<char>)|
                v.memberships.contains_key(k) && k.1 != id ==> #[trigger] w.memberships[k]
                    == v.memberships[k]
            &&& w.users == v.users && w.identities == v.identities && w.databases == v.databases
                && w.oauth_states == v.oauth_states
        }),
{
}

/// Joining stores the membership with its role and its time; leaving takes
/// that membership away. No other row changes.
pub proof fn law_membership_rows(
    v: RepoView,
    user: Seq<char>,
    org: Seq<char>,
    role: Role,
    now_ms: i64,
)
    ensures
        ({
            let w = with_membership(v, user, org, role, now_ms);
            let member = w.memberships[(user, org)];
            &&& w.memberships.contains_key((user, org)) && member.user_id == user && member.org_id
                == org && member.role == role && member.created_at_ms == now_ms
            &&& same_memberships_but(v, w, user, org)
            &&& w.users == v.users && w.identities == v.identities && w.organizations
                == v.organizations && w.databases == v.databases && w.oauth_states
                == v.oauth_states
        }),
        ({
            let w = without_membership(v, user, org);
            &&& !w.memberships.contains_key((user, org))
            &&& same_memberships_but(v, w, user, org)
            &&& w.users == v.users && w.identities == v.identities && w.organizations
                == v.organizations && w.databases == v.databases && w.oauth_states
                == v.oauth_states
        }),
{
}

/// A new secret replaces that of its identity, and nothing else of it nor of
/// any other row.
pub proof fn law_secret_row(v: RepoView, id: Seq<char>, secret: Seq<char>)
    requires
        v.identities.contains_key(id),
    ensures
        ({
            let w = with_secret(v, id, secret);
            &&& w.identities.contains_key(id)
            &&& w.identities[id].secret == Some(secret)
            &&& w.identities[id].id == v.identities[id].id
            &&& w.identities[id].user_id == v.identities[id].user_id
            &&& w.identities[id].provider == v.identities[id].provider
            &&& w.identities[id].provider_user_id == v.identities[id].provider_user_id
            &&& w.identities[id].created_at_ms == v.identities[id].created_at_ms
            &&& same_identities_but(v, w, id)
            &&& w.users == v.users && w.organizations == v.organizations && w.memberships
                == v.memberships && w.databases == v.databases && w.oauth_states == v.oauth_states
        }),
{
}

/// Creating a database stores its row under its id; deleting one takes that
/// row away. No other row changes.
pub proof fn law_database_rows(v: RepoView, d: DatabaseView, id: Seq<char>)
    ensures
        ({
            let w = with_database(v, d);
            &&& w.databases.contains_key(d.id) && w.databases[d.id] == d
            &&& same_databases_but(v, w, d.id)
            &&& w.users == v.users && w.identities == v.identities && w.organizations
                == v.organizations && w.memberships == v.memberships && w.oauth_states
                == v.oauth_states
        }),
        ({
            let w = without_database(v, id);
            &&& !w.databases.contains_key(id)
            &&& same_databases_but(v, w, id)
            &&& w.users == v.users && w.identities == v.identities && w.organizations
                == v.organizations && w.memberships == v.memberships && w.oauth_states
                == v.oauth_states
        }),
{
}

/// An OAuth state is stored under its own text and taken away under it; no
/// other row changes.
pub proof fn law_state_rows(v: RepoView, s: OAuthStateView, state: Seq<char>)
    ensures
        ({
            let w = with_state(v, s);
            &&& w.oauth_states.contains_key(s.state) && w.oauth_states[s.state] == s
            &&& same_states_but(v, w, s.state)
            &&& w.users == v.users && w.identities == v.identities && w.organizations
                == v.organizations && w.memberships == v.memberships && w.databases == v.databases
        }),
        ({
            let w = without_state(v, state);
            &&& !w.oauth_states.contains_key(state)
            &&& same_states_but(v, w, state)
            &&& w.users == v.users && w.identities == v.identities && w.organizations
                == v.organizations && w.memberships == v.memberships && w.databases == v.databases
        }),
{
}

/// A stored OAuth state is usable up to its expiry and not after it; one that
/// is not stored never is.
pub proof fn law_state_is_usable_until_it_expires(v: RepoView, state: Seq<char>, now_ms: i64)
    ensures
        usable_state(v, state, now_ms) is Some <==> v.oauth_states.contains_key(state) && now_ms
            <= v.oauth_states[state].expires_at_ms,
        usable_state(v, state, now_ms) matches Some(s) ==> s == v.oauth_states[state],
{
}

/// A signup is refused exactly where some user has the email, whatever its
/// case, and the refusal names it.
pub proof fn law_signup_refused_for_its_email(v: RepoView, email: Seq<char>)
    ensures
        signup_refusal(v, email) is Some <==> exists|id: Seq<char>| #[trigger]
            v.users.contains_key(id) && lowercase_text(v.users[id].email) == lowercase_text(email),
        signup_refusal(v, email) matches Some(e) ==> e == StoreErrorView::AlreadyExists(
            "user with email "@ + email,
        ),
{
    if exists|id: Seq<char>| #[trigger]
        v.users.contains_key(id) && lowercase_text(v.users[id].email) == lowercase_text(email) {
        let id = choose|id: Seq<char>| #[trigger]
            v.users.contains_key(id) && lowercase_text(v.users[id].email) == lowercase_text(email);
        assert(super::repo::has_email(v, id, email));
    }
}

/// A secret is refused exactly where the identity is not there, and an
/// organization exactly where its owner is not.
pub proof fn law_missing_rows_are_refused(v: RepoView, id: Seq<char>)
    ensures
        secret_refusal(v, id) == (if v.identities.contains_key(id) {
            None
        } else {
            Some(StoreErrorView::NotFound("identity "@ + id))
        }),
        owner_refusal(v, id) == (if v.users.contains_key(id) {
            None
        } else {
            Some(StoreErrorView::NotFound("user "@ + id))
        }),
        database_removal_refusal(v, id) == (if v.databases.contains_key(id) {
            None
        } else {
            Some(StoreErrorView::NotFound("database "@ + id))
        }),
{
}

/// An organization can be deleted exactly where it is there, is not personal
/// and no database is its own.
pub proof fn law_organization_removal(v: RepoView, id: Seq<char>)
    ensures
        org_removal_refusal(v, id) is None <==> v.organizations.contains_key(id)
            && !v.organizations[id].personal && forall|d: Seq<char>| #[trigger]
            v.databases.contains_key(d) ==> v.databases[d].org_id != id,
        !v.organizations.contains_key(id) ==> org_removal_refusal(v, id) == Some(
            StoreErrorView::NotFound("organization "@ + id),
        ),
        v.organizations.contains_key(id) && org_removal_refusal(v, id) is Some
            ==> org_removal_refusal(v, id)->0 is Conflict,
{
    if super::repo::has_databases(v, id) {
        let d = choose|d: Seq<char>|
            #![trigger v.databases[d]]
            v.databases.contains_key(d) && v.databases[d].org_id == id;
        assert(v.databases.contains_key(d));
    } else {
        assert forall|d: Seq<char>| #[trigger] v.databases.contains_key(d) implies v.databases[d].org_id
            != id by {
            let row = v.databases[d];
        }
    }
}

/// Joining is refused exactly where the user is a member already.
pub proof fn law_joining_twice_is_refused(v: RepoView, user: Seq<char>, org: Seq<char>)
    ensures
        membership_refusal(v, user, org) is Some <==> v.memberships.contains_key((user, org)),
        membership_refusal(v, user, org) matches Some(e) ==> e == StoreErrorView::AlreadyExists(
            "org membership "@ + user + " -> "@ + org,
        ),
{
}

/// Leaving is refused exactly where the user is no member, or is an admin and
/// nobody else is.
pub proof fn law_leaving(v: RepoView, user: Seq<char>, org: Seq<char>)
    ensures
        !v.memberships.contains_key((user, org)) ==> leaving_refusal(v, user, org) == Some(
            StoreErrorView::NotFound("org membership"@),
        ),
        v.memberships.contains_key((user, org)) ==> (leaving_refusal(v, user, org) is Some <==> {
            &&& v.memberships[(user, org)].role == Role::Admin
            &&& forall|other: Seq<char>|
                other != user && #[trigger] v.memberships.contains_key((other, org))
                    ==> v.memberships[(other, org)].role != Role::Admin
        }),
        v.memberships.contains_key((user, org)) && leaving_refusal(v, user, org) is Some
            ==> leaving_refusal(v, user, org) == Some(
            StoreErrorView::Conflict("cannot remove the last admin of an organization"@),
        ),
{
    let admins = super::repo::admins(v, org);
    if v.memberships.contains_key((user, org)) {
        if super::repo::is_last_admin(v, user, org) {
            assert(admins.contains(user));
            assert forall|other: Seq<char>|
                other != user && #[trigger] v.memberships.contains_key(
                    (other, org),
                ) implies v.memberships[(other, org)].role != Role::Admin by {
                assert(!admins.contains(other));
            }
        } else if v.memberships[(user, org)].role == Role::Admin && forall|other: Seq<char>|
            other != user && #[trigger] v.memberships.contains_key((other, org))
                ==> v.memberships[(other, org)].role != Role::Admin {
            assert(admins =~= set![user]);
        }
    }
}

/// A database is refused exactly where its organization is not there, or has
/// one of that name already.
pub proof fn law_database_refused_for_its_name(v: RepoView, org: Seq<char>, name: Seq<char>)
    ensures
        !v.organizations.contains_key(org) ==> database_refusal(v, org, name) == Some(
            StoreErrorView::NotFound("organization "@ + org),
        ),
        v.organizations.contains_key(org) ==> (database_refusal(v, org, name) is Some <==> exists|
            d: Seq<char>,
        | #[trigger]
            v.databases.contains_key(d) && v.databases[d].org_id == org && v.databases[d].name
                == name),
        v.organizations.contains_key(org) && database_refusal(v, org, name) is Some
            ==> database_refusal(v, org, name) == Some(
            StoreErrorView::AlreadyExists("database '"@ + name + "' in "@ + org),
        ),
{
    if super::repo::name_taken(v, org, name) {
        let d = choose|d: Seq<char>|
            #![trigger v.databases[d]]
            v.databases.contains_key(d) && v.databases[d].org_id == org && v.databases[d].name
                == name;
        assert(v.databases.contains_key(d));
    } else {
        assert forall|d: Seq<char>| #[trigger] v.databases.contains_key(d) implies !(
        v.databases[d].org_id == org && v.databases[d].name == name) by {
            let row = v.databases[d];
        }
    }
}

/// Linking gives an identity of the user at the provider. One that is linked
/// to the user already is given as it is, and nothing changes; a new one is
/// stored with the secret and the time. One that is linked to nobody but
/// another user is a conflict.
pub proof fn law_linked_identity(
    was: RepoView,
    now: RepoView,
    new_id: Seq<char>,
    user: Seq<char>,
    provider: Seq<char>,
    provider_user_id: Seq<char>,
    secret: Option<Seq<char>>,
    now_ms: i64,
    r: StoreResult<Identity>,
)
    requires
        link_outcome(
            was,
            now,
            new_id,
            user,
            provider,
            provider_user_id,
            secret,
            now_ms,
            r,
            true,
        ),
    ensures
        r matches Ok(i) ==> {
            &&& i@.user_id == user
            &&& i@.provider == provider
            &&& i@.provider_user_id == provider_user_id
            &&& now.identities.contains_key(i@.id)
            &&& now.identities[i@.id] == i@
            &&& same_identities_but(was, now, i@.id)
        },
        r matches Ok(i) ==> (identity_linked(was, provider, provider_user_id) ==> now == was),
        r matches Ok(i) ==> (!identity_linked(was, provider, provider_user_id) ==> i@.secret
            == secret && i@.created_at_ms == now_ms && i@.id == new_id),
        now.users == was.users && now.organizations == was.organizations && now.memberships
            == was.memberships && now.databases == was.databases && now.oauth_states
            == was.oauth_states,
        r is Err ==> now == was,
        (forall|id: Seq<char>| #[trigger]
            was.identities.contains_key(id) && was.identities[id].provider == provider
                && was.identities[id].provider_user_id == provider_user_id
                ==> was.identities[id].user_id != user) && identity_linked(
            was,
            provider,
            provider_user_id,
        ) ==> (r matches Err(e) && e@ is Conflict),
{
    if r is Ok && identity_linked(was, provider, provider_user_id) {
        assert(is_identity(was, r->Ok_0@.id, provider, provider_user_id));
    }
}

/// The user's organizations are those that they are a member of, each with
/// their role in it, and the members of an organization those who have a
/// membership of it.
pub proof fn law_memberships_are_listed(
    v: RepoView,
    user: Seq<char>,
    org: Seq<char>,
)
    requires
        v.memberships.contains_key((user, org)),
        v.organizations.contains_key(org),
        v.users.contains_key(user),
    ensures
        is_org_of(v, user, (v.organizations[org], v.memberships[(user, org)].role)),
        is_member_of(v, org, (v.memberships[(user, org)], v.users[user])),
{
    let member = v.memberships[(user, org)];
}

/// Nobody is listed without a membership.
pub proof fn law_listed_is_a_member(
    v: RepoView,
    user: Seq<char>,
    org: Seq<char>,
    row: (OrganizationView, Role),
    member: (OrgMembershipView, UserView),
)
    requires
        keyed(v),
        is_org_of(v, user, row),
        is_member_of(v, org, member),
    ensures
        v.memberships.contains_key((user, row.0.id)),
        v.memberships[(user, row.0.id)].role == row.1,
        v.organizations.contains_key(row.0.id),
        v.organizations[row.0.id] == row.0,
        member.0.org_id == org,
        v.memberships.contains_key((member.1.id, org)),
        v.memberships[(member.1.id, org)] == member.0,
        member.0.user_id == member.1.id,
{
    let o = choose|o: Seq<char>|
        #![trigger v.memberships[(user, o)]]
        v.memberships.contains_key((user, o)) && v.organizations.contains_key(o) && row == (
            v.organizations[o],
            v.memberships[(user, o)].role,
        );
    assert(v.organizations[o].id == o);
    let u = choose|u: Seq<char>|
        #![trigger v.memberships[(u, org)]]
        v.memberships.contains_key((u, org)) && v.users.contains_key(u) && member == (
            v.memberships[(u, org)],
            v.users[u],
        );
    assert(v.users[u].id == u);
    assert(v.memberships[(u, org)].user_id == u);
}

/// Texts are ordered by their first difference, and a text comes before any
/// that goes on from it.
pub proof fn law_text_order(common: Seq<char>, a: char, b: char, x: Seq<char>, y: Seq<char>)
    ensures
        a < b ==> text_le(common.push(a) + x, common.push(b) + y),
        a > b ==> !text_le(common.push(a) + x, common.push(b) + y),
        text_le(common, common + x),
        x.len() > 0 ==> !text_le(common + x, common),
    decreases common.len(),
{
    let l = common.push(a) + x;
    let r = common.push(b) + y;
    if common.len() == 0 {
        assert(l[0] == a && r[0] == b);
    } else {
        let rest = common.skip(1);
        law_text_order(rest, a, b, x, y);
        assert(l.skip(1) =~= rest.push(a) + x);
        assert(r.skip(1) =~= rest.push(b) + y);
        assert(l[0] == r[0]);
        assert((common + x).skip(1) =~= rest + x);
        assert((common + x)[0] == common[0]);
    }
}

/// An operation of a reliable store that draws no id fails with its own
/// refusal alone; any other failure is the backend's.
pub proof fn law_failures(
    e: StoreErrorView,
    refusal: Option<StoreErrorView>,
    reliable: bool,
    draws_id: bool,
)
    requires
        failed_as(e, refusal, reliable, draws_id),
    ensures
        reliable && !draws_id ==> refusal == Some(e),
        reliable && refusal is Some ==> refusal == Some(e),
        refusal != Some(e) ==> e is Backend,
{
}

} // verus!
