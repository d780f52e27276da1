//! What every sequence of storage operations keeps.

use vstd::prelude::*;

use super::domain::entities::{DatabaseView, OAuthStateView};
use super::domain::enums::Role;
use super::repo::{
    admins, database_refusal, has_email, is_identity, is_last_admin, is_org_of, leaving_refusal,
    org_removal_refusal, signed_up, signup_refusal, usable_state, with_database, with_membership,
    with_organization, with_state, without_membership, without_organization, without_state,
    RepoView, SignupIds,
};

verus! {

/// Whether no two users have the same email, but for case.
pub open spec fn unique_emails(v: RepoView) -> bool {
    forall|a: Seq<char>, b: Seq<char>, email: Seq<char>| #[trigger]
        has_email(v, a, email) && #[trigger] has_email(v, b, email) ==> a == b
}

/// Emails stay unique, but for case, over every signup that is not refused.
pub proof fn law_emails_stay_unique(
    v: RepoView,
    ids: SignupIds,
    email: Seq<char>,
    email_verified: bool,
    provider: Seq<char>,
    provider_user_id: Seq<char>,
    secret: Option<Seq<char>>,
    now_ms: i64,
)
    requires
        unique_emails(v),
        signup_refusal(v, email) is None,
    ensures
        unique_emails(
            signed_up(
                v,
                ids,
                email,
                email_verified,
                provider,
                provider_user_id,
                secret,
                now_ms,
            ),
        ),
{
    let w = signed_up(
        v,
        ids,
        email,
        email_verified,
        provider,
        provider_user_id,
        secret,
        now_ms,
    );
    assert forall|a: Seq<char>, b: Seq<char>, e: Seq<char>| #[trigger]
        has_email(w, a, e) && #[trigger] has_email(w, b, e) implies a == b by {
        if a != ids.user && b != ids.user {
            assert(has_email(v, a, e) && has_email(v, b, e));
        } else if a != ids.user {
            assert(has_email(v, a, email));
        } else if b != ids.user {
            assert(has_email(v, b, email));
        }
    }
}

/// A second signup under the same email, in whatever case, is refused.
pub proof fn law_second_signup_refused(
    v: RepoView,
    ids: SignupIds,
    email: Seq<char>,
    email_verified: bool,
    provider: Seq<char>,
    provider_user_id: Seq<char>,
    secret: Option<Seq<char>>,
    now_ms: i64,
    again: Seq<char>,
)
    requires
        crate::text::lowercase_text(again) == crate::text::lowercase_text(email),
    ensures
        signup_refusal(
            signed_up(
                v,
                ids,
                email,
                email_verified,
                provider,
                provider_user_id,
                secret,
                now_ms,
            ),
            again,
        ) is Some,
{
    let w = signed_up(
        v,
        ids,
        email,
        email_verified,
        provider,
        provider_user_id,
        secret,
        now_ms,
    );
    assert(has_email(w, ids.user, again));
}

/// Signing up leaves the user with their identity and with a personal
/// organization of which they are an admin.
pub proof fn law_signup_is_whole(
    v: RepoView,
    ids: SignupIds,
    email: Seq<char>,
    email_verified: bool,
    provider: Seq<char>,
    provider_user_id: Seq<char>,
    secret: Option<Seq<char>>,
    now_ms: i64,
)
    ensures
        ({
            let w = signed_up(
                v,
                ids,
                email,
                email_verified,
                provider,
                provider_user_id,
                secret,
                now_ms,
            );
            &&& has_email(w, ids.user, email)
            &&& is_identity(w, ids.identity, provider, provider_user_id)
            &&& w.identities[ids.identity].user_id == ids.user
            &&& w.organizations[ids.org].personal
            &&& w.organizations[ids.org].owner_user_id == Some(ids.user)
            &&& is_org_of(w, ids.user, (w.organizations[ids.org], Role::Admin))
        }),
{
    let w = signed_up(
        v,
        ids,
        email,
        email_verified,
        provider,
        provider_user_id,
        secret,
        now_ms,
    );
    assert(w.memberships.contains_key((ids.user, ids.org)));
    assert(w.memberships[(ids.user, ids.org)].role == Role::Admin);
}

/// Signing up with ids that no row has overwrites nothing: every row that was
/// there stays as it was.
pub proof fn law_signup_keeps_rows(
    v: RepoView,
    ids: SignupIds,
    email: Seq<char>,
    email_verified: bool,
    provider: Seq<char>,
    provider_user_id: Seq<char>,
    secret: Option<Seq<char>>,
    now_ms: i64,
    id: Seq<char>,
)
    requires
        !v.users.contains_key(ids.user),
        !v.identities.contains_key(ids.identity),
        !v.organizations.contains_key(ids.org),
    ensures
        ({
            let w = signed_up(
                v,
                ids,
                email,
                email_verified,
                provider,
                provider_user_id,
                secret,
                now_ms,
            );
            &&& v.users.contains_key(id) ==> w.users.contains_key(id) && w.users[id] == v.users[id]
            &&& v.identities.contains_key(id) ==> w.identities.contains_key(id) && w.identities[id]
                == v.identities[id]
            &&& v.organizations.contains_key(id) ==> w.organizations.contains_key(id)
                && w.organizations[id] == v.organizations[id]
            &&& w.databases == v.databases
            &&& w.oauth_states == v.oauth_states
        }),
{
}

/// Whether the databases of each organization have different names.
pub open spec fn unique_names(v: RepoView) -> bool {
    forall|a: Seq<char>, b: Seq<char>|
        #![trigger v.databases[a], v.databases[b]]
        v.databases.contains_key(a) && v.databases.contains_key(b) && v.databases[a].org_id
            == v.databases[b].org_id && v.databases[a].name == v.databases[b].name ==> a == b
}

/// Database names stay unique in each organization over every creation that
/// is not refused.
pub proof fn law_names_stay_unique(v: RepoView, d: DatabaseView)
    requires
        unique_names(v),
        database_refusal(v, d.org_id, d.name) is None,
    ensures
        unique_names(with_database(v, d)),
{
    let w = with_database(v, d);
    assert forall|a: Seq<char>, b: Seq<char>|
        #![trigger w.databases[a], w.databases[b]]
        w.databases.contains_key(a) && w.databases.contains_key(b) && w.databases[a].org_id
            == w.databases[b].org_id && w.databases[a].name == w.databases[b].name implies a
        == b by {
        if a != d.id && b != d.id {
            assert(v.databases[a] == w.databases[a] && v.databases[b] == w.databases[b]);
        } else if a != d.id {
            assert(v.databases[a].name == d.name);
        } else if b != d.id {
            assert(v.databases[b].name == d.name);
        }
    }
}

/// A second database of the same name in an organization is refused.
pub proof fn law_second_name_refused(v: RepoView, d: DatabaseView)
    ensures
        database_refusal(with_database(v, d), d.org_id, d.name) is Some,
{
    let w = with_database(v, d);
    assert(w.databases.contains_key(d.id) && w.databases[d.id] == d);
}

/// Whether every organization has an admin.
pub open spec fn administered(v: RepoView) -> bool {
    forall|org: Seq<char>| #[trigger]
        v.organizations.contains_key(org) ==> exists|u: Seq<char>| #[trigger]
            admins(v, org).contains(u)
}

proof fn lemma_admins_grow(v: RepoView, w: RepoView)
    requires
        administered(v),
        forall|org: Seq<char>, u: Seq<char>| #[trigger]
            admins(v, org).contains(u) ==> admins(w, org).contains(u),
        forall|org: Seq<char>| #[trigger]
            w.organizations.contains_key(org) ==> v.organizations.contains_key(org) || exists|
                u: Seq<char>,
            | #[trigger]
                admins(w, org).contains(u),
    ensures
        administered(w),
{
    assert forall|org: Seq<char>| #[trigger]
        w.organizations.contains_key(org) implies exists|u: Seq<char>| #[trigger]
        admins(w, org).contains(u) by {
        if v.organizations.contains_key(org) {
            let u = choose|u: Seq<char>| #[trigger] admins(v, org).contains(u);
            assert(admins(w, org).contains(u));
        }
    }
}

/// Signing up and creating an organization leave every organization with an
/// admin.
pub proof fn law_new_organizations_are_administered(
    v: RepoView,
    ids: SignupIds,
    email: Seq<char>,
    email_verified: bool,
    provider: Seq<char>,
    provider_user_id: Seq<char>,
    secret: Option<Seq<char>>,
    display_name: Seq<char>,
    now_ms: i64,
)
    requires
        administered(v),
    ensures
        administered(
            signed_up(
                v,
                ids,
                email,
                email_verified,
                provider,
                provider_user_id,
                secret,
                now_ms,
            ),
        ),
        administered(with_organization(v, ids.org, display_name, ids.user, now_ms)),
{
    let w = signed_up(
        v,
        ids,
        email,
        email_verified,
        provider,
        provider_user_id,
        secret,
        now_ms,
    );
    assert(admins(w, ids.org).contains(ids.user));
    lemma_admins_grow(v, w);
    let x = with_organization(v, ids.org, display_name, ids.user, now_ms);
    assert(admins(x, ids.org).contains(ids.user));
    lemma_admins_grow(v, x);
}

/// Joining, and leaving where it is not refused, leave every organization
/// with an admin.
pub proof fn law_membership_changes_keep_an_admin(
    v: RepoView,
    user: Seq<char>,
    org: Seq<char>,
    role: Role,
    now_ms: i64,
)
    requires
        administered(v),
    ensures
        !v.memberships.contains_key((user, org)) ==> administered(
            with_membership(v, user, org, role, now_ms),
        ),
        leaving_refusal(v, user, org) is None ==> administered(without_membership(v, user, org)),
{
    if !v.memberships.contains_key((user, org)) {
        lemma_admins_grow(v, with_membership(v, user, org, role, now_ms));
    }
    if leaving_refusal(v, user, org) is None {
        let w = without_membership(v, user, org);
        assert forall|o: Seq<char>| #[trigger]
            w.organizations.contains_key(o) implies exists|u: Seq<char>| #[trigger]
            admins(w, o).contains(u) by {
            assert(v.organizations.contains_key(o));
            let u = choose|u: Seq<char>| #[trigger] admins(v, o).contains(u);
            if o != org || u != user {
                assert(admins(w, o).contains(u));
            } else if forall|x: Seq<char>| #[trigger] admins(v, o).contains(x) ==> x == user {
                assert(admins(v, o) =~= set![user]);
            } else {
                let x = choose|x: Seq<char>| #[trigger] admins(v, o).contains(x) && x != user;
                assert(admins(w, o).contains(x));
            }
        }
    }
}

/// Deleting an organization leaves the others with their admins, and leaves
/// no membership of it.
pub proof fn law_deleting_keeps_the_others_administered(v: RepoView, org: Seq<char>)
    requires
        administered(v),
    ensures
        administered(without_organization(v, org)),
        admins(without_organization(v, org), org).is_empty(),
{
    let w = without_organization(v, org);
    assert forall|o: Seq<char>| #[trigger]
        w.organizations.contains_key(o) implies exists|u: Seq<char>| #[trigger]
        admins(w, o).contains(u) by {
        assert(v.organizations.contains_key(o));
        let u = choose|u: Seq<char>| #[trigger] admins(v, o).contains(u);
        assert(admins(w, o).contains(u));
    }
    assert(admins(w, org) =~= Set::empty());
}

/// The last admin of an organization cannot leave it.
pub proof fn law_last_admin_stays(v: RepoView, user: Seq<char>, org: Seq<char>)
    requires
        is_last_admin(v, user, org),
    ensures
        leaving_refusal(v, user, org) is Some,
{
}

/// A personal organization is never deleted on its own.
pub proof fn law_personal_organization_stays(v: RepoView, org: Seq<char>)
    requires
        v.organizations.contains_key(org),
        v.organizations[org].personal,
    ensures
        org_removal_refusal(v, org) is Some,
{
}

/// An organization is not deleted while it has a database.
pub proof fn law_organization_with_databases_stays(v: RepoView, d: DatabaseView)
    ensures
        org_removal_refusal(with_database(v, d), d.org_id) is Some,
{
    let w = with_database(v, d);
    assert(w.databases.contains_key(d.id) && w.databases[d.id].org_id == d.org_id);
}

/// An OAuth state that was stored is usable once, until its time is past.
pub proof fn law_state_is_single_use(v: RepoView, s: OAuthStateView, now_ms: i64, later_ms: i64)
    ensures
        usable_state(with_state(v, s), s.state, now_ms) == (if s.expires_at_ms < now_ms {
            None
        } else {
            Some(s)
        }),
        usable_state(without_state(with_state(v, s), s.state), s.state, later_ms) is None,
{
}

} // verus!
