//! Storage-shape entities, decoupled from the wire messages.

use vstd::prelude::*;

use super::enums::Role;
use super::ids::{DatabaseId, IdentityId, OrgId, UserId};
use crate::text::join2;

verus! {

/// Personal organization name derived from a user's email. New users are
/// auto-joined to a personal org so they always have somewhere to put a
/// database without an extra setup step.
pub fn personal_org_name(email: &str) -> (r: String)
    ensures
        r@ == email@ + " (personal)"@,
{
    join2(email, " (personal)")
}

/// A registered user.
#[derive(Debug, PartialEq, Eq)]
pub struct User {
    pub id: UserId,
    pub email: String,
    pub email_verified: bool,
    pub created_at_ms: i64,
}

impl Clone for User {
    fn clone(&self) -> (r: Self)
        ensures
            r == *self,
    {
        User {
            id: self.id.clone(),
            email: self.email.clone(),
            email_verified: self.email_verified,
            created_at_ms: self.created_at_ms,
        }
    }
}

/// A way for a user to prove who they are.
#[derive(Debug, PartialEq, Eq)]
pub struct Identity {
    pub id: IdentityId,
    pub user_id: UserId,
    /// One of `password`, `github`, `google`.
    pub provider: String,
    /// For `password`, the user id (placeholder); for OAuth, the IdP-issued
    /// user id (`sub`).
    pub provider_user_id: String,
    /// Argon2id PHC string for password identities; `None` for OAuth.
    pub secret: Option<String>,
    pub created_at_ms: i64,
}

impl Clone for Identity {
    fn clone(&self) -> (r: Self)
        ensures
            r == *self,
    {
        let secret: Option<String> = match &self.secret {
            Some(v) => Some(v.clone()),
            None => None,
        };
        Identity {
            id: self.id.clone(),
            user_id: self.user_id.clone(),
            provider: self.provider.clone(),
            provider_user_id: self.provider_user_id.clone(),
            secret,
            created_at_ms: self.created_at_ms,
        }
    }
}

/// An organization that owns databases.
#[derive(Debug, PartialEq, Eq)]
pub struct Organization {
    pub id: OrgId,
    pub display_name: String,
    /// True for the auto-created personal org. Personal orgs can't be
    /// deleted independently: they're tied to user lifecycle.
    pub personal: bool,
    pub owner_user_id: Option<UserId>,
    pub created_at_ms: i64,
}

impl Clone for Organization {
    fn clone(&self) -> (r: Self)
        ensures
            r == *self,
    {
        let owner_user_id: Option<UserId> = match &self.owner_user_id {
            Some(v) => Some(v.clone()),
            None => None,
        };
        Organization {
            id: self.id.clone(),
            display_name: self.display_name.clone(),
            personal: self.personal,
            owner_user_id,
            created_at_ms: self.created_at_ms,
        }
    }
}

/// A user's membership of an organization.
#[derive(Debug, PartialEq, Eq)]
pub struct OrgMembership {
    pub user_id: UserId,
    pub org_id: OrgId,
    pub role: Role,
    pub created_at_ms: i64,
}

impl Clone for OrgMembership {
    fn clone(&self) -> (r: Self)
        ensures
            r == *self,
    {
        OrgMembership {
            user_id: self.user_id.clone(),
            org_id: self.org_id.clone(),
            role: self.role,
            created_at_ms: self.created_at_ms,
        }
    }
}

/// A database of an organization.
#[derive(Debug, PartialEq, Eq)]
pub struct Database {
    pub id: DatabaseId,
    pub org_id: OrgId,
    pub name: String,
    pub created_by: UserId,
    pub created_at_ms: i64,
}

impl Clone for Database {
    fn clone(&self) -> (r: Self)
        ensures
            r == *self,
    {
        Database {
            id: self.id.clone(),
            org_id: self.org_id.clone(),
            name: self.name.clone(),
            created_by: self.created_by.clone(),
            created_at_ms: self.created_at_ms,
        }
    }
}

/// CSRF state for an in-flight OAuth round trip. Stored when the flow starts
/// and consumed (single-use) when it completes.
#[derive(Debug, PartialEq, Eq)]
pub struct OAuthState {
    pub state: String,
    /// `github` or `google`.
    pub provider: String,
    pub created_at_ms: i64,
    pub expires_at_ms: i64,
}

impl Clone for OAuthState {
    fn clone(&self) -> (r: Self)
        ensures
            r == *self,
    {
        OAuthState {
            state: self.state.clone(),
            provider: self.provider.clone(),
            created_at_ms: self.created_at_ms,
            expires_at_ms: self.expires_at_ms,
        }
    }
}

/// An id or text that may be missing, over characters.
pub open spec fn opt_chars(s: Option<String>) -> Option<Seq<char>> {
    match s {
        Some(t) => Some(t@),
        None => None,
    }
}

/// [`User`] over characters.
#[verifier::ext_equal]
pub struct UserView {
    pub id: Seq<char>,
    pub email: Seq<char>,
    pub email_verified: bool,
    pub created_at_ms: i64,
}

impl View for User {
    type V = UserView;

    open spec fn view(&self) -> UserView {
        UserView {
            id: self.id@,
            email: self.email@,
            email_verified: self.email_verified,
            created_at_ms: self.created_at_ms,
        }
    }
}

/// [`Identity`] over characters.
#[verifier::ext_equal]
pub struct IdentityView {
    pub id: Seq<char>,
    pub user_id: Seq<char>,
    pub provider: Seq<char>,
    pub provider_user_id: Seq<char>,
    pub secret: Option<Seq<char>>,
    pub created_at_ms: i64,
}

impl View for Identity {
    type V = IdentityView;

    open spec fn view(&self) -> IdentityView {
        IdentityView {
            id: self.id@,
            user_id: self.user_id@,
            provider: self.provider@,
            provider_user_id: self.provider_user_id@,
            secret: opt_chars(self.secret),
            created_at_ms: self.created_at_ms,
        }
    }
}

/// [`Organization`] over characters.
#[verifier::ext_equal]
pub struct OrganizationView {
    pub id: Seq<char>,
    pub display_name: Seq<char>,
    pub personal: bool,
    pub owner_user_id: Option<Seq<char>>,
    pub created_at_ms: i64,
}

impl View for Organization {
    type V = OrganizationView;

    open spec fn view(&self) -> OrganizationView {
        OrganizationView {
            id: self.id@,
            display_name: self.display_name@,
            personal: self.personal,
            owner_user_id: match self.owner_user_id {
                Some(u) => Some(u@),
                None => None,
            },
            created_at_ms: self.created_at_ms,
        }
    }
}

/// [`OrgMembership`] over characters.
#[verifier::ext_equal]
pub struct OrgMembershipView {
    pub user_id: Seq<char>,
    pub org_id: Seq<char>,
    pub role: Role,
    pub created_at_ms: i64,
}

impl View for OrgMembership {
    type V = OrgMembershipView;

    open spec fn view(&self) -> OrgMembershipView {
        OrgMembershipView {
            user_id: self.user_id@,
            org_id: self.org_id@,
            role: self.role,
            created_at_ms: self.created_at_ms,
        }
    }
}

/// [`Database`] over characters.
#[verifier::ext_equal]
pub struct DatabaseView {
    pub id: Seq<char>,
    pub org_id: Seq<char>,
    pub name: Seq<char>,
    pub created_by: Seq<char>,
    pub created_at_ms: i64,
}

impl View for Database {
    type V = DatabaseView;

    open spec fn view(&self) -> DatabaseView {
        DatabaseView {
            id: self.id@,
            org_id: self.org_id@,
            name: self.name@,
            created_by: self.created_by@,
            created_at_ms: self.created_at_ms,
        }
    }
}

/// [`OAuthState`] over characters.
#[verifier::ext_equal]
pub struct OAuthStateView {
    pub state: Seq<char>,
    pub provider: Seq<char>,
    pub created_at_ms: i64,
    pub expires_at_ms: i64,
}

impl View for OAuthState {
    type V = OAuthStateView;

    open spec fn view(&self) -> OAuthStateView {
        OAuthStateView {
            state: self.state@,
            provider: self.provider@,
            created_at_ms: self.created_at_ms,
            expires_at_ms: self.expires_at_ms,
        }
    }
}

} // verus!
