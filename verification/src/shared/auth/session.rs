//! Verified session/sync contexts that the auth middleware attaches to a
//! request for its handlers.

use vstd::prelude::*;

use crate::shared::domain::enums::{Direction, Role};
use crate::shared::domain::ids::{DatabaseId, OrgId, UserId};

verus! {

/// Who a verified session token speaks for.
#[derive(Debug, PartialEq, Eq)]
pub struct SessionContext {
    pub user: UserId,
    pub email: String,
    pub org: OrgId,
    pub role: Role,
    pub exp_unix: i64,
}

/// What a verified sync token allows.
#[derive(Debug, PartialEq, Eq)]
pub struct SyncContext {
    pub user: UserId,
    pub org: OrgId,
    pub database: DatabaseId,
    pub direction: Direction,
    pub exp_unix: i64,
}

/// [`SessionContext`] over characters.
#[verifier::ext_equal]
pub struct SessionView {
    pub user: Seq<char>,
    pub email: Seq<char>,
    pub org: Seq<char>,
    pub role: Role,
    pub exp_unix: i64,
}

/// [`SyncContext`] over characters.
#[verifier::ext_equal]
pub struct SyncView {
    pub user: Seq<char>,
    pub org: Seq<char>,
    pub database: Seq<char>,
    pub direction: Direction,
    pub exp_unix: i64,
}

impl View for SessionContext {
    type V = SessionView;

    open spec fn view(&self) -> SessionView {
        SessionView {
            user: self.user@,
            email: self.email@,
            org: self.org@,
            role: self.role,
            exp_unix: self.exp_unix,
        }
    }
}

impl View for SyncContext {
    type V = SyncView;

    open spec fn view(&self) -> SyncView {
        SyncView {
            user: self.user@,
            org: self.org@,
            database: self.database@,
            direction: self.direction,
            exp_unix: self.exp_unix,
        }
    }
}

impl Clone for SessionContext {
    fn clone(&self) -> (r: Self)
        ensures
            r == *self,
    {
        SessionContext {
            user: self.user.clone(),
            email: self.email.clone(),
            org: self.org.clone(),
            role: self.role,
            exp_unix: self.exp_unix,
        }
    }
}

impl Clone for SyncContext {
    fn clone(&self) -> (r: Self)
        ensures
            r == *self,
    {
        SyncContext {
            user: self.user.clone(),
            org: self.org.clone(),
            database: self.database.clone(),
            direction: self.direction,
            exp_unix: self.exp_unix,
        }
    }
}

} // verus!
