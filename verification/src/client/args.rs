//! What the commands are given, and what they ask the server for.

use vstd::prelude::*;

use super::config::resolve_secret;
use crate::shared::domain::enums::Direction;

verus! {

/// The environment var that a password is read from.
pub const PASSWORD_VAR: &'static str = "EDGEREPLICA_PASSWORD";

/// The environment var that a sync token is read from.
pub const SYNC_TOKEN_VAR: &'static str = "EDGEREPLICA_SYNC_TOKEN";

/// The secret of a flag or of an environment var, or that there is none.
pub open spec fn secret_of(
    arg: Option<String>,
    env_value: Option<String>,
    env_var: Seq<char>,
    flag: Seq<char>,
    r: Result<String, String>,
) -> bool {
    match (arg, env_value) {
        (Some(a), _) => r == Ok::<String, String>(a),
        (None, Some(v)) => r == Ok::<String, String>(v),
        (None, None) => r matches Err(e) && e@ == flag + " not provided (use --"@ + flag
            + " or set "@ + env_var + ")"@,
    }
}

#[derive(Debug, PartialEq, Eq)]
pub struct SignupArgs {
    pub email: String,
    /// Reads from `EDGEREPLICA_PASSWORD` if not supplied, keeping the
    /// password out of shell history.
    pub password: Option<String>,
}

impl SignupArgs {
    /// The password to sign up with.
    pub fn resolve(self, env_value: Option<String>) -> (r: Result<String, String>)
        ensures
            secret_of(self.password, env_value, PASSWORD_VAR@, "password"@, r),
    {
        resolve_secret(self.password, env_value, PASSWORD_VAR, "password")
    }
}

#[derive(Debug, PartialEq, Eq)]
pub struct LoginArgs {
    pub email: String,
    pub password: Option<String>,
}

impl LoginArgs {
    /// The password to log in with.
    pub fn resolve(self, env_value: Option<String>) -> (r: Result<String, String>)
        ensures
            secret_of(self.password, env_value, PASSWORD_VAR@, "password"@, r),
    {
        resolve_secret(self.password, env_value, PASSWORD_VAR, "password")
    }
}

#[derive(Debug, PartialEq, Eq)]
pub struct CreateArgs {
    pub name: String,
}

#[derive(Debug, PartialEq, Eq)]
pub struct DeleteArgs {
    pub database_id: String,
}

/// Direction a token authorizes: push (client to server) or pull (server to
/// client).
#[derive(Clone, Copy, Debug, PartialEq, Eq, Structural)]
pub enum TokenDirection {
    Push,
    Pull,
}

impl TokenDirection {
    /// The direction that the server is asked for.
    pub fn direction(self) -> (r: Direction)
        ensures
            r == match self {
                TokenDirection::Push => Direction::Push,
                TokenDirection::Pull => Direction::Pull,
            },
    {
        match self {
            TokenDirection::Push => Direction::Push,
            TokenDirection::Pull => Direction::Pull,
        }
    }
}

#[derive(Debug, PartialEq, Eq)]
pub struct TokenArgs {
    pub database_id: String,
    pub direction: TokenDirection,
    /// Optional override for the issued TTL (capped server-side).
    pub ttl_seconds: Option<i64>,
}

impl TokenArgs {
    /// The lifetime that the server is asked for: zero leaves it to the
    /// server.
    pub fn requested_ttl(&self) -> (r: i64)
        ensures
            r == match self.ttl_seconds {
                Some(t) => t,
                None => 0,
            },
    {
        match self.ttl_seconds {
            Some(t) => t,
            None => 0,
        }
    }
}

#[derive(Debug, PartialEq, Eq)]
pub struct PushArgs {
    /// Path of the local SQLite database to push.
    pub db: String,
    /// Sync token (output of `edgereplica db token --direction push`).
    /// Defaults to `EDGEREPLICA_SYNC_TOKEN`.
    pub token: Option<String>,
}

impl PushArgs {
    /// The token to push with.
    pub fn resolve(self, env_value: Option<String>) -> (r: Result<String, String>)
        ensures
            secret_of(self.token, env_value, SYNC_TOKEN_VAR@, "token"@, r),
    {
        resolve_secret(self.token, env_value, SYNC_TOKEN_VAR, "token")
    }
}

#[derive(Debug, PartialEq, Eq)]
pub struct PullArgs {
    /// Path of the local SQLite database to receive into. Created if missing.
    pub db: String,
    pub token: Option<String>,
}

impl PullArgs {
    /// The token to pull with.
    pub fn resolve(self, env_value: Option<String>) -> (r: Result<String, String>)
        ensures
            secret_of(self.token, env_value, SYNC_TOKEN_VAR@, "token"@, r),
    {
        resolve_secret(self.token, env_value, SYNC_TOKEN_VAR, "token")
    }
}

/// A secret given by a flag is taken, whatever the environment holds; one of
/// the environment is taken where there is no flag; and where there is
/// neither, the complaint names the flag and the var.
pub proof fn law_flag_before_environment(
    a: String,
    v: String,
    env_value: Option<String>,
    env_var: Seq<char>,
    flag: Seq<char>,
    r: Result<String, String>,
)
    ensures
        secret_of(Some(a), env_value, env_var, flag, r) <==> r == Ok::<String, String>(a),
        secret_of(None, Some(v), env_var, flag, r) <==> r == Ok::<String, String>(v),
        secret_of(None, None, env_var, flag, r) <==> r is Err && r->Err_0@ == flag
            + " not provided (use --"@ + flag + " or set "@ + env_var + ")"@,
{
}

} // verus!
