//! Enumerated domain values. Encoded as string constants on the wire and
//! parsed into typed enums at the service boundary.

use std::str::FromStr;
use vstd::prelude::*;

use crate::text::{join2, str_eq};

verus! {

/// A member's role in an organization.
#[derive(Copy, Clone, Debug, PartialEq, Eq, Hash, Structural)]
pub enum Role {
    Admin,
    Member,
}

impl Role {
    /// The wire text of the value.
    pub open spec fn text(self) -> Seq<char> {
        match self {
            Role::Admin => "admin"@,
            Role::Member => "member"@,
        }
    }

    /// The wire text of the value.
    pub fn as_str(&self) -> (r: &'static str)
        ensures
            r@ == self.text(),
    {
        match self {
            Role::Admin => "admin",
            Role::Member => "member",
        }
    }

    /// The value that a text denotes, or the text refused.
    pub open spec fn parsed(s: Seq<char>) -> Result<Role, Seq<char>> {
        if s == "admin"@ {
            Ok(Role::Admin)
        } else if s == "member"@ {
            Ok(Role::Member)
        } else {
            Err("unknown role: "@ + s)
        }
    }

    /// Reads a wire text; any other text is refused, and named in the error.
    pub fn from_str(s: &str) -> (r: Result<Role, String>)
        ensures
            match (Role::parsed(s@), r) {
                (Ok(want), Ok(got)) => want == got,
                (Err(want), Err(got)) => want == got@,
                _ => false,
            },
    {
        if str_eq(s, "admin") {
            Ok(Role::Admin)
        } else if str_eq(s, "member") {
            Ok(Role::Member)
        } else {
            Err(join2("unknown role: ", s))
        }
    }
}

impl FromStr for Role {
    type Err = String;

    fn from_str(s: &str) -> (r: Result<Role, String>)
        ensures
            match (Role::parsed(s@), r) {
                (Ok(want), Ok(got)) => want == got,
                (Err(want), Err(got)) => want == got@,
                _ => false,
            },
    {
        Role::from_str(s)
    }
}

/// Reading a value's wire text gives the value back.
pub proof fn law_role_round_trip(v: Role)
    ensures
        Role::parsed(v.text()) == Ok::<Role, Seq<char>>(v),
{
    reveal_strlit("admin");
    reveal_strlit("member");
    assert("member"@.len() != "admin"@.len());
}

/// Sync direction: a push token can't drive a pull, nor a pull token a push.
#[derive(Copy, Clone, Debug, PartialEq, Eq, Hash, Structural)]
pub enum Direction {
    Push,
    Pull,
}

impl Direction {
    /// The wire text of the value.
    pub open spec fn text(self) -> Seq<char> {
        match self {
            Direction::Push => "push"@,
            Direction::Pull => "pull"@,
        }
    }

    /// The wire text of the value.
    pub fn as_str(&self) -> (r: &'static str)
        ensures
            r@ == self.text(),
    {
        match self {
            Direction::Push => "push",
            Direction::Pull => "pull",
        }
    }

    /// The value that a text denotes, or the text refused.
    pub open spec fn parsed(s: Seq<char>) -> Result<Direction, Seq<char>> {
        if s == "push"@ {
            Ok(Direction::Push)
        } else if s == "pull"@ {
            Ok(Direction::Pull)
        } else {
            Err("unknown direction: "@ + s)
        }
    }

    /// Reads a wire text; any other text is refused, and named in the error.
    pub fn from_str(s: &str) -> (r: Result<Direction, String>)
        ensures
            match (Direction::parsed(s@), r) {
                (Ok(want), Ok(got)) => want == got,
                (Err(want), Err(got)) => want == got@,
                _ => false,
            },
    {
        if str_eq(s, "push") {
            Ok(Direction::Push)
        } else if str_eq(s, "pull") {
            Ok(Direction::Pull)
        } else {
            Err(join2("unknown direction: ", s))
        }
    }
}

impl FromStr for Direction {
    type Err = String;

    fn from_str(s: &str) -> (r: Result<Direction, String>)
        ensures
            match (Direction::parsed(s@), r) {
                (Ok(want), Ok(got)) => want == got,
                (Err(want), Err(got)) => want == got@,
                _ => false,
            },
    {
        Direction::from_str(s)
    }
}

/// Reading a value's wire text gives the value back.
pub proof fn law_direction_round_trip(v: Direction)
    ensures
        Direction::parsed(v.text()) == Ok::<Direction, Seq<char>>(v),
{
    reveal_strlit("push");
    reveal_strlit("pull");
    assert("pull"@[2] != "push"@[2]);
}

/// Identity provider tag stored on an identity.
#[derive(Copy, Clone, Debug, PartialEq, Eq, Hash, Structural)]
pub enum IdentityProvider {
    Password,
    GitHub,
    Google,
}

impl IdentityProvider {
    pub const PASSWORD: &'static str = "password";

    pub const GITHUB: &'static str = "github";

    pub const GOOGLE: &'static str = "google";

    /// The wire text of the value.
    pub open spec fn text(self) -> Seq<char> {
        match self {
            IdentityProvider::Password => "password"@,
            IdentityProvider::GitHub => "github"@,
            IdentityProvider::Google => "google"@,
        }
    }

    /// The wire text of the value.
    pub fn as_str(&self) -> (r: &'static str)
        ensures
            r@ == self.text(),
    {
        match self {
            IdentityProvider::Password => "password",
            IdentityProvider::GitHub => "github",
            IdentityProvider::Google => "google",
        }
    }

    /// The value that a text denotes, or the text refused.
    pub open spec fn parsed(s: Seq<char>) -> Result<IdentityProvider, Seq<char>> {
        if s == "password"@ {
            Ok(IdentityProvider::Password)
        } else if s == "github"@ {
            Ok(IdentityProvider::GitHub)
        } else if s == "google"@ {
            Ok(IdentityProvider::Google)
        } else {
            Err("unknown identity provider: "@ + s)
        }
    }

    /// Reads a wire text; any other text is refused, and named in the error.
    pub fn from_str(s: &str) -> (r: Result<IdentityProvider, String>)
        ensures
            match (IdentityProvider::parsed(s@), r) {
                (Ok(want), Ok(got)) => want == got,
                (Err(want), Err(got)) => want == got@,
                _ => false,
            },
    {
        if str_eq(s, "password") {
            Ok(IdentityProvider::Password)
        } else if str_eq(s, "github") {
            Ok(IdentityProvider::GitHub)
        } else if str_eq(s, "google") {
            Ok(IdentityProvider::Google)
        } else {
            Err(join2("unknown identity provider: ", s))
        }
    }
}

impl FromStr for IdentityProvider {
    type Err = String;

    fn from_str(s: &str) -> (r: Result<IdentityProvider, String>)
        ensures
            match (IdentityProvider::parsed(s@), r) {
                (Ok(want), Ok(got)) => want == got,
                (Err(want), Err(got)) => want == got@,
                _ => false,
            },
    {
        IdentityProvider::from_str(s)
    }
}

/// Reading a value's wire text gives the value back.
pub proof fn law_identity_provider_round_trip(v: IdentityProvider)
    ensures
        IdentityProvider::parsed(v.text()) == Ok::<IdentityProvider, Seq<char>>(v),
{
    reveal_strlit("password");
    reveal_strlit("github");
    reveal_strlit("google");
    assert("github"@.len() != "password"@.len());
    assert("google"@.len() != "password"@.len());
    assert("google"@[1] != "github"@[1]);
}

/// What a token is for. Verification rejects a token whose purpose is not
/// the expected one.
#[derive(Copy, Clone, Debug, PartialEq, Eq, Hash, Structural)]
pub enum TokenPurpose {
    Session,
    Sync,
}

impl TokenPurpose {
    /// The wire text of the value.
    pub open spec fn text(self) -> Seq<char> {
        match self {
            TokenPurpose::Session => "session"@,
            TokenPurpose::Sync => "sync"@,
        }
    }

    /// The wire text of the value.
    pub fn as_str(&self) -> (r: &'static str)
        ensures
            r@ == self.text(),
    {
        match self {
            TokenPurpose::Session => "session",
            TokenPurpose::Sync => "sync",
        }
    }
}

/// The two purposes have different wire texts.
pub proof fn law_purposes_differ()
    ensures
        TokenPurpose::Session.text() != TokenPurpose::Sync.text(),
{
    reveal_strlit("session");
    reveal_strlit("sync");
    assert("session"@.len() != "sync"@.len());
}

} // verus!
