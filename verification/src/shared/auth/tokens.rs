//! Mint / verify the two macaroon kinds.
//!
//! All tokens carry:
//!   - `purpose=<session|sync>`
//!   - `exp=<unix_seconds>`
//!
//! Session tokens additionally carry `user`, `email`, `org`, `role`. Sync
//! tokens carry `user`, `org`, `database`, `direction=push|pull`.
//!
//! Verification is pure: the caveats of the token are all it reads.

use vstd::prelude::*;
use vstd::utf8::{decode_utf8, encode_utf8, valid_utf8};

use super::keyring::Keyring;
use super::session::{SessionContext, SessionView, SyncContext, SyncView};
use crate::macaroon::{
    caveat_views, caveats, contents, decoded_macaroon, deserialize, exp_caveat, exp_predicate,
    fault_outcome, mint, mint_fault, minted, predicates_of, verification, verify, CaveatPolicy,
    Contents, FaultView, MacaroonFault,
};
use crate::shared::domain::enums::{Direction, Role, TokenPurpose};
use crate::shared::domain::ids::{DatabaseId, OrgId, UserId};
use crate::text::{
    after_prefix, join2, join3, parse_i64, parsed_i64, str_eq, strip_prefix, utf8_text,
};

verus! {

/// Why a token is not accepted.
#[derive(Debug, PartialEq, Eq)]
pub enum TokenError {
    Malformed(String),
    Expired,
    InvalidSignature,
    WrongPurpose { expected: TokenPurpose, found: String },
    MissingCaveat(&'static str),
    InvalidCaveat(String),
}

/// [`TokenError`] over characters.
pub enum TokenErrorView {
    Malformed(Seq<char>),
    Expired,
    InvalidSignature,
    WrongPurpose { expected: TokenPurpose, found: Seq<char> },
    MissingCaveat(Seq<char>),
    InvalidCaveat(Seq<char>),
}

impl View for TokenError {
    type V = TokenErrorView;

    open spec fn view(&self) -> TokenErrorView {
        match self {
            TokenError::Malformed(s) => TokenErrorView::Malformed(s@),
            TokenError::Expired => TokenErrorView::Expired,
            TokenError::InvalidSignature => TokenErrorView::InvalidSignature,
            TokenError::WrongPurpose { expected, found } => TokenErrorView::WrongPurpose {
                expected: *expected,
                found: found@,
            },
            TokenError::MissingCaveat(s) => TokenErrorView::MissingCaveat(s@),
            TokenError::InvalidCaveat(s) => TokenErrorView::InvalidCaveat(s@),
        }
    }
}

/// The error that a macaroon fault becomes.
pub open spec fn error_of_fault(f: FaultView) -> TokenErrorView {
    match f {
        FaultView::InvalidSignature => TokenErrorView::InvalidSignature,
        FaultView::CaveatNotSatisfied(s) => TokenErrorView::InvalidCaveat(s),
        FaultView::Deserialization(s) => TokenErrorView::Malformed(s),
        FaultView::Other(s) => TokenErrorView::Malformed(s),
    }
}

impl TokenError {
    /// The error that a macaroon fault becomes.
    pub fn from_fault(f: MacaroonFault) -> (r: TokenError)
        ensures
            r@ == error_of_fault(f@),
    {
        match f {
            MacaroonFault::InvalidSignature => TokenError::InvalidSignature,
            MacaroonFault::CaveatNotSatisfied(s) => TokenError::InvalidCaveat(s),
            MacaroonFault::Deserialization(s) => TokenError::Malformed(s),
            MacaroonFault::Other(s) => TokenError::Malformed(s),
        }
    }

    /// The message of the error.
    pub open spec fn text(self) -> Seq<char> {
        match self {
            TokenError::Malformed(s) => "malformed token: "@ + s@,
            TokenError::Expired => "token expired"@,
            TokenError::InvalidSignature => "invalid signature"@,
            TokenError::WrongPurpose { expected, found } => "wrong token purpose: expected "@
                + expected.text() + ", got "@ + found@,
            TokenError::MissingCaveat(s) => "missing caveat: "@ + s@,
            TokenError::InvalidCaveat(s) => "invalid caveat: "@ + s@,
        }
    }

    /// The message of the error.
    pub fn to_string(&self) -> (r: String)
        ensures
            r@ == self.text(),
    {
        match self {
            TokenError::Malformed(s) => join2("malformed token: ", s.as_str()),
            TokenError::Expired => "token expired".to_owned(),
            TokenError::InvalidSignature => "invalid signature".to_owned(),
            TokenError::WrongPurpose { expected, found } => join3(
                join2("wrong token purpose: expected ", expected.as_str()).as_str(),
                ", got ",
                found.as_str(),
            ),
            TokenError::MissingCaveat(s) => join2("missing caveat: ", s),
            TokenError::InvalidCaveat(s) => join2("invalid caveat: ", s.as_str()),
        }
    }
}

// ---------- caveats ----------

/// The value of a caveat that begins with `prefix`, where it is text.
pub open spec fn caveat_value(c: Option<Seq<u8>>, prefix: Seq<char>) -> Option<Seq<char>> {
    match c {
        Some(p) => if valid_utf8(p) {
            after_prefix(decode_utf8(p), prefix)
        } else {
            None
        },
        None => None,
    }
}

fn parse_caveat(c: &Option<Vec<u8>>, prefix: &str) -> (r: Option<String>)
    ensures
        match (caveat_value(caveat_bytes(*c), prefix@), r) {
            (Some(want), Some(got)) => got@ == want,
            (None, None) => true,
            _ => false,
        },
{
    match c {
        Some(p) => match utf8_text(p.as_slice()) {
            Some(t) => strip_prefix(t.as_str(), prefix),
            None => None,
        },
        None => None,
    }
}

/// The predicate of a caveat, over bytes.
pub open spec fn caveat_bytes(c: Option<Vec<u8>>) -> Option<Seq<u8>> {
    match c {
        Some(p) => Some(p@),
        None => None,
    }
}

/// What the caveats of a token say. A later caveat overrides an earlier one.
#[verifier::ext_equal]
pub struct FieldsView {
    pub purpose: Option<Seq<char>>,
    pub user: Option<Seq<char>>,
    pub email: Option<Seq<char>>,
    pub org: Option<Seq<char>>,
    pub role: Option<Role>,
    pub database: Option<Seq<char>>,
    pub direction: Option<Direction>,
    pub exp_unix: Option<i64>,
}

pub open spec fn no_fields() -> FieldsView {
    FieldsView {
        purpose: None,
        user: None,
        email: None,
        org: None,
        role: None,
        database: None,
        direction: None,
        exp_unix: None,
    }
}

/// What one more caveat adds. A session reads `email` and `role`, a sync
/// token `database` and `direction`; a caveat that is neither is passed over.
pub open spec fn with_caveat(kind: TokenPurpose, f: FieldsView, c: Option<Seq<u8>>) -> Result<
    FieldsView,
    TokenErrorView,
> {
    if let Some(v) = caveat_value(c, "purpose="@) {
        Ok(FieldsView { purpose: Some(v), ..f })
    } else if let Some(v) = caveat_value(c, "user="@) {
        Ok(FieldsView { user: Some(v), ..f })
    } else if kind == TokenPurpose::Session && caveat_value(c, "email="@) is Some {
        Ok(FieldsView { email: caveat_value(c, "email="@), ..f })
    } else if let Some(v) = caveat_value(c, "org="@) {
        Ok(FieldsView { org: Some(v), ..f })
    } else if kind == TokenPurpose::Session && caveat_value(c, "role="@) is Some {
        match Role::parsed(caveat_value(c, "role="@)->0) {
            Ok(role) => Ok(FieldsView { role: Some(role), ..f }),
            Err(e) => Err(TokenErrorView::InvalidCaveat(e)),
        }
    } else if kind == TokenPurpose::Sync && caveat_value(c, "database="@) is Some {
        Ok(FieldsView { database: caveat_value(c, "database="@), ..f })
    } else if kind == TokenPurpose::Sync && caveat_value(c, "direction="@) is Some {
        match Direction::parsed(caveat_value(c, "direction="@)->0) {
            Ok(direction) => Ok(FieldsView { direction: Some(direction), ..f }),
            Err(e) => Err(TokenErrorView::InvalidCaveat(e)),
        }
    } else if let Some(v) = caveat_value(c, "exp="@) {
        match parsed_i64(v) {
            Some(when) => Ok(FieldsView { exp_unix: Some(when), ..f }),
            None => Err(TokenErrorView::InvalidCaveat("exp="@ + v)),
        }
    } else {
        Ok(f)
    }
}

/// What the caveats say, read in order up to the first that cannot be read.
pub open spec fn fields(kind: TokenPurpose, cs: Seq<Option<Seq<u8>>>) -> Result<
    FieldsView,
    TokenErrorView,
>
    decreases cs.len(),
{
    if cs.len() == 0 {
        Ok(no_fields())
    } else {
        match fields(kind, cs.drop_last()) {
            Ok(f) => with_caveat(kind, f, cs.last()),
            Err(e) => Err(e),
        }
    }
}

struct Fields {
    purpose: Option<String>,
    user: Option<String>,
    email: Option<String>,
    org: Option<String>,
    role: Option<Role>,
    database: Option<String>,
    direction: Option<Direction>,
    exp_unix: Option<i64>,
}

spec fn text_view(s: Option<String>) -> Option<Seq<char>> {
    match s {
        Some(t) => Some(t@),
        None => None,
    }
}

spec fn fields_view(f: Fields) -> FieldsView {
    FieldsView {
        purpose: text_view(f.purpose),
        user: text_view(f.user),
        email: text_view(f.email),
        org: text_view(f.org),
        role: f.role,
        database: text_view(f.database),
        direction: f.direction,
        exp_unix: f.exp_unix,
    }
}

fn add_caveat(kind: TokenPurpose, f: &mut Fields, c: &Option<Vec<u8>>) -> (r: Result<
    (),
    TokenError,
>)
    ensures
        match (with_caveat(kind, fields_view(*old(f)), caveat_bytes(*c)), r) {
            (Ok(want), Ok(())) => fields_view(*final(f)) == want,
            (Err(want), Err(got)) => got@ == want,
            _ => false,
        },
{
    if let Some(v) = parse_caveat(c, "purpose=") {
        f.purpose = Some(v);
        return Ok(());
    }
    if let Some(v) = parse_caveat(c, "user=") {
        f.user = Some(v);
        return Ok(());
    }
    if kind == TokenPurpose::Session {
        if let Some(v) = parse_caveat(c, "email=") {
            f.email = Some(v);
            return Ok(());
        }
    }
    if let Some(v) = parse_caveat(c, "org=") {
        f.org = Some(v);
        return Ok(());
    }
    if kind == TokenPurpose::Session {
        if let Some(v) = parse_caveat(c, "role=") {
            match Role::from_str(v.as_str()) {
                Ok(role) => {
                    f.role = Some(role);
                },
                Err(e) => {
                    return Err(TokenError::InvalidCaveat(e));
                },
            }
            return Ok(());
        }
    }
    if kind == TokenPurpose::Sync {
        if let Some(v) = parse_caveat(c, "database=") {
            f.database = Some(v);
            return Ok(());
        }
        if let Some(v) = parse_caveat(c, "direction=") {
            match Direction::from_str(v.as_str()) {
                Ok(direction) => {
                    f.direction = Some(direction);
                },
                Err(e) => {
                    return Err(TokenError::InvalidCaveat(e));
                },
            }
            return Ok(());
        }
    }
    if let Some(v) = parse_caveat(c, "exp=") {
        match parse_i64(v.as_str()) {
            Some(when) => {
                f.exp_unix = Some(when);
            },
            None => {
                return Err(TokenError::InvalidCaveat(join2("exp=", v.as_str())));
            },
        }
    }
    Ok(())
}

fn read_fields(kind: TokenPurpose, cs: &Vec<Option<Vec<u8>>>) -> (r: Result<Fields, TokenError>)
    ensures
        match (fields(kind, caveat_views(cs@)), r) {
            (Ok(want), Ok(got)) => fields_view(got) == want,
            (Err(want), Err(got)) => got@ == want,
            _ => false,
        },
{
    let ghost all = caveat_views(cs@);
    let mut f: Fields = Fields {
        purpose: None,
        user: None,
        email: None,
        org: None,
        role: None,
        database: None,
        direction: None,
        exp_unix: None,
    };
    assert(all.take(0) =~= Seq::<Option<Seq<u8>>>::empty());
    assert(fields_view(f) =~= no_fields());
    let mut i: usize = 0;
    while i < cs.len()
        invariant
            i <= cs.len(),
            all == caveat_views(cs@),
            fields(kind, all.take(i as int)) == Ok::<FieldsView, TokenErrorView>(fields_view(f)),
        decreases cs.len() - i,
    {
        proof {
            assert(all.take(i + 1).drop_last() =~= all.take(i as int));
            assert(all.take(i + 1).last() == caveat_bytes(cs@[i as int]));
        }
        match add_caveat(kind, &mut f, &cs[i]) {
            Ok(()) => {},
            Err(e) => {
                proof {
                    lemma_fields_prefix(kind, all, i + 1);
                }
                return Err(e);
            },
        }
        i = i + 1;
    }
    assert(all.take(i as int) =~= all);
    Ok(f)
}

proof fn lemma_fields_prefix(kind: TokenPurpose, all: Seq<Option<Seq<u8>>>, n: int)
    requires
        0 <= n <= all.len(),
        fields(kind, all.take(n)) is Err,
    ensures
        fields(kind, all) == fields(kind, all.take(n)),
    decreases all.len(),
{
    if n == all.len() {
        assert(all.take(n) =~= all);
    } else {
        assert(all.drop_last().take(n) =~= all.take(n));
        lemma_fields_prefix(kind, all.drop_last(), n);
    }
}

// ---------- sessions ----------

/// The session that caveats describe, or the first thing wrong with them.
pub open spec fn session_of(cs: Seq<Option<Seq<u8>>>) -> Result<SessionView, TokenErrorView> {
    match fields(TokenPurpose::Session, cs) {
        Err(e) => Err(e),
        Ok(f) => if f.purpose is None {
            Err(TokenErrorView::MissingCaveat("purpose"@))
        } else if f.purpose->0 != TokenPurpose::Session.text() {
            Err(
                TokenErrorView::WrongPurpose {
                    expected: TokenPurpose::Session,
                    found: f.purpose->0,
                },
            )
        } else if f.user is None {
            Err(TokenErrorView::MissingCaveat("user"@))
        } else if f.email is None {
            Err(TokenErrorView::MissingCaveat("email"@))
        } else if f.org is None {
            Err(TokenErrorView::MissingCaveat("org"@))
        } else if f.role is None {
            Err(TokenErrorView::MissingCaveat("role"@))
        } else if f.exp_unix is None {
            Err(TokenErrorView::MissingCaveat("exp"@))
        } else {
            Ok(
                SessionView {
                    user: f.user->0,
                    email: f.email->0,
                    org: f.org->0,
                    role: f.role->0,
                    exp_unix: f.exp_unix->0,
                },
            )
        },
    }
}

/// Which outcomes verifying a session token may have: the token is decoded,
/// its caveats and signature are checked, and only then is it read.
pub open spec fn session_outcome(
    key: Seq<u8>,
    now_unix: i64,
    token: Seq<char>,
    r: Result<SessionView, TokenErrorView>,
) -> bool {
    match decoded_macaroon(token) {
        Err(f) => r == Err::<SessionView, TokenErrorView>(error_of_fault(f)),
        Ok(c) => exists|v: Result<(), FaultView>| #[trigger]
            verification(CaveatPolicy::Session { now_unix }, key, c, v) && match v {
                Err(f) => r == Err::<SessionView, TokenErrorView>(error_of_fault(f)),
                Ok(()) => r == session_of(c.caveats),
            },
    }
}

/// What a session token is minted from.
#[derive(Clone, Copy, Debug)]
pub struct MintSessionInput<'a> {
    pub user_id: &'a UserId,
    pub email: &'a str,
    pub org: &'a OrgId,
    pub role: Role,
    pub now_unix: i64,
    pub ttl_seconds: i64,
}

/// The caveats of a session token.
pub open spec fn session_predicates(s: SessionView) -> Seq<Seq<u8>> {
    seq![
        encode_utf8("purpose="@ + TokenPurpose::Session.text()),
        encode_utf8("user="@ + s.user),
        encode_utf8("email="@ + s.email),
        encode_utf8("org="@ + s.org),
        encode_utf8("role="@ + s.role.text()),
        exp_predicate(s.exp_unix as int),
    ]
}

/// The identifier of a session token.
pub open spec fn session_identifier(s: SessionView) -> Seq<u8> {
    encode_utf8("session:"@ + s.user)
}

/// The session that an input asks for.
pub open spec fn session_asked(input: MintSessionInput<'_>) -> SessionView {
    SessionView {
        user: input.user_id@,
        email: input.email@,
        org: input.org@,
        role: input.role,
        exp_unix: (input.now_unix + input.ttl_seconds) as i64,
    }
}

/// Whether `token` is a session token that the holder of `key` minted for `s`.
pub open spec fn session_token(key: Seq<u8>, s: SessionView, token: Seq<char>) -> bool {
    decoded_macaroon(token) == Ok::<Contents, FaultView>(
        minted(key, session_identifier(s), session_predicates(s)),
    )
}

/// Mints a session token. Fails only where a field does not fit a macaroon.
pub fn mint_session(keyring: &Keyring, input: MintSessionInput<'_>) -> (r: Result<
    String,
    TokenError,
>)
    requires
        i64::MIN <= input.now_unix + input.ttl_seconds <= i64::MAX,
    ensures
        match mint_fault(
            session_identifier(session_asked(input)),
            session_predicates(session_asked(input)),
        ) {
            None => r matches Ok(t) && session_token(keyring@, session_asked(input), t@),
            Some(text) => r matches Err(e) && e@ == TokenErrorView::Malformed(text),
        },
{
    let exp: i64 = input.now_unix + input.ttl_seconds;
    let identifier: String = join2("session:", input.user_id.as_str());
    let mut texts: Vec<String> = Vec::new();
    texts.push(join2("purpose=", TokenPurpose::Session.as_str()));
    texts.push(join2("user=", input.user_id.as_str()));
    texts.push(join2("email=", input.email));
    texts.push(join2("org=", input.org.as_str()));
    texts.push(join2("role=", input.role.as_str()));
    texts.push(exp_caveat(exp));
    assert(predicates_of(texts@) =~= session_predicates(session_asked(input)));
    match mint(keyring.root(), identifier.as_str().as_bytes(), &texts) {
        Ok(t) => Ok(t),
        Err(e) => Err(TokenError::from_fault(e)),
    }
}

/// The outcome of a call, over characters.
pub open spec fn session_result(r: Result<SessionContext, TokenError>) -> Result<
    SessionView,
    TokenErrorView,
> {
    match r {
        Ok(c) => Ok(c@),
        Err(e) => Err(e@),
    }
}

/// The session that a list of caveats describes, or the first thing wrong
/// with it.
pub fn read_session(cs: &Vec<Option<Vec<u8>>>) -> (r: Result<SessionContext, TokenError>)
    ensures
        session_result(r) == session_of(caveat_views(cs@)),
{
    let f: Fields = match read_fields(TokenPurpose::Session, cs) {
        Ok(f) => f,
        Err(e) => {
            return Err(e);
        },
    };
    let purpose: String = match f.purpose {
        Some(p) => p,
        None => {
            return Err(TokenError::MissingCaveat("purpose"));
        },
    };
    if !str_eq(purpose.as_str(), TokenPurpose::Session.as_str()) {
        return Err(
            TokenError::WrongPurpose { expected: TokenPurpose::Session, found: purpose },
        );
    }
    let user: UserId = match f.user {
        Some(v) => UserId(v),
        None => {
            return Err(TokenError::MissingCaveat("user"));
        },
    };
    let email: String = match f.email {
        Some(v) => v,
        None => {
            return Err(TokenError::MissingCaveat("email"));
        },
    };
    let org: OrgId = match f.org {
        Some(v) => OrgId(v),
        None => {
            return Err(TokenError::MissingCaveat("org"));
        },
    };
    let role: Role = match f.role {
        Some(v) => v,
        None => {
            return Err(TokenError::MissingCaveat("role"));
        },
    };
    let exp_unix: i64 = match f.exp_unix {
        Some(v) => v,
        None => {
            return Err(TokenError::MissingCaveat("exp"));
        },
    };
    Ok(SessionContext { user, email, org, role, exp_unix })
}

/// Verifies a session token and reads the session off it.
pub fn verify_session(keyring: &Keyring, now_unix: i64, token: &str) -> (r: Result<
    SessionContext,
    TokenError,
>)
    ensures
        session_outcome(keyring@, now_unix, token@, session_result(r)),
{
    let m = match deserialize(token) {
        Ok(m) => m,
        Err(e) => {
            return Err(TokenError::from_fault(e));
        },
    };
    let policy: CaveatPolicy = CaveatPolicy::Session { now_unix };
    let verdict: Result<(), MacaroonFault> = verify(policy, &m, keyring.root());
    assert(verification(policy, keyring@, contents(m), fault_outcome(verdict)));
    match verdict {
        Ok(()) => {},
        Err(e) => {
            return Err(TokenError::from_fault(e));
        },
    }
    let cs: Vec<Option<Vec<u8>>> = caveats(&m);
    read_session(&cs)
}

// ---------- sync tokens ----------

/// The sync grant that caveats describe, or the first thing wrong with them.
pub open spec fn sync_of(cs: Seq<Option<Seq<u8>>>) -> Result<SyncView, TokenErrorView> {
    match fields(TokenPurpose::Sync, cs) {
        Err(e) => Err(e),
        Ok(f) => if f.purpose is None {
            Err(TokenErrorView::MissingCaveat("purpose"@))
        } else if f.purpose->0 != TokenPurpose::Sync.text() {
            Err(
                TokenErrorView::WrongPurpose { expected: TokenPurpose::Sync, found: f.purpose->0 },
            )
        } else if f.user is None {
            Err(TokenErrorView::MissingCaveat("user"@))
        } else if f.org is None {
            Err(TokenErrorView::MissingCaveat("org"@))
        } else if f.database is None {
            Err(TokenErrorView::MissingCaveat("database"@))
        } else if f.direction is None {
            Err(TokenErrorView::MissingCaveat("direction"@))
        } else if f.exp_unix is None {
            Err(TokenErrorView::MissingCaveat("exp"@))
        } else {
            Ok(
                SyncView {
                    user: f.user->0,
                    org: f.org->0,
                    database: f.database->0,
                    direction: f.direction->0,
                    exp_unix: f.exp_unix->0,
                },
            )
        },
    }
}

/// Which outcomes verifying a sync token may have: the token is decoded, its
/// caveats and signature are checked, and only then is it read.
pub open spec fn sync_outcome(
    key: Seq<u8>,
    now_unix: i64,
    token: Seq<char>,
    r: Result<SyncView, TokenErrorView>,
) -> bool {
    match decoded_macaroon(token) {
        Err(f) => r == Err::<SyncView, TokenErrorView>(error_of_fault(f)),
        Ok(c) => exists|v: Result<(), FaultView>| #[trigger]
            verification(CaveatPolicy::Sync { now_unix }, key, c, v) && match v {
                Err(f) => r == Err::<SyncView, TokenErrorView>(error_of_fault(f)),
                Ok(()) => r == sync_of(c.caveats),
            },
    }
}

/// What a sync token is minted from.
#[derive(Clone, Copy, Debug)]
pub struct MintSyncInput<'a> {
    pub user_id: &'a UserId,
    pub org: &'a OrgId,
    pub database: &'a DatabaseId,
    pub direction: Direction,
    pub now_unix: i64,
    pub ttl_seconds: i64,
}

/// The caveats of a sync token.
pub open spec fn sync_predicates(s: SyncView) -> Seq<Seq<u8>> {
    seq![
        encode_utf8("purpose="@ + TokenPurpose::Sync.text()),
        encode_utf8("user="@ + s.user),
        encode_utf8("org="@ + s.org),
        encode_utf8("database="@ + s.database),
        encode_utf8("direction="@ + s.direction.text()),
        exp_predicate(s.exp_unix as int),
    ]
}

/// The identifier of a sync token.
pub open spec fn sync_identifier(s: SyncView) -> Seq<u8> {
    encode_utf8("sync:"@ + s.user + (":"@ + s.database))
}

/// The sync grant that an input asks for.
pub open spec fn sync_asked(input: MintSyncInput<'_>) -> SyncView {
    SyncView {
        user: input.user_id@,
        org: input.org@,
        database: input.database@,
        direction: input.direction,
        exp_unix: (input.now_unix + input.ttl_seconds) as i64,
    }
}

/// Whether `token` is a sync token that the holder of `key` minted for `s`.
pub open spec fn sync_token(key: Seq<u8>, s: SyncView, token: Seq<char>) -> bool {
    decoded_macaroon(token) == Ok::<Contents, FaultView>(
        minted(key, sync_identifier(s), sync_predicates(s)),
    )
}

/// Mints a sync token. Fails only where a field does not fit a macaroon.
pub fn mint_sync(keyring: &Keyring, input: MintSyncInput<'_>) -> (r: Result<String, TokenError>)
    requires
        i64::MIN <= input.now_unix + input.ttl_seconds <= i64::MAX,
    ensures
        match mint_fault(sync_identifier(sync_asked(input)), sync_predicates(sync_asked(input))) {
            None => r matches Ok(t) && sync_token(keyring@, sync_asked(input), t@),
            Some(text) => r matches Err(e) && e@ == TokenErrorView::Malformed(text),
        },
{
    let exp: i64 = input.now_unix + input.ttl_seconds;
    let identifier: String = join3(
        "sync:",
        input.user_id.as_str(),
        join2(":", input.database.as_str()).as_str(),
    );
    let mut texts: Vec<String> = Vec::new();
    texts.push(join2("purpose=", TokenPurpose::Sync.as_str()));
    texts.push(join2("user=", input.user_id.as_str()));
    texts.push(join2("org=", input.org.as_str()));
    texts.push(join2("database=", input.database.as_str()));
    texts.push(join2("direction=", input.direction.as_str()));
    texts.push(exp_caveat(exp));
    assert(predicates_of(texts@) =~= sync_predicates(sync_asked(input)));
    match mint(keyring.root(), identifier.as_str().as_bytes(), &texts) {
        Ok(t) => Ok(t),
        Err(e) => Err(TokenError::from_fault(e)),
    }
}

/// The outcome of a call, over characters.
pub open spec fn sync_result(r: Result<SyncContext, TokenError>) -> Result<
    SyncView,
    TokenErrorView,
> {
    match r {
        Ok(c) => Ok(c@),
        Err(e) => Err(e@),
    }
}

/// The sync grant that a list of caveats describes, or the first thing wrong
/// with it.
pub fn read_sync(cs: &Vec<Option<Vec<u8>>>) -> (r: Result<SyncContext, TokenError>)
    ensures
        sync_result(r) == sync_of(caveat_views(cs@)),
{
    let f: Fields = match read_fields(TokenPurpose::Sync, cs) {
        Ok(f) => f,
        Err(e) => {
            return Err(e);
        },
    };
    let purpose: String = match f.purpose {
        Some(p) => p,
        None => {
            return Err(TokenError::MissingCaveat("purpose"));
        },
    };
    if !str_eq(purpose.as_str(), TokenPurpose::Sync.as_str()) {
        return Err(TokenError::WrongPurpose { expected: TokenPurpose::Sync, found: purpose });
    }
    let user: UserId = match f.user {
        Some(v) => UserId(v),
        None => {
            return Err(TokenError::MissingCaveat("user"));
        },
    };
    let org: OrgId = match f.org {
        Some(v) => OrgId(v),
        None => {
            return Err(TokenError::MissingCaveat("org"));
        },
    };
    let database: DatabaseId = match f.database {
        Some(v) => DatabaseId(v),
        None => {
            return Err(TokenError::MissingCaveat("database"));
        },
    };
    let direction: Direction = match f.direction {
        Some(v) => v,
        None => {
            return Err(TokenError::MissingCaveat("direction"));
        },
    };
    let exp_unix: i64 = match f.exp_unix {
        Some(v) => v,
        None => {
            return Err(TokenError::MissingCaveat("exp"));
        },
    };
    Ok(SyncContext { user, org, database, direction, exp_unix })
}

/// Verifies a sync token and reads the grant off it.
pub fn verify_sync(keyring: &Keyring, now_unix: i64, token: &str) -> (r: Result<
    SyncContext,
    TokenError,
>)
    ensures
        sync_outcome(keyring@, now_unix, token@, sync_result(r)),
{
    let m = match deserialize(token) {
        Ok(m) => m,
        Err(e) => {
            return Err(TokenError::from_fault(e));
        },
    };
    let policy: CaveatPolicy = CaveatPolicy::Sync { now_unix };
    let verdict: Result<(), MacaroonFault> = verify(policy, &m, keyring.root());
    assert(verification(policy, keyring@, contents(m), fault_outcome(verdict)));
    match verdict {
        Ok(()) => {},
        Err(e) => {
            return Err(TokenError::from_fault(e));
        },
    }
    let cs: Vec<Option<Vec<u8>>> = caveats(&m);
    read_sync(&cs)
}

} // verus!
