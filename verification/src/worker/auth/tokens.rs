//! Mint / verify the two macaroon kinds.
//!
//! # Security model
//!
//! Every authority-bearing claim (user, email, org, role, database,
//! direction, purpose, ...) is packed into a signed [`TokenClaims`] protobuf
//! message that becomes the macaroon **identifier**. The identifier is folded
//! into the root signature (`sig0 = HMAC(root_key, identifier)`), so no holder
//! can alter a claim without the root key.
//!
//! Caveats are deliberately NOT used to carry claims. A first-party caveat can
//! be appended by anyone holding a token, so caveats can only ever
//! *attenuate*, never assert authority.
//!
//! The single legitimate caveat is `exp=<unix>`: expiry genuinely attenuates,
//! so a holder may append an *earlier* expiry and the effective expiry is the
//! earliest one. Any *other* caveat is unsatisfied and verification fails.
//!
//! Verification is pure: the token is all it reads.

use vstd::prelude::*;

use super::claims::{claims_bytes, claims_from, no_claims, ClaimsView, TokenClaims};
use crate::macaroon::{
    caveat_exp, caveat_views, caveats, contents, decoded_macaroon, deserialize, exp_caveat,
    exp_predicate, fault_outcome, identifier, lemma_exp_predicate, mint, mint_fault, minted,
    oversized, parse_exp, predicates_of, too_large_text, verification, verify, CaveatPolicy,
    Contents, FaultView, MacaroonFault, MAX_FIELD_BYTES,
};
use crate::shared::auth::keyring::Keyring;
use crate::shared::auth::session::{SessionContext, SessionView, SyncContext, SyncView};
use crate::shared::domain::enums::{Direction, Role, TokenPurpose};
use crate::shared::domain::ids::{DatabaseId, OrgId, UserId};
use crate::text::{join2, join3, str_eq};

verus! {

/// Why a token is not accepted.
#[derive(Debug, PartialEq, Eq)]
pub enum TokenError {
    Malformed(String),
    Expired,
    InvalidSignature,
    WrongPurpose { expected: TokenPurpose, found: String },
    MissingClaim(&'static str),
    InvalidClaim(String),
    /// The token carried a caveat other than `exp`. Well-formed tokens have
    /// only `exp`; any other caveat means it was appended after minting
    /// (tampering) and the token is rejected.
    UnexpectedCaveat(String),
}

/// [`TokenError`] over characters.
pub enum TokenErrorView {
    Malformed(Seq<char>),
    Expired,
    InvalidSignature,
    WrongPurpose { expected: TokenPurpose, found: Seq<char> },
    MissingClaim(Seq<char>),
    InvalidClaim(Seq<char>),
    UnexpectedCaveat(Seq<char>),
}

impl View for TokenError {
    type V = TokenErrorView;

    open spec fn view(&self) -> TokenErrorView {
        match self {
            TokenError::Malformed(s) => TokenErrorView::Malformed(s@),
            TokenError::Expired => TokenErrorView::Expired,
            TokenError::InvalidSignature => TokenErrorView::InvalidSignature,
            TokenError::WrongPurpose { expected, found } => TokenErrorView::WrongPurpose {
                expected: *expected,
                found: found@,
            },
            TokenError::MissingClaim(s) => TokenErrorView::MissingClaim(s@),
            TokenError::InvalidClaim(s) => TokenErrorView::InvalidClaim(s@),
            TokenError::UnexpectedCaveat(s) => TokenErrorView::UnexpectedCaveat(s@),
        }
    }
}

/// The error that a macaroon fault becomes. The verifier only lets well-formed
/// `exp` caveats stand, so any caveat that surfaces was appended after minting.
pub open spec fn error_of_fault(f: FaultView) -> TokenErrorView {
    match f {
        FaultView::InvalidSignature => TokenErrorView::InvalidSignature,
        FaultView::CaveatNotSatisfied(s) => TokenErrorView::UnexpectedCaveat(s),
        FaultView::Deserialization(s) => TokenErrorView::Malformed(s),
        FaultView::Other(s) => TokenErrorView::Malformed(s),
    }
}

impl TokenError {
    /// The error that a macaroon fault becomes.
    pub fn from_fault(f: MacaroonFault) -> (r: TokenError)
        ensures
            r@ == error_of_fault(f@),
    {
        match f {
            MacaroonFault::InvalidSignature => TokenError::InvalidSignature,
            MacaroonFault::CaveatNotSatisfied(s) => TokenError::UnexpectedCaveat(s),
            MacaroonFault::Deserialization(s) => TokenError::Malformed(s),
            MacaroonFault::Other(s) => TokenError::Malformed(s),
        }
    }

    /// The message of the error.
    pub open spec fn text(self) -> Seq<char> {
        match self {
            TokenError::Malformed(s) => "malformed token: "@ + s@,
            TokenError::Expired => "token expired"@,
            TokenError::InvalidSignature => "invalid signature"@,
            TokenError::WrongPurpose { expected, found } => "wrong token purpose: expected "@
                + expected.text() + ", got "@ + found@,
            TokenError::MissingClaim(s) => "missing claim: "@ + s@,
            TokenError::InvalidClaim(s) => "invalid claim: "@ + s@,
            TokenError::UnexpectedCaveat(s) => "unexpected caveat on token: "@ + s@,
        }
    }

    /// The message of the error.
    pub fn to_string(&self) -> (r: String)
        ensures
            r@ == self.text(),
    {
        match self {
            TokenError::Malformed(s) => join2("malformed token: ", s.as_str()),
            TokenError::Expired => "token expired".to_owned(),
            TokenError::InvalidSignature => "invalid signature".to_owned(),
            TokenError::WrongPurpose { expected, found } => join3(
                join2("wrong token purpose: expected ", expected.as_str()).as_str(),
                ", got ",
                found.as_str(),
            ),
            TokenError::MissingClaim(s) => join2("missing claim: ", s),
            TokenError::InvalidClaim(s) => join2("invalid claim: ", s.as_str()),
            TokenError::UnexpectedCaveat(s) => join2("unexpected caveat on token: ", s.as_str()),
        }
    }
}

// ---------- pack / unpack ----------

/// Whether `token` was minted with `key` for these claims and this expiry: the
/// claims are the identifier, the expiry is the one caveat.
pub open spec fn packed(key: Seq<u8>, c: ClaimsView, exp_unix: i64, token: Seq<char>) -> bool {
    &&& decoded_macaroon(token) == Ok::<Contents, FaultView>(
        minted(key, claims_bytes(c), seq![exp_predicate(exp_unix as int)]),
    )
    &&& claims_from(claims_bytes(c), no_claims()) == Ok::<ClaimsView, Seq<char>>(c)
}

/// Serialize signed claims into the macaroon identifier and add the lone
/// `exp` caveat. The token carries no other caveats.
fn pack(keyring: &Keyring, claims: &TokenClaims, exp_unix: i64) -> (r: Result<String, TokenError>)
    ensures
        match mint_fault(claims_bytes(claims@), seq![exp_predicate(exp_unix as int)]) {
            None => r matches Ok(t) && packed(keyring@, claims@, exp_unix, t@),
            Some(text) => r matches Err(e) && e@ == TokenErrorView::Malformed(text),
        },
{
    let id: Vec<u8> = claims.encode_to_vec();
    let mut texts: Vec<String> = Vec::new();
    texts.push(exp_caveat(exp_unix));
    assert(predicates_of(texts@) =~= seq![exp_predicate(exp_unix as int)]);
    match mint(keyring.root(), id.as_slice(), &texts) {
        Ok(t) => Ok(t),
        Err(e) => Err(TokenError::from_fault(e)),
    }
}

/// The earliest expiry among the caveats.
pub open spec fn earliest(cs: Seq<Option<Seq<u8>>>) -> Option<i64>
    decreases cs.len(),
{
    if cs.len() == 0 {
        None
    } else {
        let before = earliest(cs.drop_last());
        let last = match cs.last() {
            Some(p) => caveat_exp(p),
            None => None,
        };
        match (before, last) {
            (Some(a), Some(b)) => if b < a {
                Some(b)
            } else {
                Some(a)
            },
            (Some(a), None) => Some(a),
            (None, b) => b,
        }
    }
}

fn earliest_exp(cs: &Vec<Option<Vec<u8>>>) -> (r: Option<i64>)
    ensures
        r == earliest(caveat_views(cs@)),
{
    let ghost all = caveat_views(cs@);
    assert(all.take(0) =~= Seq::<Option<Seq<u8>>>::empty());
    let mut best: Option<i64> = None;
    let mut i: usize = 0;
    while i < cs.len()
        invariant
            i <= cs.len(),
            all == caveat_views(cs@),
            best == earliest(all.take(i as int)),
        decreases cs.len() - i,
    {
        proof {
            assert(all.take(i + 1).drop_last() =~= all.take(i as int));
        }
        let last: Option<i64> = match &cs[i] {
            Some(p) => parse_exp(p.as_slice()),
            None => None,
        };
        best = match (best, last) {
            (Some(a), Some(b)) => if b < a {
                Some(b)
            } else {
                Some(a)
            },
            (Some(a), None) => Some(a),
            (None, b) => b,
        };
        i = i + 1;
    }
    assert(all.take(i as int) =~= all);
    best
}

/// The claims and the effective expiry of a token whose caveats and signature
/// were checked.
pub open spec fn claims_of(now_unix: i64, c: Contents) -> Result<
    (ClaimsView, i64),
    TokenErrorView,
> {
    match earliest(c.caveats) {
        None => Err(TokenErrorView::MissingClaim("exp"@)),
        Some(exp_unix) => if exp_unix <= now_unix {
            Err(TokenErrorView::Expired)
        } else {
            match claims_from(c.identifier, no_claims()) {
                Err(e) => Err(TokenErrorView::Malformed("claims decode: "@ + e)),
                Ok(claims) => Ok((claims, exp_unix)),
            }
        },
    }
}

/// Which outcomes unpacking a token may have: it is decoded, its caveats and
/// signature are checked, and only then is it read.
pub open spec fn unpack_outcome(
    key: Seq<u8>,
    now_unix: i64,
    token: Seq<char>,
    r: Result<(ClaimsView, i64), TokenErrorView>,
) -> bool {
    match decoded_macaroon(token) {
        Err(f) => r == Err::<(ClaimsView, i64), TokenErrorView>(error_of_fault(f)),
        Ok(c) => exists|v: Result<(), FaultView>| #[trigger]
            verification(CaveatPolicy::ExpiryOnly, key, c, v) && match v {
                Err(f) => r == Err::<(ClaimsView, i64), TokenErrorView>(error_of_fault(f)),
                Ok(()) => r == claims_of(now_unix, c),
            },
    }
}

/// The outcome of unpacking, over characters.
pub open spec fn unpack_result(r: Result<(TokenClaims, i64), TokenError>) -> Result<
    (ClaimsView, i64),
    TokenErrorView,
> {
    match r {
        Ok(t) => Ok((t.0@, t.1)),
        Err(e) => Err(e@),
    }
}

/// The claims and the effective expiry of a checked token's parts.
pub fn read_claims(now_unix: i64, id: &[u8], cs: &Vec<Option<Vec<u8>>>) -> (r: Result<
    (TokenClaims, i64),
    TokenError,
>)
    ensures
        unpack_result(r) == claims_of(
            now_unix,
            (Contents { identifier: id@, caveats: caveat_views(cs@), signature: Seq::empty() }),
        ),
{
    let exp_unix: i64 = match earliest_exp(cs) {
        Some(e) => e,
        None => {
            return Err(TokenError::MissingClaim("exp"));
        },
    };
    if exp_unix <= now_unix {
        return Err(TokenError::Expired);
    }
    match TokenClaims::decode_from_slice(id) {
        Ok(c) => Ok((c, exp_unix)),
        Err(e) => Err(TokenError::Malformed(join2("claims decode: ", e.as_str()))),
    }
}

/// Verify the signature, reject any non-`exp` caveat, enforce expiry, and
/// recover the signed claims. Effective expiry is the EARLIEST `exp` caveat,
/// so attenuation can only shorten a token's life, never extend it.
fn unpack(keyring: &Keyring, now_unix: i64, token: &str) -> (r: Result<
    (TokenClaims, i64),
    TokenError,
>)
    ensures
        unpack_outcome(keyring@, now_unix, token@, unpack_result(r)),
{
    let m = match deserialize(token) {
        Ok(m) => m,
        Err(e) => {
            return Err(TokenError::from_fault(e));
        },
    };
    let verdict: Result<(), MacaroonFault> = verify(CaveatPolicy::ExpiryOnly, &m, keyring.root());
    assert(verification(CaveatPolicy::ExpiryOnly, keyring@, contents(m), fault_outcome(verdict)));
    match verdict {
        Ok(()) => {},
        Err(e) => {
            return Err(TokenError::from_fault(e));
        },
    }
    let cs: Vec<Option<Vec<u8>>> = caveats(&m);
    let id: Vec<u8> = identifier(&m);
    read_claims(now_unix, id.as_slice(), &cs)
}

fn check_purpose(claims: &TokenClaims, expected: TokenPurpose) -> (r: Result<(), TokenError>)
    ensures
        r is Ok <==> claims@.purpose == expected.text(),
        r matches Err(e) ==> e@ == (TokenErrorView::WrongPurpose {
            expected,
            found: claims@.purpose,
        }),
{
    if !str_eq(claims.purpose.as_str(), expected.as_str()) {
        return Err(TokenError::WrongPurpose { expected, found: claims.purpose.clone() });
    }
    Ok(())
}

fn require<'a>(value: &'a String, claim: &'static str) -> (r: Result<&'a String, TokenError>)
    ensures
        r is Ok <==> value@.len() > 0,
        r matches Ok(v) ==> v == value,
        r matches Err(e) ==> e@ == TokenErrorView::MissingClaim(claim@),
{
    if value.as_str().is_empty() {
        proof {
            if value@.len() > 0 {
                vstd::utf8::encode_utf8_first_scalar(value@);
            }
        }
        Err(TokenError::MissingClaim(claim))
    } else {
        Ok(value)
    }
}

// ---------- session tokens ----------

/// The claims of a session.
pub open spec fn session_claims(s: SessionView) -> ClaimsView {
    ClaimsView {
        purpose: TokenPurpose::Session.text(),
        user_id: s.user,
        org_id: s.org,
        email: s.email,
        role: s.role.text(),
        ..no_claims()
    }
}

/// The session that claims describe, or the first thing wrong with them.
pub open spec fn session_of(c: ClaimsView, exp_unix: i64) -> Result<SessionView, TokenErrorView> {
    if c.purpose != TokenPurpose::Session.text() {
        Err(TokenErrorView::WrongPurpose { expected: TokenPurpose::Session, found: c.purpose })
    } else {
        match Role::parsed(c.role) {
            Err(e) => Err(TokenErrorView::InvalidClaim(e)),
            Ok(role) => if c.user_id.len() == 0 {
                Err(TokenErrorView::MissingClaim("user"@))
            } else if c.email.len() == 0 {
                Err(TokenErrorView::MissingClaim("email"@))
            } else if c.org_id.len() == 0 {
                Err(TokenErrorView::MissingClaim("org"@))
            } else {
                Ok(SessionView { user: c.user_id, email: c.email, org: c.org_id, role, exp_unix })
            },
        }
    }
}

/// Which outcomes verifying a session token may have.
pub open spec fn session_outcome(
    key: Seq<u8>,
    now_unix: i64,
    token: Seq<char>,
    r: Result<SessionView, TokenErrorView>,
) -> bool {
    exists|u: Result<(ClaimsView, i64), TokenErrorView>| #[trigger]
        unpack_outcome(key, now_unix, token, u) && match u {
            Err(e) => r == Err::<SessionView, TokenErrorView>(e),
            Ok((c, exp_unix)) => r == session_of(c, exp_unix),
        }
}

/// What a session token is minted from.
#[derive(Clone, Copy, Debug)]
pub struct MintSessionInput<'a> {
    pub user_id: &'a UserId,
    pub email: &'a str,
    pub org: &'a OrgId,
    pub role: Role,
    pub now_unix: i64,
    pub ttl_seconds: i64,
}

/// The session that an input asks for.
pub open spec fn session_asked(input: MintSessionInput<'_>) -> SessionView {
    SessionView {
        user: input.user_id@,
        email: input.email@,
        org: input.org@,
        role: input.role,
        exp_unix: (input.now_unix + input.ttl_seconds) as i64,
    }
}

/// Whether `token` is a session token that the holder of `key` minted for `s`.
pub open spec fn session_token(key: Seq<u8>, s: SessionView, token: Seq<char>) -> bool {
    packed(key, session_claims(s), s.exp_unix, token)
}

/// The message for claims that do not fit a macaroon identifier.
pub open spec fn claims_too_large(c: ClaimsView) -> Seq<char> {
    too_large_text("identifier"@, claims_bytes(c).len())
}

proof fn lemma_pack_fault(c: ClaimsView, exp_unix: i64)
    requires
        c.purpose.len() > 0,
    ensures
        mint_fault(claims_bytes(c), seq![exp_predicate(exp_unix as int)]) == if claims_bytes(
            c,
        ).len() > MAX_FIELD_BYTES {
            Some(claims_too_large(c))
        } else {
            None
        },
{
    lemma_exp_predicate(exp_unix);
    let ps = seq![exp_predicate(exp_unix as int)];
    reveal_with_fuel(oversized, 2);
    assert(ps.drop_last() =~= Seq::<Seq<u8>>::empty());
    super::claims::lemma_claims_nonempty(c);
}

/// Mints a session token. Fails only where the claims do not fit a macaroon
/// identifier.
pub fn mint_session(keyring: &Keyring, input: MintSessionInput<'_>) -> (r: Result<
    String,
    TokenError,
>)
    requires
        i64::MIN <= input.now_unix + input.ttl_seconds <= i64::MAX,
    ensures
        r is Ok <==> claims_bytes(session_claims(session_asked(input))).len() <= MAX_FIELD_BYTES,
        r matches Ok(t) ==> session_token(keyring@, session_asked(input), t@),
        r matches Err(e) ==> e@ == TokenErrorView::Malformed(
            claims_too_large(session_claims(session_asked(input))),
        ),
{
    let claims: TokenClaims = TokenClaims {
        purpose: TokenPurpose::Session.as_str().to_owned(),
        user_id: input.user_id.as_str().to_owned(),
        org_id: input.org.as_str().to_owned(),
        email: input.email.to_owned(),
        role: input.role.as_str().to_owned(),
        database_id: String::new(),
        direction: String::new(),
    };
    let exp_unix: i64 = input.now_unix + input.ttl_seconds;
    proof {
        assert(claims@ =~= session_claims(session_asked(input)));
        reveal_strlit("session");
        lemma_pack_fault(claims@, exp_unix);
    }
    pack(keyring, &claims, exp_unix)
}

/// The outcome of a call, over characters.
pub open spec fn session_result(r: Result<SessionContext, TokenError>) -> Result<
    SessionView,
    TokenErrorView,
> {
    match r {
        Ok(c) => Ok(c@),
        Err(e) => Err(e@),
    }
}

/// The session that claims describe, or the first thing wrong with them.
pub fn read_session(claims: &TokenClaims, exp_unix: i64) -> (r: Result<
    SessionContext,
    TokenError,
>)
    ensures
        session_result(r) == session_of(claims@, exp_unix),
{
    match check_purpose(claims, TokenPurpose::Session) {
        Ok(()) => {},
        Err(e) => {
            return Err(e);
        },
    }
    let role: Role = match Role::from_str(claims.role.as_str()) {
        Ok(role) => role,
        Err(e) => {
            return Err(TokenError::InvalidClaim(e));
        },
    };
    let user: UserId = match require(&claims.user_id, "user") {
        Ok(v) => UserId::from(v.as_str()),
        Err(e) => {
            return Err(e);
        },
    };
    let email: String = match require(&claims.email, "email") {
        Ok(v) => v.clone(),
        Err(e) => {
            return Err(e);
        },
    };
    let org: OrgId = match require(&claims.org_id, "org") {
        Ok(v) => OrgId::from(v.as_str()),
        Err(e) => {
            return Err(e);
        },
    };
    Ok(SessionContext { user, email, org, role, exp_unix })
}

/// Verifies a session token and reads the session off its signed claims.
pub fn verify_session(keyring: &Keyring, now_unix: i64, token: &str) -> (r: Result<
    SessionContext,
    TokenError,
>)
    ensures
        session_outcome(keyring@, now_unix, token@, session_result(r)),
{
    let unpacked: Result<(TokenClaims, i64), TokenError> = unpack(keyring, now_unix, token);
    assert(unpack_outcome(keyring@, now_unix, token@, unpack_result(unpacked)));
    match unpacked {
        Ok((claims, exp_unix)) => read_session(&claims, exp_unix),
        Err(e) => Err(e),
    }
}

// ---------- sync tokens ----------

/// The claims of a sync grant.
pub open spec fn sync_claims(s: SyncView) -> ClaimsView {
    ClaimsView {
        purpose: TokenPurpose::Sync.text(),
        user_id: s.user,
        org_id: s.org,
        database_id: s.database,
        direction: s.direction.text(),
        ..no_claims()
    }
}

/// The sync grant that claims describe, or the first thing wrong with them.
pub open spec fn sync_of(c: ClaimsView, exp_unix: i64) -> Result<SyncView, TokenErrorView> {
    if c.purpose != TokenPurpose::Sync.text() {
        Err(TokenErrorView::WrongPurpose { expected: TokenPurpose::Sync, found: c.purpose })
    } else {
        match Direction::parsed(c.direction) {
            Err(e) => Err(TokenErrorView::InvalidClaim(e)),
            Ok(direction) => if c.user_id.len() == 0 {
                Err(TokenErrorView::MissingClaim("user"@))
            } else if c.org_id.len() == 0 {
                Err(TokenErrorView::MissingClaim("org"@))
            } else if c.database_id.len() == 0 {
                Err(TokenErrorView::MissingClaim("database"@))
            } else {
                Ok(
                    SyncView {
                        user: c.user_id,
                        org: c.org_id,
                        database: c.database_id,
                        direction,
                        exp_unix,
                    },
                )
            },
        }
    }
}

/// Which outcomes verifying a sync token may have.
pub open spec fn sync_outcome(
    key: Seq<u8>,
    now_unix: i64,
    token: Seq<char>,
    r: Result<SyncView, TokenErrorView>,
) -> bool {
    exists|u: Result<(ClaimsView, i64), TokenErrorView>| #[trigger]
        unpack_outcome(key, now_unix, token, u) && match u {
            Err(e) => r == Err::<SyncView, TokenErrorView>(e),
            Ok((c, exp_unix)) => r == sync_of(c, exp_unix),
        }
}

/// What a sync token is minted from.
#[derive(Clone, Copy, Debug)]
pub struct MintSyncInput<'a> {
    pub user_id: &'a UserId,
    pub org: &'a OrgId,
    pub database: &'a DatabaseId,
    pub direction: Direction,
    pub now_unix: i64,
    pub ttl_seconds: i64,
}

/// The sync grant that an input asks for.
pub open spec fn sync_asked(input: MintSyncInput<'_>) -> SyncView {
    SyncView {
        user: input.user_id@,
        org: input.org@,
        database: input.database@,
        direction: input.direction,
        exp_unix: (input.now_unix + input.ttl_seconds) as i64,
    }
}

/// Whether `token` is a sync token that the holder of `key` minted for `s`.
pub open spec fn sync_token(key: Seq<u8>, s: SyncView, token: Seq<char>) -> bool {
    packed(key, sync_claims(s), s.exp_unix, token)
}

/// Mints a sync token. Fails only where the claims do not fit a macaroon
/// identifier.
pub fn mint_sync(keyring: &Keyring, input: MintSyncInput<'_>) -> (r: Result<String, TokenError>)
    requires
        i64::MIN <= input.now_unix + input.ttl_seconds <= i64::MAX,
    ensures
        r is Ok <==> claims_bytes(sync_claims(sync_asked(input))).len() <= MAX_FIELD_BYTES,
        r matches Ok(t) ==> sync_token(keyring@, sync_asked(input), t@),
        r matches Err(e) ==> e@ == TokenErrorView::Malformed(
            claims_too_large(sync_claims(sync_asked(input))),
        ),
{
    let claims: TokenClaims = TokenClaims {
        purpose: TokenPurpose::Sync.as_str().to_owned(),
        user_id: input.user_id.as_str().to_owned(),
        org_id: input.org.as_str().to_owned(),
        email: String::new(),
        role: String::new(),
        database_id: input.database.as_str().to_owned(),
        direction: input.direction.as_str().to_owned(),
    };
    let exp_unix: i64 = input.now_unix + input.ttl_seconds;
    proof {
        assert(claims@ =~= sync_claims(sync_asked(input)));
        reveal_strlit("sync");
        lemma_pack_fault(claims@, exp_unix);
    }
    pack(keyring, &claims, exp_unix)
}

/// The outcome of a call, over characters.
pub open spec fn sync_result(r: Result<SyncContext, TokenError>) -> Result<
    SyncView,
    TokenErrorView,
> {
    match r {
        Ok(c) => Ok(c@),
        Err(e) => Err(e@),
    }
}

/// The sync grant that claims describe, or the first thing wrong with them.
pub fn read_sync(claims: &TokenClaims, exp_unix: i64) -> (r: Result<SyncContext, TokenError>)
    ensures
        sync_result(r) == sync_of(claims@, exp_unix),
{
    match check_purpose(claims, TokenPurpose::Sync) {
        Ok(()) => {},
        Err(e) => {
            return Err(e);
        },
    }
    let direction: Direction = match Direction::from_str(claims.direction.as_str()) {
        Ok(direction) => direction,
        Err(e) => {
            return Err(TokenError::InvalidClaim(e));
        },
    };
    let user: UserId = match require(&claims.user_id, "user") {
        Ok(v) => UserId::from(v.as_str()),
        Err(e) => {
            return Err(e);
        },
    };
    let org: OrgId = match require(&claims.org_id, "org") {
        Ok(v) => OrgId::from(v.as_str()),
        Err(e) => {
            return Err(e);
        },
    };
    let database: DatabaseId = match require(&claims.database_id, "database") {
        Ok(v) => DatabaseId::from(v.as_str()),
        Err(e) => {
            return Err(e);
        },
    };
    Ok(SyncContext { user, org, database, direction, exp_unix })
}

/// Verifies a sync token and reads the grant off its signed claims.
pub fn verify_sync(keyring: &Keyring, now_unix: i64, token: &str) -> (r: Result<
    SyncContext,
    TokenError,
>)
    ensures
        sync_outcome(keyring@, now_unix, token@, sync_result(r)),
{
    let unpacked: Result<(TokenClaims, i64), TokenError> = unpack(keyring, now_unix, token);
    assert(unpack_outcome(keyring@, now_unix, token@, unpack_result(unpacked)));
    match unpacked {
        Ok((claims, exp_unix)) => read_sync(&claims, exp_unix),
        Err(e) => Err(e),
    }
}

} // verus!
