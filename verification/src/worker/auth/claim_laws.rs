//! What the claims of a token say, claim by claim, and where each stands on
//! the wire.

use vstd::prelude::*;
use vstd::utf8::encode_utf8;

use super::claims::{
    claim_field, claims_bytes, claims_from, no_claims, varint, wire_skip, wire_string, wire_tag,
    ClaimsView,
};
use super::token_laws::{law_session_round_trip, law_sync_round_trip};
use super::tokens::{
    error_of_fault, session_asked, session_claims, session_of, session_outcome, session_token,
    sync_asked, sync_claims, sync_of, sync_outcome, sync_token, MintSessionInput, MintSyncInput,
    TokenErrorView,
};
use crate::macaroon::FaultView;
use crate::shared::auth::session::{SessionView, SyncView};
use crate::shared::domain::enums::{
    law_direction_round_trip, law_purposes_differ, law_role_round_trip, Direction, Role,
    TokenPurpose,
};

verus! {

/// The number that groups of seven bits stand for, least significant first.
pub open spec fn base128(bytes: Seq<u8>) -> nat
    decreases bytes.len(),
{
    if bytes.len() == 0 {
        0
    } else {
        (bytes[0] as nat) % 128 + 128 * base128(bytes.skip(1))
    }
}

/// A number on the wire stands for itself in groups of seven bits, and the
/// high bit is set on every byte but the last.
pub proof fn law_varint(n: nat)
    ensures
        base128(varint(n)) == n,
        varint(n).len() > 0,
        varint(n).last() < 128,
        forall|i: int| 0 <= i < varint(n).len() - 1 ==> #[trigger] varint(n)[i] >= 128,
    decreases n,
{
    let v = varint(n);
    if n < 128 {
        reveal_with_fuel(base128, 2);
        assert(v.skip(1) =~= Seq::empty());
    } else {
        let rest = varint(n / 128);
        law_varint(n / 128);
        assert(v.skip(1) =~= rest);
        assert((n % 128 + 128) as u8 as nat % 128 == n % 128);
        assert(v.last() == rest.last());
        assert forall|i: int| 0 <= i < v.len() - 1 implies #[trigger] v[i] >= 128 by {
            if i > 0 {
                assert(v[i] == rest[i - 1]);
            }
        }
    }
}

proof fn lemma_claim_field(number: nat, value: Seq<char>)
    requires
        1 <= number <= 7,
        value.len() > 0,
    ensures
        claim_field(number, value) == seq![(number * 8 + 2) as u8] + varint(
            encode_utf8(value).len(),
        ) + encode_utf8(value),
{
    assert(varint(number * 8 + 2) =~= seq![(number * 8 + 2) as u8]);
}

/// Each claim has a field of its own on the wire: its tag, the length of its
/// text in bytes, and the text.
pub proof fn law_each_claim_has_its_field(value: Seq<char>)
    requires
        value.len() > 0,
    ensures
        ({
            let text = varint(encode_utf8(value).len()) + encode_utf8(value);
            &&& claims_bytes(ClaimsView { purpose: value, ..no_claims() }) == seq![10u8] + text
            &&& claims_bytes(ClaimsView { user_id: value, ..no_claims() }) == seq![18u8] + text
            &&& claims_bytes(ClaimsView { org_id: value, ..no_claims() }) == seq![26u8] + text
            &&& claims_bytes(ClaimsView { email: value, ..no_claims() }) == seq![34u8] + text
            &&& claims_bytes(ClaimsView { role: value, ..no_claims() }) == seq![42u8] + text
            &&& claims_bytes(ClaimsView { database_id: value, ..no_claims() }) == seq![50u8] + text
            &&& claims_bytes(ClaimsView { direction: value, ..no_claims() }) == seq![58u8] + text
        }),
        claims_bytes(no_claims()).len() == 0,
{
    let text = varint(encode_utf8(value).len()) + encode_utf8(value);
    lemma_claim_field(1, value);
    lemma_claim_field(2, value);
    lemma_claim_field(3, value);
    lemma_claim_field(4, value);
    lemma_claim_field(5, value);
    lemma_claim_field(6, value);
    lemma_claim_field(7, value);
    assert(claims_bytes(ClaimsView { purpose: value, ..no_claims() }) =~= seq![10u8] + text);
    assert(claims_bytes(ClaimsView { user_id: value, ..no_claims() }) =~= seq![18u8] + text);
    assert(claims_bytes(ClaimsView { org_id: value, ..no_claims() }) =~= seq![26u8] + text);
    assert(claims_bytes(ClaimsView { email: value, ..no_claims() }) =~= seq![34u8] + text);
    assert(claims_bytes(ClaimsView { role: value, ..no_claims() }) =~= seq![42u8] + text);
    assert(claims_bytes(ClaimsView { database_id: value, ..no_claims() }) =~= seq![50u8] + text);
    assert(claims_bytes(ClaimsView { direction: value, ..no_claims() }) =~= seq![58u8] + text);
}

/// Claims stand on the wire one after the other, in the order of their
/// fields.
pub proof fn law_claims_follow_each_other(c: ClaimsView)
    ensures
        claims_bytes(c) == claims_bytes(ClaimsView { purpose: c.purpose, ..no_claims() })
            + claims_bytes(ClaimsView { user_id: c.user_id, ..no_claims() }) + claims_bytes(
            ClaimsView { org_id: c.org_id, ..no_claims() },
        ) + claims_bytes(ClaimsView { email: c.email, ..no_claims() }) + claims_bytes(
            ClaimsView { role: c.role, ..no_claims() },
        ) + claims_bytes(ClaimsView { database_id: c.database_id, ..no_claims() }) + claims_bytes(
            ClaimsView { direction: c.direction, ..no_claims() },
        ),
{
    let none = Seq::<u8>::empty();
    assert(claims_bytes(ClaimsView { purpose: c.purpose, ..no_claims() }) =~= claim_field(
        1,
        c.purpose,
    ));
    assert(claims_bytes(ClaimsView { user_id: c.user_id, ..no_claims() }) =~= claim_field(
        2,
        c.user_id,
    ));
    assert(claims_bytes(ClaimsView { org_id: c.org_id, ..no_claims() }) =~= claim_field(
        3,
        c.org_id,
    ));
    assert(claims_bytes(ClaimsView { email: c.email, ..no_claims() }) =~= claim_field(4, c.email));
    assert(claims_bytes(ClaimsView { role: c.role, ..no_claims() }) =~= claim_field(5, c.role));
    assert(claims_bytes(ClaimsView { database_id: c.database_id, ..no_claims() }) =~= claim_field(
        6,
        c.database_id,
    ));
    assert(claims_bytes(ClaimsView { direction: c.direction, ..no_claims() }) =~= claim_field(
        7,
        c.direction,
    ));
}

/// The claims of a session name its user, organization, email and role, and
/// say that it is a session; they grant no database.
pub proof fn law_session_claims(s: SessionView)
    ensures
        session_claims(s).purpose == "session"@,
        session_claims(s).user_id == s.user,
        session_claims(s).org_id == s.org,
        session_claims(s).email == s.email,
        s.role == Role::Admin ==> session_claims(s).role == "admin"@,
        s.role == Role::Member ==> session_claims(s).role == "member"@,
        session_claims(s).database_id.len() == 0,
        session_claims(s).direction.len() == 0,
{
}

/// The claims of a sync grant name its user, organization, database and
/// direction, and say that it is one; they open no session.
pub proof fn law_sync_claims(s: SyncView)
    ensures
        sync_claims(s).purpose == "sync"@,
        sync_claims(s).user_id == s.user,
        sync_claims(s).org_id == s.org,
        sync_claims(s).database_id == s.database,
        s.direction == Direction::Push ==> sync_claims(s).direction == "push"@,
        s.direction == Direction::Pull ==> sync_claims(s).direction == "pull"@,
        sync_claims(s).email.len() == 0,
        sync_claims(s).role.len() == 0,
{
}

/// Claims describe a session exactly where they say so, name a role and lack
/// neither user, email nor organization; it is then theirs, claim by claim.
pub proof fn law_session_of_claims(c: ClaimsView, exp_unix: i64)
    ensures
        session_of(c, exp_unix) is Ok <==> c.purpose == "session"@ && (c.role == "admin"@ || c.role
            == "member"@) && c.user_id.len() > 0 && c.email.len() > 0 && c.org_id.len() > 0,
        session_of(c, exp_unix) matches Ok(s) ==> {
            &&& s.user == c.user_id
            &&& s.email == c.email
            &&& s.org == c.org_id
            &&& s.role == Role::Admin <==> c.role == "admin"@
            &&& s.role == Role::Member <==> c.role == "member"@
            &&& s.exp_unix == exp_unix
        },
        c.purpose != "session"@ ==> session_of(c, exp_unix) == Err::<SessionView, TokenErrorView>(
            TokenErrorView::WrongPurpose { expected: TokenPurpose::Session, found: c.purpose },
        ),
{
    law_role_round_trip(Role::Admin);
    law_role_round_trip(Role::Member);
}

/// Claims describe a sync grant exactly where they say so, name a direction
/// and lack neither user, organization nor database; it is then theirs, claim
/// by claim.
pub proof fn law_sync_of_claims(c: ClaimsView, exp_unix: i64)
    ensures
        sync_of(c, exp_unix) is Ok <==> c.purpose == "sync"@ && (c.direction == "push"@
            || c.direction == "pull"@) && c.user_id.len() > 0 && c.org_id.len() > 0
            && c.database_id.len() > 0,
        sync_of(c, exp_unix) matches Ok(s) ==> {
            &&& s.user == c.user_id
            &&& s.org == c.org_id
            &&& s.database == c.database_id
            &&& s.direction == Direction::Push <==> c.direction == "push"@
            &&& s.direction == Direction::Pull <==> c.direction == "pull"@
            &&& s.exp_unix == exp_unix
        },
        c.purpose != "sync"@ ==> sync_of(c, exp_unix) == Err::<SyncView, TokenErrorView>(
            TokenErrorView::WrongPurpose { expected: TokenPurpose::Sync, found: c.purpose },
        ),
{
    law_direction_round_trip(Direction::Push);
    law_direction_round_trip(Direction::Pull);
}

/// A session token verifies, until it expires, to the user, email,
/// organization and role that it was minted from, and expires its lifetime
/// after it was minted.
pub proof fn law_minted_session(
    key: Seq<u8>,
    input: MintSessionInput<'_>,
    token: Seq<char>,
    now_unix: i64,
    r: Result<SessionView, TokenErrorView>,
)
    requires
        i64::MIN <= input.now_unix + input.ttl_seconds <= i64::MAX,
        session_token(key, session_asked(input), token),
        now_unix < input.now_unix + input.ttl_seconds,
        input.user_id@.len() > 0,
        input.email@.len() > 0,
        input.org@.len() > 0,
        session_outcome(key, now_unix, token, r),
    ensures
        r matches Ok(s) && {
            &&& s.user == input.user_id@
            &&& s.email == input.email@
            &&& s.org == input.org@
            &&& s.role == input.role
            &&& s.exp_unix == input.now_unix + input.ttl_seconds
        },
{
    law_session_round_trip(key, session_asked(input), token, now_unix, r);
}

/// A sync token verifies, until it expires, to the user, organization,
/// database and direction that it was minted from, and expires its lifetime
/// after it was minted.
pub proof fn law_minted_sync(
    key: Seq<u8>,
    input: MintSyncInput<'_>,
    token: Seq<char>,
    now_unix: i64,
    r: Result<SyncView, TokenErrorView>,
)
    requires
        i64::MIN <= input.now_unix + input.ttl_seconds <= i64::MAX,
        sync_token(key, sync_asked(input), token),
        now_unix < input.now_unix + input.ttl_seconds,
        input.user_id@.len() > 0,
        input.org@.len() > 0,
        input.database@.len() > 0,
        sync_outcome(key, now_unix, token, r),
    ensures
        r matches Ok(s) && {
            &&& s.user == input.user_id@
            &&& s.org == input.org@
            &&& s.database == input.database@
            &&& s.direction == input.direction
            &&& s.exp_unix == input.now_unix + input.ttl_seconds
        },
{
    law_sync_round_trip(key, sync_asked(input), token, now_unix, r);
}

/// A wrong signature, an unexpected caveat and a malformed token are told
/// apart, and the words of a fault are kept.
pub proof fn law_faults_are_told_apart(text: Seq<char>)
    ensures
        error_of_fault(FaultView::InvalidSignature) is InvalidSignature,
        error_of_fault(FaultView::CaveatNotSatisfied(text)) == TokenErrorView::UnexpectedCaveat(
            text,
        ),
        error_of_fault(FaultView::Deserialization(text)) == TokenErrorView::Malformed(text),
        error_of_fault(FaultView::Other(text)) == TokenErrorView::Malformed(text),
{
}

/// A session's purpose is not a sync grant's.
pub proof fn law_claims_tell_purposes_apart(s: SessionView, g: SyncView, exp_unix: i64)
    ensures
        sync_of(session_claims(s), exp_unix) is Err,
        session_of(sync_claims(g), exp_unix) is Err,
{
    law_purposes_differ();
}

/// A field that the message does not know is passed over; one that it knows
/// sets its claim, and the rest is read on top of that. Nothing is left to
/// read at the end.
pub proof fn law_claims_are_read_field_by_field(
    bytes: Seq<u8>,
    c: ClaimsView,
    number: u32,
    wire_type: u32,
    tail: Seq<u8>,
    value: Seq<char>,
    rest: Seq<u8>,
)
    requires
        bytes.len() > 0,
        wire_tag(bytes) == Ok::<(u32, u32, Seq<u8>), Seq<char>>((number, wire_type, tail)),
        rest.len() <= tail.len() < bytes.len(),
    ensures
        claims_from(Seq::empty(), c) == Ok::<ClaimsView, Seq<char>>(c),
        !(1 <= number <= 7) && wire_skip(number, wire_type, tail) == Ok::<Seq<u8>, Seq<char>>(rest)
            ==> claims_from(bytes, c) == claims_from(rest, c),
        1 <= number <= 7 && wire_type != 2 ==> claims_from(bytes, c) is Err,
        wire_type == 2 && wire_string(tail) == Ok::<(Seq<char>, Seq<u8>), Seq<char>>((value, rest))
            ==> {
            &&& number == 1 ==> claims_from(bytes, c) == claims_from(
                rest,
                ClaimsView { purpose: value, ..c },
            )
            &&& number == 2 ==> claims_from(bytes, c) == claims_from(
                rest,
                ClaimsView { user_id: value, ..c },
            )
            &&& number == 3 ==> claims_from(bytes, c) == claims_from(
                rest,
                ClaimsView { org_id: value, ..c },
            )
            &&& number == 4 ==> claims_from(bytes, c) == claims_from(
                rest,
                ClaimsView { email: value, ..c },
            )
            &&& number == 5 ==> claims_from(bytes, c) == claims_from(
                rest,
                ClaimsView { role: value, ..c },
            )
            &&& number == 6 ==> claims_from(bytes, c) == claims_from(
                rest,
                ClaimsView { database_id: value, ..c },
            )
            &&& number == 7 ==> claims_from(bytes, c) == claims_from(
                rest,
                ClaimsView { direction: value, ..c },
            )
        },
{
}

} // verus!
