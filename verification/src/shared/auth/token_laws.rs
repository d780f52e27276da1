//! What holds of minted session and sync tokens.

use vstd::prelude::*;
use vstd::utf8::{encode_utf8, is_ascii_chars};

use super::session::{SessionView, SyncView};
use super::tokens::{
    caveat_value, fields, session_identifier, session_of, session_outcome, session_predicates,
    session_token, sync_identifier, sync_of, sync_outcome, sync_predicates, sync_token,
    with_caveat, FieldsView, TokenErrorView,
};
use crate::macaroon::{
    all_stand, authentic, law_minted_is_authentic, lemma_exp_predicate, lemma_minted, minted,
    stands, starts, CaveatPolicy,
};
use crate::shared::domain::enums::{
    law_direction_round_trip, law_role_round_trip, Direction, Role, TokenPurpose,
};
use crate::text::{decimal_int, has_prefix, lemma_encode_concat, lemma_parse_of_decimal};

verus! {

/// The predicate that a key and a value make.
spec fn pair(key: Seq<char>, value: Seq<char>) -> Seq<u8> {
    encode_utf8(key + value)
}

proof fn lemma_own_key(key: Seq<char>, value: Seq<char>)
    ensures
        starts(pair(key, value), key),
        caveat_value(Some(pair(key, value)), key) == Some(value),
{
    lemma_encode_concat(key, value);
    let p = pair(key, value);
    assert(p.take(encode_utf8(key).len() as int) =~= encode_utf8(key));
    vstd::utf8::encode_utf8_valid_utf8(key + value);
    vstd::utf8::encode_utf8_decode_utf8(key + value);
    assert((key + value).take(key.len() as int) =~= key);
    assert((key + value).skip(key.len() as int) =~= value);
}

proof fn lemma_other_key(key: Seq<char>, value: Seq<char>, other: Seq<char>, k: int)
    requires
        0 <= k < key.len(),
        k < other.len(),
        key[k] != other[k],
        is_ascii_chars(key),
        is_ascii_chars(other),
    ensures
        !starts(pair(key, value), other),
        caveat_value(Some(pair(key, value)), other) is None,
{
    let p = pair(key, value);
    vstd::utf8::encode_utf8_valid_utf8(key + value);
    vstd::utf8::encode_utf8_decode_utf8(key + value);
    if has_prefix(key + value, other) {
        assert((key + value).take(other.len() as int)[k] == other[k]);
    }
    lemma_encode_concat(key, value);
    vstd::utf8::is_ascii_chars_encode_utf8(key);
    vstd::utf8::is_ascii_chars_encode_utf8(other);
    if starts(p, other) {
        assert(p.take(encode_utf8(other).len() as int)[k] == encode_utf8(other)[k]);
        assert(p[k] == encode_utf8(key)[k]);
        assert(key[k] as u8 == other[k] as u8);
    }
}

/// A `purpose` caveat is that and no other.
proof fn lemma_purpose_caveat(value: Seq<char>)
    ensures
        starts(pair("purpose="@, value), "purpose="@),
        caveat_value(Some(pair("purpose="@, value)), "purpose="@) == Some(value),
        caveat_value(Some(pair("purpose="@, value)), "user="@) is None,
        !starts(pair("purpose="@, value), "user="@),
        caveat_value(Some(pair("purpose="@, value)), "email="@) is None,
        !starts(pair("purpose="@, value), "email="@),
        caveat_value(Some(pair("purpose="@, value)), "org="@) is None,
        !starts(pair("purpose="@, value), "org="@),
        caveat_value(Some(pair("purpose="@, value)), "role="@) is None,
        !starts(pair("purpose="@, value), "role="@),
        caveat_value(Some(pair("purpose="@, value)), "database="@) is None,
        !starts(pair("purpose="@, value), "database="@),
        caveat_value(Some(pair("purpose="@, value)), "direction="@) is None,
        !starts(pair("purpose="@, value), "direction="@),
        caveat_value(Some(pair("purpose="@, value)), "exp="@) is None,
        !starts(pair("purpose="@, value), "exp="@),
{
    reveal_strlit("purpose=");
    reveal_strlit("user=");
    reveal_strlit("email=");
    reveal_strlit("org=");
    reveal_strlit("role=");
    reveal_strlit("database=");
    reveal_strlit("direction=");
    reveal_strlit("exp=");
    lemma_own_key("purpose="@, value);
    lemma_other_key("purpose="@, value, "user="@, 0);
    lemma_other_key("purpose="@, value, "email="@, 0);
    lemma_other_key("purpose="@, value, "org="@, 0);
    lemma_other_key("purpose="@, value, "role="@, 0);
    lemma_other_key("purpose="@, value, "database="@, 0);
    lemma_other_key("purpose="@, value, "direction="@, 0);
    lemma_other_key("purpose="@, value, "exp="@, 0);
}

/// A `user` caveat is that and no other.
proof fn lemma_user_caveat(value: Seq<char>)
    ensures
        starts(pair("user="@, value), "user="@),
        caveat_value(Some(pair("user="@, value)), "user="@) == Some(value),
        caveat_value(Some(pair("user="@, value)), "purpose="@) is None,
        !starts(pair("user="@, value), "purpose="@),
        caveat_value(Some(pair("user="@, value)), "email="@) is None,
        !starts(pair("user="@, value), "email="@),
        caveat_value(Some(pair("user="@, value)), "org="@) is None,
        !starts(pair("user="@, value), "org="@),
        caveat_value(Some(pair("user="@, value)), "role="@) is None,
        !starts(pair("user="@, value), "role="@),
        caveat_value(Some(pair("user="@, value)), "database="@) is None,
        !starts(pair("user="@, value), "database="@),
        caveat_value(Some(pair("user="@, value)), "direction="@) is None,
        !starts(pair("user="@, value), "direction="@),
        caveat_value(Some(pair("user="@, value)), "exp="@) is None,
        !starts(pair("user="@, value), "exp="@),
{
    reveal_strlit("user=");
    reveal_strlit("purpose=");
    reveal_strlit("email=");
    reveal_strlit("org=");
    reveal_strlit("role=");
    reveal_strlit("database=");
    reveal_strlit("direction=");
    reveal_strlit("exp=");
    lemma_own_key("user="@, value);
    lemma_other_key("user="@, value, "purpose="@, 0);
    lemma_other_key("user="@, value, "email="@, 0);
    lemma_other_key("user="@, value, "org="@, 0);
    lemma_other_key("user="@, value, "role="@, 0);
    lemma_other_key("user="@, value, "database="@, 0);
    lemma_other_key("user="@, value, "direction="@, 0);
    lemma_other_key("user="@, value, "exp="@, 0);
}

/// A `email` caveat is that and no other.
proof fn lemma_email_caveat(value: Seq<char>)
    ensures
        starts(pair("email="@, value), "email="@),
        caveat_value(Some(pair("email="@, value)), "email="@) == Some(value),
        caveat_value(Some(pair("email="@, value)), "purpose="@) is None,
        !starts(pair("email="@, value), "purpose="@),
        caveat_value(Some(pair("email="@, value)), "user="@) is None,
        !starts(pair("email="@, value), "user="@),
        caveat_value(Some(pair("email="@, value)), "org="@) is None,
        !starts(pair("email="@, value), "org="@),
        caveat_value(Some(pair("email="@, value)), "role="@) is None,
        !starts(pair("email="@, value), "role="@),
        caveat_value(Some(pair("email="@, value)), "database="@) is None,
        !starts(pair("email="@, value), "database="@),
        caveat_value(Some(pair("email="@, value)), "direction="@) is None,
        !starts(pair("email="@, value), "direction="@),
        caveat_value(Some(pair("email="@, value)), "exp="@) is None,
        !starts(pair("email="@, value), "exp="@),
{
    reveal_strlit("email=");
    reveal_strlit("purpose=");
    reveal_strlit("user=");
    reveal_strlit("org=");
    reveal_strlit("role=");
    reveal_strlit("database=");
    reveal_strlit("direction=");
    reveal_strlit("exp=");
    lemma_own_key("email="@, value);
    lemma_other_key("email="@, value, "purpose="@, 0);
    lemma_other_key("email="@, value, "user="@, 0);
    lemma_other_key("email="@, value, "org="@, 0);
    lemma_other_key("email="@, value, "role="@, 0);
    lemma_other_key("email="@, value, "database="@, 0);
    lemma_other_key("email="@, value, "direction="@, 0);
    lemma_other_key("email="@, value, "exp="@, 1);
}

/// A `org` caveat is that and no other.
proof fn lemma_org_caveat(value: Seq<char>)
    ensures
        starts(pair("org="@, value), "org="@),
        caveat_value(Some(pair("org="@, value)), "org="@) == Some(value),
        caveat_value(Some(pair("org="@, value)), "purpose="@) is None,
        !starts(pair("org="@, value), "purpose="@),
        caveat_value(Some(pair("org="@, value)), "user="@) is None,
        !starts(pair("org="@, value), "user="@),
        caveat_value(Some(pair("org="@, value)), "email="@) is None,
        !starts(pair("org="@, value), "email="@),
        caveat_value(Some(pair("org="@, value)), "role="@) is None,
        !starts(pair("org="@, value), "role="@),
        caveat_value(Some(pair("org="@, value)), "database="@) is None,
        !starts(pair("org="@, value), "database="@),
        caveat_value(Some(pair("org="@, value)), "direction="@) is None,
        !starts(pair("org="@, value), "direction="@),
        caveat_value(Some(pair("org="@, value)), "exp="@) is None,
        !starts(pair("org="@, value), "exp="@),
{
    reveal_strlit("org=");
    reveal_strlit("purpose=");
    reveal_strlit("user=");
    reveal_strlit("email=");
    reveal_strlit("role=");
    reveal_strlit("database=");
    reveal_strlit("direction=");
    reveal_strlit("exp=");
    lemma_own_key("org="@, value);
    lemma_other_key("org="@, value, "purpose="@, 0);
    lemma_other_key("org="@, value, "user="@, 0);
    lemma_other_key("org="@, value, "email="@, 0);
    lemma_other_key("org="@, value, "role="@, 0);
    lemma_other_key("org="@, value, "database="@, 0);
    lemma_other_key("org="@, value, "direction="@, 0);
    lemma_other_key("org="@, value, "exp="@, 0);
}

/// A `role` caveat is that and no other.
proof fn lemma_role_caveat(value: Seq<char>)
    ensures
        starts(pair("role="@, value), "role="@),
        caveat_value(Some(pair("role="@, value)), "role="@) == Some(value),
        caveat_value(Some(pair("role="@, value)), "purpose="@) is None,
        !starts(pair("role="@, value), "purpose="@),
        caveat_value(Some(pair("role="@, value)), "user="@) is None,
        !starts(pair("role="@, value), "user="@),
        caveat_value(Some(pair("role="@, value)), "email="@) is None,
        !starts(pair("role="@, value), "email="@),
        caveat_value(Some(pair("role="@, value)), "org="@) is None,
        !starts(pair("role="@, value), "org="@),
        caveat_value(Some(pair("role="@, value)), "database="@) is None,
        !starts(pair("role="@, value), "database="@),
        caveat_value(Some(pair("role="@, value)), "direction="@) is None,
        !starts(pair("role="@, value), "direction="@),
        caveat_value(Some(pair("role="@, value)), "exp="@) is None,
        !starts(pair("role="@, value), "exp="@),
{
    reveal_strlit("role=");
    reveal_strlit("purpose=");
    reveal_strlit("user=");
    reveal_strlit("email=");
    reveal_strlit("org=");
    reveal_strlit("database=");
    reveal_strlit("direction=");
    reveal_strlit("exp=");
    lemma_own_key("role="@, value);
    lemma_other_key("role="@, value, "purpose="@, 0);
    lemma_other_key("role="@, value, "user="@, 0);
    lemma_other_key("role="@, value, "email="@, 0);
    lemma_other_key("role="@, value, "org="@, 0);
    lemma_other_key("role="@, value, "database="@, 0);
    lemma_other_key("role="@, value, "direction="@, 0);
    lemma_other_key("role="@, value, "exp="@, 0);
}

/// A `database` caveat is that and no other.
proof fn lemma_database_caveat(value: Seq<char>)
    ensures
        starts(pair("database="@, value), "database="@),
        caveat_value(Some(pair("database="@, value)), "database="@) == Some(value),
        caveat_value(Some(pair("database="@, value)), "purpose="@) is None,
        !starts(pair("database="@, value), "purpose="@),
        caveat_value(Some(pair("database="@, value)), "user="@) is None,
        !starts(pair("database="@, value), "user="@),
        caveat_value(Some(pair("database="@, value)), "email="@) is None,
        !starts(pair("database="@, value), "email="@),
        caveat_value(Some(pair("database="@, value)), "org="@) is None,
        !starts(pair("database="@, value), "org="@),
        caveat_value(Some(pair("database="@, value)), "role="@) is None,
        !starts(pair("database="@, value), "role="@),
        caveat_value(Some(pair("database="@, value)), "direction="@) is None,
        !starts(pair("database="@, value), "direction="@),
        caveat_value(Some(pair("database="@, value)), "exp="@) is None,
        !starts(pair("database="@, value), "exp="@),
{
    reveal_strlit("database=");
    reveal_strlit("purpose=");
    reveal_strlit("user=");
    reveal_strlit("email=");
    reveal_strlit("org=");
    reveal_strlit("role=");
    reveal_strlit("direction=");
    reveal_strlit("exp=");
    lemma_own_key("database="@, value);
    lemma_other_key("database="@, value, "purpose="@, 0);
    lemma_other_key("database="@, value, "user="@, 0);
    lemma_other_key("database="@, value, "email="@, 0);
    lemma_other_key("database="@, value, "org="@, 0);
    lemma_other_key("database="@, value, "role="@, 0);
    lemma_other_key("database="@, value, "direction="@, 1);
    lemma_other_key("database="@, value, "exp="@, 0);
}

/// A `direction` caveat is that and no other.
proof fn lemma_direction_caveat(value: Seq<char>)
    ensures
        starts(pair("direction="@, value), "direction="@),
        caveat_value(Some(pair("direction="@, value)), "direction="@) == Some(value),
        caveat_value(Some(pair("direction="@, value)), "purpose="@) is None,
        !starts(pair("direction="@, value), "purpose="@),
        caveat_value(Some(pair("direction="@, value)), "user="@) is None,
        !starts(pair("direction="@, value), "user="@),
        caveat_value(Some(pair("direction="@, value)), "email="@) is None,
        !starts(pair("direction="@, value), "email="@),
        caveat_value(Some(pair("direction="@, value)), "org="@) is None,
        !starts(pair("direction="@, value), "org="@),
        caveat_value(Some(pair("direction="@, value)), "role="@) is None,
        !starts(pair("direction="@, value), "role="@),
        caveat_value(Some(pair("direction="@, value)), "database="@) is None,
        !starts(pair("direction="@, value), "database="@),
        caveat_value(Some(pair("direction="@, value)), "exp="@) is None,
        !starts(pair("direction="@, value), "exp="@),
{
    reveal_strlit("direction=");
    reveal_strlit("purpose=");
    reveal_strlit("user=");
    reveal_strlit("email=");
    reveal_strlit("org=");
    reveal_strlit("role=");
    reveal_strlit("database=");
    reveal_strlit("exp=");
    lemma_own_key("direction="@, value);
    lemma_other_key("direction="@, value, "purpose="@, 0);
    lemma_other_key("direction="@, value, "user="@, 0);
    lemma_other_key("direction="@, value, "email="@, 0);
    lemma_other_key("direction="@, value, "org="@, 0);
    lemma_other_key("direction="@, value, "role="@, 0);
    lemma_other_key("direction="@, value, "database="@, 1);
    lemma_other_key("direction="@, value, "exp="@, 0);
}

/// A `exp` caveat is that and no other.
proof fn lemma_exp_caveat(value: Seq<char>)
    ensures
        starts(pair("exp="@, value), "exp="@),
        caveat_value(Some(pair("exp="@, value)), "exp="@) == Some(value),
        caveat_value(Some(pair("exp="@, value)), "purpose="@) is None,
        !starts(pair("exp="@, value), "purpose="@),
        caveat_value(Some(pair("exp="@, value)), "user="@) is None,
        !starts(pair("exp="@, value), "user="@),
        caveat_value(Some(pair("exp="@, value)), "email="@) is None,
        !starts(pair("exp="@, value), "email="@),
        caveat_value(Some(pair("exp="@, value)), "org="@) is None,
        !starts(pair("exp="@, value), "org="@),
        caveat_value(Some(pair("exp="@, value)), "role="@) is None,
        !starts(pair("exp="@, value), "role="@),
        caveat_value(Some(pair("exp="@, value)), "database="@) is None,
        !starts(pair("exp="@, value), "database="@),
        caveat_value(Some(pair("exp="@, value)), "direction="@) is None,
        !starts(pair("exp="@, value), "direction="@),
{
    reveal_strlit("exp=");
    reveal_strlit("purpose=");
    reveal_strlit("user=");
    reveal_strlit("email=");
    reveal_strlit("org=");
    reveal_strlit("role=");
    reveal_strlit("database=");
    reveal_strlit("direction=");
    lemma_own_key("exp="@, value);
    lemma_other_key("exp="@, value, "purpose="@, 0);
    lemma_other_key("exp="@, value, "user="@, 0);
    lemma_other_key("exp="@, value, "email="@, 1);
    lemma_other_key("exp="@, value, "org="@, 0);
    lemma_other_key("exp="@, value, "role="@, 0);
    lemma_other_key("exp="@, value, "database="@, 0);
    lemma_other_key("exp="@, value, "direction="@, 0);
}

proof fn lemma_fields_step(kind: TokenPurpose, cs: Seq<Option<Seq<u8>>>, i: int)
    requires
        0 <= i < cs.len(),
    ensures
        fields(kind, cs.take(i + 1)) == match fields(kind, cs.take(i)) {
            Ok(f) => with_caveat(kind, f, cs[i]),
            Err(e) => Err(e),
        },
{
    assert(cs.take(i + 1).drop_last() =~= cs.take(i));
    assert(cs.take(i + 1).last() == cs[i]);
}

/// The caveats of a session token stand until the token expires, and say what
/// it was minted for.
proof fn lemma_session_caveats(s: SessionView)
    ensures
        ({
            let ps = session_predicates(s);
            let cs = ps.map_values(|p: Seq<u8>| Some(p));
            &&& forall|now_unix: i64|
                now_unix < s.exp_unix ==> #[trigger] all_stand(
                    CaveatPolicy::Session { now_unix },
                    cs,
                )
            &&& forall|now_unix: i64|
                now_unix >= s.exp_unix ==> !#[trigger] stands(
                    CaveatPolicy::Session { now_unix },
                    cs,
                    5,
                )
            &&& forall|now_unix: i64| !#[trigger] stands(CaveatPolicy::Sync { now_unix }, cs, 2)
            &&& session_of(cs) == Ok::<SessionView, TokenErrorView>(s)
        }),
{
    let ps = session_predicates(s);
    let cs = ps.map_values(|p: Seq<u8>| Some(p));
    lemma_purpose_caveat(TokenPurpose::Session.text());
    lemma_user_caveat(s.user);
    lemma_email_caveat(s.email);
    lemma_org_caveat(s.org);
    lemma_role_caveat(s.role.text());
    lemma_exp_caveat(decimal_int(s.exp_unix as int));
    lemma_exp_predicate(s.exp_unix);
    lemma_parse_of_decimal(s.exp_unix);
    law_role_round_trip(s.role);
    let kind = TokenPurpose::Session;
    lemma_fields_step(kind, cs, 0);
    lemma_fields_step(kind, cs, 1);
    lemma_fields_step(kind, cs, 2);
    lemma_fields_step(kind, cs, 3);
    lemma_fields_step(kind, cs, 4);
    lemma_fields_step(kind, cs, 5);
    assert(cs.take(0) =~= Seq::<Option<Seq<u8>>>::empty());
    assert(cs.take(6) =~= cs);
    assert forall|now_unix: i64| now_unix < s.exp_unix implies #[trigger] all_stand(
        CaveatPolicy::Session { now_unix },
        cs,
    ) by {
        let policy = CaveatPolicy::Session { now_unix };
        assert(policy.allows(ps[0]));
        assert(policy.allows(ps[1]));
        assert(policy.allows(ps[2]));
        assert(policy.allows(ps[3]));
        assert(policy.allows(ps[4]));
        assert(policy.allows(ps[5]));
    }
}

/// The caveats of a sync token stand until the token expires, and say what it
/// was minted for.
proof fn lemma_sync_caveats(s: SyncView)
    ensures
        ({
            let ps = sync_predicates(s);
            let cs = ps.map_values(|p: Seq<u8>| Some(p));
            &&& forall|now_unix: i64|
                now_unix < s.exp_unix ==> #[trigger] all_stand(CaveatPolicy::Sync { now_unix }, cs)
            &&& forall|now_unix: i64|
                now_unix >= s.exp_unix ==> !#[trigger] stands(
                    CaveatPolicy::Sync { now_unix },
                    cs,
                    5,
                )
            &&& forall|now_unix: i64| !#[trigger] stands(CaveatPolicy::Session { now_unix }, cs, 3)
            &&& sync_of(cs) == Ok::<SyncView, TokenErrorView>(s)
        }),
{
    let ps = sync_predicates(s);
    let cs = ps.map_values(|p: Seq<u8>| Some(p));
    lemma_purpose_caveat(TokenPurpose::Sync.text());
    lemma_user_caveat(s.user);
    lemma_org_caveat(s.org);
    lemma_database_caveat(s.database);
    lemma_direction_caveat(s.direction.text());
    lemma_exp_caveat(decimal_int(s.exp_unix as int));
    lemma_exp_predicate(s.exp_unix);
    lemma_parse_of_decimal(s.exp_unix);
    law_direction_round_trip(s.direction);
    let kind = TokenPurpose::Sync;
    lemma_fields_step(kind, cs, 0);
    lemma_fields_step(kind, cs, 1);
    lemma_fields_step(kind, cs, 2);
    lemma_fields_step(kind, cs, 3);
    lemma_fields_step(kind, cs, 4);
    lemma_fields_step(kind, cs, 5);
    assert(cs.take(0) =~= Seq::<Option<Seq<u8>>>::empty());
    assert(cs.take(6) =~= cs);
    assert forall|now_unix: i64| now_unix < s.exp_unix implies #[trigger] all_stand(
        CaveatPolicy::Sync { now_unix },
        cs,
    ) by {
        let policy = CaveatPolicy::Sync { now_unix };
        assert(policy.allows(ps[0]));
        assert(policy.allows(ps[1]));
        assert(policy.allows(ps[2]));
        assert(policy.allows(ps[3]));
        assert(policy.allows(ps[4]));
        assert(policy.allows(ps[5]));
    }
}

/// A session token that was minted with the key verifies under it until it
/// expires, to exactly the session that it was minted for.
pub proof fn law_session_round_trip(
    key: Seq<u8>,
    s: SessionView,
    token: Seq<char>,
    now_unix: i64,
    r: Result<SessionView, TokenErrorView>,
)
    requires
        session_token(key, s, token),
        now_unix < s.exp_unix,
        session_outcome(key, now_unix, token, r),
    ensures
        r == Ok::<SessionView, TokenErrorView>(s),
{
    law_minted_is_authentic(key, session_identifier(s), session_predicates(s));
    lemma_minted(key, session_identifier(s), session_predicates(s));
    lemma_session_caveats(s);
}

/// A session token is refused from its expiry on, as carrying an invalid caveat.
pub proof fn law_expired_session_refused(
    key: Seq<u8>,
    s: SessionView,
    token: Seq<char>,
    now_unix: i64,
    r: Result<SessionView, TokenErrorView>,
)
    requires
        session_token(key, s, token),
        now_unix >= s.exp_unix,
        session_outcome(key, now_unix, token, r),
    ensures
        r matches Err(TokenErrorView::InvalidCaveat(_)),
{
    lemma_minted(key, session_identifier(s), session_predicates(s));
    lemma_session_caveats(s);
    let cs = session_predicates(s).map_values(|p: Seq<u8>| Some(p));
    assert(!stands(CaveatPolicy::Session { now_unix }, cs, 5));
}

/// A session token does not verify as a sync token, at any time.
pub proof fn law_session_is_no_sync_token(
    key: Seq<u8>,
    s: SessionView,
    token: Seq<char>,
    now_unix: i64,
    r: Result<SyncView, TokenErrorView>,
)
    requires
        session_token(key, s, token),
        sync_outcome(key, now_unix, token, r),
    ensures
        r matches Err(TokenErrorView::InvalidCaveat(_)),
{
    lemma_minted(key, session_identifier(s), session_predicates(s));
    lemma_session_caveats(s);
    let cs = session_predicates(s).map_values(|p: Seq<u8>| Some(p));
    assert(!stands(CaveatPolicy::Sync { now_unix }, cs, 2));
}

/// A sync token that was minted with the key verifies under it until it
/// expires, to exactly the grant that it was minted for.
pub proof fn law_sync_round_trip(
    key: Seq<u8>,
    s: SyncView,
    token: Seq<char>,
    now_unix: i64,
    r: Result<SyncView, TokenErrorView>,
)
    requires
        sync_token(key, s, token),
        now_unix < s.exp_unix,
        sync_outcome(key, now_unix, token, r),
    ensures
        r == Ok::<SyncView, TokenErrorView>(s),
{
    law_minted_is_authentic(key, sync_identifier(s), sync_predicates(s));
    lemma_minted(key, sync_identifier(s), sync_predicates(s));
    lemma_sync_caveats(s);
}

/// A sync token is refused from its expiry on, as carrying an invalid caveat.
pub proof fn law_expired_sync_refused(
    key: Seq<u8>,
    s: SyncView,
    token: Seq<char>,
    now_unix: i64,
    r: Result<SyncView, TokenErrorView>,
)
    requires
        sync_token(key, s, token),
        now_unix >= s.exp_unix,
        sync_outcome(key, now_unix, token, r),
    ensures
        r matches Err(TokenErrorView::InvalidCaveat(_)),
{
    lemma_minted(key, sync_identifier(s), sync_predicates(s));
    lemma_sync_caveats(s);
    let cs = sync_predicates(s).map_values(|p: Seq<u8>| Some(p));
    assert(!stands(CaveatPolicy::Sync { now_unix }, cs, 5));
}

/// A sync token does not verify as a session token, at any time.
pub proof fn law_sync_is_no_session_token(
    key: Seq<u8>,
    s: SyncView,
    token: Seq<char>,
    now_unix: i64,
    r: Result<SessionView, TokenErrorView>,
)
    requires
        sync_token(key, s, token),
        session_outcome(key, now_unix, token, r),
    ensures
        r matches Err(TokenErrorView::InvalidCaveat(_)),
{
    lemma_minted(key, sync_identifier(s), sync_predicates(s));
    lemma_sync_caveats(s);
    let cs = sync_predicates(s).map_values(|p: Seq<u8>| Some(p));
    assert(!stands(CaveatPolicy::Session { now_unix }, cs, 3));
}

/// A token that verifies is one whose every caveat stands and whose signature
/// is the key holder's.
pub proof fn law_verified_session_is_authentic(
    key: Seq<u8>,
    token: Seq<char>,
    now_unix: i64,
    s: SessionView,
)
    requires
        session_outcome(key, now_unix, token, Ok(s)),
    ensures
        decoded(token) matches Some(c) && authentic(key, c) && all_stand(
            CaveatPolicy::Session { now_unix },
            c.caveats,
        ),
{
}

/// A token that verifies is one whose every caveat stands and whose signature
/// is the key holder's.
pub proof fn law_verified_sync_is_authentic(
    key: Seq<u8>,
    token: Seq<char>,
    now_unix: i64,
    s: SyncView,
)
    requires
        sync_outcome(key, now_unix, token, Ok(s)),
    ensures
        decoded(token) matches Some(c) && authentic(key, c) && all_stand(
            CaveatPolicy::Sync { now_unix },
            c.caveats,
        ),
{
}

/// The contents of a token that can be decoded.
pub open spec fn decoded(token: Seq<char>) -> Option<crate::macaroon::Contents> {
    match crate::macaroon::decoded_macaroon(token) {
        Ok(c) => Some(c),
        Err(_) => None,
    }
}

proof fn lemma_one_more(kind: TokenPurpose, cs: Seq<Option<Seq<u8>>>, p: Seq<u8>, f: FieldsView)
    requires
        fields(kind, cs) == Ok::<FieldsView, TokenErrorView>(f),
    ensures
        fields(kind, cs.push(Some(p))) == with_caveat(kind, f, Some(p)),
{
    assert(cs.push(Some(p)).drop_last() =~= cs);
}

/// Caveats are read one after the other, each under its own name, and a later
/// one overrides an earlier one of the same name. A session reads its email
/// and its role, a sync grant its database and its direction.
pub proof fn law_caveats_are_read_in_order(
    cs: Seq<Option<Seq<u8>>>,
    session: FieldsView,
    grant: FieldsView,
    value: Seq<char>,
    role: Role,
    direction: Direction,
    exp_unix: i64,
)
    requires
        fields(TokenPurpose::Session, cs) == Ok::<FieldsView, TokenErrorView>(session),
        fields(TokenPurpose::Sync, cs) == Ok::<FieldsView, TokenErrorView>(grant),
    ensures
        fields(TokenPurpose::Session, cs.push(Some(encode_utf8("purpose="@ + value)))) == Ok::<
            FieldsView,
            TokenErrorView,
        >(FieldsView { purpose: Some(value), ..session }),
        fields(TokenPurpose::Session, cs.push(Some(encode_utf8("user="@ + value)))) == Ok::<
            FieldsView,
            TokenErrorView,
        >(FieldsView { user: Some(value), ..session }),
        fields(TokenPurpose::Session, cs.push(Some(encode_utf8("email="@ + value)))) == Ok::<
            FieldsView,
            TokenErrorView,
        >(FieldsView { email: Some(value), ..session }),
        fields(TokenPurpose::Session, cs.push(Some(encode_utf8("org="@ + value)))) == Ok::<
            FieldsView,
            TokenErrorView,
        >(FieldsView { org: Some(value), ..session }),
        fields(TokenPurpose::Session, cs.push(Some(encode_utf8("role="@ + role.text())))) == Ok::<
            FieldsView,
            TokenErrorView,
        >(FieldsView { role: Some(role), ..session }),
        fields(
            TokenPurpose::Session,
            cs.push(Some(encode_utf8("exp="@ + decimal_int(exp_unix as int)))),
        ) == Ok::<FieldsView, TokenErrorView>(FieldsView { exp_unix: Some(exp_unix), ..session }),
        fields(TokenPurpose::Sync, cs.push(Some(encode_utf8("database="@ + value)))) == Ok::<
            FieldsView,
            TokenErrorView,
        >(FieldsView { database: Some(value), ..grant }),
        fields(
            TokenPurpose::Sync,
            cs.push(Some(encode_utf8("direction="@ + direction.text()))),
        ) == Ok::<FieldsView, TokenErrorView>(FieldsView { direction: Some(direction), ..grant }),
        fields(
            TokenPurpose::Sync,
            cs.push(Some(encode_utf8("exp="@ + decimal_int(exp_unix as int)))),
        ) == Ok::<FieldsView, TokenErrorView>(FieldsView { exp_unix: Some(exp_unix), ..grant }),
{
    lemma_purpose_caveat(value);
    lemma_user_caveat(value);
    lemma_email_caveat(value);
    lemma_org_caveat(value);
    lemma_role_caveat(role.text());
    lemma_database_caveat(value);
    lemma_direction_caveat(direction.text());
    lemma_exp_caveat(decimal_int(exp_unix as int));
    law_role_round_trip(role);
    law_direction_round_trip(direction);
    lemma_parse_of_decimal(exp_unix);
    lemma_one_more(TokenPurpose::Session, cs, pair("purpose="@, value), session);
    lemma_one_more(TokenPurpose::Session, cs, pair("user="@, value), session);
    lemma_one_more(TokenPurpose::Session, cs, pair("email="@, value), session);
    lemma_one_more(TokenPurpose::Session, cs, pair("org="@, value), session);
    lemma_one_more(TokenPurpose::Session, cs, pair("role="@, role.text()), session);
    lemma_one_more(
        TokenPurpose::Session,
        cs,
        pair("exp="@, decimal_int(exp_unix as int)),
        session,
    );
    lemma_one_more(TokenPurpose::Sync, cs, pair("database="@, value), grant);
    lemma_one_more(TokenPurpose::Sync, cs, pair("direction="@, direction.text()), grant);
    lemma_one_more(TokenPurpose::Sync, cs, pair("exp="@, decimal_int(exp_unix as int)), grant);
}

/// Caveats that say all that a session needs, and say that it is one, are read
/// as that session; without any one of them they are not.
pub proof fn law_session_of_caveats(cs: Seq<Option<Seq<u8>>>, f: FieldsView)
    requires
        fields(TokenPurpose::Session, cs) == Ok::<FieldsView, TokenErrorView>(f),
    ensures
        session_of(cs) is Ok <==> f.purpose == Some("session"@) && f.user is Some && f.email is Some
            && f.org is Some && f.role is Some && f.exp_unix is Some,
        session_of(cs) matches Ok(s) ==> f.user == Some(s.user) && f.email == Some(s.email) && f.org
            == Some(s.org) && f.role == Some(s.role) && f.exp_unix == Some(s.exp_unix),
{
}

/// Caveats that say all that a sync grant needs, and say that it is one, are
/// read as that grant; without any one of them they are not.
pub proof fn law_sync_of_caveats(cs: Seq<Option<Seq<u8>>>, f: FieldsView)
    requires
        fields(TokenPurpose::Sync, cs) == Ok::<FieldsView, TokenErrorView>(f),
    ensures
        sync_of(cs) is Ok <==> f.purpose == Some("sync"@) && f.user is Some && f.org is Some
            && f.database is Some && f.direction is Some && f.exp_unix is Some,
        sync_of(cs) matches Ok(s) ==> f.user == Some(s.user) && f.org == Some(s.org) && f.database
            == Some(s.database) && f.direction == Some(s.direction) && f.exp_unix == Some(
            s.exp_unix,
        ),
{
}

/// A session token stands with the caveats of a session and a sync token with
/// those of a sync, whatever their values, and each with an expiry that has
/// not passed; neither stands with a caveat of the other alone.
pub proof fn law_policies_tell_caveats_apart(now_unix: i64, value: Seq<char>, exp_unix: i64)
    ensures
        ({
            let session = CaveatPolicy::Session { now_unix };
            &&& session.allows(encode_utf8("purpose="@ + value))
            &&& session.allows(encode_utf8("user="@ + value))
            &&& session.allows(encode_utf8("email="@ + value))
            &&& session.allows(encode_utf8("org="@ + value))
            &&& session.allows(encode_utf8("role="@ + value))
            &&& !session.allows(encode_utf8("database="@ + value))
            &&& !session.allows(encode_utf8("direction="@ + value))
            &&& session.allows(encode_utf8("exp="@ + decimal_int(exp_unix as int))) <==> exp_unix
                > now_unix
        }),
        ({
            let sync = CaveatPolicy::Sync { now_unix };
            &&& sync.allows(encode_utf8("purpose="@ + value))
            &&& sync.allows(encode_utf8("user="@ + value))
            &&& !sync.allows(encode_utf8("email="@ + value))
            &&& sync.allows(encode_utf8("org="@ + value))
            &&& !sync.allows(encode_utf8("role="@ + value))
            &&& sync.allows(encode_utf8("database="@ + value))
            &&& sync.allows(encode_utf8("direction="@ + value))
            &&& sync.allows(encode_utf8("exp="@ + decimal_int(exp_unix as int))) <==> exp_unix
                > now_unix
        }),
        ({
            let expiry = CaveatPolicy::ExpiryOnly;
            &&& !expiry.allows(encode_utf8("purpose="@ + value))
            &&& !expiry.allows(encode_utf8("user="@ + value))
            &&& !expiry.allows(encode_utf8("email="@ + value))
            &&& !expiry.allows(encode_utf8("org="@ + value))
            &&& !expiry.allows(encode_utf8("role="@ + value))
            &&& !expiry.allows(encode_utf8("database="@ + value))
            &&& !expiry.allows(encode_utf8("direction="@ + value))
            &&& expiry.allows(encode_utf8("exp="@ + decimal_int(exp_unix as int)))
        }),
{
    lemma_purpose_caveat(value);
    lemma_user_caveat(value);
    lemma_email_caveat(value);
    lemma_org_caveat(value);
    lemma_role_caveat(value);
    lemma_database_caveat(value);
    lemma_direction_caveat(value);
    lemma_exp_caveat(decimal_int(exp_unix as int));
    lemma_exp_predicate(exp_unix);
}

/// No policy lets a predicate stand whose first byte begins none of the keys.
pub proof fn law_unknown_caveats_are_refused(policy: CaveatPolicy, p: Seq<u8>)
    requires
        p.len() == 0 || !(p[0] == 'p' as u8 || p[0] == 'u' as u8 || p[0] == 'e' as u8 || p[0]
            == 'o' as u8 || p[0] == 'r' as u8 || p[0] == 'd' as u8),
    ensures
        !policy.allows(p),
{
    reveal_strlit("exp=");
    reveal_strlit("purpose=");
    reveal_strlit("user=");
    reveal_strlit("email=");
    reveal_strlit("org=");
    reveal_strlit("role=");
    reveal_strlit("database=");
    reveal_strlit("direction=");
    lemma_first_byte(p, "exp="@);
    lemma_first_byte(p, "purpose="@);
    lemma_first_byte(p, "user="@);
    lemma_first_byte(p, "email="@);
    lemma_first_byte(p, "org="@);
    lemma_first_byte(p, "role="@);
    lemma_first_byte(p, "database="@);
    lemma_first_byte(p, "direction="@);
}

proof fn lemma_first_byte(p: Seq<u8>, key: Seq<char>)
    requires
        key.len() > 0,
        is_ascii_chars(key),
        p.len() == 0 || p[0] != key[0] as u8,
    ensures
        !starts(p, key),
{
    vstd::utf8::is_ascii_chars_encode_utf8(key);
    if starts(p, key) {
        assert(p.take(encode_utf8(key).len() as int)[0] == encode_utf8(key)[0]);
    }
}

} // verus!
