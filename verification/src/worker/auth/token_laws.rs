//! What holds of minted tokens, and of what a holder can make of them.

use vstd::prelude::*;

use super::claims::{claims_bytes, claims_from, no_claims, ClaimsView};
use super::tokens::{
    earliest, packed, session_claims, session_of, session_outcome, session_token, sync_claims,
    sync_of, sync_outcome, sync_token, unpack_outcome, TokenErrorView,
};
use crate::macaroon::{
    all_stand, attenuated, authentic, caveat_exp, decoded_macaroon, exp_predicate,
    law_minted_is_authentic, lemma_exp_predicate, lemma_minted, minted, stands, CaveatPolicy,
    Contents, FaultView,
};
use crate::shared::auth::session::{SessionView, SyncView};
use crate::shared::domain::enums::{
    law_direction_round_trip, law_purposes_differ, law_role_round_trip, TokenPurpose,
};

verus! {

/// A token minted for claims with an expiry.
pub open spec fn packed_contents(key: Seq<u8>, c: ClaimsView, exp_unix: i64) -> Contents {
    minted(key, claims_bytes(c), seq![exp_predicate(exp_unix as int)])
}

proof fn lemma_packed(key: Seq<u8>, c: ClaimsView, exp_unix: i64)
    ensures
        ({
            let m = packed_contents(key, c, exp_unix);
            &&& m.identifier == claims_bytes(c)
            &&& m.caveats == seq![Some(exp_predicate(exp_unix as int))]
            &&& authentic(key, m)
            &&& all_stand(CaveatPolicy::ExpiryOnly, m.caveats)
            &&& earliest(m.caveats) == Some(exp_unix)
        }),
{
    let ps = seq![exp_predicate(exp_unix as int)];
    law_minted_is_authentic(key, claims_bytes(c), ps);
    lemma_minted(key, claims_bytes(c), ps);
    lemma_exp_predicate(exp_unix);
    let cs = packed_contents(key, c, exp_unix).caveats;
    assert(cs =~= seq![Some(exp_predicate(exp_unix as int))]);
    assert(cs.drop_last() =~= Seq::<Option<Seq<u8>>>::empty());
    reveal_with_fuel(earliest, 2);
}

/// Unpacking a minted token gives its claims until it expires; from then on it
/// is refused as expired.
pub proof fn law_unpack_of_pack(
    key: Seq<u8>,
    c: ClaimsView,
    exp_unix: i64,
    token: Seq<char>,
    now_unix: i64,
    r: Result<(ClaimsView, i64), TokenErrorView>,
)
    requires
        packed(key, c, exp_unix, token),
        unpack_outcome(key, now_unix, token, r),
    ensures
        r == if now_unix < exp_unix {
            Ok::<(ClaimsView, i64), TokenErrorView>((c, exp_unix))
        } else {
            Err(TokenErrorView::Expired)
        },
{
    lemma_packed(key, c, exp_unix);
}

/// A session token verifies until it expires, to exactly the session that it
/// was minted for. (Empty claims read as missing ones.)
pub proof fn law_session_round_trip(
    key: Seq<u8>,
    s: SessionView,
    token: Seq<char>,
    now_unix: i64,
    r: Result<SessionView, TokenErrorView>,
)
    requires
        session_token(key, s, token),
        now_unix < s.exp_unix,
        s.user.len() > 0,
        s.email.len() > 0,
        s.org.len() > 0,
        session_outcome(key, now_unix, token, r),
    ensures
        r == Ok::<SessionView, TokenErrorView>(s),
{
    let u = choose|u: Result<(ClaimsView, i64), TokenErrorView>| #[trigger]
        unpack_outcome(key, now_unix, token, u) && match u {
            Err(e) => r == Err::<SessionView, TokenErrorView>(e),
            Ok((c, exp_unix)) => r == session_of(c, exp_unix),
        };
    law_unpack_of_pack(key, session_claims(s), s.exp_unix, token, now_unix, u);
    law_role_round_trip(s.role);
}

/// A sync token verifies until it expires, to exactly the grant that it was
/// minted for. (Empty claims read as missing ones.)
pub proof fn law_sync_round_trip(
    key: Seq<u8>,
    s: SyncView,
    token: Seq<char>,
    now_unix: i64,
    r: Result<SyncView, TokenErrorView>,
)
    requires
        sync_token(key, s, token),
        now_unix < s.exp_unix,
        s.user.len() > 0,
        s.org.len() > 0,
        s.database.len() > 0,
        sync_outcome(key, now_unix, token, r),
    ensures
        r == Ok::<SyncView, TokenErrorView>(s),
{
    let u = choose|u: Result<(ClaimsView, i64), TokenErrorView>| #[trigger]
        unpack_outcome(key, now_unix, token, u) && match u {
            Err(e) => r == Err::<SyncView, TokenErrorView>(e),
            Ok((c, exp_unix)) => r == sync_of(c, exp_unix),
        };
    law_unpack_of_pack(key, sync_claims(s), s.exp_unix, token, now_unix, u);
    law_direction_round_trip(s.direction);
}

/// A session token is refused as expired from its expiry on.
pub proof fn law_expired_session_refused(
    key: Seq<u8>,
    s: SessionView,
    token: Seq<char>,
    now_unix: i64,
    r: Result<SessionView, TokenErrorView>,
)
    requires
        session_token(key, s, token),
        now_unix >= s.exp_unix,
        session_outcome(key, now_unix, token, r),
    ensures
        r == Err::<SessionView, TokenErrorView>(TokenErrorView::Expired),
{
    let u = choose|u: Result<(ClaimsView, i64), TokenErrorView>| #[trigger]
        unpack_outcome(key, now_unix, token, u) && match u {
            Err(e) => r == Err::<SessionView, TokenErrorView>(e),
            Ok((c, exp_unix)) => r == session_of(c, exp_unix),
        };
    law_unpack_of_pack(key, session_claims(s), s.exp_unix, token, now_unix, u);
}

/// A sync token is refused as expired from its expiry on.
pub proof fn law_expired_sync_refused(
    key: Seq<u8>,
    s: SyncView,
    token: Seq<char>,
    now_unix: i64,
    r: Result<SyncView, TokenErrorView>,
)
    requires
        sync_token(key, s, token),
        now_unix >= s.exp_unix,
        sync_outcome(key, now_unix, token, r),
    ensures
        r == Err::<SyncView, TokenErrorView>(TokenErrorView::Expired),
{
    let u = choose|u: Result<(ClaimsView, i64), TokenErrorView>| #[trigger]
        unpack_outcome(key, now_unix, token, u) && match u {
            Err(e) => r == Err::<SyncView, TokenErrorView>(e),
            Ok((c, exp_unix)) => r == sync_of(c, exp_unix),
        };
    law_unpack_of_pack(key, sync_claims(s), s.exp_unix, token, now_unix, u);
}

/// A live session token is refused as a sync token, for its purpose.
pub proof fn law_session_is_no_sync_token(
    key: Seq<u8>,
    s: SessionView,
    token: Seq<char>,
    now_unix: i64,
    r: Result<SyncView, TokenErrorView>,
)
    requires
        session_token(key, s, token),
        now_unix < s.exp_unix,
        sync_outcome(key, now_unix, token, r),
    ensures
        r == Err::<SyncView, TokenErrorView>(
            TokenErrorView::WrongPurpose {
                expected: TokenPurpose::Sync,
                found: TokenPurpose::Session.text(),
            },
        ),
{
    let u = choose|u: Result<(ClaimsView, i64), TokenErrorView>| #[trigger]
        unpack_outcome(key, now_unix, token, u) && match u {
            Err(e) => r == Err::<SyncView, TokenErrorView>(e),
            Ok((c, exp_unix)) => r == sync_of(c, exp_unix),
        };
    law_unpack_of_pack(key, session_claims(s), s.exp_unix, token, now_unix, u);
    law_purposes_differ();
}

/// A live sync token is refused as a session token, for its purpose.
pub proof fn law_sync_is_no_session_token(
    key: Seq<u8>,
    s: SyncView,
    token: Seq<char>,
    now_unix: i64,
    r: Result<SessionView, TokenErrorView>,
)
    requires
        sync_token(key, s, token),
        now_unix < s.exp_unix,
        session_outcome(key, now_unix, token, r),
    ensures
        r == Err::<SessionView, TokenErrorView>(
            TokenErrorView::WrongPurpose {
                expected: TokenPurpose::Session,
                found: TokenPurpose::Sync.text(),
            },
        ),
{
    let u = choose|u: Result<(ClaimsView, i64), TokenErrorView>| #[trigger]
        unpack_outcome(key, now_unix, token, u) && match u {
            Err(e) => r == Err::<SessionView, TokenErrorView>(e),
            Ok((c, exp_unix)) => r == session_of(c, exp_unix),
        };
    law_unpack_of_pack(key, sync_claims(s), s.exp_unix, token, now_unix, u);
    law_purposes_differ();
}

/// A macaroon with more caveats, one after the other: what holders can make of
/// it.
pub open spec fn extended(m: Contents, predicates: Seq<Seq<u8>>) -> Contents
    decreases predicates.len(),
{
    if predicates.len() == 0 {
        m
    } else {
        attenuated(extended(m, predicates.drop_last()), predicates.last())
    }
}

proof fn lemma_extended(key: Seq<u8>, c: ClaimsView, exp_unix: i64, appended: Seq<Seq<u8>>)
    ensures
        ({
            let m = extended(packed_contents(key, c, exp_unix), appended);
            &&& m.identifier == claims_bytes(c)
            &&& m.caveats == (seq![exp_predicate(exp_unix as int)] + appended).map_values(
                |p: Seq<u8>| Some(p),
            )
            &&& authentic(key, m)
        }),
{
    let first = seq![exp_predicate(exp_unix as int)];
    lemma_extended_minted(key, claims_bytes(c), first, appended);
    law_minted_is_authentic(key, claims_bytes(c), first + appended);
    lemma_minted(key, claims_bytes(c), first + appended);
}

proof fn lemma_extended_minted(
    key: Seq<u8>,
    identifier: Seq<u8>,
    first: Seq<Seq<u8>>,
    appended: Seq<Seq<u8>>,
)
    ensures
        extended(minted(key, identifier, first), appended) == minted(
            key,
            identifier,
            first + appended,
        ),
    decreases appended.len(),
{
    if appended.len() == 0 {
        assert(first + appended =~= first);
    } else {
        lemma_extended_minted(key, identifier, first, appended.drop_last());
        assert((first + appended).drop_last() =~= first + appended.drop_last());
        assert((first + appended).last() == appended.last());
    }
}

/// Whatever holders append, where one caveat of it is not an expiry the token
/// is refused for that: a caveat cannot assert authority.
pub proof fn law_appended_caveat_refused(
    key: Seq<u8>,
    c: ClaimsView,
    exp_unix: i64,
    appended: Seq<Seq<u8>>,
    i: int,
    token: Seq<char>,
    now_unix: i64,
    r: Result<(ClaimsView, i64), TokenErrorView>,
)
    requires
        decoded_macaroon(token) == Ok::<Contents, FaultView>(
            extended(packed_contents(key, c, exp_unix), appended),
        ),
        0 <= i < appended.len(),
        caveat_exp(appended[i]) is None,
        unpack_outcome(key, now_unix, token, r),
    ensures
        r matches Err(TokenErrorView::UnexpectedCaveat(_)),
{
    lemma_extended(key, c, exp_unix, appended);
    let cs = extended(packed_contents(key, c, exp_unix), appended).caveats;
    assert(cs[i + 1] == Some(appended[i]));
    assert(!stands(CaveatPolicy::ExpiryOnly, cs, i + 1));
}

/// The earliest of an expiry and others.
pub open spec fn soonest(exp_unix: i64, others: Seq<i64>) -> i64
    decreases others.len(),
{
    if others.len() == 0 {
        exp_unix
    } else {
        let before = soonest(exp_unix, others.drop_last());
        if others.last() < before {
            others.last()
        } else {
            before
        }
    }
}

/// The caveats that say expiries.
pub open spec fn exp_predicates(exps: Seq<i64>) -> Seq<Seq<u8>> {
    exps.map_values(|e: i64| exp_predicate(e as int))
}

proof fn lemma_soonest(exp_unix: i64, exps: Seq<i64>)
    ensures
        ({
            let cs = (seq![exp_predicate(exp_unix as int)] + exp_predicates(exps)).map_values(
                |p: Seq<u8>| Some(p),
            );
            &&& all_stand(CaveatPolicy::ExpiryOnly, cs)
            &&& earliest(cs) == Some(soonest(exp_unix, exps))
        }),
    decreases exps.len(),
{
    let some = |p: Seq<u8>| Some(p);
    let ps = seq![exp_predicate(exp_unix as int)] + exp_predicates(exps);
    let cs = ps.map_values(some);
    if exps.len() == 0 {
        lemma_exp_predicate(exp_unix);
        assert(cs =~= seq![Some(exp_predicate(exp_unix as int))]);
        assert(cs.drop_last() =~= Seq::<Option<Seq<u8>>>::empty());
        reveal_with_fuel(earliest, 2);
    } else {
        let part = exps.drop_last();
        lemma_soonest(exp_unix, part);
        lemma_exp_predicate(exps.last());
        let before = (seq![exp_predicate(exp_unix as int)] + exp_predicates(part)).map_values(some);
        assert(cs.drop_last() =~= before);
        assert(cs.last() == Some(exp_predicate(exps.last() as int)));
        assert forall|j: int| 0 <= j < cs.len() implies #[trigger] stands(
            CaveatPolicy::ExpiryOnly,
            cs,
            j,
        ) by {
            if j < before.len() {
                assert(stands(CaveatPolicy::ExpiryOnly, before, j));
                assert(cs[j] == before[j]);
            }
        }
    }
}

/// Holders can append expiries. The effective one is the earliest of all, so a
/// token's life can be shortened and never extended; the claims stay as they
/// were signed.
pub proof fn law_appended_expiry_only_shortens(
    key: Seq<u8>,
    c: ClaimsView,
    exp_unix: i64,
    appended: Seq<i64>,
    token: Seq<char>,
    now_unix: i64,
    r: Result<(ClaimsView, i64), TokenErrorView>,
)
    requires
        decoded_macaroon(token) == Ok::<Contents, FaultView>(
            extended(packed_contents(key, c, exp_unix), exp_predicates(appended)),
        ),
        claims_from(claims_bytes(c), no_claims()) == Ok::<ClaimsView, Seq<char>>(c),
        unpack_outcome(key, now_unix, token, r),
    ensures
        ({
            let effective = soonest(exp_unix, appended);
            &&& effective <= exp_unix
            &&& forall|i: int| 0 <= i < appended.len() ==> effective <= #[trigger] appended[i]
            &&& r == if now_unix < effective {
                Ok::<(ClaimsView, i64), TokenErrorView>((c, effective))
            } else {
                Err(TokenErrorView::Expired)
            }
        }),
{
    lemma_extended(key, c, exp_unix, exp_predicates(appended));
    lemma_soonest(exp_unix, appended);
    lemma_soonest_least(exp_unix, appended);
}

proof fn lemma_soonest_least(exp_unix: i64, exps: Seq<i64>)
    ensures
        soonest(exp_unix, exps) <= exp_unix,
        forall|i: int| 0 <= i < exps.len() ==> soonest(exp_unix, exps) <= #[trigger] exps[i],
    decreases exps.len(),
{
    if exps.len() > 0 {
        let part = exps.drop_last();
        lemma_soonest_least(exp_unix, part);
        assert forall|i: int| 0 <= i < exps.len() implies soonest(exp_unix, exps)
            <= #[trigger] exps[i] by {
            if i < part.len() {
                assert(part[i] == exps[i]);
            }
        }
    }
}

proof fn lemma_earliest_bounds(cs: Seq<Option<Seq<u8>>>, i: int)
    requires
        0 <= i < cs.len(),
        cs[i] is Some,
        caveat_exp(cs[i]->0) is Some,
    ensures
        earliest(cs) is Some,
        earliest(cs)->0 <= caveat_exp(cs[i]->0)->0,
    decreases cs.len(),
{
    if i < cs.len() - 1 {
        lemma_earliest_bounds(cs.drop_last(), i);
    }
}

/// A token that unpacks is one that the key holder signed; the claims are
/// those of its identifier, every caveat is an expiry, and none of them has
/// passed nor is earlier than the effective one.
pub proof fn law_unpacked_token(
    key: Seq<u8>,
    token: Seq<char>,
    now_unix: i64,
    c: ClaimsView,
    exp_unix: i64,
)
    requires
        unpack_outcome(key, now_unix, token, Ok((c, exp_unix))),
    ensures
        exists|m: Contents|
            {
                &&& decoded_macaroon(token) == Ok::<Contents, FaultView>(m)
                &&& #[trigger] authentic(key, m)
                &&& claims_from(m.identifier, no_claims()) == Ok::<ClaimsView, Seq<char>>(c)
                &&& now_unix < exp_unix
                &&& forall|i: int|
                    0 <= i < m.caveats.len() ==> (#[trigger] m.caveats[i] matches Some(p)
                        && caveat_exp(p) matches Some(e) && exp_unix <= e)
            },
{
    let m = decoded_macaroon(token)->Ok_0;
    assert(authentic(key, m));
    assert forall|i: int| 0 <= i < m.caveats.len() implies (#[trigger] m.caveats[i] matches Some(p)
        && caveat_exp(p) matches Some(e) && exp_unix <= e) by {
        assert(stands(CaveatPolicy::ExpiryOnly, m.caveats, i));
        lemma_earliest_bounds(m.caveats, i);
    }
}

/// The effective expiry is one of the expiries among the caveats, and none of
/// them is earlier; there is none where no caveat is an expiry.
pub proof fn law_earliest(cs: Seq<Option<Seq<u8>>>)
    ensures
        earliest(cs) matches Some(e) ==> exists|i: int|
            0 <= i < cs.len() && #[trigger] cs[i] is Some && caveat_exp(cs[i]->0) == Some(e),
        forall|i: int|
            0 <= i < cs.len() && #[trigger] cs[i] is Some && caveat_exp(cs[i]->0) is Some
                ==> earliest(cs) is Some && earliest(cs)->0 <= caveat_exp(cs[i]->0)->0,
    decreases cs.len(),
{
    assert forall|i: int|
        0 <= i < cs.len() && #[trigger] cs[i] is Some && caveat_exp(
            cs[i]->0,
        ) is Some implies earliest(cs) is Some && earliest(cs)->0 <= caveat_exp(cs[i]->0)->0 by {
        lemma_earliest_bounds(cs, i);
    }
    if cs.len() > 0 {
        let part = cs.drop_last();
        law_earliest(part);
        if earliest(cs) is Some {
            let e = earliest(cs)->0;
            if earliest(part) == Some(e) {
                let k = choose|k: int|
                    0 <= k < part.len() && #[trigger] part[k] is Some && caveat_exp(part[k]->0)
                        == Some(e);
                assert(cs[k] == part[k]);
            } else {
                assert(cs[cs.len() - 1] == cs.last());
            }
        }
    }
}

} // verus!
