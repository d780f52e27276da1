//! Macaroons, as `libmacaroon` makes and checks them.
//!
//! A macaroon is an identifier, a list of caveats and a signature that chains
//! over both. Its contents are named here; the functions of `libmacaroon` are
//! stated over those names.

use libmacaroon::Macaroon;
use vstd::prelude::*;
use vstd::utf8::{decode_utf8, encode_utf8, valid_utf8};

use crate::text::{
    after_prefix, decimal, decimal_int, format_i64, has_prefix, join2, lemma_decimal_int_len,
    lemma_encode_concat, lemma_parse_of_decimal, parse_i64, parsed_i64, strip_bytes, utf8_text,
};

verus! {

/// `libmacaroon::Macaroon`.
#[verifier::external_type_specification]
#[verifier::external_body]
pub struct ExMacaroon(libmacaroon::Macaroon);

/// The caveats of a macaroon in order: the predicate of a first-party caveat,
/// nothing for a third-party one.
pub uninterp spec fn macaroon_caveats(m: Macaroon) -> Seq<Option<Seq<u8>>>;

/// The identifier of a macaroon.
pub uninterp spec fn macaroon_identifier(m: Macaroon) -> Seq<u8>;

/// The signature of a macaroon.
pub uninterp spec fn macaroon_signature(m: Macaroon) -> Seq<u8>;

/// What a macaroon holds.
#[verifier::ext_equal]
pub struct Contents {
    pub identifier: Seq<u8>,
    pub caveats: Seq<Option<Seq<u8>>>,
    pub signature: Seq<u8>,
}

pub open spec fn contents(m: Macaroon) -> Contents {
    Contents {
        identifier: macaroon_identifier(m),
        caveats: macaroon_caveats(m),
        signature: macaroon_signature(m),
    }
}

/// Why `libmacaroon` refused a macaroon, with its message.
#[derive(Debug, PartialEq, Eq)]
pub enum MacaroonFault {
    InvalidSignature,
    CaveatNotSatisfied(String),
    Deserialization(String),
    Other(String),
}

/// [`MacaroonFault`] over characters.
pub enum FaultView {
    InvalidSignature,
    CaveatNotSatisfied(Seq<char>),
    Deserialization(Seq<char>),
    Other(Seq<char>),
}

impl View for MacaroonFault {
    type V = FaultView;

    open spec fn view(&self) -> FaultView {
        match self {
            MacaroonFault::InvalidSignature => FaultView::InvalidSignature,
            MacaroonFault::CaveatNotSatisfied(s) => FaultView::CaveatNotSatisfied(s@),
            MacaroonFault::Deserialization(s) => FaultView::Deserialization(s@),
            MacaroonFault::Other(s) => FaultView::Other(s@),
        }
    }
}

/// The longest identifier or predicate that a macaroon can hold, in bytes.
pub const MAX_FIELD_BYTES: usize = 65535;

/// The most caveats that a macaroon can hold.
pub const MAX_CAVEATS: usize = 1000;

/// The keyed hash that signs macaroons: `HMAC-SHA256(key, data)`.
pub uninterp spec fn macaroon_hmac(key: Seq<u8>, data: Seq<u8>) -> Seq<u8>;

/// Bytes that are zero.
pub open spec fn zeros(n: nat) -> Seq<u8> {
    Seq::new(n, |i: int| 0u8)
}

/// The keyed hash that binds a discharge to its root, under a key of zeros:
/// of the hashes of the root's signature and the discharge's.
pub open spec fn macaroon_bound(root: Seq<u8>, signature: Seq<u8>) -> Seq<u8> {
    macaroon_hmac(
        zeros(32),
        macaroon_hmac(zeros(32), root) + macaroon_hmac(zeros(32), signature),
    )
}

/// The message for a field over [`MAX_FIELD_BYTES`].
pub open spec fn too_large_text(field: Seq<char>, size: nat) -> Seq<char> {
    "Macaroon field `"@ + field + "` is "@ + decimal(size)
        + " bytes, exceeds the maximum of 65535 bytes"@
}

/// `Macaroon::create`. The identifier may not be empty nor over
/// [`MAX_FIELD_BYTES`]; the size is looked at first. The signature is the
/// keyed hash of the identifier, and there is no caveat.
#[verifier::external_body]
pub(crate) fn create(location: &str, key: &[u8; 32], identifier: &[u8]) -> (r: Result<
    Macaroon,
    MacaroonFault,
>)
    requires
        encode_utf8(location@).len() <= MAX_FIELD_BYTES,
    ensures
        r is Ok <==> 0 < identifier@.len() <= MAX_FIELD_BYTES,
        r matches Ok(m) ==> macaroon_identifier(m) == identifier@ && macaroon_caveats(m).len() == 0
            && macaroon_signature(m) == macaroon_hmac(key@, identifier@),
        r matches Err(e) ==> e@ == FaultView::Other(
            if identifier@.len() > MAX_FIELD_BYTES {
                too_large_text("identifier"@, identifier@.len())
            } else {
                "Macaroon was missing required field: no identifier found"@
            },
        ),
{
    Macaroon::create(Some(location), &libmacaroon::MacaroonKey::from(*key), identifier)
        .map_err(|e| MacaroonFault::Other(e.to_string()))
}

/// `Macaroon::add_first_party_caveat`. Appends a caveat and replaces the
/// signature by the keyed hash of the predicate under the old one. Refuses a
/// predicate over [`MAX_FIELD_BYTES`] and a caveat over [`MAX_CAVEATS`], and
/// then changes nothing.
#[verifier::external_body]
pub(crate) fn add_first_party_caveat(m: &mut Macaroon, predicate: &[u8]) -> (r: Result<
    (),
    MacaroonFault,
>)
    ensures
        r is Ok <==> predicate@.len() <= MAX_FIELD_BYTES && macaroon_caveats(*old(m)).len()
            < MAX_CAVEATS,
        r is Ok ==> contents(*final(m)) == attenuated(contents(*old(m)), predicate@),
        r is Err ==> *final(m) == *old(m),
        r matches Err(e) ==> e@ == FaultView::Other(
            if predicate@.len() > MAX_FIELD_BYTES {
                too_large_text("predicate"@, predicate@.len())
            } else {
                "Macaroon exceeds the maximum allowed number of caveats (1000)"@
            },
        ),
{
    match m.add_first_party_caveat(predicate) {
        Ok(_) => Ok(()),
        Err(e) => Err(MacaroonFault::Other(e.to_string())),
    }
}

/// A macaroon with one more caveat: what any holder can make of it.
pub open spec fn attenuated(c: Contents, predicate: Seq<u8>) -> Contents {
    Contents {
        identifier: c.identifier,
        caveats: c.caveats.push(Some(predicate)),
        signature: macaroon_hmac(c.signature, predicate),
    }
}

/// What `Macaroon::deserialize` makes of a token: the contents, or the fault.
pub uninterp spec fn decoded_macaroon(token: Seq<char>) -> Result<Contents, FaultView>;

/// `Macaroon::deserialize`.
#[verifier::external_body]
pub(crate) fn deserialize(token: &str) -> (r: Result<Macaroon, MacaroonFault>)
    ensures
        match (decoded_macaroon(token@), r) {
            (Ok(c), Ok(m)) => contents(m) == c,
            (Err(f), Err(e)) => e@ == f,
            _ => false,
        },
        r matches Err(e) ==> e@ is Deserialization || e@ is Other,
{
    Macaroon::deserialize(token).map_err(
        |e|
            match e {
                libmacaroon::MacaroonError::DeserializationError(s) => {
                    MacaroonFault::Deserialization(s)
                },
                other => MacaroonFault::Other(other.to_string()),
            },
    )
}

/// Within the limits under which every token can be read back, and without
/// third-party caveats.
pub open spec fn within_limits(c: Contents) -> bool {
    &&& 0 < c.identifier.len() <= MAX_FIELD_BYTES
    &&& c.caveats.len() <= MAX_CAVEATS
    &&& forall|i: int|
        0 <= i < c.caveats.len() ==> (#[trigger] c.caveats[i] is Some && c.caveats[i]->0.len()
            <= MAX_FIELD_BYTES)
}

/// `Macaroon::serialize` to the V2 format, which never fails. Reading the text
/// gives the macaroon back.
#[verifier::external_body]
pub(crate) fn serialize(m: &Macaroon) -> (r: Result<String, MacaroonFault>)
    ensures
        r is Ok,
        r matches Ok(s) ==> (within_limits(contents(*m)) ==> decoded_macaroon(s@) == Ok::<
            Contents,
            FaultView,
        >(contents(*m))),
{
    m.serialize(libmacaroon::Format::V2).map_err(|e| MacaroonFault::Other(e.to_string()))
}

/// `Macaroon::identifier`.
#[verifier::external_body]
pub(crate) fn identifier(m: &Macaroon) -> (r: Vec<u8>)
    ensures
        r@ == macaroon_identifier(*m),
{
    m.identifier().to_vec()
}

/// The view of a caveat list.
pub open spec fn caveat_views(v: Seq<Option<Vec<u8>>>) -> Seq<Option<Seq<u8>>> {
    v.map_values(
        |c: Option<Vec<u8>>|
            match c {
                Some(p) => Some(p@),
                None => None,
            },
    )
}

/// `Macaroon::caveats`, each as its predicate.
#[verifier::external_body]
pub(crate) fn caveats(m: &Macaroon) -> (r: Vec<Option<Vec<u8>>>)
    ensures
        caveat_views(r@) == macaroon_caveats(*m),
{
    m.caveats().iter().map(
        |c|
            match c {
                libmacaroon::Caveat::FirstParty(fp) => Some(fp.predicate().to_vec()),
                libmacaroon::Caveat::ThirdParty(_) => None,
            },
    ).collect()
}

/// Which first-party caveats a verifier lets stand.
#[derive(Copy, Clone, Debug, PartialEq, Eq)]
pub enum CaveatPolicy {
    /// Session caveats, and an expiry after `now_unix`.
    Session { now_unix: i64 },
    /// Sync caveats, and an expiry after `now_unix`.
    Sync { now_unix: i64 },
    /// Any well-formed expiry, and nothing else.
    ExpiryOnly,
}

/// The expiry of an `exp=<i64>` caveat.
pub open spec fn caveat_exp(p: Seq<u8>) -> Option<i64> {
    match after_prefix(p, encode_utf8("exp="@)) {
        Some(rest) => if valid_utf8(rest) {
            parsed_i64(decode_utf8(rest))
        } else {
            None
        },
        None => None,
    }
}

/// The expiry of an `exp=<i64>` caveat, or nothing where it is not one.
pub(crate) fn parse_exp(p: &[u8]) -> (r: Option<i64>)
    ensures
        r == caveat_exp(p@),
{
    match strip_bytes(p, "exp=".as_bytes()) {
        Some(rest) => match utf8_text(rest.as_slice()) {
            Some(t) => parse_i64(t.as_str()),
            None => None,
        },
        None => None,
    }
}

/// Whether the predicate begins with the text `prefix`.
pub open spec fn starts(p: Seq<u8>, prefix: Seq<char>) -> bool {
    has_prefix(p, encode_utf8(prefix))
}

fn starts_with(p: &[u8], prefix: &str) -> (r: bool)
    ensures
        r == starts(p@, prefix@),
{
    strip_bytes(p, prefix.as_bytes()).is_some()
}

impl CaveatPolicy {
    /// Whether the policy lets a predicate stand.
    pub open spec fn allows(self, p: Seq<u8>) -> bool {
        match self {
            CaveatPolicy::Session { now_unix } => {
                ||| starts(p, "purpose="@)
                ||| starts(p, "user="@)
                ||| starts(p, "email="@)
                ||| starts(p, "org="@)
                ||| starts(p, "role="@)
                ||| caveat_exp(p) is Some && caveat_exp(p)->0 > now_unix
            },
            CaveatPolicy::Sync { now_unix } => {
                ||| starts(p, "purpose="@)
                ||| starts(p, "user="@)
                ||| starts(p, "org="@)
                ||| starts(p, "database="@)
                ||| starts(p, "direction="@)
                ||| caveat_exp(p) is Some && caveat_exp(p)->0 > now_unix
            },
            CaveatPolicy::ExpiryOnly => caveat_exp(p) is Some,
        }
    }

    /// Whether the policy lets a predicate stand.
    pub fn accepts(&self, p: &[u8]) -> (r: bool)
        ensures
            r == self.allows(p@),
    {
        match *self {
            CaveatPolicy::Session { now_unix } => {
                starts_with(p, "purpose=") || starts_with(p, "user=") || starts_with(p, "email=")
                    || starts_with(p, "org=") || starts_with(p, "role=") || exp_after(p, now_unix)
            },
            CaveatPolicy::Sync { now_unix } => {
                starts_with(p, "purpose=") || starts_with(p, "user=") || starts_with(p, "org=")
                    || starts_with(p, "database=") || starts_with(p, "direction=") || exp_after(
                    p,
                    now_unix,
                )
            },
            CaveatPolicy::ExpiryOnly => parse_exp(p).is_some(),
        }
    }
}

/// Whether the predicate is an expiry after `now_unix`.
fn exp_after(p: &[u8], now_unix: i64) -> (r: bool)
    ensures
        r == (caveat_exp(p@) is Some && caveat_exp(p@)->0 > now_unix),
{
    match parse_exp(p) {
        Some(when) => when > now_unix,
        None => false,
    }
}

/// The signature that the key holder would put on these caveats.
pub open spec fn chained(start: Seq<u8>, caveats: Seq<Option<Seq<u8>>>) -> Seq<u8>
    decreases caveats.len(),
{
    if caveats.len() == 0 {
        start
    } else {
        macaroon_hmac(chained(start, caveats.drop_last()), caveats.last()->0)
    }
}

/// Whether the signature is the key holder's.
pub open spec fn authentic(key: Seq<u8>, c: Contents) -> bool {
    let chain = chained(macaroon_hmac(key, c.identifier), c.caveats);
    signed(c.signature, chain, macaroon_bound(c.signature, chain))
}

/// Whether a signature is the one that the caveats chain up to, or that bound
/// to itself.
pub open spec fn signed(signature: Seq<u8>, chain: Seq<u8>, bound: Seq<u8>) -> bool {
    signature == chain || signature == bound
}

/// Whether the policy lets the caveat at `i` stand.
pub open spec fn stands(policy: CaveatPolicy, caveats: Seq<Option<Seq<u8>>>, i: int) -> bool {
    caveats[i] is Some && policy.allows(caveats[i]->0)
}

/// Whether the policy lets every caveat stand.
pub open spec fn all_stand(policy: CaveatPolicy, caveats: Seq<Option<Seq<u8>>>) -> bool {
    forall|j: int| 0 <= j < caveats.len() ==> #[trigger] stands(policy, caveats, j)
}

/// Whether the caveat at `i` is the first that the policy does not let stand.
pub open spec fn first_refused(
    policy: CaveatPolicy,
    caveats: Seq<Option<Seq<u8>>>,
    i: int,
) -> bool {
    &&& 0 <= i < caveats.len()
    &&& !stands(policy, caveats, i)
    &&& forall|j: int| 0 <= j < i ==> stands(policy, caveats, j)
}

/// Whether `text` is how the refusal of predicate `p` is put: the predicate's
/// text after a fixed phrase (with replacement characters where the predicate
/// is not UTF-8).
pub open spec fn refusal_text(p: Seq<u8>, text: Seq<char>) -> bool {
    &&& has_prefix(text, "first party caveat not satisfied: "@)
    &&& valid_utf8(p) ==> text == "first party caveat not satisfied: "@ + decode_utf8(p)
}

/// Whether `f` is a fault that the first caveat that does not stand gives. A
/// third-party caveat has no discharge, so it is refused, for one reason or
/// another.
pub open spec fn refused_as(
    policy: CaveatPolicy,
    caveats: Seq<Option<Seq<u8>>>,
    f: FaultView,
) -> bool {
    exists|i: int| #[trigger]
        first_refused(policy, caveats, i) && match caveats[i] {
            Some(p) => f matches FaultView::CaveatNotSatisfied(text) && refusal_text(p, text),
            None => f is CaveatNotSatisfied || f is Other,
        }
}

/// Which outcomes a verification may have. The caveats are looked at in
/// order; the signature only once every caveat stands.
pub open spec fn verification(
    policy: CaveatPolicy,
    key: Seq<u8>,
    c: Contents,
    outcome: Result<(), FaultView>,
) -> bool {
    if all_stand(policy, c.caveats) {
        outcome == if authentic(key, c) {
            Ok::<(), FaultView>(())
        } else {
            Err(FaultView::InvalidSignature)
        }
    } else {
        outcome matches Err(f) && refused_as(policy, c.caveats, f)
    }
}

/// The outcome of a call, over characters.
pub open spec fn fault_outcome(r: Result<(), MacaroonFault>) -> Result<(), FaultView> {
    match r {
        Ok(()) => Ok(()),
        Err(e) => Err(e@),
    }
}

/// `Verifier::verify` without discharges, on a verifier whose one general
/// satisfier (`Verifier::satisfy_general`) is the policy's `accepts`.
#[verifier::external_body]
pub(crate) fn verify(policy: CaveatPolicy, m: &Macaroon, key: &[u8; 32]) -> (r: Result<
    (),
    MacaroonFault,
>)
    ensures
        r is Ok <==> (all_stand(policy, macaroon_caveats(*m)) && signed(
            macaroon_signature(*m),
            chained(macaroon_hmac(key@, macaroon_identifier(*m)), macaroon_caveats(*m)),
            macaroon_bound(
                macaroon_signature(*m),
                chained(macaroon_hmac(key@, macaroon_identifier(*m)), macaroon_caveats(*m)),
            ),
        )),
        r matches Err(e) ==> (all_stand(policy, macaroon_caveats(*m)) ==> e@ is InvalidSignature),
        r matches Err(e) ==> (!all_stand(policy, macaroon_caveats(*m)) ==> refused_as(
            policy,
            macaroon_caveats(*m),
            e@,
        )),
{
    let mut verifier = libmacaroon::Verifier::default();
    verifier.satisfy_general(move |c: &[u8]| policy.accepts(c));
    verifier.verify(m, &libmacaroon::MacaroonKey::from(*key), &[]).map_err(
        |e|
            match e {
                libmacaroon::MacaroonError::InvalidSignature => MacaroonFault::InvalidSignature,
                libmacaroon::MacaroonError::CaveatNotSatisfied(s) => {
                    MacaroonFault::CaveatNotSatisfied(s)
                },
                other => MacaroonFault::Other(other.to_string()),
            },
    )
}

/// The key that is derived from a seed: its keyed hash under a fixed key.
pub open spec fn derived_key(seed: Seq<u8>) -> Seq<u8> {
    macaroon_hmac(encode_utf8("macaroons-key-generator"@) + zeros(9), seed)
}

/// `MacaroonKey::generate`, as bytes.
#[verifier::external_body]
pub(crate) fn generate_key(seed: &[u8]) -> (r: [u8; 32])
    ensures
        r@ == derived_key(seed@),
{
    let key = libmacaroon::MacaroonKey::generate(seed);
    let bytes: &[u8; 32] = key.as_ref();
    *bytes
}

// ---------- minting ----------

/// The location that every token names.
pub const LOCATION: &'static str = "edgereplica";

/// What a token minted with these predicates holds.
pub open spec fn minted(key: Seq<u8>, identifier: Seq<u8>, predicates: Seq<Seq<u8>>) -> Contents
    decreases predicates.len(),
{
    if predicates.len() == 0 {
        Contents {
            identifier,
            caveats: Seq::empty(),
            signature: macaroon_hmac(key, identifier),
        }
    } else {
        attenuated(minted(key, identifier, predicates.drop_last()), predicates.last())
    }
}

/// The message for the first predicate that is too large.
pub open spec fn oversized(predicates: Seq<Seq<u8>>) -> Option<Seq<char>>
    decreases predicates.len(),
{
    if predicates.len() == 0 {
        None
    } else {
        match oversized(predicates.drop_last()) {
            Some(text) => Some(text),
            None => if predicates.last().len() > MAX_FIELD_BYTES {
                Some(too_large_text("predicate"@, predicates.last().len()))
            } else {
                None
            },
        }
    }
}

/// Why a token cannot be minted, where it cannot.
pub open spec fn mint_fault(identifier: Seq<u8>, predicates: Seq<Seq<u8>>) -> Option<Seq<char>> {
    if identifier.len() > MAX_FIELD_BYTES {
        Some(too_large_text("identifier"@, identifier.len()))
    } else if identifier.len() == 0 {
        Some("Macaroon was missing required field: no identifier found"@)
    } else {
        oversized(predicates)
    }
}

/// The predicates that texts spell.
pub open spec fn predicates_of(texts: Seq<String>) -> Seq<Seq<u8>> {
    texts.map_values(|t: String| encode_utf8(t@))
}

/// The signature and the caveats of a minted token.
pub proof fn lemma_minted(key: Seq<u8>, identifier: Seq<u8>, predicates: Seq<Seq<u8>>)
    ensures
        ({
            let c = minted(key, identifier, predicates);
            &&& c.identifier == identifier
            &&& c.caveats == predicates.map_values(|p: Seq<u8>| Some(p))
            &&& c.signature == chained(macaroon_hmac(key, identifier), c.caveats)
        }),
    decreases predicates.len(),
{
    let some = |p: Seq<u8>| Some(p);
    if predicates.len() > 0 {
        lemma_minted(key, identifier, predicates.drop_last());
        let c = minted(key, identifier, predicates);
        assert(c.caveats =~= predicates.map_values(some));
        assert(c.caveats.drop_last() =~= predicates.drop_last().map_values(some));
    } else {
        assert(predicates.map_values(some) =~= Seq::<Option<Seq<u8>>>::empty());
    }
}

/// Every token that the key holder mints is authentic.
pub proof fn law_minted_is_authentic(key: Seq<u8>, identifier: Seq<u8>, predicates: Seq<Seq<u8>>)
    ensures
        authentic(key, minted(key, identifier, predicates)),
{
    lemma_minted(key, identifier, predicates);
}

/// A holder can add a caveat without the key: an authentic token stays so, as
/// long as its signature is not a bound one.
pub proof fn law_attenuation_stays_authentic(key: Seq<u8>, c: Contents, predicate: Seq<u8>)
    requires
        c.signature == chained(macaroon_hmac(key, c.identifier), c.caveats),
    ensures
        authentic(key, attenuated(c, predicate)),
{
    let next = attenuated(c, predicate);
    assert(next.caveats.drop_last() =~= c.caveats);
}

proof fn lemma_minted_fits(key: Seq<u8>, identifier: Seq<u8>, predicates: Seq<Seq<u8>>)
    requires
        mint_fault(identifier, predicates) is None,
        predicates.len() <= MAX_CAVEATS,
    ensures
        within_limits(minted(key, identifier, predicates)),
    decreases predicates.len(),
{
    if predicates.len() > 0 {
        lemma_minted_fits(key, identifier, predicates.drop_last());
        lemma_minted(key, identifier, predicates.drop_last());
    }
}

/// Mints a token: an identifier and first-party caveats, signed with the key.
pub(crate) fn mint(key: &[u8; 32], identifier: &[u8], texts: &Vec<String>) -> (r: Result<
    String,
    MacaroonFault,
>)
    requires
        texts.len() <= MAX_CAVEATS,
    ensures
        match mint_fault(identifier@, predicates_of(texts@)) {
            None => r matches Ok(t) && decoded_macaroon(t@) == Ok::<Contents, FaultView>(
                minted(key@, identifier@, predicates_of(texts@)),
            ),
            Some(text) => r matches Err(e) && e@ == FaultView::Other(text),
        },
{
    let ghost all = predicates_of(texts@);
    proof {
        reveal_strlit("edgereplica");
        vstd::utf8::is_ascii_chars_encode_utf8("edgereplica"@);
        assert(all.take(0) =~= Seq::<Seq<u8>>::empty());
    }
    let mut m = match create(LOCATION, key, identifier) {
        Ok(m) => m,
        Err(e) => {
            return Err(e);
        },
    };
    assert(contents(m) =~= minted(key@, identifier@, all.take(0)));
    let mut i: usize = 0;
    while i < texts.len()
        invariant
            i <= texts.len() <= MAX_CAVEATS,
            all == predicates_of(texts@),
            0 < identifier@.len() <= MAX_FIELD_BYTES,
            contents(m) == minted(key@, identifier@, all.take(i as int)),
            macaroon_caveats(m).len() == i,
            oversized(all.take(i as int)) is None,
        decreases texts.len() - i,
    {
        let ghost before = all.take(i as int);
        proof {
            assert(all.take(i + 1).drop_last() =~= before);
            assert(all.take(i + 1).last() == encode_utf8(texts@[i as int]@));
        }
        match add_first_party_caveat(&mut m, texts[i].as_str().as_bytes()) {
            Ok(()) => {},
            Err(e) => {
                proof {
                    lemma_oversized_prefix(all, i + 1);
                }
                return Err(e);
            },
        }
        i = i + 1;
    }
    proof {
        assert(all.take(i as int) =~= all);
        lemma_minted_fits(key@, identifier@, all);
    }
    serialize(&m)
}

proof fn lemma_oversized_prefix(all: Seq<Seq<u8>>, n: int)
    requires
        0 <= n <= all.len(),
        oversized(all.take(n)) is Some,
    ensures
        oversized(all) == oversized(all.take(n)),
    decreases all.len(),
{
    if n == all.len() {
        assert(all.take(n) =~= all);
    } else {
        assert(all.drop_last().take(n) =~= all.take(n));
        lemma_oversized_prefix(all.drop_last(), n);
    }
}

/// The predicate of an expiry caveat.
pub open spec fn exp_predicate(exp_unix: int) -> Seq<u8> {
    encode_utf8("exp="@ + decimal_int(exp_unix))
}

/// The text of an expiry caveat.
pub(crate) fn exp_caveat(exp_unix: i64) -> (r: String)
    ensures
        r@ == "exp="@ + decimal_int(exp_unix as int),
{
    join2("exp=", format_i64(exp_unix).as_str())
}

/// An expiry caveat is read as the expiry it was written with, and is short.
pub proof fn lemma_exp_predicate(exp_unix: i64)
    ensures
        caveat_exp(exp_predicate(exp_unix as int)) == Some(exp_unix),
        exp_predicate(exp_unix as int).len() <= 24,
{
    let digits = decimal_int(exp_unix as int);
    let p = exp_predicate(exp_unix as int);
    lemma_encode_concat("exp="@, digits);
    let head = encode_utf8("exp="@);
    assert(p.take(head.len() as int) =~= head);
    assert(p.skip(head.len() as int) =~= encode_utf8(digits));
    vstd::utf8::encode_utf8_valid_utf8(digits);
    vstd::utf8::encode_utf8_decode_utf8(digits);
    lemma_parse_of_decimal(exp_unix);
    reveal_strlit("exp=");
    lemma_decimal_int_len(exp_unix);
    vstd::utf8::is_ascii_chars_encode_utf8("exp="@);
    vstd::utf8::is_ascii_chars_encode_utf8(digits);
}

/// A token can be minted where its identifier is there and neither it nor a
/// predicate is over the limit; else the first that is too large is named.
pub proof fn law_mint_fault(identifier: Seq<u8>, predicates: Seq<Seq<u8>>)
    ensures
        mint_fault(identifier, predicates) is None <==> 0 < identifier.len() <= 65535 && forall|
            i: int,
        |
            0 <= i < predicates.len() ==> (#[trigger] predicates[i]).len() <= 65535,
        identifier.len() > 65535 ==> mint_fault(identifier, predicates) == Some(
            too_large_text("identifier"@, identifier.len()),
        ),
        forall|i: int|
            0 < identifier.len() <= 65535 && 0 <= i < predicates.len() && (#[trigger] predicates[i]).len()
                > 65535 && (forall|j: int| 0 <= j < i ==> (#[trigger] predicates[j]).len() <= 65535)
                ==> mint_fault(identifier, predicates) == Some(
                too_large_text("predicate"@, predicates[i].len()),
            ),
{
    lemma_oversized(predicates);
}

proof fn lemma_oversized(predicates: Seq<Seq<u8>>)
    ensures
        oversized(predicates) is None <==> forall|i: int|
            0 <= i < predicates.len() ==> (#[trigger] predicates[i]).len() <= 65535,
        forall|i: int|
            0 <= i < predicates.len() && (#[trigger] predicates[i]).len() > 65535 && (forall|j: int|
                0 <= j < i ==> (#[trigger] predicates[j]).len() <= 65535) ==> oversized(predicates)
                == Some(too_large_text("predicate"@, predicates[i].len())),
    decreases predicates.len(),
{
    if predicates.len() > 0 {
        let part = predicates.drop_last();
        lemma_oversized(part);
        assert forall|i: int| 0 <= i < part.len() implies part[i] == #[trigger] predicates[i] by {}
        if forall|i: int| 0 <= i < part.len() ==> (#[trigger] part[i]).len() <= 65535 {
            assert forall|i: int| 0 <= i < part.len() implies (#[trigger] predicates[i]).len()
                <= 65535 by {
                assert(part[i].len() <= 65535);
            }
        } else {
            let k = choose|k: int| 0 <= k < part.len() && !((#[trigger] part[k]).len() <= 65535);
            assert(predicates[k].len() > 65535);
        }
    }
}

/// A verification succeeds exactly where every caveat stands and the signature
/// is the key holder's. Where a caveat does not stand, that is what is told,
/// whatever the signature.
pub proof fn law_verification(
    policy: CaveatPolicy,
    key: Seq<u8>,
    c: Contents,
    outcome: Result<(), FaultView>,
)
    requires
        verification(policy, key, c, outcome),
    ensures
        outcome is Ok <==> authentic(key, c) && forall|i: int|
            0 <= i < c.caveats.len() ==> (#[trigger] c.caveats[i] is Some && policy.allows(
                c.caveats[i]->0,
            )),
        outcome matches Err(f) ==> (f is InvalidSignature <==> forall|i: int|
            0 <= i < c.caveats.len() ==> (#[trigger] c.caveats[i] is Some && policy.allows(
                c.caveats[i]->0,
            ))),
{
    assert(all_stand(policy, c.caveats) <==> forall|i: int|
        0 <= i < c.caveats.len() ==> (#[trigger] c.caveats[i] is Some && policy.allows(
            c.caveats[i]->0,
        ))) by {
        if all_stand(policy, c.caveats) {
            assert forall|i: int| 0 <= i < c.caveats.len() implies (#[trigger] c.caveats[i] is Some
                && policy.allows(c.caveats[i]->0)) by {
                assert(stands(policy, c.caveats, i));
            }
        }
    }
}

} // verus!
