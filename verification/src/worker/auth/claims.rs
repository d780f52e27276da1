//! The signed claims of a token, as a protobuf message.
//!
//! Every claim is a string field; an empty claim is not written. Fields that
//! the message does not know are skipped on reading.

use vstd::prelude::*;
use vstd::utf8::encode_utf8;

use crate::text::{decimal, format_u64, join2, join3};

verus! {

/// The claims that a token's identifier carries.
#[derive(Debug, PartialEq, Eq)]
pub struct TokenClaims {
    pub purpose: String,
    pub user_id: String,
    pub org_id: String,
    pub email: String,
    pub role: String,
    pub database_id: String,
    pub direction: String,
}

/// [`TokenClaims`] over characters.
#[verifier::ext_equal]
pub struct ClaimsView {
    pub purpose: Seq<char>,
    pub user_id: Seq<char>,
    pub org_id: Seq<char>,
    pub email: Seq<char>,
    pub role: Seq<char>,
    pub database_id: Seq<char>,
    pub direction: Seq<char>,
}

impl View for TokenClaims {
    type V = ClaimsView;

    open spec fn view(&self) -> ClaimsView {
        ClaimsView {
            purpose: self.purpose@,
            user_id: self.user_id@,
            org_id: self.org_id@,
            email: self.email@,
            role: self.role@,
            database_id: self.database_id@,
            direction: self.direction@,
        }
    }
}

pub open spec fn no_claims() -> ClaimsView {
    ClaimsView {
        purpose: Seq::empty(),
        user_id: Seq::empty(),
        org_id: Seq::empty(),
        email: Seq::empty(),
        role: Seq::empty(),
        database_id: Seq::empty(),
        direction: Seq::empty(),
    }
}

// ---------- the wire ----------

/// A number in base 128, least significant group first, every byte but the
/// last with its high bit set.
pub open spec fn varint(n: nat) -> Seq<u8>
    decreases n,
{
    if n < 128 {
        seq![n as u8]
    } else {
        seq![(n % 128 + 128) as u8] + varint(n / 128)
    }
}

/// A string field on the wire: its number and wire type, its length in bytes,
/// its UTF-8.
pub open spec fn string_field(number: nat, value: Seq<char>) -> Seq<u8> {
    varint(number * 8 + 2) + varint(encode_utf8(value).len()) + encode_utf8(value)
}

/// What reading a tag off the front gives: the field number, the wire type
/// and the bytes that follow, or the decoder's message.
pub uninterp spec fn wire_tag(bytes: Seq<u8>) -> Result<(u32, u32, Seq<u8>), Seq<char>>;

/// What reading a length-prefixed string off the front gives: the string and
/// the bytes that follow, or the decoder's message.
pub uninterp spec fn wire_string(bytes: Seq<u8>) -> Result<(Seq<char>, Seq<u8>), Seq<char>>;

/// What skipping the value of a field gives: the bytes that follow, or the
/// decoder's message.
pub uninterp spec fn wire_skip(number: u32, wire_type: u32, bytes: Seq<u8>) -> Result<
    Seq<u8>,
    Seq<char>,
>;

/// Whether `field`, with anything behind it, is read as the string `value` of
/// the field `number`.
pub open spec fn reads_as(field: Seq<u8>, number: u32, value: Seq<char>) -> bool {
    forall|rest: Seq<u8>|
        wire_tag(#[trigger] (field + rest)) matches Ok((n, w, tail)) && n == number && w == 2
            && tail.len() < (field + rest).len() && wire_string(tail) == Ok::<
            (Seq<char>, Seq<u8>),
            Seq<char>,
        >((value, rest)) && rest.len() <= tail.len()
}

/// `buffa::types::put_string_field`: appends a string field to a buffer. The
/// decoder reads it back as the same number and string, whatever follows.
#[verifier::external_body]
fn put_string_field(number: u32, value: &str, buf: &mut Vec<u8>)
    requires
        1 <= number <= 536870911,
    ensures
        final(buf)@ == old(buf)@ + string_field(number as nat, value@),
        reads_as(final(buf)@.skip(old(buf)@.len() as int), number, value@),
{
    buffa::types::put_string_field(number, value, buf)
}

/// `buffa::encoding::Tag::decode`: reads a tag off the front of the bytes, and
/// at least one byte with it. The field number is never zero.
#[verifier::external_body]
fn read_tag<'a>(bytes: &'a [u8]) -> (r: Result<(u32, u32, &'a [u8]), String>)
    ensures
        match (wire_tag(bytes@), r) {
            (Ok(want), Ok(got)) => want == (got.0, got.1, got.2@),
            (Err(want), Err(got)) => want == got@,
            _ => false,
        },
        r matches Ok(t) ==> 1 <= t.0 <= 536870911 && t.1 <= 5 && t.2@.len() < bytes@.len(),
{
    let mut rest: &[u8] = bytes;
    match buffa::encoding::Tag::decode(&mut rest) {
        Ok(tag) => Ok((tag.field_number(), tag.wire_type() as u32, rest)),
        Err(e) => Err(e.to_string()),
    }
}

/// `buffa::types::decode_string`: reads a length-prefixed string off the front
/// of the bytes.
#[verifier::external_body]
fn read_string<'a>(bytes: &'a [u8]) -> (r: Result<(String, &'a [u8]), String>)
    ensures
        match (wire_string(bytes@), r) {
            (Ok(want), Ok(got)) => want == (got.0@, got.1@),
            (Err(want), Err(got)) => want == got@,
            _ => false,
        },
        r matches Ok(t) ==> t.1@.len() < bytes@.len(),
{
    let mut rest: &[u8] = bytes;
    match buffa::types::decode_string(&mut rest) {
        Ok(s) => Ok((s, rest)),
        Err(e) => Err(e.to_string()),
    }
}

/// `buffa::encoding::skip_field`: passes over the value of a field whose tag
/// was read.
#[verifier::external_body]
fn skip_field<'a>(number: u32, wire_type: u32, bytes: &'a [u8]) -> (r: Result<&'a [u8], String>)
    requires
        1 <= number <= 536870911,
        wire_type <= 5,
    ensures
        match (wire_skip(number, wire_type, bytes@), r) {
            (Ok(want), Ok(got)) => want == got@,
            (Err(want), Err(got)) => want == got@,
            _ => false,
        },
        r matches Ok(t) ==> t@.len() <= bytes@.len(),
{
    let mut rest: &[u8] = bytes;
    buffa::encoding::WireType::from_u32(wire_type).and_then(
        |w|
            buffa::encoding::skip_field(
                buffa::encoding::Tag::new(number, w),
                &mut rest,
            ),
    ).map_err(|e| e.to_string())?;
    Ok(rest)
}

// ---------- encoding ----------

/// A claim on the wire: nothing where it is empty.
pub open spec fn claim_field(number: nat, value: Seq<char>) -> Seq<u8> {
    if value.len() == 0 {
        Seq::empty()
    } else {
        string_field(number, value)
    }
}

/// Claims on the wire.
pub open spec fn claims_bytes(c: ClaimsView) -> Seq<u8> {
    claim_field(1, c.purpose) + claim_field(2, c.user_id) + claim_field(3, c.org_id) + claim_field(
        4,
        c.email,
    ) + claim_field(5, c.role) + claim_field(6, c.database_id) + claim_field(7, c.direction)
}

/// Claims with the field `number` set.
pub open spec fn with_claim(c: ClaimsView, number: u32, value: Seq<char>) -> ClaimsView {
    if number == 1 {
        ClaimsView { purpose: value, ..c }
    } else if number == 2 {
        ClaimsView { user_id: value, ..c }
    } else if number == 3 {
        ClaimsView { org_id: value, ..c }
    } else if number == 4 {
        ClaimsView { email: value, ..c }
    } else if number == 5 {
        ClaimsView { role: value, ..c }
    } else if number == 6 {
        ClaimsView { database_id: value, ..c }
    } else {
        ClaimsView { direction: value, ..c }
    }
}

/// The message for a known field of the wrong wire type.
pub open spec fn mismatch_text(number: nat, wire_type: nat) -> Seq<char> {
    "wire type mismatch on field "@ + decimal(number) + (": expected 2, got "@ + decimal(
        wire_type,
    ))
}

/// The claims that bytes hold on top of `c`, or the first thing wrong with
/// them.
pub open spec fn claims_from(bytes: Seq<u8>, c: ClaimsView) -> Result<ClaimsView, Seq<char>>
    decreases bytes.len(),
{
    if bytes.len() == 0 {
        Ok(c)
    } else {
        match wire_tag(bytes) {
            Err(e) => Err(e),
            Ok((number, wire_type, tail)) => if tail.len() >= bytes.len() {
                Ok(c)
            } else if 1 <= number <= 7 {
                if wire_type != 2 {
                    Err(mismatch_text(number as nat, wire_type as nat))
                } else {
                    match wire_string(tail) {
                        Err(e) => Err(e),
                        Ok((value, rest)) => if rest.len() > tail.len() {
                            Ok(c)
                        } else {
                            claims_from(rest, with_claim(c, number, value))
                        },
                    }
                }
            } else {
                match wire_skip(number, wire_type, tail) {
                    Err(e) => Err(e),
                    Ok(rest) => if rest.len() > tail.len() {
                        Ok(c)
                    } else {
                        claims_from(rest, c)
                    },
                }
            },
        }
    }
}

/// Whether bytes are read as setting the field `number`, unless the value is
/// empty and there are none.
#[verifier::opaque]
spec fn sets(field: Seq<u8>, number: u32, value: Seq<char>) -> bool {
    if value.len() == 0 {
        field.len() == 0
    } else {
        field.len() > 0 && reads_as(field, number, value)
    }
}

proof fn lemma_sets(field: Seq<u8>, rest: Seq<u8>, number: u32, value: Seq<char>, c: ClaimsView)
    requires
        sets(field, number, value),
        1 <= number <= 7,
        value.len() == 0 ==> with_claim(c, number, value) == c,
    ensures
        claims_from(field + rest, c) == claims_from(rest, with_claim(c, number, value)),
{
    reveal(sets);
    if value.len() == 0 {
        assert(field + rest =~= rest);
    } else {
        assert((field + rest).len() > 0);
        assert(wire_tag(field + rest) is Ok);
    }
}

proof fn lemma_varint_nonempty(n: nat)
    ensures
        varint(n).len() > 0,
    decreases n,
{
}

proof fn lemma_regroup(
    f1: Seq<u8>,
    f2: Seq<u8>,
    f3: Seq<u8>,
    f4: Seq<u8>,
    f5: Seq<u8>,
    f6: Seq<u8>,
    f7: Seq<u8>,
)
    ensures
        f1 + f2 + f3 + f4 + f5 + f6 + f7 == f1 + (f2 + (f3 + (f4 + (f5 + (f6 + (f7 + Seq::<
            u8,
        >::empty())))))),
{
    assert(f1 + f2 + f3 + f4 + f5 + f6 + f7 =~= f1 + (f2 + (f3 + (f4 + (f5 + (f6 + (f7 + Seq::<
        u8,
    >::empty())))))));
}

proof fn lemma_claims_read_back(c: ClaimsView)
    requires
        sets(claim_field(1, c.purpose), 1, c.purpose),
        sets(claim_field(2, c.user_id), 2, c.user_id),
        sets(claim_field(3, c.org_id), 3, c.org_id),
        sets(claim_field(4, c.email), 4, c.email),
        sets(claim_field(5, c.role), 5, c.role),
        sets(claim_field(6, c.database_id), 6, c.database_id),
        sets(claim_field(7, c.direction), 7, c.direction),
    ensures
        claims_from(claims_bytes(c), no_claims()) == Ok::<ClaimsView, Seq<char>>(c),
{
    let f1 = claim_field(1, c.purpose);
    let f2 = claim_field(2, c.user_id);
    let f3 = claim_field(3, c.org_id);
    let f4 = claim_field(4, c.email);
    let f5 = claim_field(5, c.role);
    let f6 = claim_field(6, c.database_id);
    let f7 = claim_field(7, c.direction);
    let r7 = f7 + Seq::<u8>::empty();
    let r6 = f6 + r7;
    let r5 = f5 + r6;
    let r4 = f4 + r5;
    let r3 = f3 + r4;
    let r2 = f2 + r3;
    lemma_regroup(f1, f2, f3, f4, f5, f6, f7);
    let c0 = no_claims();
    let c1 = with_claim(c0, 1, c.purpose);
    let c2 = with_claim(c1, 2, c.user_id);
    let c3 = with_claim(c2, 3, c.org_id);
    let c4 = with_claim(c3, 4, c.email);
    let c5 = with_claim(c4, 5, c.role);
    let c6 = with_claim(c5, 6, c.database_id);
    let c7 = with_claim(c6, 7, c.direction);
    assert(c.purpose.len() == 0 ==> c1 =~= c0);
    assert(c.user_id.len() == 0 ==> c2 =~= c1);
    assert(c.org_id.len() == 0 ==> c3 =~= c2);
    assert(c.email.len() == 0 ==> c4 =~= c3);
    assert(c.role.len() == 0 ==> c5 =~= c4);
    assert(c.database_id.len() == 0 ==> c6 =~= c5);
    assert(c.direction.len() == 0 ==> c7 =~= c6);
    lemma_sets(f1, r2, 1, c.purpose, c0);
    lemma_sets(f2, r3, 2, c.user_id, c1);
    lemma_sets(f3, r4, 3, c.org_id, c2);
    lemma_sets(f4, r5, 4, c.email, c3);
    lemma_sets(f5, r6, 5, c.role, c4);
    lemma_sets(f6, r7, 6, c.database_id, c5);
    lemma_sets(f7, Seq::empty(), 7, c.direction, c6);
    assert(c7 =~= c);
}

/// Claims with a purpose are not empty on the wire.
pub(crate) proof fn lemma_claims_nonempty(c: ClaimsView)
    requires
        c.purpose.len() > 0,
    ensures
        claims_bytes(c).len() > 0,
{
    lemma_varint_nonempty(10);
}

impl TokenClaims {
    fn put(number: u32, value: &String, buf: &mut Vec<u8>)
        requires
            1 <= number <= 7,
        ensures
            final(buf)@ == old(buf)@ + claim_field(number as nat, value@),
            sets(claim_field(number as nat, value@), number, value@),
    {
        proof {
            reveal(sets);
        }
        if value.as_str().is_empty() {
            assert(value@.len() == 0) by {
                if value@.len() > 0 {
                    vstd::utf8::encode_utf8_first_scalar(value@);
                }
            }
            assert(buf@ =~= old(buf)@ + claim_field(number as nat, value@));
        } else {
            assert(value@.len() > 0);
            let ghost before = buf@;
            put_string_field(number, value.as_str(), buf);
            proof {
                let field = string_field(number as nat, value@);
                lemma_varint_nonempty(number as nat * 8 + 2);
                assert(buf@.skip(before.len() as int) =~= field);
            }
        }
    }

    /// The claims as a protobuf message. Decoding it gives the claims back.
    pub fn encode_to_vec(&self) -> (r: Vec<u8>)
        ensures
            r@ == claims_bytes(self@),
            claims_from(r@, no_claims()) == Ok::<ClaimsView, Seq<char>>(self@),
    {
        let mut buf: Vec<u8> = Vec::new();
        TokenClaims::put(1, &self.purpose, &mut buf);
        TokenClaims::put(2, &self.user_id, &mut buf);
        TokenClaims::put(3, &self.org_id, &mut buf);
        TokenClaims::put(4, &self.email, &mut buf);
        TokenClaims::put(5, &self.role, &mut buf);
        TokenClaims::put(6, &self.database_id, &mut buf);
        TokenClaims::put(7, &self.direction, &mut buf);
        proof {
            assert(buf@ =~= claims_bytes(self@));
            lemma_claims_read_back(self@);
        }
        buf
    }

    fn set(&mut self, number: u32, value: String)
        requires
            1 <= number <= 7,
        ensures
            final(self)@ == with_claim(old(self)@, number, value@),
    {
        if number == 1 {
            self.purpose = value;
        } else if number == 2 {
            self.user_id = value;
        } else if number == 3 {
            self.org_id = value;
        } else if number == 4 {
            self.email = value;
        } else if number == 5 {
            self.role = value;
        } else if number == 6 {
            self.database_id = value;
        } else {
            self.direction = value;
        }
    }

    /// Reads claims from a protobuf message.
    pub fn decode_from_slice(data: &[u8]) -> (r: Result<TokenClaims, String>)
        ensures
            match (claims_from(data@, no_claims()), r) {
                (Ok(want), Ok(got)) => got@ == want,
                (Err(want), Err(got)) => got@ == want,
                _ => false,
            },
    {
        let mut c: TokenClaims = TokenClaims {
            purpose: String::new(),
            user_id: String::new(),
            org_id: String::new(),
            email: String::new(),
            role: String::new(),
            database_id: String::new(),
            direction: String::new(),
        };
        assert(c@ =~= no_claims());
        let mut bytes: &[u8] = data;
        while bytes.len() > 0
            invariant
                claims_from(data@, no_claims()) == claims_from(bytes@, c@),
            decreases bytes.len(),
        {
            let (number, wire_type, tail): (u32, u32, &[u8]) = match read_tag(bytes) {
                Ok(t) => t,
                Err(e) => {
                    return Err(e);
                },
            };
            if number <= 7 {
                if wire_type != 2 {
                    let found: String = format_u64(wire_type as u64);
                    return Err(
                        join3(
                            "wire type mismatch on field ",
                            format_u64(number as u64).as_str(),
                            join2(": expected 2, got ", found.as_str()).as_str(),
                        ),
                    );
                }
                match read_string(tail) {
                    Ok((value, rest)) => {
                        c.set(number, value);
                        bytes = rest;
                    },
                    Err(e) => {
                        return Err(e);
                    },
                }
            } else {
                match skip_field(number, wire_type, tail) {
                    Ok(rest) => {
                        bytes = rest;
                    },
                    Err(e) => {
                        return Err(e);
                    },
                }
            }
        }
        Ok(c)
    }
}

} // verus!
