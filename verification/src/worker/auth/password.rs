//! Argon2id password hashing.
//!
//! Parameters target the worker's CPU budget (m=4MiB, t=2, p=1).

use password_hash::{PasswordHasher, PasswordVerifier};
use rand_core::RngCore;
use vstd::prelude::*;

use crate::text::{chars_of, decimal, format_u64, join2, join3, str_eq};

verus! {

/// The fewest characters of a password.
pub const MIN_PASSWORD_LEN: usize = 8;

/// Why a password is not taken or not accepted.
#[derive(Debug, PartialEq, Eq)]
pub enum PasswordError {
    TooShort(usize),
    Pwned,
    HashFailed(String),
    InvalidHash(String),
    Mismatch,
    PolicyError(String),
}

impl PasswordError {
    /// The message of the error.
    pub open spec fn text(self) -> Seq<char> {
        match self {
            PasswordError::TooShort(n) => "password too short ("@ + decimal(n as nat)
                + " chars, need 8)"@,
            PasswordError::Pwned => "password appears in known-breached corpus"@,
            PasswordError::HashFailed(s) => "hash failed: "@ + s@,
            PasswordError::InvalidHash(s) => "invalid stored hash: "@ + s@,
            PasswordError::Mismatch => "password mismatch"@,
            PasswordError::PolicyError(s) => "policy: "@ + s@,
        }
    }

    /// The message of the error.
    pub fn to_string(&self) -> (r: String)
        ensures
            r@ == self.text(),
    {
        match self {
            PasswordError::TooShort(n) => join3(
                "password too short (",
                format_u64(*n as u64).as_str(),
                " chars, need 8)",
            ),
            PasswordError::Pwned => "password appears in known-breached corpus".to_owned(),
            PasswordError::HashFailed(s) => join2("hash failed: ", s.as_str()),
            PasswordError::InvalidHash(s) => join2("invalid stored hash: ", s.as_str()),
            PasswordError::Mismatch => "password mismatch".to_owned(),
            PasswordError::PolicyError(s) => join2("policy: ", s.as_str()),
        }
    }
}

/// The memory, in KiB, that hashing a password takes.
pub const MEM_COST: u32 = 4096;

/// The passes that hashing a password takes.
pub const TIME_COST: u32 = 2;

/// The lanes that hashing a password takes.
pub const LANES: u32 = 1;

/// The most lanes that Argon2 takes.
pub const MAX_LANES: u32 = 0xff_ffff;

/// `OsRng::try_fill_bytes` on sixteen bytes: fresh random bytes from the
/// operating system. Nothing is promised of their values, nor that the system
/// has any to give.
#[verifier::external_body]
fn draw_salt() -> (r: Result<[u8; 16], String>)
{
    let mut buf: [u8; 16] = [0u8; 16];
    rand_core::OsRng.try_fill_bytes(&mut buf).map_err(|e| e.to_string())?;
    Ok(buf)
}

/// What bytes read as a salt: their base64 without padding, or the encoder's
/// message.
pub uninterp spec fn salt_text(bytes: Seq<u8>) -> Result<Seq<char>, Seq<char>>;

/// `SaltString::encode_b64`: bytes as a salt.
#[verifier::external_body]
fn encode_salt(bytes: &[u8]) -> (r: Result<String, String>)
    ensures
        hashed_view(r) == salt_text(bytes@),
{
    password_hash::SaltString::encode_b64(bytes).map(|s| s.as_str().to_owned()).map_err(
        |e| e.to_string(),
    )
}

/// What hashing a password with Argon2id (version 19) under a memory cost in
/// KiB, a number of passes, a number of lanes and a salt gives: the PHC
/// string, or the hasher's message.
pub uninterp spec fn argon2_phc(
    mem_cost: u32,
    time_cost: u32,
    lanes: u32,
    password: Seq<u8>,
    salt: Seq<char>,
) -> Result<Seq<char>, Seq<char>>;

/// What parsing a PHC string gives: its parameters in order, each with its
/// name and its value where that is a decimal number, or the parser's message.
pub uninterp spec fn phc_parsed(stored: Seq<char>) -> Result<
    Seq<(Seq<char>, Option<u32>)>,
    Seq<char>,
>;

/// What is wrong with a PHC string, where it cannot be parsed.
pub open spec fn phc_fault(stored: Seq<char>) -> Option<Seq<char>> {
    match phc_parsed(stored) {
        Ok(_) => None,
        Err(text) => Some(text),
    }
}

/// Whether no parameter asks for more lanes than Argon2 takes.
pub open spec fn lanes_fit(params: Seq<(Seq<char>, Option<u32>)>) -> bool {
    forall|i: int|
        0 <= i < params.len() ==> ((#[trigger] params[i]).0 == "p"@ ==> (params[i].1 matches Some(
            lanes,
        ) ==> lanes <= MAX_LANES))
}

/// Whether a PHC string can be parsed, and asks for no more lanes than Argon2
/// takes.
pub open spec fn usable_phc(stored: Seq<char>) -> bool {
    phc_parsed(stored) matches Ok(params) && lanes_fit(params)
}

/// The parameters that name the costs of a hash.
pub open spec fn cost_params(mem_cost: u32, time_cost: u32, lanes: u32) -> Seq<
    (Seq<char>, Option<u32>),
> {
    seq![("m"@, Some(mem_cost)), ("t"@, Some(time_cost)), ("p"@, Some(lanes))]
}

/// Whether a PHC string can be parsed and has these parameters.
pub open spec fn parses_to(stored: Seq<char>, params: Seq<(Seq<char>, Option<u32>)>) -> bool {
    phc_parsed(stored) matches Ok(p) && p == params
}

/// Parameters over characters.
pub open spec fn params_view(v: Seq<(String, Option<u32>)>) -> Seq<(Seq<char>, Option<u32>)> {
    v.map_values(|p: (String, Option<u32>)| (p.0@, p.1))
}

/// Whether a password hashes to the output of a PHC string under the
/// algorithm, parameters and salt that the string names.
pub uninterp spec fn argon2_matches(stored: Seq<char>, password: Seq<u8>) -> bool;

/// A hasher's result over characters.
pub open spec fn hashed_view(r: Result<String, String>) -> Result<Seq<char>, Seq<char>> {
    match r {
        Ok(h) => Ok(h@),
        Err(e) => Err(e@),
    }
}

/// `Argon2::hash_password`, as a PHC string. The string can be parsed, names
/// the three costs as its parameters, and the password matches it.
#[verifier::external_body]
fn argon2_hash(mem_cost: u32, time_cost: u32, lanes: u32, password: &[u8], salt: &str) -> (r:
    Result<String, String>)
    requires
        lanes <= MAX_LANES,
    ensures
        hashed_view(r) == argon2_phc(mem_cost, time_cost, lanes, password@, salt@),
        r matches Ok(h) ==> parses_to(h@, cost_params(mem_cost, time_cost, lanes)),
        r matches Ok(h) ==> argon2_matches(h@, password@),
{
    let params = argon2::Params::new(mem_cost, time_cost, lanes, None).map_err(|e| e.to_string())?;
    let salt = password_hash::SaltString::from_b64(salt).map_err(|e| e.to_string())?;
    argon2::Argon2::new(argon2::Algorithm::Argon2id, argon2::Version::V0x13, params).hash_password(
        password,
        &salt,
    ).map(|h| h.to_string()).map_err(|e| e.to_string())
}

/// `PasswordHash::new`: the parameters of a PHC string, or why it cannot be
/// parsed.
#[verifier::external_body]
fn parse_phc(stored: &str) -> (r: Result<Vec<(String, Option<u32>)>, String>)
    ensures
        match phc_parsed(stored@) {
            Ok(params) => r matches Ok(v) && params_view(v@) == params,
            Err(text) => r matches Err(e) && e@ == text,
        },
{
    match password_hash::PasswordHash::new(stored) {
        Ok(h) => Ok(
            h.params.iter().map(|(n, v)| (n.as_str().to_owned(), v.decimal().ok())).collect(),
        ),
        Err(e) => Err(e.to_string()),
    }
}

/// `Argon2::verify_password` against a PHC string that can be parsed and asks
/// for no more lanes than Argon2 takes.
#[verifier::external_body]
fn argon2_verify(stored: &str, password: &[u8]) -> (r: bool)
    requires
        usable_phc(stored@),
    ensures
        r == argon2_matches(stored@, password@),
{
    match password_hash::PasswordHash::new(stored) {
        Ok(parsed) => argon2::Argon2::default().verify_password(password, &parsed).is_ok(),
        Err(_) => false,
    }
}

/// Whether no parameter asks for more lanes than Argon2 takes.
pub fn check_lanes(params: &Vec<(String, Option<u32>)>) -> (r: bool)
    ensures
        r == lanes_fit(params_view(params@)),
{
    let ghost all = params_view(params@);
    let mut i: usize = 0;
    while i < params.len()
        invariant
            i <= params.len(),
            all == params_view(params@),
            forall|j: int|
                0 <= j < i ==> ((#[trigger] all[j]).0 == "p"@ ==> (all[j].1 matches Some(lanes)
                    ==> lanes <= MAX_LANES)),
        decreases params.len() - i,
    {
        assert(all[i as int] == (params@[i as int].0@, params@[i as int].1));
        if str_eq(params[i].0.as_str(), "p") {
            if let Some(lanes) = params[i].1 {
                if lanes > MAX_LANES {
                    return false;
                }
            }
        }
        i = i + 1;
    }
    true
}

/// Whether `r` is what hashing a new password under a salt gives: passwords
/// under [`MIN_PASSWORD_LEN`] characters are refused.
pub open spec fn new_hash(
    password: Seq<char>,
    hashed: Result<Seq<char>, Seq<char>>,
    r: Result<String, PasswordError>,
) -> bool {
    if password.len() < MIN_PASSWORD_LEN {
        r == Err::<String, PasswordError>(PasswordError::TooShort(password.len() as usize))
    } else {
        match hashed {
            Ok(h) => r matches Ok(s) && s@ == h,
            Err(e) => r matches Err(PasswordError::HashFailed(s)) && s@ == e,
        }
    }
}

/// Whether a stored hash is one that Argon2 takes and the password matches it.
pub open spec fn accepts_password(stored: Seq<char>, password: Seq<char>) -> bool {
    usable_phc(stored) && argon2_matches(stored, vstd::utf8::encode_utf8(password))
}

/// What hashing a password gives once bytes for its salt were drawn, or the
/// reason that there are none.
pub open spec fn salted(password: Seq<char>, drawn: Result<Seq<u8>, Seq<char>>) -> Result<
    Seq<char>,
    Seq<char>,
> {
    match drawn {
        Err(why) => Err(why),
        Ok(bytes) => match salt_text(bytes) {
            Err(why) => Err(why),
            Ok(salt) => argon2_phc(
                MEM_COST,
                TIME_COST,
                LANES,
                vstd::utf8::encode_utf8(password),
                salt,
            ),
        },
    }
}

/// A draw over sequences.
pub open spec fn drawn_view(r: Result<[u8; 16], String>) -> Result<Seq<u8>, Seq<char>> {
    match r {
        Ok(b) => Ok(b@),
        Err(e) => Err(e@),
    }
}

/// Validate and hash a new password under the given salt.
pub fn hash_password_with_salt(password: &str, salt: &str) -> (r: Result<String, PasswordError>)
    ensures
        new_hash(
            password@,
            argon2_phc(
                MEM_COST,
                TIME_COST,
                LANES,
                vstd::utf8::encode_utf8(password@),
                salt@,
            ),
            r,
        ),
        r matches Ok(h) ==> accepts_password(h@, password@),
{
    let count: usize = chars_of(password).len();
    if count < MIN_PASSWORD_LEN {
        return Err(PasswordError::TooShort(count));
    }
    match argon2_hash(MEM_COST, TIME_COST, LANES, password.as_bytes(), salt) {
        Ok(h) => {
            proof {
                let params = cost_params(MEM_COST, TIME_COST, LANES);
                reveal_strlit("m");
                reveal_strlit("t");
                reveal_strlit("p");
                assert("m"@[0] != "p"@[0]);
                assert("t"@[0] != "p"@[0]);
                assert(lanes_fit(params));
            }
            Ok(h)
        },
        Err(e) => Err(PasswordError::HashFailed(e)),
    }
}

/// Validate and hash a new password under a salt of drawn bytes; where none
/// were drawn, hashing fails for that reason.
pub fn hash_password_with_draw(password: &str, drawn: Result<[u8; 16], String>) -> (r: Result<
    String,
    PasswordError,
>)
    ensures
        new_hash(password@, salted(password@, drawn_view(drawn)), r),
        r matches Ok(h) ==> accepts_password(h@, password@),
{
    let count: usize = chars_of(password).len();
    if count < MIN_PASSWORD_LEN {
        return Err(PasswordError::TooShort(count));
    }
    let bytes: [u8; 16] = match drawn {
        Ok(b) => b,
        Err(e) => {
            return Err(PasswordError::HashFailed(e));
        },
    };
    match encode_salt(bytes.as_slice()) {
        Ok(salt) => hash_password_with_salt(password, salt.as_str()),
        Err(e) => Err(PasswordError::HashFailed(e)),
    }
}

/// Validate and hash a new password under a fresh salt. Returns the PHC string
/// suitable for storage as an identity's secret; the password verifies
/// against it.
pub fn hash_new_password(password: &str) -> (r: Result<String, PasswordError>)
    ensures
        exists|drawn: Result<Seq<u8>, Seq<char>>|
            new_hash(password@, #[trigger] salted(password@, drawn), r),
        r matches Ok(h) ==> accepts_password(h@, password@),
{
    let count: usize = chars_of(password).len();
    if count < MIN_PASSWORD_LEN {
        assert(new_hash(
            password@,
            salted(password@, Err(Seq::empty())),
            Err(PasswordError::TooShort(count)),
        ));
        return Err(PasswordError::TooShort(count));
    }
    hash_password_with_draw(password, draw_salt())
}

/// Checks a password against a stored PHC string.
pub fn verify_password(stored: &str, password: &str) -> (r: Result<(), PasswordError>)
    ensures
        r is Ok <==> accepts_password(stored@, password@),
        match phc_fault(stored@) {
            Some(text) => r matches Err(PasswordError::InvalidHash(s)) && s@ == text,
            None => r matches Err(e) ==> e == PasswordError::Mismatch,
        },
{
    let params: Vec<(String, Option<u32>)> = match parse_phc(stored) {
        Ok(v) => v,
        Err(e) => {
            return Err(PasswordError::InvalidHash(e));
        },
    };
    if !check_lanes(&params) {
        return Err(PasswordError::Mismatch);
    }
    if argon2_verify(stored, password.as_bytes()) {
        Ok(())
    } else {
        Err(PasswordError::Mismatch)
    }
}

/// A password is hashed exactly where it has at least eight characters and the
/// hash function does not fail; one that is too short is refused with its
/// length, whatever the hash function would say.
pub proof fn law_new_hash(
    password: Seq<char>,
    hashed: Result<Seq<char>, Seq<char>>,
    r: Result<String, PasswordError>,
)
    requires
        new_hash(password, hashed, r),
    ensures
        r is Ok <==> password.len() >= 8 && hashed is Ok,
        r matches Ok(h) ==> hashed == Ok::<Seq<char>, Seq<char>>(h@),
        password.len() < 8 ==> r == Err::<String, PasswordError>(
            PasswordError::TooShort(password.len() as usize),
        ),
        password.len() >= 8 && hashed is Err ==> (r matches Err(PasswordError::HashFailed(text))
            && text@ == hashed->Err_0),
{
}

/// A password is accepted exactly where the stored text parses, asks for no
/// more lanes than there can be, and Argon2 finds that the password matches.
pub proof fn law_accepted_password(stored: Seq<char>, password: Seq<char>)
    ensures
        accepts_password(stored, password) ==> phc_fault(stored) is None,
        accepts_password(stored, password) ==> (phc_parsed(stored) matches Ok(params) && forall|
            i: int,
        |
            0 <= i < params.len() && (#[trigger] params[i]).0 == "p"@ && params[i].1 is Some
                ==> params[i].1->0 <= 0xff_ffff),
        accepts_password(stored, password) ==> argon2_matches(
            stored,
            vstd::utf8::encode_utf8(password),
        ),
        usable_phc(stored) && argon2_matches(stored, vstd::utf8::encode_utf8(password))
            ==> accepts_password(stored, password),
{
}

} // verus!
