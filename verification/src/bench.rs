//! Page digests to compare, each cut down to a number so that a timing loop
//! has a result to keep.

use sha2::Digest;
use vstd::prelude::*;

use crate::shared::sync_protocol::{blake3_digest, page_hash};

verus! {

/// The SHA-256 digest of bytes.
pub uninterp spec fn sha256_digest(data: Seq<u8>) -> Seq<u8>;

/// The BLAKE2b digest of bytes with an output of 32 bytes.
pub uninterp spec fn blake2b256_digest(data: Seq<u8>) -> Seq<u8>;

/// The BLAKE2b digest of bytes with an output of 64 bytes.
pub uninterp spec fn blake2b512_digest(data: Seq<u8>) -> Seq<u8>;

/// The BLAKE2s digest of bytes with an output of 32 bytes.
pub uninterp spec fn blake2s256_digest(data: Seq<u8>) -> Seq<u8>;

/// `Sha256::digest`.
#[verifier::external_body]
fn sha256(data: &[u8]) -> (r: [u8; 32])
    ensures
        r@ == sha256_digest(data@),
{
    sha2::Sha256::digest(data).into()
}

/// `Blake2b::<U32>::digest`.
#[verifier::external_body]
fn blake2b256(data: &[u8]) -> (r: [u8; 32])
    ensures
        r@ == blake2b256_digest(data@),
{
    blake2::Blake2b::<blake2::digest::consts::U32>::digest(data).into()
}

/// `Blake2b512::digest`.
#[verifier::external_body]
fn blake2b512(data: &[u8]) -> (r: [u8; 64])
    ensures
        r@ == blake2b512_digest(data@),
{
    blake2::Blake2b512::digest(data).into()
}

/// `Blake2s256::digest`.
#[verifier::external_body]
fn blake2s256(data: &[u8]) -> (r: [u8; 32])
    ensures
        r@ == blake2s256_digest(data@),
{
    blake2::Blake2s256::digest(data).into()
}

/// The number that the first four bytes spell, lowest byte first.
pub open spec fn le_number(b: Seq<u8>) -> int {
    b[0] + b[1] * 0x100 + b[2] * 0x1_0000 + b[3] * 0x100_0000
}

/// The number that the first four bytes spell, lowest byte first.
pub fn first_u32(bytes: &[u8]) -> (r: u32)
    requires
        bytes@.len() >= 4,
    ensures
        r == le_number(bytes@),
{
    bytes[0] as u32 + bytes[1] as u32 * 0x100 + bytes[2] as u32 * 0x1_0000 + bytes[3] as u32
        * 0x100_0000
}

pub fn hash_sha256(data: &[u8]) -> (r: u32)
    ensures
        r == le_number(sha256_digest(data@)),
{
    first_u32(sha256(data).as_slice())
}

pub fn hash_blake2b256(data: &[u8]) -> (r: u32)
    ensures
        r == le_number(blake2b256_digest(data@)),
{
    first_u32(blake2b256(data).as_slice())
}

pub fn hash_blake2b512(data: &[u8]) -> (r: u32)
    ensures
        r == le_number(blake2b512_digest(data@)),
{
    first_u32(blake2b512(data).as_slice())
}

pub fn hash_blake2s256(data: &[u8]) -> (r: u32)
    ensures
        r == le_number(blake2s256_digest(data@)),
{
    first_u32(blake2s256(data).as_slice())
}

pub fn hash_blake3(data: &[u8]) -> (r: u32)
    ensures
        r == le_number(blake3_digest(data@)),
{
    first_u32(page_hash(data).as_slice())
}

/// The number that four bytes spell gives each of them back, lowest first.
pub proof fn law_le_number(b: Seq<u8>)
    requires
        b.len() >= 4,
    ensures
        0 <= le_number(b) <= u32::MAX,
        le_number(b) % 0x100 == b[0],
        le_number(b) / 0x100 % 0x100 == b[1],
        le_number(b) / 0x1_0000 % 0x100 == b[2],
        le_number(b) / 0x100_0000 == b[3],
{
}

} // verus!
