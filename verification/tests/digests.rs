use blake2::digest::consts::U32;
use blake2::{Blake2b, Blake2b512, Blake2s256};
use edgereplica::bench::{
    first_u32, hash_blake2b256, hash_blake2b512, hash_blake2s256, hash_blake3, hash_sha256,
};
use sha2::{Digest, Sha256};

#[test]
fn numbers_are_little_endian() {
    assert_eq!(first_u32(&[1, 2, 3, 4, 5]), 0x0403_0201);
    assert_eq!(first_u32(&[0xff; 4]), u32::MAX);
}

#[test]
fn digests_are_those_of_the_algorithms() {
    let page = [0x5Au8; 4096];
    assert_eq!(hash_sha256(&page), first_u32(&Sha256::digest(page)));
    assert_eq!(
        hash_blake2b256(&page),
        first_u32(&Blake2b::<U32>::digest(page))
    );
    assert_eq!(hash_blake2b512(&page), first_u32(&Blake2b512::digest(page)));
    assert_eq!(hash_blake2s256(&page), first_u32(&Blake2s256::digest(page)));
    assert_eq!(
        hash_blake3(&page),
        first_u32(blake3::hash(&page).as_bytes())
    );
}

#[test]
fn digests_of_nothing() {
    assert_eq!(hash_sha256(b""), 0x42c4_b0e3);
    assert_eq!(hash_blake3(b""), 0xb949_13af);
}
