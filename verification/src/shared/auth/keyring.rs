//! Macaroon root-key handling.
//!
//! A single 32-byte root key signs every token. Verification relies on the
//! token's purpose to keep token kinds from being interchangeable: a session
//! token can't be used to drive a sync RPC, etc.

use base64::Engine;
use vstd::prelude::*;
use vstd::utf8::encode_utf8;

use crate::macaroon::{derived_key, generate_key};
use crate::text::{format_u64, join2, join3, decimal, trim, trimmed};

verus! {

/// Why a text is not a root key.
#[derive(Debug, PartialEq, Eq)]
pub enum KeyringError {
    InvalidLength(usize),
    InvalidBase64(String),
}

impl KeyringError {
    /// The message of the error.
    pub open spec fn text(self) -> Seq<char> {
        match self {
            KeyringError::InvalidLength(n) => "invalid key length: "@ + decimal(n as nat)
                + " (need 32)"@,
            KeyringError::InvalidBase64(s) => "invalid key base64: "@ + s@,
        }
    }

    /// The message of the error.
    pub fn to_string(&self) -> (r: String)
        ensures
            r@ == self.text(),
    {
        match self {
            KeyringError::InvalidLength(n) => join3(
                "invalid key length: ",
                format_u64(*n as u64).as_str(),
                " (need 32)",
            ),
            KeyringError::InvalidBase64(s) => join2("invalid key base64: ", s.as_str()),
        }
    }
}

/// The macaroon root key.
pub struct Keyring {
    root: [u8; 32],
}

/// What decoding base64 in the standard alphabet, with or without padding,
/// gives: the bytes, or the decoder's message.
pub uninterp spec fn base64_standard(s: Seq<char>) -> Result<Seq<u8>, Seq<char>>;

/// What decoding base64 in the URL-safe alphabet, with or without padding,
/// gives: the bytes, or the decoder's message.
pub uninterp spec fn base64_url_safe(s: Seq<char>) -> Result<Seq<u8>, Seq<char>>;

/// A decoder's result over bytes and characters.
pub open spec fn decoded_view(r: Result<Vec<u8>, String>) -> Result<Seq<u8>, Seq<char>> {
    match r {
        Ok(b) => Ok(b@),
        Err(e) => Err(e@),
    }
}

/// `base64::Engine::decode` in the standard alphabet, padding optional.
#[verifier::external_body]
fn decode_standard(s: &str) -> (r: Result<Vec<u8>, String>)
    ensures
        decoded_view(r) == base64_standard(s@),
{
    base64::engine::GeneralPurpose::new(
        &base64::alphabet::STANDARD,
        base64::engine::GeneralPurposeConfig::new().with_decode_padding_mode(
            base64::engine::DecodePaddingMode::Indifferent,
        ),
    ).decode(s).map_err(|e| e.to_string())
}

/// `base64::Engine::decode` in the URL-safe alphabet, padding optional.
#[verifier::external_body]
fn decode_url_safe(s: &str) -> (r: Result<Vec<u8>, String>)
    ensures
        decoded_view(r) == base64_url_safe(s@),
{
    base64::engine::GeneralPurpose::new(
        &base64::alphabet::URL_SAFE,
        base64::engine::GeneralPurposeConfig::new().with_decode_padding_mode(
            base64::engine::DecodePaddingMode::Indifferent,
        ),
    ).decode(s).map_err(|e| e.to_string())
}

/// A decoded key text: the bytes in whichever alphabet reads it, else the
/// standard alphabet's complaint.
pub open spec fn key_bytes(
    standard: Result<Seq<u8>, Seq<char>>,
    url_safe: Result<Seq<u8>, Seq<char>>,
) -> Result<Seq<u8>, Seq<char>> {
    match (standard, url_safe) {
        (Ok(b), _) => Ok(b),
        (Err(_), Ok(b)) => Ok(b),
        (Err(e), Err(_)) => Err(e),
    }
}

/// Whether `r` is the keyring that decoded bytes make, or the error that they
/// or their absence make.
pub open spec fn keyring_of(
    bytes: Result<Seq<u8>, Seq<char>>,
    r: Result<Keyring, KeyringError>,
) -> bool {
    match bytes {
        Err(e) => r matches Err(KeyringError::InvalidBase64(text)) && text@ == e,
        Ok(b) => if b.len() == 32 {
            r matches Ok(k) && k@ == b
        } else {
            r matches Err(KeyringError::InvalidLength(n)) && n == b.len()
        },
    }
}

impl View for Keyring {
    type V = Seq<u8>;

    closed spec fn view(&self) -> Seq<u8> {
        self.root@
    }
}

impl Clone for Keyring {
    fn clone(&self) -> (r: Self)
        ensures
            r@ == self@,
    {
        Keyring { root: self.root }
    }
}

impl Keyring {
    /// The keyring of a root key.
    pub fn from_key(root: [u8; 32]) -> (r: Self)
        ensures
            r@ == root@,
    {
        Keyring { root }
    }

    /// Decode a base64-encoded 32-byte key. Accepts either standard or
    /// URL-safe alphabets, padded or unpadded.
    pub fn from_base64(s: &str) -> (r: Result<Self, KeyringError>)
        ensures
            keyring_of(
                key_bytes(base64_standard(trimmed(s@)), base64_url_safe(trimmed(s@))),
                r,
            ),
    {
        let t: String = trim(s);
        let standard: Result<Vec<u8>, String> = decode_standard(t.as_str());
        let url_safe: Result<Vec<u8>, String> = decode_url_safe(t.as_str());
        Keyring::from_decoded(standard, url_safe)
    }

    /// The keyring of a key text as the two alphabets decode it.
    pub fn from_decoded(
        standard: Result<Vec<u8>, String>,
        url_safe: Result<Vec<u8>, String>,
    ) -> (r: Result<Self, KeyringError>)
        ensures
            keyring_of(key_bytes(decoded_view(standard), decoded_view(url_safe)), r),
    {
        let bytes: Vec<u8> = match standard {
            Ok(b) => b,
            Err(e) => match url_safe {
                Ok(b) => b,
                Err(_) => {
                    return Err(KeyringError::InvalidBase64(e));
                },
            },
        };
        if bytes.len() != 32 {
            return Err(KeyringError::InvalidLength(bytes.len()));
        }
        let mut root: [u8; 32] = [0u8; 32];
        let mut i: usize = 0;
        while i < 32
            invariant
                i <= 32,
                bytes.len() == 32,
                forall|j: int| 0 <= j < i ==> root@[j] == bytes@[j],
            decreases 32 - i,
        {
            root[i] = bytes[i];
            i = i + 1;
        }
        assert(root@ =~= bytes@);
        Ok(Keyring { root })
    }

    /// Deterministic dev fallback used by tests. NOT for production: a
    /// leaked binary trivially recovers the key.
    pub fn dev_default() -> (r: Self)
        ensures
            r@ == derived_key(encode_utf8("edgereplica.dev-key.do-not-deploy"@)),
    {
        Keyring { root: generate_key("edgereplica.dev-key.do-not-deploy".as_bytes()) }
    }

    /// The root key.
    pub fn root(&self) -> (r: &[u8; 32])
        ensures
            r@ == self@,
    {
        &self.root
    }
}

/// A key text is read in the standard alphabet where that reads it, and
/// otherwise in the URL-safe one; where neither does, the standard one's
/// complaint is told.
pub proof fn law_key_bytes(
    standard: Result<Seq<u8>, Seq<char>>,
    url_safe: Result<Seq<u8>, Seq<char>>,
)
    ensures
        standard is Ok ==> key_bytes(standard, url_safe) == standard,
        standard is Err && url_safe is Ok ==> key_bytes(standard, url_safe) == url_safe,
        standard is Err && url_safe is Err ==> key_bytes(standard, url_safe) == standard,
{
}

/// Bytes make a keyring exactly where there are 32 of them, and it is then
/// they; otherwise the error tells how many there are, or what was wrong with
/// the text.
pub proof fn law_keyring(
    bytes: Result<Seq<u8>, Seq<char>>,
    r: Result<Keyring, KeyringError>,
)
    requires
        keyring_of(bytes, r),
    ensures
        r is Ok <==> (bytes matches Ok(b) && b.len() == 32),
        r matches Ok(k) ==> bytes == Ok::<Seq<u8>, Seq<char>>(k@) && k@.len() == 32,
        r matches Err(KeyringError::InvalidLength(n)) ==> (bytes matches Ok(b) && b.len() == n && n
            != 32),
        r matches Err(KeyringError::InvalidBase64(text)) ==> bytes == Err::<Seq<u8>, Seq<char>>(
            text@,
        ),
{
}

} // verus!
