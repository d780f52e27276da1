//! Typed ids. Each is an opaque text, compared by its characters.

use vstd::prelude::*;

verus! {

/// `getrandom::getrandom` on sixteen bytes: fresh random bytes from the
/// operating system. Nothing is promised of their values, nor that the
/// system has any to give.
#[verifier::external_body]
fn random_bytes() -> (r: Result<[u8; 16], String>)
{
    let mut buf: [u8; 16] = [0u8; 16];
    getrandom::getrandom(&mut buf).map_err(|e| e.to_string())?;
    Ok(buf)
}

/// The lowercase hexadecimal digit of a value below sixteen.
pub open spec fn hex_digit(d: int) -> char {
    if d < 10 {
        (('0' as int) + d) as char
    } else {
        (('a' as int) + d - 10) as char
    }
}

/// Bytes in lowercase hexadecimal, two digits a byte, high half first.
pub open spec fn hex_text(b: Seq<u8>) -> Seq<char> {
    Seq::new(
        2 * b.len(),
        |i: int|
            if i % 2 == 0 {
                hex_digit(b[i / 2] as int / 16)
            } else {
                hex_digit(b[i / 2] as int % 16)
            },
    )
}

/// `hex::encode`: bytes in lowercase hexadecimal.
#[verifier::external_body]
pub(crate) fn hex_encode(b: &[u8]) -> (r: String)
    ensures
        r@ == hex_text(b@),
{
    hex::encode(b)
}

/// A fresh random text of 32 hexadecimal digits, or the reason that the
/// operating system gave no random bytes.
pub fn random_hex() -> (r: Result<String, String>)
    ensures
        r matches Ok(s) ==> s@.len() == 32 && is_hex_id(s@),
{
    hex_of(random_bytes())
}

/// Whether a text is sixteen bytes in lowercase hexadecimal.
pub open spec fn is_hex_id(s: Seq<char>) -> bool {
    exists|b: Seq<u8>| b.len() == 16 && s == #[trigger] hex_text(b)
}

/// Sixteen drawn bytes in hexadecimal, or the reason that there are none.
pub fn hex_of(drawn: Result<[u8; 16], String>) -> (r: Result<String, String>)
    ensures
        match (drawn, r) {
            (Ok(b), Ok(s)) => s@ == hex_text(b@),
            (Err(why), Err(e)) => e@ == why@,
            _ => false,
        },
{
    match drawn {
        Ok(b) => Ok(hex_encode(b.as_slice())),
        Err(e) => Err(e),
    }
}

/// A user's id.
#[derive(Debug, Hash, PartialOrd, Ord)]
pub struct UserId(pub String);

impl View for UserId {
    type V = Seq<char>;

    open spec fn view(&self) -> Seq<char> {
        self.0@
    }
}

impl Clone for UserId {
    fn clone(&self) -> (r: Self)
        ensures
            r == *self,
    {
        UserId(self.0.clone())
    }
}

impl PartialEq for UserId {
    fn eq(&self, other: &Self) -> (r: bool) {
        self.0 == other.0
    }
}

impl vstd::std_specs::cmp::PartialEqSpecImpl for UserId {
    open spec fn obeys_eq_spec() -> bool {
        true
    }

    open spec fn eq_spec(&self, other: &Self) -> bool {
        self@ == other@
    }
}

impl Eq for UserId {

}

impl UserId {
    /// The id that a text spells.
    pub fn from(s: &str) -> (r: Self)
        ensures
            r@ == s@,
    {
        UserId(s.to_owned())
    }

    /// The id as text.
    pub fn as_str(&self) -> (r: &str)
        ensures
            r@ == self@,
    {
        self.0.as_str()
    }
}

/// An organization's id.
#[derive(Debug, Hash, PartialOrd, Ord)]
pub struct OrgId(pub String);

impl View for OrgId {
    type V = Seq<char>;

    open spec fn view(&self) -> Seq<char> {
        self.0@
    }
}

impl Clone for OrgId {
    fn clone(&self) -> (r: Self)
        ensures
            r == *self,
    {
        OrgId(self.0.clone())
    }
}

impl PartialEq for OrgId {
    fn eq(&self, other: &Self) -> (r: bool) {
        self.0 == other.0
    }
}

impl vstd::std_specs::cmp::PartialEqSpecImpl for OrgId {
    open spec fn obeys_eq_spec() -> bool {
        true
    }

    open spec fn eq_spec(&self, other: &Self) -> bool {
        self@ == other@
    }
}

impl Eq for OrgId {

}

impl OrgId {
    /// The id that a text spells.
    pub fn from(s: &str) -> (r: Self)
        ensures
            r@ == s@,
    {
        OrgId(s.to_owned())
    }

    /// The id as text.
    pub fn as_str(&self) -> (r: &str)
        ensures
            r@ == self@,
    {
        self.0.as_str()
    }
}

/// A database's id.
#[derive(Debug, Hash, PartialOrd, Ord)]
pub struct DatabaseId(pub String);

impl View for DatabaseId {
    type V = Seq<char>;

    open spec fn view(&self) -> Seq<char> {
        self.0@
    }
}

impl Clone for DatabaseId {
    fn clone(&self) -> (r: Self)
        ensures
            r == *self,
    {
        DatabaseId(self.0.clone())
    }
}

impl PartialEq for DatabaseId {
    fn eq(&self, other: &Self) -> (r: bool) {
        self.0 == other.0
    }
}

impl vstd::std_specs::cmp::PartialEqSpecImpl for DatabaseId {
    open spec fn obeys_eq_spec() -> bool {
        true
    }

    open spec fn eq_spec(&self, other: &Self) -> bool {
        self@ == other@
    }
}

impl Eq for DatabaseId {

}

impl DatabaseId {
    /// The id that a text spells.
    pub fn from(s: &str) -> (r: Self)
        ensures
            r@ == s@,
    {
        DatabaseId(s.to_owned())
    }

    /// The id as text.
    pub fn as_str(&self) -> (r: &str)
        ensures
            r@ == self@,
    {
        self.0.as_str()
    }
}

/// An identity's id.
#[derive(Debug, Hash, PartialOrd, Ord)]
pub struct IdentityId(pub String);

impl View for IdentityId {
    type V = Seq<char>;

    open spec fn view(&self) -> Seq<char> {
        self.0@
    }
}

impl Clone for IdentityId {
    fn clone(&self) -> (r: Self)
        ensures
            r == *self,
    {
        IdentityId(self.0.clone())
    }
}

impl PartialEq for IdentityId {
    fn eq(&self, other: &Self) -> (r: bool) {
        self.0 == other.0
    }
}

impl vstd::std_specs::cmp::PartialEqSpecImpl for IdentityId {
    open spec fn obeys_eq_spec() -> bool {
        true
    }

    open spec fn eq_spec(&self, other: &Self) -> bool {
        self@ == other@
    }
}

impl Eq for IdentityId {

}

impl IdentityId {
    /// The id that a text spells.
    pub fn from(s: &str) -> (r: Self)
        ensures
            r@ == s@,
    {
        IdentityId(s.to_owned())
    }

    /// The id as text.
    pub fn as_str(&self) -> (r: &str)
        ensures
            r@ == self@,
    {
        self.0.as_str()
    }
}

/// The digits of a byte in hexadecimal are small, the high half first, and
/// stand for the byte.
pub proof fn law_hex_digits(b: Seq<u8>, i: int)
    requires
        0 <= i < b.len(),
    ensures
        ({
            let high = hex_text(b)[2 * i];
            let low = hex_text(b)[2 * i + 1];
            let h = if high <= '9' { high as int - '0' as int } else { high as int - 'a' as int + 10 };
            let l = if low <= '9' { low as int - '0' as int } else { low as int - 'a' as int + 10 };
            &&& '0' <= high <= '9' || 'a' <= high <= 'f'
            &&& '0' <= low <= '9' || 'a' <= low <= 'f'
            &&& 16 * h + l == b[i]
        }),
{
    assert((2 * i) / 2 == i && (2 * i) % 2 == 0);
    assert((2 * i + 1) / 2 == i && (2 * i + 1) % 2 == 1);
}

} // verus!
