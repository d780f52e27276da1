//! `x-request-id` middleware. Stamps each incoming request with a
//! [`RequestId`]. Honors an inbound `x-request-id` header; otherwise draws
//! from a per-isolate monotonic counter so dev gets useful trace ids without
//! external coordination.

use vstd::prelude::*;
use vstd::utf8::encode_utf8;

use crate::text::{copy_bytes, decimal, format_u64, join2};

verus! {

pub const HEADER_NAME: &'static str = "x-request-id";

/// The id of a request, as header bytes.
#[derive(Debug, PartialEq, Eq)]
pub struct RequestId(pub Vec<u8>);

/// Hands out request ids.
pub struct RequestIdLayer {
    counter: u64,
}

/// The id that the counter value `n` makes.
pub open spec fn counter_id(n: u64) -> Seq<u8> {
    encode_utf8("req-"@ + decimal(n as nat))
}

impl RequestIdLayer {
    /// The next counter value.
    pub closed spec fn next(&self) -> u64 {
        self.counter
    }

    pub fn new() -> (r: Self)
        ensures
            r.next() == 0,
    {
        RequestIdLayer { counter: 0 }
    }

    /// The id of a request: the inbound header where there is one, else the
    /// next of the counter, which wraps around.
    pub fn assign(&mut self, inbound: Option<&[u8]>) -> (r: RequestId)
        ensures
            match inbound {
                Some(h) => r.0@ == h@ && final(self).next() == old(self).next(),
                None => r.0@ == counter_id(old(self).next()) && final(self).next() == old(
                    self,
                ).next().wrapping_add(1),
            },
    {
        match inbound {
            Some(h) => RequestId(copy_bytes(h)),
            None => {
                let n: u64 = self.counter;
                self.counter = n.wrapping_add(1);
                let text: String = join2("req-", format_u64(n).as_str());
                RequestId(copy_bytes(text.as_str().as_bytes()))
            },
        }
    }
}

/// The ids of different counter values differ.
pub proof fn law_request_ids_differ(a: u64, b: u64)
    ensures
        counter_id(a) == counter_id(b) ==> a == b,
{
    let x = "req-"@ + decimal(a as nat);
    let y = "req-"@ + decimal(b as nat);
    if counter_id(a) == counter_id(b) {
        vstd::utf8::encode_utf8_decode_utf8(x);
        vstd::utf8::encode_utf8_decode_utf8(y);
        assert(x == y);
        let n = "req-"@.len() as int;
        assert(x.skip(n) =~= decimal(a as nat));
        assert(y.skip(n) =~= decimal(b as nat));
        crate::text_laws::law_decimal(a as nat);
        crate::text_laws::law_decimal(b as nat);
    }
}

} // verus!
