//! Which pages of a local database are read, and what is announced of them.

use vstd::prelude::*;

use crate::shared::sync_protocol::{blake3_digest, page_hash, MessageView, SyncMessage};

verus! {

/// The number of the last page, out of what the database answers: none where
/// it gives no number or a negative one. Of a larger number the low 32 bits
/// count.
pub open spec fn last_page(answer: Option<i64>) -> u32 {
    match answer {
        Some(n) => if n < 0 {
            0
        } else {
            (n as int % 4294967296) as u32
        },
        None => 0,
    }
}

/// The number of the last page, out of what the database answers.
pub fn last_page_of(answer: Option<i64>) -> (r: u32)
    ensures
        r == last_page(answer),
{
    match answer {
        Some(n) => {
            if n < 0 {
                0
            } else {
                (n % 4294967296) as u32
            }
        },
        None => 0,
    }
}

/// Walks pages `1..=max_page`.
pub struct PageReader {
    next_page: u64,
    max_page: u32,
}

impl PageReader {
    pub closed spec fn next(&self) -> int {
        self.next_page as int
    }

    pub closed spec fn last(&self) -> u32 {
        self.max_page
    }

    /// Whether the next page is one of the database's, or the one behind them.
    pub closed spec fn valid(&self) -> bool {
        1 <= self.next_page <= self.max_page + 1
    }

    /// A walk from the first page.
    pub fn new(max_page: u32) -> (r: Self)
        ensures
            r.valid(),
            r.next() == 1,
            r.last() == max_page,
    {
        PageReader { next_page: 1, max_page }
    }

    pub fn max_page(&self) -> (r: u32)
        ensures
            r == self.last(),
    {
        self.max_page
    }

    /// The next page to read, or nothing when exhausted.
    pub fn advance(&mut self) -> (r: Option<u32>)
        requires
            old(self).valid(),
        ensures
            final(self).valid(),
            final(self).last() == old(self).last(),
            match r {
                Some(n) => n == old(self).next() && 1 <= n <= old(self).last()
                    && final(self).next() == old(self).next() + 1,
                None => old(self).next() > old(self).last() && final(self).next()
                    == old(self).next(),
            },
    {
        if self.next_page > self.max_page as u64 {
            return None;
        }
        let n: u32 = self.next_page as u32;
        self.next_page = self.next_page + 1;
        Some(n)
    }
}

/// What is announced of a page: its number and the hash of its bytes.
pub fn announcement(page_no: u32, data: &[u8]) -> (r: SyncMessage)
    ensures
        r@ == (MessageView::PageHash { page_no, hash: blake3_digest(data@) }),
{
    SyncMessage::PageHash { page_no, hash: page_hash(data) }
}

/// The last page is the number that the database answers, wherever that is a
/// page number; a database without an answer, or with a negative one, has
/// none.
pub proof fn law_last_page(n: i64)
    ensures
        0 <= n <= u32::MAX ==> last_page(Some(n)) == n,
        n < 0 ==> last_page(Some(n)) == 0,
        last_page(None) == 0,
{
}

} // verus!
