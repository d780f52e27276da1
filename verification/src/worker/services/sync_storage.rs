//! Storage abstraction for the sync state machine.
//!
//! The machine just walks pages and reads/writes hashes, so the trait covers
//! the operations it actually needs. Hashes are 32-byte BLAKE3 digests.

use std::collections::BTreeMap;
use vstd::prelude::*;

use crate::shared::error::{StoreErrorView, StoreResult};
use crate::shared::sync_protocol::{blake3_digest, page_hash};
use crate::text::copy_bytes;

verus! {

broadcast use {vstd::laws_cmp::group_laws_cmp, vstd::std_specs::btree::group_btree_axioms};

/// A stored page.
#[verifier::ext_equal]
pub struct PageView {
    pub data: Seq<u8>,
    pub hash: Seq<u8>,
}

/// The hashes of the pages `from..=to` that are stored, one after the other.
pub open spec fn hashes_in_range(pages: Map<u32, PageView>, from: int, to: int) -> Seq<u8>
    decreases to - from + 1,
{
    if from > to {
        Seq::empty()
    } else if pages.contains_key(to as u32) {
        hashes_in_range(pages, from, to - 1) + pages[to as u32].hash
    } else {
        hashes_in_range(pages, from, to - 1)
    }
}

/// The number of the last stored page, zero where there is none.
pub open spec fn is_max_page(pages: Map<u32, PageView>, max: u32) -> bool {
    &&& forall|n: u32| #[trigger] pages.contains_key(n) ==> n <= max
    &&& max != 0 ==> pages.contains_key(max)
}

/// Whether `found` is the first page of `from..=to` that is stored.
pub open spec fn is_first_page(
    pages: Map<u32, PageView>,
    from: u32,
    to: u32,
    found: Option<(u32, Seq<u8>)>,
) -> bool {
    match found {
        Some((n, data)) => {
            &&& from <= n <= to
            &&& pages.contains_key(n)
            &&& pages[n].data == data
            &&& forall|k: u32| from <= k < n ==> !#[trigger] pages.contains_key(k)
        },
        None => forall|k: u32| from <= k <= to ==> !#[trigger] pages.contains_key(k),
    }
}

/// A found page over sequences.
pub open spec fn found_view(found: Option<(u32, Vec<u8>)>) -> Option<(u32, Seq<u8>)> {
    match found {
        Some((n, data)) => Some((n, data@)),
        None => None,
    }
}

/// Pages by their numbers.
pub type StoredPages = Map<u32, PageView>;

/// When pages were stored, in milliseconds, by their numbers.
pub type PageTimes = Map<u32, i64>;

/// What a backend may fail with.
pub type StoreFaults = Set<StoreErrorView>;

/// Pages by number. A method fails only where the backend does; a reliable
/// backend never does.
pub trait SyncStorage: Sized {
    /// The stored pages.
    spec fn pages(&self) -> StoredPages;

    /// When each page was stored.
    spec fn stored_at(&self) -> PageTimes;

    /// Whether the backend never fails.
    spec fn reliable(&self) -> bool;

    /// What the backend may fail with.
    spec fn faults(&self) -> StoreFaults;

    fn get_page_hash(&self, page_no: u32) -> (r: StoreResult<Option<Vec<u8>>>)
        ensures
            self.reliable() ==> r is Ok,
            r matches Err(e) ==> self.faults().contains(e@),
            r matches Ok(h) ==> match h {
                Some(h) => self.pages().contains_key(page_no) && self.pages()[page_no].hash == h@,
                None => !self.pages().contains_key(page_no),
            },
    ;

    fn get_page(&self, page_no: u32) -> (r: StoreResult<Option<Vec<u8>>>)
        ensures
            self.reliable() ==> r is Ok,
            r matches Err(e) ==> self.faults().contains(e@),
            r matches Ok(d) ==> match d {
                Some(d) => self.pages().contains_key(page_no) && self.pages()[page_no].data == d@,
                None => !self.pages().contains_key(page_no),
            },
    ;

    fn put_page(&mut self, page_no: u32, data: &[u8], hash: &[u8], now_ms: i64) -> (r: StoreResult<
        (),
    >)
        ensures
            final(self).reliable() == old(self).reliable(),
            final(self).faults() == old(self).faults(),
            old(self).reliable() ==> r is Ok,
            r matches Err(e) ==> old(self).faults().contains(e@),
            r is Ok ==> final(self).pages() == old(self).pages().insert(
                page_no,
                (PageView { data: data@, hash: hash@ }),
            ),
            r is Ok ==> final(self).stored_at() == old(self).stored_at().insert(page_no, now_ms),
            r is Err ==> final(self).pages() == old(self).pages(),
            r is Err ==> final(self).stored_at() == old(self).stored_at(),
    ;

    fn max_page(&self) -> (r: StoreResult<u32>)
        ensures
            self.reliable() ==> r is Ok,
            r matches Err(e) ==> self.faults().contains(e@),
            r matches Ok(max) ==> is_max_page(self.pages(), max),
    ;

    /// Combined BLAKE3 digest over the page hashes in `start..=end`, in
    /// page_no order.
    fn combined_hash(&self, start: u32, end: u32) -> (r: StoreResult<Vec<u8>>)
        ensures
            self.reliable() ==> r is Ok,
            r matches Err(e) ==> self.faults().contains(e@),
            r matches Ok(h) ==> h@ == blake3_digest(
                hashes_in_range(self.pages(), start as int, end as int),
            ),
            r matches Ok(h) ==> h@.len() == 32,
    {
        let mut all: Vec<u8> = Vec::new();
        let mut page_no: u32 = start;
        assert(hashes_in_range(self.pages(), start as int, start - 1) =~= Seq::<u8>::empty());
        let mut more: bool = start <= end;
        while more
            invariant
                more ==> start <= page_no <= end,
                more ==> all@ == hashes_in_range(self.pages(), start as int, page_no - 1),
                !more ==> all@ == hashes_in_range(self.pages(), start as int, end as int),
            decreases end - page_no + (if more {
                1int
            } else {
                0int
            }),
        {
            match self.get_page_hash(page_no) {
                Ok(found) => {
                    if let Some(h) = found {
                        let mut h: Vec<u8> = h;
                        all.append(&mut h);
                    }
                },
                Err(e) => {
                    return Err(e);
                },
            }
            if page_no == end {
                more = false;
            } else {
                page_no = page_no + 1;
            }
        }
        Ok(page_hash(all.as_slice()))
    }

    /// The first stored page of `start..=end` with its bytes. Walking a range
    /// with it holds one page at a time.
    fn next_page_in_range(&self, start: u32, end: u32) -> (r: StoreResult<Option<(u32, Vec<u8>)>>)
        ensures
            self.reliable() ==> r is Ok,
            r matches Err(e) ==> self.faults().contains(e@),
            r matches Ok(found) ==> is_first_page(self.pages(), start, end, found_view(found)),
    {
        let mut page_no: u32 = start;
        let mut more: bool = start <= end;
        while more
            invariant
                more ==> start <= page_no <= end,
                more ==> forall|k: u32| start <= k < page_no ==> !#[trigger] self.pages().contains_key(k),
                !more ==> forall|k: u32| start <= k <= end ==> !#[trigger] self.pages().contains_key(k),
            decreases end - page_no + (if more {
                1int
            } else {
                0int
            }),
        {
            match self.get_page(page_no) {
                Ok(found) => {
                    if let Some(data) = found {
                        return Ok(Some((page_no, data)));
                    }
                },
                Err(e) => {
                    return Err(e);
                },
            }
            if page_no == end {
                more = false;
            } else {
                page_no = page_no + 1;
            }
        }
        Ok(None)
    }
}

struct Page {
    data: Vec<u8>,
    hash: Vec<u8>,
    updated_at_ms: i64,
}

/// Pages in memory.
pub struct InMemorySyncStorage {
    stored: BTreeMap<u32, Page>,
}

spec fn page_view(p: Page) -> PageView {
    PageView { data: p.data@, hash: p.hash@ }
}

impl InMemorySyncStorage {
    pub fn new() -> (r: Self)
        ensures
            r.pages() == Map::<u32, PageView>::empty(),
            r.stored_at() == Map::<u32, i64>::empty(),
    {
        let r = InMemorySyncStorage { stored: BTreeMap::new() };
        assert(r.pages() =~= Map::<u32, PageView>::empty());
        assert(r.stored_at() =~= Map::<u32, i64>::empty());
        r
    }

    /// When a page was stored.
    pub fn updated_at(&self, page_no: u32) -> (r: Option<i64>)
        ensures
            match r {
                Some(ms) => self.stored_at().contains_key(page_no) && self.stored_at()[page_no]
                    == ms,
                None => !self.stored_at().contains_key(page_no),
            },
    {
        match self.stored.get(&page_no) {
            Some(p) => Some(p.updated_at_ms),
            None => None,
        }
    }
}

impl SyncStorage for InMemorySyncStorage {
    closed spec fn pages(&self) -> Map<u32, PageView> {
        self.stored@.map_values(|p: Page| page_view(p))
    }

    closed spec fn stored_at(&self) -> Map<u32, i64> {
        self.stored@.map_values(|p: Page| p.updated_at_ms)
    }

    open spec fn reliable(&self) -> bool {
        true
    }

    open spec fn faults(&self) -> Set<StoreErrorView> {
        Set::empty()
    }

    fn get_page_hash(&self, page_no: u32) -> (r: StoreResult<Option<Vec<u8>>>) {
        match self.stored.get(&page_no) {
            Some(p) => Ok(Some(copy_bytes(p.hash.as_slice()))),
            None => Ok(None),
        }
    }

    fn get_page(&self, page_no: u32) -> (r: StoreResult<Option<Vec<u8>>>) {
        match self.stored.get(&page_no) {
            Some(p) => Ok(Some(copy_bytes(p.data.as_slice()))),
            None => Ok(None),
        }
    }

    fn put_page(&mut self, page_no: u32, data: &[u8], hash: &[u8], now_ms: i64) -> (r: StoreResult<
        (),
    >) {
        let page: Page = Page {
            data: copy_bytes(data),
            hash: copy_bytes(hash),
            updated_at_ms: now_ms,
        };
        self.stored.insert(page_no, page);
        assert(self.pages() =~= old(self).pages().insert(
            page_no,
            (PageView { data: data@, hash: hash@ }),
        ));
        assert(self.stored_at() =~= old(self).stored_at().insert(page_no, now_ms));
        Ok(())
    }

    fn max_page(&self) -> (r: StoreResult<u32>) {
        let mut max: u32 = 0;
        for k in it: self.stored.keys()
            invariant
                it.seq().unref().to_set() == self.stored@.dom(),
                forall|i: int| 0 <= i < it.index() ==> *#[trigger] it.seq()[i] <= max,
                max != 0 ==> self.stored@.contains_key(max),
        {
            proof {
                assert(it.seq().unref()[it.index()] == *k);
                assert(it.seq().unref().to_set().contains(*k));
            }
            if *k > max {
                max = *k;
            }
        }
        proof {
            assert forall|n: u32| #[trigger] self.pages().contains_key(n) implies n <= max by {
                assert(self.stored@.dom().contains(n));
            }
        }
        Ok(max)
    }
}

} // verus!
