//! What whole streams come to.

use vstd::prelude::*;

use super::pull_laws::total_bytes;
use super::stream_laws::{
    law_hex_text_is_exact, law_stream_batch_is_each, law_stream_complete, law_stream_greets,
    law_stream_pull_sends, law_stream_push_asks, law_stream_push_stores,
};
use super::sync::{fresh_session, routed, AnswerView, RequestView, SessionView};
use super::sync_laws::{
    differs, lemma_numbers, lemma_wanted, numbered_once, numbers, wanted,
};
use super::sync_storage::PageView;
use crate::shared::domain::enums::Direction;
use crate::shared::domain::ids::hex_text;
use crate::shared::sync_protocol::blake3_digest;

verus! {

/// The state after requests that were all carried out; nothing once one was
/// refused.
pub open spec fn ran(s: SessionView, reqs: Seq<RequestView>) -> Option<SessionView>
    decreases reqs.len(),
{
    if reqs.len() == 0 {
        Some(s)
    } else {
        match ran(s, reqs.drop_last()) {
            None => None,
            Some(t) => match routed(t, Some(reqs.last())) {
                Ok(u) => Some(u),
                Err(_) => None,
            },
        }
    }
}

/// Requests are carried out from where the first of them ended.
proof fn lemma_ran_concat(s: SessionView, a: Seq<RequestView>, b: Seq<RequestView>)
    requires
        ran(s, a) is Some,
    ensures
        ran(s, a + b) == ran(ran(s, a)->0, b),
    decreases b.len(),
{
    if b.len() == 0 {
        assert(a + b =~= a);
    } else {
        assert((a + b).drop_last() =~= a + b.drop_last());
        lemma_ran_concat(s, a, b.drop_last());
    }
}

proof fn lemma_ran_one(s: SessionView, p: RequestView)
    ensures
        ran(s, seq![p]) == match routed(s, Some(p)) {
            Ok(t) => Some(t),
            Err(_) => None,
        },
{
    reveal_with_fuel(ran, 2);
    assert(seq![p].drop_last() =~= Seq::empty());
}

// ---------- a push in any order ----------

/// Whether a request gives some bytes for a page.
pub open spec fn gives(p: RequestView, n: u32, data: Seq<u8>) -> bool {
    match p {
        RequestView::PageData { page_no, data: d } => page_no == n && d == data,
        RequestView::PageDataBatch { pages } => pages.contains((n, data)),
        _ => false,
    }
}

/// Whether requests give no other bytes for a page than these.
pub open spec fn gives_only(reqs: Seq<RequestView>, n: u32, data: Seq<u8>) -> bool {
    forall|i: int, d: Seq<u8>| 0 <= i < reqs.len() && #[trigger] gives(reqs[i], n, d) ==> d == data
}

/// Whether a page is stored, with its digest.
pub open spec fn stores(pages: Map<u32, PageView>, n: u32, data: Seq<u8>) -> bool {
    &&& pages.contains_key(n)
    &&& pages[n].data == data
    &&& pages[n].hash == blake3_digest(data)
}

/// Whether a page number stands for the same in both.
pub open spec fn same_page(a: Map<u32, PageView>, b: Map<u32, PageView>, n: u32) -> bool {
    &&& a.contains_key(n) == b.contains_key(n)
    &&& a.contains_key(n) ==> a[n] == b[n]
}

proof fn lemma_batch_at(s: SessionView, pages: Seq<(u32, Seq<u8>)>, n: u32, data: Seq<u8>)
    requires
        s.saw_hello,
        s.direction == Direction::Push,
        forall|d: Seq<u8>| #[trigger] pages.contains((n, d)) ==> d == data,
    ensures
        routed(s, Some(RequestView::PageDataBatch { pages })) matches Ok(t) && {
            &&& t.saw_hello
            &&& t.direction == Direction::Push
            &&& pages.contains((n, data)) ==> stores(t.pages, n, data) && !t.pending.contains(n)
            &&& !pages.contains((n, data)) ==> same_page(s.pages, t.pages, n)
                && t.pending.contains(n) == s.pending.contains(n)
        },
    decreases pages.len(),
{
    if pages.len() == 0 {
        assert(pages =~= Seq::empty());
        law_stream_batch_is_each(s, pages, (0, Seq::empty()));
    } else {
        let before = pages.drop_last();
        let last = pages.last();
        assert(pages =~= before.push(last));
        law_stream_batch_is_each(s, before, last);
        assert forall|d: Seq<u8>| #[trigger] before.contains((n, d)) implies d == data by {
            vstd::seq_lib::lemma_seq_contains_after_push(before, last, (n, d));
        }
        lemma_batch_at(s, before, n, data);
        let t = routed(s, Some(RequestView::PageDataBatch { pages: before }))->Ok_0;
        law_stream_push_stores(t, last.0, last.1);
        vstd::seq_lib::lemma_seq_contains_after_push(before, last, (n, data));
        vstd::seq_lib::lemma_seq_contains_after_push(before, last, last);
        if last.0 == n {
            assert(pages.contains((n, last.1)));
            assert(last.1 == data);
        }
    }
}

/// One request of a push, as one page sees it.
proof fn lemma_request_at(s: SessionView, p: RequestView, n: u32, data: Seq<u8>)
    requires
        s.saw_hello,
        s.direction == Direction::Push,
        forall|d: Seq<u8>| #[trigger] gives(p, n, d) ==> d == data,
    ensures
        routed(s, Some(p)) matches Ok(t) ==> {
            &&& t.saw_hello
            &&& t.direction == Direction::Push
            &&& gives(p, n, data) ==> stores(t.pages, n, data) && !t.pending.contains(n)
            &&& !gives(p, n, data) ==> same_page(s.pages, t.pages, n)
            &&& !gives(p, n, data) && s.pending.contains(n) ==> t.pending.contains(n)
            &&& p == (RequestView::PageHash { page_no: n, hash: hex_text(blake3_digest(data)) })
                ==> t.pending.contains(n) || (t.pages.contains_key(n) && t.pages[n].hash
                == blake3_digest(data))
        },
{
    match p {
        RequestView::Hello { .. } => {},
        RequestView::PageHash { page_no, hash } => {
            law_stream_push_asks(s, page_no, hash);
            if s.pages.contains_key(n) {
                law_hex_text_is_exact(s.pages[n].hash, blake3_digest(data));
            }
        },
        RequestView::PageHashBatch { .. } => {},
        RequestView::PageData { page_no, data: d } => {
            law_stream_push_stores(s, page_no, d);
            if page_no == n {
                assert(gives(p, n, d));
            }
        },
        RequestView::PageDataBatch { pages } => {
            assert forall|d: Seq<u8>| #[trigger] pages.contains((n, d)) implies d == data by {
                assert(gives(p, n, d));
            }
            lemma_batch_at(s, pages, n, data);
        },
        RequestView::Complete => {
            law_stream_complete(s);
        },
    }
}

proof fn lemma_push_at(s: SessionView, reqs: Seq<RequestView>, n: u32, data: Seq<u8>)
    requires
        s.saw_hello,
        s.direction == Direction::Push,
        gives_only(reqs, n, data),
        ran(s, reqs) is Some,
    ensures
        ({
            let t = ran(s, reqs)->0;
            &&& t.saw_hello
            &&& t.direction == Direction::Push
            &&& stores(t.pages, n, data) || same_page(s.pages, t.pages, n)
            &&& reqs.contains(
                RequestView::PageHash { page_no: n, hash: hex_text(blake3_digest(data)) },
            ) ==> t.pending.contains(n) || (t.pages.contains_key(n) && t.pages[n].hash
                == blake3_digest(data))
        }),
    decreases reqs.len(),
{
    if reqs.len() > 0 {
        let before = reqs.drop_last();
        let last = reqs.last();
        assert(reqs =~= before.push(last));
        assert forall|i: int, d: Seq<u8>|
            0 <= i < before.len() && #[trigger] gives(before[i], n, d) implies d == data by {
            assert(gives(reqs[i], n, d));
        }
        lemma_push_at(s, before, n, data);
        assert forall|d: Seq<u8>| #[trigger] gives(last, n, d) implies d == data by {
            assert(gives(reqs[reqs.len() - 1], n, d));
        }
        lemma_request_at(ran(s, before)->0, last, n, data);
        let announced = RequestView::PageHash { page_no: n, hash: hex_text(blake3_digest(data)) };
        vstd::seq_lib::lemma_seq_contains_after_push(before, last, announced);
    }
}

/// A push, in whatever order its requests come: a page that was announced with
/// the digest of some bytes, and for which no other bytes came, is in the end
/// awaited or stored with that digest. Its bytes are those that came, or the
/// ones that were stored with that digest before.
pub proof fn law_stream_push_converges(
    s: SessionView,
    reqs: Seq<RequestView>,
    n: u32,
    data: Seq<u8>,
)
    requires
        s.saw_hello,
        s.direction == Direction::Push,
        gives_only(reqs, n, data),
        reqs.contains(
            RequestView::PageHash { page_no: n, hash: hex_text(blake3_digest(data)) },
        ),
        ran(s, reqs) is Some,
        !ran(s, reqs)->0.pending.contains(n),
    ensures
        ({
            let t = ran(s, reqs)->0;
            &&& t.pages.contains_key(n)
            &&& t.pages[n].hash == blake3_digest(data)
            &&& t.pages[n].data == data || (s.pages.contains_key(n) && t.pages[n] == s.pages[n])
        }),
{
    lemma_push_at(s, reqs, n, data);
}

/// A request that is answered with the report leaves nothing awaited, and
/// comes at or after the end of the hashes.
pub proof fn law_stream_report_awaits_nothing(s: SessionView, p: RequestView, t: SessionView)
    requires
        s.saw_hello,
        routed(s, Some(p)) == Ok::<SessionView, Seq<char>>(t),
        !(p is PageDataBatch),
        t.queue.len() > s.queue.len(),
        t.queue.last() is SyncComplete,
    ensures
        forall|n: u32| !#[trigger] t.pending.contains(n),
        t.completed_hash_phase,
        t.queue.last() == (AnswerView::SyncComplete {
            pages_transferred: t.pages_transferred,
            bytes_transferred: t.bytes_transferred,
        }),
        p is Complete || p is PageData,
{
    match p {
        RequestView::PageData { page_no, data } => {
            law_stream_push_stores(s, page_no, data);
        },
        RequestView::Complete => {
            law_stream_complete(s);
        },
        _ => {},
    }
}

// ---------- a push as a client runs it ----------

/// The hashes that a client announces of its pages.
pub open spec fn hash_requests(local: Seq<(u32, Seq<u8>)>) -> Seq<RequestView> {
    local.map_values(
        |p: (u32, Seq<u8>)|
            RequestView::PageHash { page_no: p.0, hash: hex_text(blake3_digest(p.1)) },
    )
}

/// The bytes of pages.
pub open spec fn data_requests(list: Seq<(u32, Seq<u8>)>) -> Seq<RequestView> {
    list.map_values(|p: (u32, Seq<u8>)| RequestView::PageData { page_no: p.0, data: p.1 })
}

/// The answers that ask for pages.
pub open spec fn page_requests(list: Seq<(u32, Seq<u8>)>) -> Seq<AnswerView> {
    list.map_values(|p: (u32, Seq<u8>)| AnswerView::RequestPage { page_no: p.0 })
}

proof fn lemma_announced(s: SessionView, local: Seq<(u32, Seq<u8>)>)
    requires
        s.saw_hello,
        s.direction == Direction::Push,
    ensures
        ran(s, hash_requests(local)) == Some(
            SessionView {
                queue: s.queue + page_requests(wanted(s.pages, local)),
                pending: s.pending.union(numbers(wanted(s.pages, local))),
                ..s
            },
        ),
    decreases local.len(),
{
    let list = wanted(s.pages, local);
    if local.len() == 0 {
        assert(s.queue + page_requests(list) =~= s.queue);
        assert(s.pending.union(numbers(list)) =~= s.pending);
    } else {
        let before = local.drop_last();
        let (n, data) = local.last();
        lemma_announced(s, before);
        assert(hash_requests(local).drop_last() =~= hash_requests(before));
        let b = ran(s, hash_requests(before))->0;
        let hash = hex_text(blake3_digest(data));
        assert(hash_requests(local).last() == RequestView::PageHash { page_no: n, hash });
        law_stream_push_asks(b, n, hash);
        if s.pages.contains_key(n) {
            law_hex_text_is_exact(s.pages[n].hash, blake3_digest(data));
        }
        let t = routed(b, Some(RequestView::PageHash { page_no: n, hash }))->Ok_0;
        if differs(s.pages, local.last()) {
            assert(list.drop_last() =~= wanted(s.pages, before));
            assert(t.queue =~= s.queue + page_requests(list));
            assert(t.pending =~= s.pending.union(numbers(list)));
        }
    }
}

/// Giving the first `k` pages of those awaited.
proof fn lemma_given(s: SessionView, list: Seq<(u32, Seq<u8>)>, k: int)
    requires
        s.saw_hello,
        s.direction == Direction::Push,
        s.completed_hash_phase,
        s.pending == numbers(list),
        numbered_once(list),
        s.pages_transferred == 0,
        s.bytes_transferred == 0,
        total_bytes(list) <= u64::MAX,
        list.len() <= u64::MAX,
        0 <= k <= list.len(),
    ensures
        ran(s, data_requests(list.take(k))) matches Some(t) && {
            &&& t.saw_hello
            &&& t.direction == Direction::Push
            &&& t.completed_hash_phase
            &&& t.pending == numbers(list).difference(numbers(list.take(k)))
            &&& t.pages_transferred == k
            &&& t.bytes_transferred == total_bytes(list.take(k))
            &&& t.finished == s.finished
            &&& k < list.len() ==> t.queue == s.queue && t.reported == s.reported
            &&& 0 < k == list.len() ==> t.reported && t.queue == s.queue.push(
                AnswerView::SyncComplete {
                    pages_transferred: k as u64,
                    bytes_transferred: total_bytes(list) as u64,
                },
            )
            &&& forall|i: int|
                0 <= i < k ==> stores(t.pages, (#[trigger] list[i]).0, list[i].1)
            &&& forall|n: u32|
                !numbers(list.take(k)).contains(n) ==> #[trigger] same_page(s.pages, t.pages, n)
        },
    decreases k,
{
    let done = list.take(k);
    if k == 0 {
        assert(data_requests(done) =~= Seq::empty());
        assert(numbers(list).difference(numbers(done)) =~= numbers(list));
    } else {
        let part = list.take(k - 1);
        lemma_given(s, list, k - 1);
        assert(done.drop_last() =~= part);
        let (n, data) = list[k - 1];
        assert(done.last() == (n, data));
        assert(data_requests(done).drop_last() =~= data_requests(part));
        assert(data_requests(done).last() == RequestView::PageData { page_no: n, data });
        let b = ran(s, data_requests(part))->0;
        law_stream_push_stores(b, n, data);
        let t = routed(b, Some(RequestView::PageData { page_no: n, data }))->Ok_0;
        lemma_total_prefix(list, k);
        assert(total_bytes(done) == total_bytes(part) + data.len());
        assert(t.pending =~= numbers(list).difference(numbers(done)));
        if k < list.len() {
            let m = list[k].0;
            lemma_numbers(list, m);
            lemma_numbers(part, m);
            assert(numbers(list).contains(m));
            if numbers(part).contains(m) {
                let i = choose|i: int| 0 <= i < part.len() && (#[trigger] part[i]).0 == m;
                assert(part[i] == list[i]);
            }
            assert(list[k - 1].0 != list[k].0);
            assert(b.pending.contains(m) && m != n);
        } else {
            assert(done =~= list);
            assert forall|m: u32| #[trigger] b.pending.contains(m) implies m == n by {
                assert(numbers(list).contains(m) && !numbers(part).contains(m));
            }
        }
        assert forall|i: int| 0 <= i < k implies stores(
            t.pages,
            (#[trigger] list[i]).0,
            list[i].1,
        ) by {
            if i < k - 1 {
                assert(list[i].0 != list[k - 1].0);
            }
        }
        assert forall|m: u32| !numbers(done).contains(m) implies #[trigger] same_page(
            s.pages,
            t.pages,
            m,
        ) by {
            assert(!numbers(part).contains(m) && m != n);
            assert(same_page(s.pages, b.pages, m));
        }
    }
}

proof fn lemma_total_prefix(list: Seq<(u32, Seq<u8>)>, k: int)
    requires
        0 <= k <= list.len(),
    ensures
        total_bytes(list.take(k)) <= total_bytes(list),
    decreases list.len() - k,
{
    if k == list.len() {
        assert(list.take(k) =~= list);
    } else {
        lemma_total_prefix(list, k + 1);
        assert(list.take(k + 1).drop_last() =~= list.take(k));
    }
}

/// A whole push: the client greets, announces the digest of each of its pages,
/// says that it is complete, and sends the pages that it was asked for. It is
/// asked for exactly those that the server does not store with their digest,
/// in order. In the end the server holds the bytes of those and the digest of
/// each of the others, holds every other page as before, and has reported the
/// number and the bytes of the pages that it was sent. (Bytes beyond 64 bits
/// would wrap around.)
pub proof fn law_stream_push_session(
    pages: Map<u32, PageView>,
    page_size: u32,
    client_max: u32,
    local: Seq<(u32, Seq<u8>)>,
)
    requires
        numbered_once(local),
        local.len() <= u64::MAX,
        total_bytes(wanted(pages, local)) <= u64::MAX,
    ensures
        ({
            let hello = RequestView::Hello {
                protocol_version: 1,
                page_size,
                max_page: client_max,
            };
            let list = wanted(pages, local);
            let opening = seq![hello] + hash_requests(local);
            &&& forall|p: (u32, Seq<u8>)| #[trigger]
                list.contains(p) <==> local.contains(p) && !(pages.contains_key(p.0)
                    && pages[p.0].hash == blake3_digest(p.1))
            &&& ran(fresh_session(Direction::Push, pages), opening) matches Some(u) && {
                &&& u.queue.len() == 1 + list.len()
                &&& u.queue[0] is HelloReply
                &&& forall|i: int|
                    0 <= i < list.len() ==> #[trigger] u.queue[1 + i] == (AnswerView::RequestPage {
                        page_no: list[i].0,
                    })
                &&& ran(
                    fresh_session(Direction::Push, pages),
                    opening + seq![RequestView::Complete] + data_requests(list),
                ) matches Some(t) && {
                    &&& t.queue == u.queue.push(
                        AnswerView::SyncComplete {
                            pages_transferred: list.len() as u64,
                            bytes_transferred: total_bytes(list) as u64,
                        },
                    )
                    &&& t.reported
                    &&& forall|n: u32| !#[trigger] t.pending.contains(n)
                    &&& forall|i: int|
                        0 <= i < local.len() ==> {
                            let page = #[trigger] local[i];
                            &&& t.pages.contains_key(page.0)
                            &&& t.pages[page.0].hash == blake3_digest(page.1)
                            &&& t.pages[page.0].data == page.1 || t.pages[page.0] == pages[page.0]
                        }
                    &&& forall|n: u32|
                        (forall|i: int| 0 <= i < local.len() ==> (#[trigger] local[i]).0 != n)
                            ==> #[trigger] same_page(pages, t.pages, n)
                }
            }
        }),
{
    let s0 = fresh_session(Direction::Push, pages);
    let hello = RequestView::Hello { protocol_version: 1, page_size, max_page: client_max };
    let list = wanted(pages, local);
    let opening = seq![hello] + hash_requests(local);
    lemma_wanted(pages, local);
    lemma_wanted_len(pages, local);
    lemma_ran_one(s0, hello);
    law_stream_greets(s0, 1, page_size, client_max);
    let s1 = ran(s0, seq![hello])->0;
    lemma_ran_concat(s0, seq![hello], hash_requests(local));
    lemma_announced(s1, local);
    let u = ran(s0, opening)->0;
    assert(u.pending =~= numbers(list));
    assert(u.queue.len() == 1 + list.len());
    assert forall|i: int| 0 <= i < list.len() implies #[trigger] u.queue[1 + i] == (
    AnswerView::RequestPage { page_no: list[i].0 }) by {
        assert(u.queue[1 + i] == page_requests(list)[i]);
    }
    lemma_ran_one(u, RequestView::Complete);
    law_stream_complete(u);
    lemma_ran_concat(s0, opening, seq![RequestView::Complete]);
    let c = ran(s0, opening + seq![RequestView::Complete])->0;
    lemma_ran_concat(s0, opening + seq![RequestView::Complete], data_requests(list));
    assert(list.take(list.len() as int) =~= list);
    if list.len() == 0 {
        assert(data_requests(list) =~= Seq::empty());
        assert(forall|n: u32| !#[trigger] u.pending.contains(n));
    } else {
        lemma_numbers(list, list[0].0);
        assert(u.pending.contains(list[0].0));
        lemma_given(c, list, list.len() as int);
    }
    let t = ran(c, data_requests(list))->0;
    assert forall|i: int| 0 <= i < local.len() implies ({
        let page = #[trigger] local[i];
        &&& t.pages.contains_key(page.0)
        &&& t.pages[page.0].hash == blake3_digest(page.1)
        &&& t.pages[page.0].data == page.1 || t.pages[page.0] == pages[page.0]
    }) by {
        let page = local[i];
        assert(local.contains(page));
        if differs(pages, page) {
            assert(list.contains(page));
            let k = choose|k: int| 0 <= k < list.len() && list[k] == page;
            assert(stores(t.pages, list[k].0, list[k].1));
        } else {
            lemma_numbers(list, page.0);
            if numbers(list).contains(page.0) {
                let k = choose|k: int| 0 <= k < list.len() && (#[trigger] list[k]).0 == page.0;
                assert(list.contains(list[k]));
                let j = choose|j: int| 0 <= j < local.len() && local[j] == list[k];
                assert(local[j].0 == local[i].0);
                assert(j == i);
            }
            assert(same_page(pages, t.pages, page.0));
        }
    }
    assert forall|n: u32|
        (forall|i: int| 0 <= i < local.len() ==> (#[trigger] local[i]).0 != n) implies #[trigger]
    same_page(pages, t.pages, n) by {
        lemma_numbers(list, n);
        if numbers(list).contains(n) {
            let k = choose|k: int| 0 <= k < list.len() && (#[trigger] list[k]).0 == n;
            assert(list.contains(list[k]));
            let j = choose|j: int| 0 <= j < local.len() && local[j] == list[k];
            assert(local[j].0 == n);
        }
    }
}

proof fn lemma_wanted_len(pages: Map<u32, PageView>, local: Seq<(u32, Seq<u8>)>)
    ensures
        wanted(pages, local).len() <= local.len(),
    decreases local.len(),
{
    if local.len() > 0 {
        lemma_wanted_len(pages, local.drop_last());
    }
}

// ---------- a pull as a client runs it ----------

/// The hashes that a client claims to have.
pub open spec fn claim_requests(claims: Seq<(u32, Seq<char>)>) -> Seq<RequestView> {
    claims.map_values(
        |c: (u32, Seq<char>)| RequestView::PageHash { page_no: c.0, hash: c.1 },
    )
}

/// The stored pages that claims are answered with.
pub open spec fn corrections(pages: Map<u32, PageView>, claims: Seq<(u32, Seq<char>)>) -> Seq<
    (u32, Seq<u8>),
>
    decreases claims.len(),
{
    if claims.len() == 0 {
        Seq::empty()
    } else {
        let before = corrections(pages, claims.drop_last());
        let (n, hash) = claims.last();
        if pages.contains_key(n) && hash != hex_text(pages[n].hash) {
            before.push((n, pages[n].data))
        } else {
            before
        }
    }
}

/// The answers that carry pages.
pub open spec fn page_answers(list: Seq<(u32, Seq<u8>)>) -> Seq<AnswerView> {
    list.map_values(|p: (u32, Seq<u8>)| AnswerView::PageData { page_no: p.0, data: p.1 })
}

/// Claims are answered with the pages that are stored under another hash.
proof fn lemma_corrections(pages: Map<u32, PageView>, claims: Seq<(u32, Seq<char>)>)
    ensures
        corrections(pages, claims).len() <= claims.len(),
        forall|i: int|
            0 <= i < claims.len() && pages.contains_key((#[trigger] claims[i]).0) && claims[i].1
                != hex_text(pages[claims[i].0].hash) ==> corrections(pages, claims).contains(
                (claims[i].0, pages[claims[i].0].data),
            ),
        forall|p: (u32, Seq<u8>)| #[trigger]
            corrections(pages, claims).contains(p) ==> pages.contains_key(p.0) && p.1
                == pages[p.0].data && exists|i: int|
                0 <= i < claims.len() && (#[trigger] claims[i]).0 == p.0 && claims[i].1 != hex_text(
                    pages[p.0].hash,
                ),
    decreases claims.len(),
{
    if claims.len() > 0 {
        let before = claims.drop_last();
        let last = claims.last();
        lemma_corrections(pages, before);
        let part = corrections(pages, before);
        let list = corrections(pages, claims);
        let added = (last.0, pages[last.0].data);
        assert forall|i: int|
            0 <= i < claims.len() && pages.contains_key((#[trigger] claims[i]).0) && claims[i].1
                != hex_text(pages[claims[i].0].hash) implies list.contains(
            (claims[i].0, pages[claims[i].0].data),
        ) by {
            let want = (claims[i].0, pages[claims[i].0].data);
            vstd::seq_lib::lemma_seq_contains_after_push(part, added, want);
            if i < before.len() {
                assert(before[i] == claims[i]);
                assert(part.contains(want));
            }
        }
        assert forall|p: (u32, Seq<u8>)| #[trigger] list.contains(p) implies pages.contains_key(p.0)
            && p.1 == pages[p.0].data && exists|i: int|
            0 <= i < claims.len() && (#[trigger] claims[i]).0 == p.0 && claims[i].1 != hex_text(
                pages[p.0].hash,
            ) by {
            vstd::seq_lib::lemma_seq_contains_after_push(part, added, p);
            if part.contains(p) {
                let i = choose|i: int|
                    0 <= i < before.len() && (#[trigger] before[i]).0 == p.0 && before[i].1
                        != hex_text(pages[p.0].hash);
                assert(claims[i] == before[i]);
            } else {
                assert(claims[claims.len() - 1] == last);
            }
        }
    }
}

proof fn lemma_claimed(s: SessionView, claims: Seq<(u32, Seq<char>)>)
    requires
        s.saw_hello,
        s.direction == Direction::Pull,
        s.pages_transferred == 0,
        s.bytes_transferred == 0,
        claims.len() <= u64::MAX,
        total_bytes(corrections(s.pages, claims)) <= u64::MAX,
    ensures
        ran(s, claim_requests(claims)) == Some(
            SessionView {
                queue: s.queue + page_answers(corrections(s.pages, claims)),
                pages_transferred: corrections(s.pages, claims).len() as u64,
                bytes_transferred: total_bytes(corrections(s.pages, claims)) as u64,
                ..s
            },
        ),
    decreases claims.len(),
{
    let list = corrections(s.pages, claims);
    if claims.len() == 0 {
        assert(s.queue + page_answers(list) =~= s.queue);
    } else {
        let before = claims.drop_last();
        let (n, hash) = claims.last();
        let part = corrections(s.pages, before);
        lemma_corrections(s.pages, before);
        if list.len() > part.len() {
            assert(list.drop_last() =~= part);
        }
        lemma_claimed(s, before);
        assert(claim_requests(claims).drop_last() =~= claim_requests(before));
        assert(claim_requests(claims).last() == RequestView::PageHash { page_no: n, hash });
        let b = ran(s, claim_requests(before))->0;
        law_stream_pull_sends(b, n, hash);
        let t = routed(b, Some(RequestView::PageHash { page_no: n, hash }))->Ok_0;
        assert(t.queue =~= s.queue + page_answers(list));
    }
}

/// A whole pull: the client greets, claims hashes, and says that it is
/// complete. It is sent, in the order of its claims, the stored bytes of
/// exactly those pages that are stored under another hash than it claims, and
/// then the report with their number and their bytes. Nothing stored changes.
/// (Bytes beyond 64 bits would wrap around.)
pub proof fn law_stream_pull_session(
    pages: Map<u32, PageView>,
    page_size: u32,
    client_max: u32,
    claims: Seq<(u32, Seq<char>)>,
)
    requires
        claims.len() <= u64::MAX,
        total_bytes(corrections(pages, claims)) <= u64::MAX,
    ensures
        ({
            let hello = RequestView::Hello {
                protocol_version: 1,
                page_size,
                max_page: client_max,
            };
            let list = corrections(pages, claims);
            &&& ran(
                fresh_session(Direction::Pull, pages),
                seq![hello] + claim_requests(claims) + seq![RequestView::Complete],
            ) matches Some(t) && {
                &&& t.queue.len() == list.len() + 2
                &&& t.queue[0] is HelloReply
                &&& forall|i: int|
                    0 <= i < list.len() ==> #[trigger] t.queue[1 + i] == (AnswerView::PageData {
                        page_no: list[i].0,
                        data: list[i].1,
                    })
                &&& t.queue.last() == (AnswerView::SyncComplete {
                    pages_transferred: list.len() as u64,
                    bytes_transferred: total_bytes(list) as u64,
                })
                &&& t.finished
                &&& t.pages == pages
            }
            &&& forall|n: u32, data: Seq<u8>| #[trigger]
                list.contains((n, data)) <==> pages.contains_key(n) && data == pages[n].data
                    && exists|i: int|
                    0 <= i < claims.len() && (#[trigger] claims[i]).0 == n && claims[i].1
                        != hex_text(pages[n].hash)
        }),
{
    let s0 = fresh_session(Direction::Pull, pages);
    let hello = RequestView::Hello { protocol_version: 1, page_size, max_page: client_max };
    let list = corrections(pages, claims);
    lemma_corrections(pages, claims);
    lemma_ran_one(s0, hello);
    law_stream_greets(s0, 1, page_size, client_max);
    let s1 = ran(s0, seq![hello])->0;
    lemma_ran_concat(s0, seq![hello], claim_requests(claims));
    lemma_claimed(s1, claims);
    let u = ran(s0, seq![hello] + claim_requests(claims))->0;
    lemma_ran_one(u, RequestView::Complete);
    law_stream_complete(u);
    lemma_ran_concat(s0, seq![hello] + claim_requests(claims), seq![RequestView::Complete]);
    let t = ran(u, seq![RequestView::Complete])->0;
    assert forall|i: int| 0 <= i < list.len() implies #[trigger] t.queue[1 + i] == (
    AnswerView::PageData { page_no: list[i].0, data: list[i].1 }) by {
        assert(t.queue[1 + i] == page_answers(list)[i]);
    }
}

/// The requests of a client that has nothing: every number up to the last, with
/// no hash.
pub open spec fn nothing_claimed(max: u32) -> Seq<(u32, Seq<char>)> {
    Seq::new(max as nat, |i: int| ((i + 1) as u32, Seq::empty()))
}

/// A client that has nothing, and asks for every page up to the last one that
/// the server named in its reply to the greeting, is sent every stored page
/// with its bytes. (Pages are numbered from one, and a page's hash is never
/// empty.)
pub proof fn law_stream_pull_fetches_everything(
    pages: Map<u32, PageView>,
    page_size: u32,
    client_max: u32,
    max: u32,
)
    requires
        !pages.contains_key(0),
        forall|n: u32| #[trigger] pages.contains_key(n) ==> pages[n].hash.len() > 0,
        total_bytes(corrections(pages, nothing_claimed(max))) <= u64::MAX,
        ran(
            fresh_session(Direction::Pull, pages),
            seq![RequestView::Hello { protocol_version: 1, page_size, max_page: client_max }],
        ) matches Some(u) && u.queue == seq![
            AnswerView::HelloReply { protocol_version: 1, page_size, max_page: max },
        ],
    ensures
        ran(
            fresh_session(Direction::Pull, pages),
            seq![RequestView::Hello { protocol_version: 1, page_size, max_page: client_max }]
                + claim_requests(nothing_claimed(max)) + seq![RequestView::Complete],
        ) matches Some(t) && forall|n: u32| #[trigger]
            pages.contains_key(n) ==> t.queue.contains(
                AnswerView::PageData { page_no: n, data: pages[n].data },
            ),
{
    let s0 = fresh_session(Direction::Pull, pages);
    let hello = RequestView::Hello { protocol_version: 1, page_size, max_page: client_max };
    let claims = nothing_claimed(max);
    let list = corrections(pages, claims);
    law_stream_pull_session(pages, page_size, client_max, claims);
    lemma_ran_one(s0, hello);
    law_stream_greets(s0, 1, page_size, client_max);
    let u = ran(s0, seq![hello])->0;
    assert(u.queue.last() == u.queue[0]);
    let t = ran(s0, seq![hello] + claim_requests(claims) + seq![RequestView::Complete])->0;
    assert forall|n: u32| #[trigger] pages.contains_key(n) implies t.queue.contains(
        AnswerView::PageData { page_no: n, data: pages[n].data },
    ) by {
        assert(1 <= n <= max);
        assert(claims[n - 1].0 == n);
        law_hex_text_is_exact(pages[n].hash, Seq::empty());
        assert(claims[n - 1].1.len() == 0);
        assert(hex_text(pages[n].hash).len() > 0);
        assert(list.contains((n, pages[n].data)));
        let k = choose|k: int| 0 <= k < list.len() && list[k] == (n, pages[n].data);
        assert(t.queue[1 + k] == AnswerView::PageData { page_no: n, data: pages[n].data });
    }
}

} // verus!
