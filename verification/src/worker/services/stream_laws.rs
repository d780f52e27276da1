//! What a session of the stream does with each request, and what a whole
//! stream comes to.

use vstd::prelude::*;

use super::sync::{
    fresh_session, on_data_batch, opened, processed, received, routed, settled, turned, written,
    AnswerView, ClientEnvelope, Received, RequestView, SessionView, TurnView,
};
use super::rpc::RpcCode;
use super::sync_fsm::max_page_of;
use super::sync_storage::{is_max_page, hashes_in_range, PageView};
use crate::shared::auth::session::SyncContext;
use crate::shared::domain::enums::Direction;
use crate::shared::domain::ids::{hex_digit, hex_text};
use crate::shared::error::StoreErrorView;
use crate::shared::sync_protocol::blake3_digest;
use crate::text::decimal;

verus! {

// ---------- texts of hashes ----------

proof fn lemma_hex_digits(a: int, b: int)
    requires
        0 <= a < 16,
        0 <= b < 16,
        hex_digit(a) == hex_digit(b),
    ensures
        a == b,
{
}

/// A text of bytes tells them apart: it has two digits a byte, and two
/// sequences of bytes with the same text are the same.
pub proof fn law_hex_text_is_exact(a: Seq<u8>, b: Seq<u8>)
    ensures
        hex_text(a).len() == 2 * a.len(),
        hex_text(a) == hex_text(b) ==> a == b,
{
    if hex_text(a) == hex_text(b) {
        assert(hex_text(a).len() == 2 * a.len());
        assert(hex_text(b).len() == 2 * b.len());
        assert forall|i: int| 0 <= i < a.len() implies a[i] == b[i] by {
            assert(hex_text(a)[2 * i] == hex_text(b)[2 * i]);
            assert(hex_text(a)[2 * i + 1] == hex_text(b)[2 * i + 1]);
            assert((2 * i) / 2 == i && (2 * i + 1) / 2 == i);
            assert((2 * i) % 2 == 0 && (2 * i + 1) % 2 == 1);
            lemma_hex_digits(a[i] as int / 16, b[i] as int / 16);
            lemma_hex_digits(a[i] as int % 16, b[i] as int % 16);
        }
        assert(a =~= b);
    }
}

// ---------- the last stored page ----------

/// There is a last stored page.
proof fn lemma_has_max_below(pages: Map<u32, PageView>, n: u32)
    requires
        forall|k: u32| #[trigger] pages.contains_key(k) ==> k <= n,
    ensures
        exists|max: u32| is_max_page(pages, max),
    decreases n,
{
    if n == 0 || pages.contains_key(n) {
        assert(is_max_page(pages, n));
    } else {
        assert forall|k: u32| #[trigger] pages.contains_key(k) implies k <= (n - 1) as u32 by {
            assert(k != n);
        }
        lemma_has_max_below(pages, (n - 1) as u32);
    }
}

/// The last stored page is stored, or is zero where nothing is, and no stored
/// page comes after it.
pub proof fn law_max_page(pages: Map<u32, PageView>)
    ensures
        forall|n: u32| #[trigger] pages.contains_key(n) ==> n <= max_page_of(pages),
        pages.contains_key(max_page_of(pages)) || max_page_of(pages) == 0,
{
    lemma_has_max_below(pages, u32::MAX);
    assert(is_max_page(pages, max_page_of(pages)));
}

/// The hashes of a range are those of the pages in it that are stored, in the
/// order of their numbers: none of an empty range, one page's own hash of a
/// range of one, and of a longer range those of its parts.
pub proof fn law_hashes_in_range(pages: Map<u32, PageView>, from: u32, mid: u32, to: u32)
    requires
        from <= mid <= to,
    ensures
        pages.contains_key(mid) ==> hashes_in_range(pages, mid as int, mid as int)
            == pages[mid].hash,
        !pages.contains_key(mid) ==> hashes_in_range(pages, mid as int, mid as int).len() == 0,
        from < mid ==> hashes_in_range(pages, mid as int, from as int).len() == 0,
        hashes_in_range(pages, from as int, to as int) == hashes_in_range(
            pages,
            from as int,
            mid as int,
        ) + hashes_in_range(pages, mid + 1, to as int),
    decreases to,
{
    assert(hashes_in_range(pages, mid as int, mid - 1) =~= Seq::empty());
    if pages.contains_key(mid) {
        assert(Seq::<u8>::empty() + pages[mid].hash =~= pages[mid].hash);
    }
    let low = hashes_in_range(pages, from as int, mid as int);
    if mid == to {
        assert(low + hashes_in_range(pages, mid + 1, to as int) =~= low);
    } else {
        let n = (to - 1) as u32;
        law_hashes_in_range(pages, from, mid, n);
        let high = hashes_in_range(pages, mid + 1, to - 1);
        if pages.contains_key(to) {
            assert((low + high) + pages[to].hash =~= low + (high + pages[to].hash));
        }
    }
}

// ---------- one request ----------

/// The greeting of a client of the same version is answered with its own page
/// size and the last stored page; it changes nothing else of a session than
/// that the handshake is over. A client of another version is told both.
pub proof fn law_stream_greets(s: SessionView, protocol_version: u32, page_size: u32, max_page: u32)
    requires
        !s.saw_hello,
    ensures
        protocol_version == 1 ==> (routed(
            s,
            Some(RequestView::Hello { protocol_version, page_size, max_page }),
        ) matches Ok(t) && {
            &&& t.queue.len() == s.queue.len() + 1
            &&& t.queue.drop_last() == s.queue
            &&& t.queue.last() matches AnswerView::HelloReply {
                protocol_version: v,
                page_size: size,
                max_page: m,
            } && {
                &&& v == 1
                &&& size == page_size
                &&& forall|n: u32| #[trigger] s.pages.contains_key(n) ==> n <= m
                &&& s.pages.contains_key(m) || m == 0
            }
            &&& t == (SessionView { saw_hello: true, queue: t.queue, ..s })
        }),
        protocol_version != 1 ==> routed(
            s,
            Some(RequestView::Hello { protocol_version, page_size, max_page }),
        ) == Err::<SessionView, Seq<char>>(
            "protocol_version mismatch: server=1, client="@ + decimal(protocol_version as nat),
        ),
{
    law_max_page(s.pages);
    if protocol_version == 1 {
        let r = routed(s, Some(RequestView::Hello { protocol_version, page_size, max_page }));
        assert(r is Ok);
        assert(r->Ok_0.queue.drop_last() =~= s.queue);
    }
}

/// On a push a page is asked for, and awaited, exactly where its hash is not
/// that of the stored page or no page is stored.
pub proof fn law_stream_push_asks(s: SessionView, page_no: u32, hash: Seq<char>)
    requires
        s.saw_hello,
        s.direction == Direction::Push,
    ensures
        routed(s, Some(RequestView::PageHash { page_no, hash })) matches Ok(t) && {
            let same = s.pages.contains_key(page_no) && hash == hex_text(s.pages[page_no].hash);
            &&& same ==> t == s
            &&& !same ==> {
                &&& t.queue == s.queue.push(AnswerView::RequestPage { page_no })
                &&& forall|n: u32| #[trigger]
                    t.pending.contains(n) <==> n == page_no || s.pending.contains(n)
                &&& t == (SessionView { queue: t.queue, pending: t.pending, ..s })
            }
        },
{
}

/// On a pull a page is sent, with its stored bytes, exactly where one is
/// stored and its hash is not the one that the client has; it is counted.
pub proof fn law_stream_pull_sends(s: SessionView, page_no: u32, hash: Seq<char>)
    requires
        s.saw_hello,
        s.direction == Direction::Pull,
    ensures
        routed(s, Some(RequestView::PageHash { page_no, hash })) matches Ok(t) && {
            let sends = s.pages.contains_key(page_no) && hash != hex_text(s.pages[page_no].hash);
            &&& !sends ==> t == s
            &&& sends ==> {
                let data = s.pages[page_no].data;
                &&& t.queue == s.queue.push(AnswerView::PageData { page_no, data })
                &&& s.pages_transferred < u64::MAX ==> t.pages_transferred == s.pages_transferred
                    + 1
                &&& s.bytes_transferred + data.len() <= u64::MAX ==> t.bytes_transferred
                    == s.bytes_transferred + data.len()
                &&& t == (SessionView {
                    queue: t.queue,
                    pages_transferred: t.pages_transferred,
                    bytes_transferred: t.bytes_transferred,
                    ..s
                })
            }
        },
{
}

/// A page of a push is stored under its number with its digest, is awaited no
/// more, and is counted; every other page stays. The report is queued with it
/// exactly where the hashes are over and nothing is awaited any more.
pub proof fn law_stream_push_stores(s: SessionView, page_no: u32, data: Seq<u8>)
    requires
        s.saw_hello,
        s.direction == Direction::Push,
    ensures
        routed(s, Some(RequestView::PageData { page_no, data })) matches Ok(t) && {
            let over = s.completed_hash_phase && forall|n: u32| #[trigger]
                s.pending.contains(n) ==> n == page_no;
            &&& t.pages.contains_key(page_no)
            &&& t.pages[page_no].data == data
            &&& t.pages[page_no].hash == blake3_digest(data)
            &&& forall|n: u32| #[trigger]
                t.pages.contains_key(n) <==> n == page_no || s.pages.contains_key(n)
            &&& forall|n: u32| n != page_no && s.pages.contains_key(n) ==> #[trigger] t.pages[n]
                == s.pages[n]
            &&& forall|n: u32| #[trigger]
                t.pending.contains(n) <==> n != page_no && s.pending.contains(n)
            &&& s.pages_transferred < u64::MAX ==> t.pages_transferred == s.pages_transferred + 1
            &&& s.bytes_transferred + data.len() <= u64::MAX ==> t.bytes_transferred
                == s.bytes_transferred + data.len()
            &&& over ==> t.queue == s.queue.push(
                AnswerView::SyncComplete {
                    pages_transferred: t.pages_transferred,
                    bytes_transferred: t.bytes_transferred,
                },
            )
            &&& !over ==> t.queue == s.queue
            &&& t.reported == (s.reported || over)
            &&& t.direction == s.direction
            &&& t.saw_hello
            &&& t.completed_hash_phase == s.completed_hash_phase
            &&& t.finished == s.finished
        },
{
    let pending = s.pending.remove(page_no);
    if s.completed_hash_phase && forall|n: u32| #[trigger] s.pending.contains(n) ==> n == page_no {
        assert(pending =~= Set::empty());
    } else if s.completed_hash_phase {
        let n = choose|n: u32| #[trigger] s.pending.contains(n) && n != page_no;
        assert(pending.contains(n));
    }
}

/// Pages of a push in one request are as good as one request each, in their
/// order.
pub proof fn law_stream_batch_is_each(s: SessionView, pages: Seq<(u32, Seq<u8>)>, page: (u32, Seq<u8>))
    requires
        s.saw_hello,
        s.direction == Direction::Push,
    ensures
        routed(s, Some(RequestView::PageDataBatch { pages: Seq::empty() })) == Ok::<
            SessionView,
            Seq<char>,
        >(s),
        routed(s, Some(RequestView::PageDataBatch { pages })) matches Ok(t) && t.saw_hello
            && t.direction == Direction::Push && routed(
            s,
            Some(RequestView::PageDataBatch { pages: pages.push(page) }),
        ) == routed(t, Some(RequestView::PageData { page_no: page.0, data: page.1 })),
    decreases pages.len(),
{
    assert(pages.push(page).drop_last() =~= pages);
    if pages.len() > 0 {
        law_stream_batch_is_each(s, pages.drop_last(), pages.last());
        assert(pages.drop_last().push(pages.last()) =~= pages);
    }
}

/// A run of hashes is answered exactly where the digest over the stored ones
/// differs from the client's: with every number of the run, in order.
pub proof fn law_stream_batch_mismatch(s: SessionView, from: u32, to: u32, combined: Seq<char>)
    requires
        s.saw_hello,
    ensures
        routed(
            s,
            Some(
                RequestView::PageHashBatch { start_page: from, end_page: to, combined_hash: combined },
            ),
        ) matches Ok(t) && {
            let own = hex_text(blake3_digest(hashes_in_range(s.pages, from as int, to as int)));
            &&& own == combined ==> t == s
            &&& own != combined ==> {
                &&& t == (SessionView { queue: t.queue, ..s })
                &&& t.queue.len() == s.queue.len() + 1
                &&& t.queue.drop_last() == s.queue
                &&& t.queue.last() matches AnswerView::HashMismatchBatch { page_numbers } && {
                    &&& forall|n: u32| #[trigger]
                        page_numbers.contains(n) <==> from <= n <= to
                    &&& forall|i: int| 0 <= i < page_numbers.len() ==> #[trigger] page_numbers[i]
                        == from + i
                }
            }
        },
{
    let r = routed(
        s,
        Some(
            RequestView::PageHashBatch { start_page: from, end_page: to, combined_hash: combined },
        ),
    );
    let own = hex_text(blake3_digest(hashes_in_range(s.pages, from as int, to as int)));
    if own != combined {
        assert(r->Ok_0.queue.drop_last() =~= s.queue);
        let page_numbers = r->Ok_0.queue.last()->page_numbers;
        assert forall|n: u32| #[trigger] page_numbers.contains(n) <==> from <= n <= to by {
            if from <= n <= to {
                assert(page_numbers[n - from] == n);
            }
        }
    }
}

/// Once the hashes are over, a session that awaits nothing reports its totals
/// and is done; one that awaits pages waits for them.
pub proof fn law_stream_complete(s: SessionView)
    requires
        s.saw_hello,
    ensures
        routed(s, Some(RequestView::Complete)) matches Ok(t) && {
            let over = forall|n: u32| !#[trigger] s.pending.contains(n);
            &&& over ==> t == (SessionView {
                completed_hash_phase: true,
                reported: true,
                finished: true,
                queue: s.queue.push(
                    AnswerView::SyncComplete {
                        pages_transferred: s.pages_transferred,
                        bytes_transferred: s.bytes_transferred,
                    },
                ),
                ..s
            })
            &&& !over ==> t == (SessionView { completed_hash_phase: true, ..s })
        },
{
    if forall|n: u32| !#[trigger] s.pending.contains(n) {
        assert(s.pending =~= Set::empty());
    }
}

/// What is refused, and with which words: a request without a payload, any
/// but a greeting before the handshake, a second greeting after it, and page
/// bytes on a pull. Nothing else is.
pub proof fn law_stream_refusals(s: SessionView, p: RequestView)
    ensures
        routed(s, None) == Err::<SessionView, Seq<char>>("empty client envelope"@),
        !s.saw_hello && !(p is Hello) ==> routed(s, Some(p)) == Err::<SessionView, Seq<char>>(
            "first envelope must be Hello"@,
        ),
        s.saw_hello && p is Hello ==> routed(s, Some(p)) == Err::<SessionView, Seq<char>>(
            "Hello may only be sent once"@,
        ),
        s.saw_hello && (p is PageData || p is PageDataBatch) && s.direction == Direction::Pull
            ==> routed(s, Some(p)) == Err::<SessionView, Seq<char>>(
            "page bytes may only be sent on a push"@,
        ),
        s.saw_hello && (p is PageHash || p is PageHashBatch || p is Complete) ==> routed(s, Some(p))
            is Ok,
        s.saw_hello && (p is PageData || p is PageDataBatch) && s.direction == Direction::Push
            ==> routed(s, Some(p)) is Ok,
{
}

/// A refused request is answered with an error that says why, ends the
/// session and changes nothing else; a stream that fails ends it without an
/// answer.
pub proof fn law_stream_refused_ends(s: SessionView, e: ClientEnvelope, p: RequestView)
    requires
        e.payload matches Some(c) && c@ == p,
        routed(s, Some(p)) is Err,
    ensures
        received(s, Received::Envelope(e)) == (SessionView {
            finished: true,
            queue: s.queue.push(AnswerView::Error { message: routed(s, Some(p))->Err_0 }),
            ..s
        }),
        forall|f: super::rpc::RpcError| #[trigger]
            received(s, Received::Failed(f)) == (SessionView { finished: true, ..s }),
{
}

/// A request that is carried out leaves the session in the state that it leads
/// to.
pub proof fn law_stream_taken(s: SessionView, e: ClientEnvelope, p: RequestView)
    requires
        e.payload matches Some(c) && c@ == p,
        routed(s, Some(p)) is Ok,
    ensures
        routed(s, Some(p)) == Ok::<SessionView, Seq<char>>(received(s, Received::Envelope(e))),
{
}

/// A session begins before its handshake, with nothing awaited, counted,
/// queued or reported, in the direction and over the pages that it is given.
pub proof fn law_stream_begins(direction: Direction, pages: Map<u32, PageView>)
    ensures
        ({
            let s = fresh_session(direction, pages);
            &&& s.direction == direction
            &&& s.pages == pages
            &&& !s.saw_hello && !s.completed_hash_phase && !s.reported && !s.finished
            &&& s.pages_transferred == 0 && s.bytes_transferred == 0
            &&& s.queue.len() == 0
            &&& forall|n: u32| !#[trigger] s.pending.contains(n)
        }),
{
}

/// A client that hangs up ends the session. It is still sent the report, with
/// the totals so far, exactly where the handshake is over, nothing is awaited
/// and none was made.
pub proof fn law_stream_hang_up(s: SessionView)
    ensures
        ({
            let t = received(s, Received::Closed);
            let due = s.saw_hello && !s.reported && forall|n: u32| !#[trigger] s.pending.contains(n);
            &&& due ==> t == (SessionView {
                finished: true,
                reported: true,
                queue: s.queue.push(
                    AnswerView::SyncComplete {
                        pages_transferred: s.pages_transferred,
                        bytes_transferred: s.bytes_transferred,
                    },
                ),
                ..s
            })
            &&& !due ==> t == (SessionView { finished: true, ..s })
        }),
{
    if forall|n: u32| !#[trigger] s.pending.contains(n) {
        assert(s.pending =~= Set::empty());
    }
}

/// A page that was stored on a push is not asked for again when its own digest
/// is announced, and one with other bytes under another digest is.
pub proof fn law_stored_page_is_known(s: SessionView, page_no: u32, data: Seq<u8>, other: Seq<u8>)
    requires
        s.saw_hello,
        s.direction == Direction::Push,
    ensures
        routed(s, Some(RequestView::PageData { page_no, data })) matches Ok(t) && {
            &&& routed(
                t,
                Some(
                    RequestView::PageHash { page_no, hash: hex_text(blake3_digest(data)) },
                ),
            ) == Ok::<SessionView, Seq<char>>(t)
            &&& blake3_digest(other) != blake3_digest(data) ==> (routed(
                t,
                Some(
                    RequestView::PageHash { page_no, hash: hex_text(blake3_digest(other)) },
                ),
            ) matches Ok(u) && u.pending.contains(page_no) && u.queue == t.queue.push(
                AnswerView::RequestPage { page_no },
            ))
        },
{
    law_stream_push_stores(s, page_no, data);
    let t = routed(s, Some(RequestView::PageData { page_no, data }))->Ok_0;
    law_stream_push_asks(t, page_no, hex_text(blake3_digest(data)));
    law_stream_push_asks(t, page_no, hex_text(blake3_digest(other)));
    law_hex_text_is_exact(blake3_digest(data), blake3_digest(other));
}

/// The pages that a request stores are those that it brings on a push past its
/// handshake; any other request stores none.
pub proof fn law_stream_written_pages(
    s: SessionView,
    p: RequestView,
    page_no: u32,
    data: Seq<u8>,
)
    ensures
        written(s, Some(p)).contains((page_no, data)) ==> s.saw_hello && s.direction
            == Direction::Push,
        s.saw_hello && s.direction == Direction::Push ==> written(
            s,
            Some(RequestView::PageData { page_no, data }),
        ) == seq![(page_no, data)],
        s.saw_hello && s.direction == Direction::Push && p is PageDataBatch ==> written(s, Some(p))
            == p->pages,
        !(p is PageData) && !(p is PageDataBatch) ==> written(s, Some(p)).len() == 0,
        written(s, None).len() == 0,
{
}

// ---------- failures ----------

/// A request that ends with an error was refused, and changed nothing, or the
/// storage failed under it. Then the error is one of the storage's, the
/// greeting has still been seen, a page that came is awaited no more, and
/// nothing else changed; the end of the hashes never fails.
pub proof fn law_stream_failed_request(
    s: SessionView,
    p: RequestView,
    next: SessionView,
    r: Result<(), String>,
    faults: Set<StoreErrorView>,
    reliable: bool,
)
    requires
        processed(s, Some(p), next, r, faults, reliable),
        r is Err,
    ensures
        routed(s, Some(p)) is Err ==> next == s && routed(s, Some(p)) == Err::<
            SessionView,
            Seq<char>,
        >(r->Err_0@),
        routed(s, Some(p)) is Ok ==> {
            &&& !reliable
            &&& exists|f: StoreErrorView| #[trigger] faults.contains(f) && r->Err_0@ == f.text()
            &&& !(p is Complete)
            &&& p is Hello ==> next == (SessionView { saw_hello: true, ..s })
            &&& p is PageHash || p is PageHashBatch ==> next == s
            &&& p matches RequestView::PageData { page_no, .. } ==> {
                &&& forall|n: u32| #[trigger]
                    next.pending.contains(n) <==> n != page_no && s.pending.contains(n)
                &&& next == (SessionView { pending: next.pending, ..s })
            }
        },
{
    if routed(s, Some(p)) is Ok {
        let f = choose|f: StoreErrorView| #[trigger]
            faults.contains(f) && r->Err_0@ == f.text();
        assert(faults.contains(f));
    }
}

/// A request that ends well did what it leads to, and the session goes on from
/// there; one that ends with an error is answered with its words, and ends the
/// session.
pub proof fn law_stream_settles(
    s: SessionView,
    p: RequestView,
    next: SessionView,
    r: Result<(), String>,
    faults: Set<StoreErrorView>,
    reliable: bool,
)
    requires
        processed(s, Some(p), next, r, faults, reliable),
    ensures
        r is Ok ==> settled(next, r) == next && routed(s, Some(p)) == Ok::<SessionView, Seq<char>>(
            next,
        ),
        r matches Err(t) ==> settled(next, r) == (SessionView {
            finished: true,
            queue: next.queue.push(AnswerView::Error { message: t@ }),
            ..next
        }),
        reliable ==> (r is Ok <==> routed(s, Some(p)) is Ok),
{
}

/// Pages of one request that the storage failed under are stored up to the one
/// that it failed on, as if they had come alone.
pub proof fn law_stream_failed_batch(
    s: SessionView,
    pages: Seq<(u32, Seq<u8>)>,
    next: SessionView,
    r: Result<(), String>,
    faults: Set<StoreErrorView>,
    reliable: bool,
)
    requires
        s.saw_hello,
        s.direction == Direction::Push,
        processed(s, Some(RequestView::PageDataBatch { pages }), next, r, faults, reliable),
        r is Err,
    ensures
        exists|i: int|
            0 <= i < pages.len() && (#[trigger] routed(
                s,
                Some(RequestView::PageDataBatch { pages: pages.take(i) }),
            ) matches Ok(before) && next.pages == before.pages && next.queue == before.queue
                && next.pages_transferred == before.pages_transferred && next.bytes_transferred
                == before.bytes_transferred && !next.pending.contains(pages[i].0)),
{
    let i = choose|i: int|
        0 <= i < pages.len() && {
            let before = #[trigger] on_data_batch(s, pages.take(i));
            next == (SessionView { pending: before.pending.remove(pages[i].0), ..before })
        };
    assert(routed(s, Some(RequestView::PageDataBatch { pages: pages.take(i) })) == Ok::<
        SessionView,
        Seq<char>,
    >(on_data_batch(s, pages.take(i))));
}

/// A session opens in the direction that the token grants, over the stored
/// pages; without a token none does.
pub proof fn law_stream_opens(ctx: SyncContext, pages: Map<u32, PageView>)
    ensures
        opened(Some(ctx), pages) matches Ok(s) && s.direction == ctx.direction && s.pages == pages
            && !s.saw_hello && !s.finished && s.queue.len() == 0,
        opened(None, pages) matches Err(e) && e.code == RpcCode::Unauthenticated && e.message
            == "sync token required"@,
{
}

/// The state after some turns of the response stream, with what was sent.
pub open spec fn drained(s: SessionView, turns: nat) -> (Seq<AnswerView>, SessionView)
    decreases turns,
{
    if turns == 0 {
        (Seq::empty(), s)
    } else {
        let (sent, t) = drained(s, (turns - 1) as nat);
        match turned(t).0 {
            TurnView::Emit(a) => (sent.push(a), turned(t).1),
            _ => (sent, turned(t).1),
        }
    }
}

/// Answers are sent in the order in which they were queued, and each once;
/// nothing else of the session changes. Once all are sent, a finished session
/// ends, and any other reads the next request.
pub proof fn law_stream_drains_in_order(s: SessionView, turns: nat)
    ensures
        turns <= s.queue.len() ==> drained(s, turns) == (
            s.queue.take(turns as int),
            (SessionView { queue: s.queue.skip(turns as int), ..s }),
        ),
        turns == s.queue.len() ==> (turned(drained(s, turns).1).0 is End <==> s.finished) && (
        turned(drained(s, turns).1).0 is Await <==> !s.finished) && turned(drained(s, turns).1).1
            == drained(s, turns).1,
    decreases turns,
{
    if turns == 0 {
        assert(s.queue.take(0) =~= Seq::empty());
        assert(s.queue.skip(0) =~= s.queue);
    } else if turns <= s.queue.len() {
        law_stream_drains_in_order(s, (turns - 1) as nat);
        let rest = s.queue.skip(turns - 1);
        assert(rest[0] == s.queue[turns - 1]);
        assert(rest.skip(1) =~= s.queue.skip(turns as int));
        assert(s.queue.take(turns - 1).push(s.queue[turns - 1]) =~= s.queue.take(turns as int));
    }
}

} // verus!
