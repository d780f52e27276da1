//! What a session over the socket does with each message, and where it is left
//! when the storage or the socket fails.

use vstd::prelude::*;

use super::stream_laws::law_max_page;
use super::sync_fsm::{
    broken_off, carried_out, closed_by_client, cut_off, fresh_session, gate, held_in_batch, on_data_batch, owed,
    page_frames, served, step, timed, times_kept, written, Effect, FsmView, Trace,
};
use super::sync_storage::{hashes_in_range, is_first_page, PageView};
use crate::shared::clock::Clock;
use crate::shared::domain::enums::Direction;
use crate::shared::error::StoreErrorView;
use crate::shared::sync_protocol::{blake3_digest, MessageView};
use crate::text::decimal;

verus! {

// ---------- one message ----------

/// The greeting of a client of the same version is answered with its own page
/// size and the last stored page, which the session keeps; a client of another
/// version is told both, and nothing changes.
pub proof fn law_socket_greets(s: FsmView, protocol_version: u32, page_size: u32, max_page: u32)
    requires
        !s.saw_hello,
    ensures
        ({
            let e = step(s, MessageView::Hello { protocol_version, page_size, max_page });
            &&& protocol_version == 1 ==> {
                &&& e.fault is None
                &&& e.frames.len() == 1
                &&& e.frames[0] matches MessageView::HelloReply {
                    protocol_version: v,
                    page_size: size,
                    max_page: m,
                } && {
                    &&& v == 1
                    &&& size == page_size
                    &&& forall|n: u32| #[trigger] s.pages.contains_key(n) ==> n <= m
                    &&& s.pages.contains_key(m) || m == 0
                    &&& e.next == (FsmView { saw_hello: true, server_max_page: m, ..s })
                }
            }
            &&& protocol_version != 1 ==> {
                &&& e.fault == Some(
                    "protocol_version mismatch: server=1, client="@ + decimal(
                        protocol_version as nat,
                    ),
                )
                &&& e.frames.len() == 0
                &&& e.next == s
            }
        }),
{
    law_max_page(s.pages);
}

/// On a push a page is asked for, and awaited, exactly where its hash is not
/// that of the stored page or no page is stored.
pub proof fn law_socket_push_asks(s: FsmView, page_no: u32, hash: Seq<u8>)
    requires
        s.saw_hello,
        s.direction == Direction::Push,
    ensures
        ({
            let e = step(s, MessageView::PageHash { page_no, hash });
            let same = s.pages.contains_key(page_no) && hash == s.pages[page_no].hash;
            &&& e.fault is None
            &&& same ==> e.frames.len() == 0 && e.next.pending == s.pending
            &&& !same ==> e.frames == seq![MessageView::RequestPage { page_no }]
            &&& !same ==> forall|n: u32| #[trigger]
                e.next.pending.contains(n) <==> n == page_no || s.pending.contains(n)
            &&& forall|n: u32| #[trigger]
                e.next.client_seen.contains(n) <==> n == page_no || s.client_seen.contains(n)
            &&& e.next == (FsmView {
                pending: e.next.pending,
                client_seen: e.next.client_seen,
                ..s
            })
        }),
{
}

/// On a pull a page is sent, with its stored bytes, exactly where one is
/// stored and its hash is not the one that the client has; it is counted, and
/// the client is known to have been told of it.
pub proof fn law_socket_pull_sends(s: FsmView, page_no: u32, hash: Seq<u8>)
    requires
        s.saw_hello,
        s.direction == Direction::Pull,
    ensures
        ({
            let e = step(s, MessageView::PageHash { page_no, hash });
            let sends = s.pages.contains_key(page_no) && hash != s.pages[page_no].hash;
            &&& e.fault is None
            &&& !sends ==> e.frames.len() == 0 && e.next.pages_transferred == s.pages_transferred
                && e.next.bytes_transferred == s.bytes_transferred
            &&& sends ==> {
                let data = s.pages[page_no].data;
                &&& e.frames == seq![MessageView::PageData { page_no, data }]
                &&& s.pages_transferred < u64::MAX ==> e.next.pages_transferred
                    == s.pages_transferred + 1
                &&& s.bytes_transferred + data.len() <= u64::MAX ==> e.next.bytes_transferred
                    == s.bytes_transferred + data.len()
            }
            &&& forall|n: u32| #[trigger]
                e.next.client_seen.contains(n) <==> n == page_no || s.client_seen.contains(n)
            &&& e.next == (FsmView {
                client_seen: e.next.client_seen,
                pages_transferred: e.next.pages_transferred,
                bytes_transferred: e.next.bytes_transferred,
                ..s
            })
        }),
{
}

/// A page of a push is stored under its number with its digest, is awaited no
/// more, and is counted; every other page stays. The report is sent with it
/// exactly where none was, the hashes are over and nothing is awaited any
/// more.
pub proof fn law_socket_push_stores(s: FsmView, page_no: u32, data: Seq<u8>)
    requires
        s.saw_hello,
        s.direction == Direction::Push,
    ensures
        ({
            let e = step(s, MessageView::PageData { page_no, data });
            let t = e.next;
            let over = !s.emitted_complete && s.completed_hash_phase && forall|n: u32| #[trigger]
                s.pending.contains(n) ==> n == page_no;
            &&& e.fault is None
            &&& t.pages.contains_key(page_no)
            &&& t.pages[page_no].data == data
            &&& t.pages[page_no].hash == blake3_digest(data)
            &&& forall|n: u32| #[trigger]
                t.pages.contains_key(n) <==> n == page_no || s.pages.contains_key(n)
            &&& forall|n: u32| n != page_no && s.pages.contains_key(n) ==> #[trigger] t.pages[n]
                == s.pages[n]
            &&& forall|n: u32| #[trigger]
                t.pending.contains(n) <==> n != page_no && s.pending.contains(n)
            &&& s.pages_transferred < u64::MAX ==> t.pages_transferred == s.pages_transferred + 1
            &&& s.bytes_transferred + data.len() <= u64::MAX ==> t.bytes_transferred
                == s.bytes_transferred + data.len()
            &&& over ==> e.frames == seq![
                MessageView::SyncComplete {
                    pages_transferred: t.pages_transferred,
                    bytes_transferred: t.bytes_transferred,
                },
            ]
            &&& !over ==> e.frames.len() == 0
            &&& t.emitted_complete == (s.emitted_complete || over)
            &&& t.direction == s.direction && t.saw_hello && t.completed_hash_phase
                == s.completed_hash_phase && t.client_seen == s.client_seen && t.server_max_page
                == s.server_max_page
        }),
{
    let pending = s.pending.remove(page_no);
    if forall|n: u32| #[trigger] s.pending.contains(n) ==> n == page_no {
        assert(pending =~= Set::empty());
    } else {
        let n = choose|n: u32| #[trigger] s.pending.contains(n) && n != page_no;
        assert(pending.contains(n));
    }
}

/// Pages of a push in one message are as good as one message each, in their
/// order.
pub proof fn law_socket_batch_is_each(s: FsmView, pages: Seq<(u32, Seq<u8>)>, page: (u32, Seq<u8>))
    requires
        s.saw_hello,
        s.direction == Direction::Push,
    ensures
        step(s, MessageView::PageDataBatch { pages: Seq::empty() }) == (Effect {
            next: s,
            frames: Seq::empty(),
            fault: None,
        }),
        ({
            let b = step(s, MessageView::PageDataBatch { pages });
            let l = step(b.next, MessageView::PageData { page_no: page.0, data: page.1 });
            let e = step(s, MessageView::PageDataBatch { pages: pages.push(page) });
            &&& b.fault is None
            &&& b.next.saw_hello
            &&& b.next.direction == Direction::Push
            &&& e.next == l.next
            &&& e.frames == b.frames + l.frames
            &&& e.fault is None
        }),
    decreases pages.len(),
{
    assert(pages.push(page).drop_last() =~= pages);
    if pages.len() > 0 {
        law_socket_batch_is_each(s, pages.drop_last(), pages.last());
        assert(pages.drop_last().push(pages.last()) =~= pages);
    }
}

/// A run of hashes is answered exactly where the digest over the stored ones
/// differs from the client's: with every number of the run, in order.
pub proof fn law_socket_batch_mismatch(s: FsmView, from: u32, to: u32, combined: Seq<u8>)
    requires
        s.saw_hello,
    ensures
        ({
            let e = step(
                s,
                MessageView::PageHashBatch {
                    start_page: from,
                    end_page: to,
                    combined_hash: combined,
                },
            );
            let own = blake3_digest(hashes_in_range(s.pages, from as int, to as int));
            &&& e.fault is None
            &&& e.next == s
            &&& own == combined ==> e.frames.len() == 0
            &&& own != combined ==> e.frames.len() == 1 && (
            e.frames[0] matches MessageView::HashMismatchBatch { page_numbers } && {
                &&& forall|n: u32| #[trigger] page_numbers.contains(n) <==> from <= n <= to
                &&& forall|i: int| 0 <= i < page_numbers.len() ==> #[trigger] page_numbers[i] == from
                    + i
            })
        }),
{
    let e = step(
        s,
        MessageView::PageHashBatch { start_page: from, end_page: to, combined_hash: combined },
    );
    let own = blake3_digest(hashes_in_range(s.pages, from as int, to as int));
    if own != combined {
        let page_numbers = e.frames[0]->HashMismatchBatch_page_numbers;
        assert forall|n: u32| #[trigger] page_numbers.contains(n) <==> from <= n <= to by {
            if from <= n <= to {
                assert(page_numbers[n - from] == n);
            }
        }
    }
}

/// The end of the hashes of a push is answered with the report exactly where
/// none was and nothing is awaited.
pub proof fn law_socket_push_complete(s: FsmView)
    requires
        s.saw_hello,
        s.direction == Direction::Push,
    ensures
        ({
            let e = step(s, MessageView::Complete);
            let over = !s.emitted_complete && forall|n: u32| !#[trigger] s.pending.contains(n);
            &&& e.fault is None
            &&& over ==> e.frames == seq![
                MessageView::SyncComplete {
                    pages_transferred: s.pages_transferred,
                    bytes_transferred: s.bytes_transferred,
                },
            ]
            &&& !over ==> e.frames.len() == 0
            &&& e.next == (FsmView {
                completed_hash_phase: true,
                emitted_complete: s.emitted_complete || over,
                ..s
            })
        }),
{
    let s1 = FsmView { completed_hash_phase: true, ..s };
    assert(owed(s1) =~= Seq::<(u32, Seq<u8>)>::empty());
    assert(served(s1, owed(s1)) == s1);
    assert(page_frames(owed(s1)) =~= Seq::<MessageView>::empty());
    let e = step(s, MessageView::Complete);
    assert(e.frames =~= gate(s1).frames);
    if forall|n: u32| !#[trigger] s.pending.contains(n) {
        assert(s.pending =~= Set::empty());
    }
}

/// Whether a message is one that only the server sends.
pub open spec fn from_server(m: MessageView) -> bool {
    m is HelloReply || m is RequestPage || m is RequestPages || m is HashMismatchBatch || m
        is SyncComplete || m is Error
}

/// What is refused, and with which words: any but a greeting before the
/// handshake, a second greeting after it, what only the server sends, and page
/// bytes on a pull. A refused message does nothing.
pub proof fn law_socket_refusals(s: FsmView, m: MessageView)
    ensures
        !s.saw_hello && !(m is Hello) ==> step(s, m).fault == Some("first message must be Hello"@),
        s.saw_hello && m is Hello ==> step(s, m).fault == Some("Hello may only be sent once"@),
        s.saw_hello && from_server(m) ==> step(s, m).fault == Some(
            "client may not send server-originated message"@,
        ),
        s.saw_hello && s.direction == Direction::Pull && (m is PageData || m is PageDataBatch)
            ==> step(s, m).fault == Some("page bytes may only be sent on a push"@),
        s.saw_hello && (m is PageHash || m is PageHashBatch || m is Complete) ==> step(s, m).fault
            is None,
        s.saw_hello && s.direction == Direction::Push && (m is PageData || m is PageDataBatch)
            ==> step(s, m).fault is None,
        step(s, m).fault is Some ==> step(s, m).next == s && step(s, m).frames.len() == 0,
{
}

/// A client that hangs up finishes the sync exactly where the handshake and
/// the hashes are over and nothing is awaited; nothing else changes.
pub proof fn law_socket_hang_up(s: FsmView)
    ensures
        ({
            let t = closed_by_client(s);
            &&& t == (FsmView { emitted_complete: t.emitted_complete, ..s })
            &&& t.emitted_complete <==> s.emitted_complete || (s.saw_hello && s.completed_hash_phase
                && forall|n: u32| !#[trigger] s.pending.contains(n))
        }),
{
    if forall|n: u32| !#[trigger] s.pending.contains(n) {
        assert(s.pending =~= Set::empty());
    }
}

/// A session begins before its handshake, with nothing awaited, nothing
/// counted and nothing reported, in the direction and over the pages that it
/// is given.
pub proof fn law_socket_begins(direction: Direction, pages: Map<u32, PageView>)
    ensures
        ({
            let s = fresh_session(direction, pages);
            &&& s.direction == direction
            &&& s.pages == pages
            &&& !s.saw_hello && !s.completed_hash_phase && !s.emitted_complete
            &&& s.pages_transferred == 0 && s.bytes_transferred == 0
            &&& forall|n: u32| !#[trigger] s.pending.contains(n)
            &&& forall|n: u32| !#[trigger] s.client_seen.contains(n)
        }),
{
}

// ---------- failures ----------

/// Whether a page of one state is that of another, or one of the given pages
/// with its own digest.
spec fn comes_from(
    before: Map<u32, PageView>,
    after: Map<u32, PageView>,
    given: Seq<(u32, Seq<u8>)>,
    n: u32,
) -> bool {
    ||| after.contains_key(n) == before.contains_key(n) && (after.contains_key(n) ==> after[n]
        == before[n])
    ||| {
        &&& after.contains_key(n)
        &&& after[n].hash == blake3_digest(after[n].data)
        &&& given.contains((n, after[n].data))
    }
}

proof fn lemma_batch_comes_from(s: FsmView, pages: Seq<(u32, Seq<u8>)>, i: int, n: u32)
    requires
        0 <= i <= pages.len(),
    ensures
        comes_from(s.pages, on_data_batch(s, pages.take(i)).next.pages, pages, n),
    decreases i,
{
    if i > 0 {
        lemma_batch_comes_from(s, pages, i - 1, n);
        assert(pages.take(i).drop_last() =~= pages.take(i - 1));
        assert(pages.contains(pages[i - 1]));
    }
}

proof fn lemma_held_comes_from(s: FsmView, pages: Seq<(u32, Seq<u8>)>, i: int, n: u32)
    requires
        0 <= i <= pages.len(),
    ensures
        comes_from(s.pages, held_in_batch(s, pages.take(i)).pages, pages, n),
    decreases i,
{
    if i > 0 {
        lemma_held_comes_from(s, pages, i - 1, n);
        lemma_batch_comes_from(s, pages, i - 1, n);
        assert(pages.take(i).drop_last() =~= pages.take(i - 1));
        assert(pages.contains(pages[i - 1]));
    }
}

/// The pages that a message brings.
pub open spec fn brought(m: MessageView) -> Seq<(u32, Seq<u8>)> {
    match m {
        MessageView::PageData { page_no, data } => seq![(page_no, data)],
        MessageView::PageDataBatch { pages } => pages,
        _ => Seq::empty(),
    }
}

proof fn lemma_served_pages(s: FsmView, list: Seq<(u32, Seq<u8>)>)
    ensures
        served(s, list).pages == s.pages,
    decreases list.len(),
{
    if list.len() > 0 {
        lemma_served_pages(s, list.drop_last());
    }
}

/// Wherever a message ends, on its own or because the storage or the socket
/// failed, a stored page is as it was or is one that the message brought, with
/// its own digest: no page is ever half written.
pub proof fn law_no_page_is_torn(
    s: FsmView,
    m: MessageView,
    before: Trace,
    next: FsmView,
    after: Trace,
    r: Result<(), String>,
    faults: Set<StoreErrorView>,
    reliable: bool,
    willing: bool,
    n: u32,
)
    requires
        carried_out(s, m, before, next, after, r, faults, reliable, willing),
    ensures
        ({
            ||| next.pages.contains_key(n) == s.pages.contains_key(n) && (next.pages.contains_key(n)
                ==> next.pages[n] == s.pages[n])
            ||| {
                &&& next.pages.contains_key(n)
                &&& next.pages[n].hash == blake3_digest(next.pages[n].data)
                &&& brought(m).contains((n, next.pages[n].data))
            }
        }),
{
    let s1 = FsmView { completed_hash_phase: true, ..s };
    match m {
        MessageView::PageData { page_no, data } => {
            assert(seq![(page_no, data)][0] == (page_no, data));
            assert(brought(m).contains((page_no, data)));
        },
        MessageView::PageDataBatch { pages } => {
            assert(pages.take(pages.len() as int) =~= pages);
            lemma_batch_comes_from(s, pages, pages.len() as int, n);
            lemma_held_comes_from(s, pages, pages.len() as int, n);
            assert forall|i: int| 0 <= i < pages.len() implies comes_from(
                s.pages,
                (#[trigger] on_data_batch(s, pages.take(i))).next.pages,
                pages,
                n,
            ) by {
                lemma_batch_comes_from(s, pages, i, n);
            }
        },
        MessageView::Complete => {
            assert forall|list: Seq<(u32, Seq<u8>)>| (#[trigger] served(s1, list)).pages
                == s.pages by {
                lemma_served_pages(s1, list);
            }
        },
        _ => {},
    }
}

/// A message ends with an error exactly where it is refused or something
/// failed; where neither the storage nor the socket fails, it is carried out
/// or refused, and what it sends is sent.
pub proof fn law_reliable_message(
    s: FsmView,
    m: MessageView,
    before: Trace,
    next: FsmView,
    after: Trace,
    r: Result<(), String>,
    faults: Set<StoreErrorView>,
)
    requires
        carried_out(s, m, before, next, after, r, faults, true, true),
    ensures
        r is Ok <==> step(s, m).fault is None,
        r matches Err(e) ==> step(s, m).fault == Some(e@) && next == s,
        next == step(s, m).next,
        after.sent == before.sent + step(s, m).frames,
        after.refusals == before.refusals,
{
    if step(s, m).fault is Some {
        assert(before.sent + step(s, m).frames =~= before.sent);
    }
}

/// What was sent stays sent: a message only adds frames, and they are the
/// first of those that it leads to.
pub proof fn law_frames_are_only_added(
    s: FsmView,
    m: MessageView,
    before: Trace,
    next: FsmView,
    after: Trace,
    r: Result<(), String>,
    faults: Set<StoreErrorView>,
    reliable: bool,
    willing: bool,
)
    requires
        carried_out(s, m, before, next, after, r, faults, reliable, willing),
    ensures
        after.sent.len() >= before.sent.len(),
        forall|i: int| 0 <= i < before.sent.len() ==> #[trigger] after.sent[i] == before.sent[i],
        after.sent.len() - before.sent.len() <= step(s, m).frames.len(),
        forall|i: int|
            before.sent.len() <= i < after.sent.len() ==> #[trigger] after.sent[i] == step(
                s,
                m,
            ).frames[i - before.sent.len()],
        r is Ok ==> after.sent.len() == before.sent.len() + step(s, m).frames.len(),
{
}

/// The time of a page is the last at which it was stored, and the times of
/// other pages stay.
pub proof fn law_times(before: Map<u32, i64>, list: Seq<(u32, Seq<u8>)>, times: Seq<i64>, n: u32)
    requires
        list.len() == times.len(),
    ensures
        ({
            let after = timed(before, list, times);
            &&& forall|i: int|
                0 <= i < list.len() && (#[trigger] list[i]).0 == n && (forall|j: int|
                    i < j < list.len() ==> (#[trigger] list[j]).0 != n) ==> after.contains_key(n)
                    && after[n] == times[i]
            &&& (forall|i: int| 0 <= i < list.len() ==> (#[trigger] list[i]).0 != n) ==> (
            after.contains_key(n) <==> before.contains_key(n)) && (before.contains_key(n)
                ==> after[n] == before[n])
        }),
    decreases list.len(),
{
    if list.len() > 0 {
        let part = list.drop_last();
        law_times(before, part, times.drop_last(), n);
        let after = timed(before, list, times);
        let was = timed(before, part, times.drop_last());
        assert forall|i: int|
            0 <= i < list.len() && (#[trigger] list[i]).0 == n && (forall|j: int|
                i < j < list.len() ==> (#[trigger] list[j]).0 != n) implies after.contains_key(n)
            && after[n] == times[i] by {
            let last = list.len() - 1;
            if i < last {
                assert(list[last].0 != n);
                assert(part[i].0 == n);
                assert forall|j: int| i < j < part.len() implies (#[trigger] part[j]).0 != n by {
                    assert(list[j].0 != n);
                }
            }
        }
        if forall|i: int| 0 <= i < list.len() ==> (#[trigger] list[i]).0 != n {
            assert forall|i: int| 0 <= i < part.len() implies (#[trigger] part[i]).0 != n by {
                assert(list[i].0 != n);
            }
            assert(list[list.len() - 1].0 != n);
        }
    }
}

/// The pages that a message stores are those that it brings on a push past its
/// handshake; any other message stores none.
pub proof fn law_written_pages(s: FsmView, m: MessageView, page_no: u32, data: Seq<u8>)
    ensures
        written(s, m).contains((page_no, data)) ==> s.saw_hello && s.direction == Direction::Push,
        s.saw_hello && s.direction == Direction::Push ==> written(
            s,
            MessageView::PageData { page_no, data },
        ) == seq![(page_no, data)],
        s.saw_hello && s.direction == Direction::Push && m is PageDataBatch ==> written(s, m)
            == m->pages,
        !(m is PageData) && !(m is PageDataBatch) ==> written(s, m).len() == 0,
{
}

/// Where the storage fails under a message, its error is told and the session
/// is left where it stood: the greeting has still been seen, a page that the
/// client announced is known to it, a page that came is awaited no more, and
/// of the pages that the end of the hashes owes those that were sent are
/// counted.
pub proof fn law_socket_failed_message(
    s: FsmView,
    m: MessageView,
    before: Trace,
    next: FsmView,
    after: Trace,
    r: Result<(), String>,
    faults: Set<StoreErrorView>,
    k: int,
)
    requires
        broken_off(s, m, before, next, after, r, faults, k),
    ensures
        r matches Err(t) && exists|f: StoreErrorView| #[trigger]
            faults.contains(f) && t@ == f.text(),
        after.refusals == before.refusals,
        m is Hello ==> next == (FsmView { saw_hello: true, ..s }) && after.sent == before.sent,
        m matches MessageView::PageHash { page_no, .. } ==> {
            &&& forall|n: u32| #[trigger]
                next.client_seen.contains(n) <==> n == page_no || s.client_seen.contains(n)
            &&& next == (FsmView { client_seen: next.client_seen, ..s })
            &&& after.sent == before.sent
        },
        m is PageHashBatch ==> next == s && after.sent == before.sent,
        m matches MessageView::PageData { page_no, .. } ==> {
            &&& forall|n: u32| #[trigger]
                next.pending.contains(n) <==> n != page_no && s.pending.contains(n)
            &&& next == (FsmView { pending: next.pending, ..s })
            &&& after.sent == before.sent
        },
        m is Complete ==> {
            &&& next.completed_hash_phase
            &&& next.pages == s.pages
            &&& next.pending == s.pending
            &&& next.emitted_complete == s.emitted_complete
            &&& s.pages_transferred + k <= u64::MAX ==> next.pages_transferred
                == s.pages_transferred + k
        },
{
    let e = step(s, m);
    if k == 0 {
        assert(before.sent + e.frames.take(0) =~= before.sent);
    }
    if m is Complete {
        let s1 = FsmView { completed_hash_phase: true, ..s };
        lemma_served_counts(s1, owed(s1).take(k));
    }
}

proof fn lemma_served_counts(s: FsmView, list: Seq<(u32, Seq<u8>)>)
    ensures
        ({
            let t = served(s, list);
            &&& t.pages == s.pages
            &&& t.pending == s.pending
            &&& t.emitted_complete == s.emitted_complete
            &&& t.completed_hash_phase == s.completed_hash_phase
            &&& s.pages_transferred + list.len() <= u64::MAX ==> t.pages_transferred
                == s.pages_transferred + list.len()
        }),
    decreases list.len(),
{
    if list.len() > 0 {
        lemma_served_counts(s, list.drop_last());
    }
}

/// Where the socket refuses a frame, nothing is sent behind it, its error is
/// handed on, and the report counts as sent only once it was taken: a page
/// that came is stored all the same.
pub proof fn law_socket_refused_frame(
    s: FsmView,
    m: MessageView,
    before: Trace,
    next: FsmView,
    after: Trace,
    r: Result<(), String>,
    k: int,
)
    requires
        cut_off(s, m, before, next, after, r, k),
    ensures
        r is Err,
        after.sent.len() == before.sent.len() + k,
        after.refusals.len() == before.refusals.len() + 1,
        after.refusals.last().frame == step(s, m).frames[k],
        after.refusals.last().why == r->Err_0@,
        after.refusals.last().taken == after.sent.len(),
        m matches MessageView::PageData { page_no, data } ==> {
            &&& next.pages.contains_key(page_no)
            &&& next.pages[page_no].data == data
            &&& next.pages[page_no].hash == blake3_digest(data)
            &&& !next.pending.contains(page_no)
            &&& next.emitted_complete == s.emitted_complete
        },
        m is Hello || m is PageHash || m is PageHashBatch ==> next == step(s, m).next,
        m is Complete ==> next.emitted_complete == s.emitted_complete && next.pages == s.pages
            && next.completed_hash_phase,
{
    if m is Complete {
        let s1 = FsmView { completed_hash_phase: true, ..s };
        lemma_served_counts(s1, owed(s1));
        lemma_served_counts(s1, owed(s1).take(k + 1));
    }
}

/// Once pages were stored, each bears a time that the clock shows, and a page
/// that was not stored bears the time that it bore before.
pub proof fn law_times_are_the_clocks<C: Clock>(
    clock: C,
    list: Seq<(u32, Seq<u8>)>,
    before: Map<u32, i64>,
    after: Map<u32, i64>,
    n: u32,
)
    requires
        times_kept(clock, list, before, after, true),
    ensures
        (exists|i: int| 0 <= i < list.len() && (#[trigger] list[i]).0 == n) ==> after.contains_key(n)
            && clock.shows(after[n]),
        (forall|i: int| 0 <= i < list.len() ==> (#[trigger] list[i]).0 != n) ==> (
        after.contains_key(n) <==> before.contains_key(n)) && (before.contains_key(n) ==> after[n]
            == before[n]),
{
    let times = choose|times: Seq<i64>|
        {
            &&& times.len() <= list.len()
            &&& true ==> times.len() == list.len()
            &&& forall|i: int| 0 <= i < times.len() ==> clock.shows(#[trigger] times[i])
            &&& after == #[trigger] timed(before, list.take(times.len() as int), times)
        };
    assert(list.take(list.len() as int) =~= list);
    law_times(before, list, times, n);
    if exists|i: int| 0 <= i < list.len() && (#[trigger] list[i]).0 == n {
        let i = lemma_last_of(list, n);
        assert(clock.shows(times[i]));
    }
}

proof fn lemma_last_of(list: Seq<(u32, Seq<u8>)>, n: u32) -> (i: int)
    requires
        exists|i: int| 0 <= i < list.len() && (#[trigger] list[i]).0 == n,
    ensures
        0 <= i < list.len(),
        list[i].0 == n,
        forall|j: int| i < j < list.len() ==> (#[trigger] list[j]).0 != n,
    decreases list.len(),
{
    let last = list.len() - 1;
    if list[last].0 == n {
        last
    } else {
        let k = choose|k: int| 0 <= k < list.len() && (#[trigger] list[k]).0 == n;
        let part = list.drop_last();
        assert(part[k].0 == n);
        let i = lemma_last_of(part, n);
        assert forall|j: int| i < j < list.len() implies (#[trigger] list[j]).0 != n by {
            if j < last {
                assert(part[j].0 != n);
            }
        }
        i
    }
}

/// The first stored page of a range is stored in it with those bytes, and no
/// stored page of the range comes before it; there is none exactly where no
/// page of the range is stored.
pub proof fn law_first_page(
    pages: Map<u32, PageView>,
    from: u32,
    to: u32,
    found: Option<(u32, Seq<u8>)>,
    n: u32,
)
    requires
        is_first_page(pages, from, to, found),
    ensures
        found matches Some((k, data)) ==> from <= k <= to && pages.contains_key(k) && data
            == pages[k].data,
        from <= n <= to && pages.contains_key(n) ==> (found matches Some((k, _)) && k <= n),
{
}

} // verus!
