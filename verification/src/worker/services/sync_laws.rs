//! What holds of whole sync sessions.

use vstd::prelude::*;

use super::sync_fsm::{
    closed_by_client, completions, fresh_session, gate, goes, lemma_completions_concat,
    on_data_batch, on_page_data, on_page_hash, owed, page_frames, served, step, stored, unclaimed,
    written, Effect, FsmView,
};
use super::sync_storage::PageView;
use crate::shared::domain::enums::Direction;
use crate::shared::sync_protocol::{blake3_digest, MessageView};

verus! {

/// A conversation: the state after messages, and every frame sent on the way.
/// It ends at the first message that is refused.
pub open spec fn conversation(s: FsmView, msgs: Seq<MessageView>) -> Effect
    decreases msgs.len(),
{
    if msgs.len() == 0 {
        goes(s, Seq::empty())
    } else {
        let before = conversation(s, msgs.drop_last());
        if before.fault is Some {
            before
        } else {
            let last = step(before.next, msgs.last());
            Effect {
                next: last.next,
                frames: before.frames + last.frames,
                fault: last.fault,
            }
        }
    }
}

/// What the flag and the frames of one effect say of completion agree.
pub(crate) open spec fn consistent(s: FsmView, e: Effect) -> bool {
    &&& s.emitted_complete ==> e.next.emitted_complete
    &&& completions(e.frames) == if e.next.emitted_complete && !s.emitted_complete {
        1nat
    } else {
        0nat
    }
}

pub(crate) proof fn lemma_one_frame(m: MessageView)
    ensures
        completions(seq![m]) == if m is SyncComplete {
            1nat
        } else {
            0nat
        },
        completions(Seq::<MessageView>::empty()) == 0,
{
    reveal_with_fuel(completions, 2);
    assert(seq![m].drop_last() =~= Seq::<MessageView>::empty());
}

pub(crate) proof fn lemma_gate_consistent(s: FsmView)
    ensures
        consistent(s, gate(s)),
{
    lemma_one_frame(
        MessageView::SyncComplete {
            pages_transferred: s.pages_transferred,
            bytes_transferred: s.bytes_transferred,
        },
    );
}

proof fn lemma_batch_consistent(s: FsmView, entries: Seq<(u32, Seq<u8>)>)
    ensures
        consistent(s, on_data_batch(s, entries)),
    decreases entries.len(),
{
    if entries.len() > 0 {
        lemma_batch_consistent(s, entries.drop_last());
        let before = on_data_batch(s, entries.drop_last());
        let t = stored(before.next, entries.last().0, entries.last().1);
        lemma_gate_consistent(t);
        lemma_completions_concat(before.frames, gate(t).frames);
    }
}

proof fn lemma_pages_silent(s: FsmView, list: Seq<(u32, Seq<u8>)>)
    ensures
        completions(page_frames(list)) == 0,
        served(s, list).emitted_complete == s.emitted_complete,
        served(s, list).pages == s.pages,
        served(s, list).pending == s.pending,
        served(s, list).completed_hash_phase == s.completed_hash_phase,
        served(s, list).saw_hello == s.saw_hello,
        served(s, list).direction == s.direction,
    decreases list.len(),
{
    if list.len() > 0 {
        lemma_pages_silent(s, list.drop_last());
        assert(page_frames(list).drop_last() =~= page_frames(list.drop_last()));
    }
}

proof fn lemma_step_consistent(s: FsmView, m: MessageView)
    ensures
        consistent(s, step(s, m)),
{
    let e = step(s, m);
    lemma_one_frame(m);
    if e.frames.len() == 1 {
        lemma_one_frame(e.frames[0]);
        assert(e.frames =~= seq![e.frames[0]]);
    }
    if e.frames.len() == 0 {
        assert(e.frames =~= Seq::<MessageView>::empty());
    }
    if s.saw_hello {
        match m {
            MessageView::PageData { page_no, data } => {
                lemma_gate_consistent(stored(s, page_no, data));
            },
            MessageView::PageDataBatch { pages } => {
                lemma_batch_consistent(s, pages);
            },
            MessageView::Complete => {
                let s1 = FsmView { completed_hash_phase: true, ..s };
                let t = served(s1, owed(s1));
                lemma_pages_silent(s1, owed(s1));
                lemma_gate_consistent(t);
                lemma_completions_concat(page_frames(owed(s1)), gate(t).frames);
            },
            _ => {},
        }
    }
}

proof fn lemma_conversation_consistent(s: FsmView, msgs: Seq<MessageView>)
    ensures
        consistent(s, conversation(s, msgs)),
    decreases msgs.len(),
{
    if msgs.len() == 0 {
        lemma_one_frame(MessageView::Complete);
    } else {
        lemma_conversation_consistent(s, msgs.drop_last());
        let before = conversation(s, msgs.drop_last());
        if before.fault is None {
            lemma_step_consistent(before.next, msgs.last());
            lemma_completions_concat(before.frames, step(before.next, msgs.last()).frames);
        }
    }
}

/// `SyncComplete` is sent at most once in a session, whatever the client
/// sends, and has been sent exactly where the machine says it is done.
pub proof fn law_sync_complete_at_most_once(
    direction: Direction,
    pages: Map<u32, PageView>,
    msgs: Seq<MessageView>,
)
    ensures
        ({
            let e = conversation(fresh_session(direction, pages), msgs);
            &&& completions(e.frames) <= 1
            &&& completions(e.frames) == 1 <==> e.next.emitted_complete
        }),
{
    lemma_conversation_consistent(fresh_session(direction, pages), msgs);
}

proof fn lemma_batch_done(s: FsmView, entries: Seq<(u32, Seq<u8>)>)
    ensures
        ({
            let e = on_data_batch(s, entries);
            &&& e.next.emitted_complete && !s.emitted_complete ==> s.completed_hash_phase
            &&& e.next.completed_hash_phase == s.completed_hash_phase
            &&& e.next.saw_hello == s.saw_hello
        }),
    decreases entries.len(),
{
    if entries.len() > 0 {
        lemma_batch_done(s, entries.drop_last());
    }
}

/// A session is done only once the client has ended its hash phase: hanging
/// up before that never makes an unfinished sync look successful.
pub proof fn law_done_only_after_complete(
    direction: Direction,
    pages: Map<u32, PageView>,
    msgs: Seq<MessageView>,
)
    ensures
        ({
            let s = conversation(fresh_session(direction, pages), msgs).next;
            &&& s.emitted_complete ==> s.completed_hash_phase
            &&& closed_by_client(s).emitted_complete ==> s.completed_hash_phase
        }),
    decreases msgs.len(),
{
    if msgs.len() > 0 {
        law_done_only_after_complete(direction, pages, msgs.drop_last());
        let s = conversation(fresh_session(direction, pages), msgs.drop_last()).next;
        if let MessageView::PageDataBatch { pages: entries } = msgs.last() {
            lemma_batch_done(s, entries);
        }
        let s1 = FsmView { completed_hash_phase: true, ..s };
        lemma_pages_silent(s1, owed(s1));
    }
}

/// The report is sent at the moment when nothing is awaited any more, with the
/// totals of that moment.
pub proof fn law_report_is_exact(s: FsmView, page_no: u32, data: Seq<u8>)
    requires
        s.saw_hello,
        s.direction == Direction::Push,
    ensures
        ({
            let e = step(s, MessageView::PageData { page_no, data });
            forall|p: u64, b: u64|
                e.frames.contains(
                    MessageView::SyncComplete { pages_transferred: p, bytes_transferred: b },
                ) ==> e.next.pending.is_empty() && p == e.next.pages_transferred && b
                    == e.next.bytes_transferred
        }),
{
}

/// Nothing but page bytes from the client changes a stored page, and they
/// change that page alone.
pub proof fn law_only_page_data_writes(s: FsmView, m: MessageView, n: u32)
    requires
        match m {
            MessageView::PageData { page_no, .. } => page_no != n,
            MessageView::PageDataBatch { pages } => forall|i: int|
                0 <= i < pages.len() ==> (#[trigger] pages[i]).0 != n,
            _ => true,
        },
    ensures
        step(s, m).next.pages.contains_key(n) == s.pages.contains_key(n),
        s.pages.contains_key(n) ==> step(s, m).next.pages[n] == s.pages[n],
{
    if let MessageView::PageDataBatch { pages } = m {
        lemma_batch_frame(s, pages, n);
    }
    let s1 = FsmView { completed_hash_phase: true, ..s };
    lemma_pages_silent(s1, owed(s1));
}

proof fn lemma_batch_frame(s: FsmView, entries: Seq<(u32, Seq<u8>)>, n: u32)
    requires
        forall|i: int| 0 <= i < entries.len() ==> (#[trigger] entries[i]).0 != n,
    ensures
        on_data_batch(s, entries).next.pages.contains_key(n) == s.pages.contains_key(n),
        s.pages.contains_key(n) ==> on_data_batch(s, entries).next.pages[n] == s.pages[n],
    decreases entries.len(),
{
    if entries.len() > 0 {
        let before = entries.drop_last();
        assert forall|i: int| 0 <= i < before.len() implies (#[trigger] before[i]).0 != n by {
            assert(before[i] == entries[i]);
        }
        lemma_batch_frame(s, before, n);
        assert(entries.last() == entries[entries.len() - 1]);
    }
}

/// Page bytes are taken on a push alone: a pull refuses them, and no message of
/// a pull changes a stored page.
pub proof fn law_pull_writes_nothing(s: FsmView, m: MessageView)
    requires
        s.direction == Direction::Pull,
    ensures
        step(s, m).next.pages == s.pages,
        step(s, m).next.direction == Direction::Pull,
        written(s, m).len() == 0,
        m is PageData || m is PageDataBatch ==> {
            let e = step(s, m);
            e.fault is Some && e.frames.len() == 0 && e.next == s
        },
{
    let s1 = FsmView { completed_hash_phase: true, ..s };
    lemma_pages_silent(s1, owed(s1));
}

/// A push of one page: the client announces its hash, and sends the page where
/// the server asks for it.
pub open spec fn push_page(s: FsmView, page_no: u32, data: Seq<u8>) -> FsmView {
    let announced = on_page_hash(s, page_no, blake3_digest(data));
    if announced.frames.contains(MessageView::RequestPage { page_no }) {
        on_page_data(announced.next, page_no, data).next
    } else {
        announced.next
    }
}

/// A push of pages, one after the other.
pub open spec fn push_pages(s: FsmView, local: Seq<(u32, Seq<u8>)>) -> FsmView
    decreases local.len(),
{
    if local.len() == 0 {
        s
    } else {
        push_page(push_pages(s, local.drop_last()), local.last().0, local.last().1)
    }
}

proof fn lemma_push_page(s: FsmView, page_no: u32, data: Seq<u8>)
    requires
        s.direction == Direction::Push,
    ensures
        ({
            let t = push_page(s, page_no, data);
            &&& t.direction == Direction::Push
            &&& t.pages.contains_key(page_no)
            &&& t.pages[page_no].hash == blake3_digest(data)
            &&& forall|n: u32|
                n != page_no ==> t.pages.contains_key(n) == s.pages.contains_key(n)
                    && #[trigger] t.pages[n] == s.pages[n]
            &&& s.pending.is_empty() ==> t.pending.is_empty()
        }),
{
    let e = on_page_hash(s, page_no, blake3_digest(data));
    let ask = MessageView::RequestPage { page_no };
    if s.pages.contains_key(page_no) && s.pages[page_no].hash == blake3_digest(data) {
        assert(!e.frames.contains(ask));
    } else {
        assert(e.frames[0] == ask);
        assert(e.frames.contains(ask));
        let t = push_page(s, page_no, data);
        assert(t.pending =~= s.pending.insert(page_no).remove(page_no));
        if s.pending.is_empty() {
            assert(t.pending =~= Set::<u32>::empty());
        }
    }
}

/// After a push, the server holds for every page of the client the hash of the
/// client's bytes, and awaits nothing.
pub proof fn law_push_converges(s: FsmView, local: Seq<(u32, Seq<u8>)>)
    requires
        s.direction == Direction::Push,
        s.pending.is_empty(),
        forall|i: int, j: int| 0 <= i < j < local.len() ==> (#[trigger] local[i]).0 != (
        #[trigger] local[j]).0,
    ensures
        ({
            let t = push_pages(s, local);
            &&& t.direction == Direction::Push
            &&& t.pending.is_empty()
            &&& forall|i: int|
                0 <= i < local.len() ==> t.pages.contains_key((#[trigger] local[i]).0)
                    && t.pages[local[i].0].hash == blake3_digest(local[i].1)
        }),
    decreases local.len(),
{
    if local.len() > 0 {
        let before = local.drop_last();
        assert forall|i: int, j: int| 0 <= i < j < before.len() implies (#[trigger] before[i]).0
            != (#[trigger] before[j]).0 by {
            assert(before[i] == local[i] && before[j] == local[j]);
        }
        law_push_converges(s, before);
        let mid = push_pages(s, before);
        lemma_push_page(mid, local.last().0, local.last().1);
        let t = push_pages(s, local);
        assert forall|i: int| 0 <= i < local.len() implies t.pages.contains_key(
            (#[trigger] local[i]).0,
        ) && t.pages[local[i].0].hash == blake3_digest(local[i].1) by {
            let last = local.len() - 1;
            if i < last {
                assert(before[i] == local[i]);
                assert(local[i].0 != local[last].0);
                assert(t.pages[local[i].0] == mid.pages[local[i].0]);
            }
        }
    }
}

/// On a push, a page's bytes are stored with their own hash.
pub proof fn law_page_data_is_stored(s: FsmView, page_no: u32, data: Seq<u8>)
    requires
        s.saw_hello,
        s.direction == Direction::Push,
    ensures
        ({
            let t = step(s, MessageView::PageData { page_no, data }).next;
            t.pages.contains_key(page_no) && t.pages[page_no] == (PageView {
                data,
                hash: blake3_digest(data),
            })
        }),
{
}

proof fn lemma_unclaimed_has(
    pages: Map<u32, PageView>,
    seen: Set<u32>,
    to: int,
    n: u32,
)
    requires
        0 <= to <= u32::MAX,
    ensures
        unclaimed(pages, seen, 1, to).contains((n, pages[n].data)) <==> (1 <= n <= to
            && pages.contains_key(n) && !seen.contains(n)),
    decreases to,
{
    let all = unclaimed(pages, seen, 1, to);
    let want = (n, pages[n].data);
    if to >= 1 {
        lemma_unclaimed_has(pages, seen, to - 1, n);
        let before = unclaimed(pages, seen, 1, to - 1);
        let k = to as u32;
        if pages.contains_key(k) && !seen.contains(k) {
            let added = (k, pages[k].data);
            assert(all == before.push(added));
            if before.contains(want) {
                let i = choose|i: int| 0 <= i < before.len() && before[i] == want;
                assert(all[i] == want);
            }
            if n == k {
                assert(all[before.len() as int] == want);
            }
            if all.contains(want) {
                let i = choose|i: int| 0 <= i < all.len() && all[i] == want;
                if i < before.len() {
                    assert(before[i] == want);
                }
            }
        }
    }
}

/// When a pull ends its hash phase, the server sends exactly the stored pages,
/// up to the last one at handshake time, that the client did not announce.
pub proof fn law_pull_sends_what_is_missing(s: FsmView, n: u32)
    requires
        s.saw_hello,
        s.direction == Direction::Pull,
    ensures
        step(s, MessageView::Complete).frames.contains(
            MessageView::PageData { page_no: n, data: s.pages[n].data },
        ) <==> (1 <= n <= s.server_max_page && s.pages.contains_key(n) && !s.client_seen.contains(
            n,
        )),
{
    let s1 = FsmView { completed_hash_phase: true, ..s };
    let list = owed(s1);
    let g = gate(served(s1, list));
    let frames = page_frames(list) + g.frames;
    assert(step(s, MessageView::Complete).frames == frames);
    let want = MessageView::PageData { page_no: n, data: s.pages[n].data };
    lemma_unclaimed_has(s.pages, s.client_seen, s.server_max_page as int, n);
    if s.server_max_page == 0 {
        assert(list =~= Seq::<(u32, Seq<u8>)>::empty());
    }
    if list.contains((n, s.pages[n].data)) {
        let i = choose|i: int| 0 <= i < list.len() && list[i] == (n, s.pages[n].data);
        assert(frames[i] == want);
    }
    if frames.contains(want) {
        let i = choose|i: int| 0 <= i < frames.len() && frames[i] == want;
        if i < list.len() {
            assert(list[i] == (n, s.pages[n].data));
        } else {
            assert(frames[i] == g.frames[i - list.len()]);
        }
    }
}

/// A pull of a page that the client announced: it is sent exactly where the
/// server holds other bytes for it.
pub proof fn law_pull_answers_mismatch(s: FsmView, page_no: u32, hash: Seq<u8>)
    requires
        s.saw_hello,
        s.direction == Direction::Pull,
    ensures
        ({
            let e = step(s, MessageView::PageHash { page_no, hash });
            if s.pages.contains_key(page_no) && s.pages[page_no].hash != hash {
                e.frames == seq![MessageView::PageData { page_no, data: s.pages[page_no].data }]
            } else {
                e.frames.len() == 0
            }
        }),
{
}

/// What a client announces of its pages.
pub open spec fn announcements(local: Seq<(u32, Seq<u8>)>) -> Seq<MessageView> {
    local.map_values(
        |p: (u32, Seq<u8>)| MessageView::PageHash { page_no: p.0, hash: blake3_digest(p.1) },
    )
}

proof fn lemma_announced(s: FsmView, local: Seq<(u32, Seq<u8>)>, n: u32)
    requires
        s.saw_hello,
        s.direction == Direction::Pull,
    ensures
        ({
            let e = conversation(s, announcements(local));
            &&& e.fault is None
            &&& e.next.saw_hello
            &&& e.next.direction == Direction::Pull
            &&& e.next.pages == s.pages
            &&& e.next.server_max_page == s.server_max_page
            &&& e.next.client_seen.contains(n) ==> s.client_seen.contains(n) || exists|i: int|
                0 <= i < local.len() && (#[trigger] local[i]).0 == n
            &&& forall|i: int|
                0 <= i < local.len() && (#[trigger] local[i]).0 == n && s.pages.contains_key(n)
                    && s.pages[n].hash != blake3_digest(local[i].1) ==> e.frames.contains(
                    MessageView::PageData { page_no: n, data: s.pages[n].data },
                )
        }),
    decreases local.len(),
{
    if local.len() > 0 {
        let before = local.drop_last();
        lemma_announced(s, before, n);
        assert(announcements(local).drop_last() =~= announcements(before));
        let b = conversation(s, announcements(before));
        let e = conversation(s, announcements(local));
        let last = step(b.next, announcements(local).last());
        assert(e.frames == b.frames + last.frames);
        let want = MessageView::PageData { page_no: n, data: s.pages[n].data };
        assert forall|i: int|
            0 <= i < local.len() && (#[trigger] local[i]).0 == n && s.pages.contains_key(n)
                && s.pages[n].hash != blake3_digest(local[i].1) implies e.frames.contains(want) by {
            if i < before.len() {
                assert(before[i] == local[i]);
                let k = choose|k: int| 0 <= k < b.frames.len() && b.frames[k] == want;
                assert(e.frames[k] == want);
            } else {
                assert(last.frames =~= seq![want]);
                assert(e.frames[b.frames.len() as int] == want);
            }
        }
        if e.next.client_seen.contains(n) && !s.client_seen.contains(n) {
            if exists|i: int| 0 <= i < before.len() && (#[trigger] before[i]).0 == n {
                let i = choose|i: int| 0 <= i < before.len() && (#[trigger] before[i]).0 == n;
                assert(local[i].0 == n);
            } else {
                assert(local[local.len() - 1].0 == n);
            }
        }
    }
}

/// After a pull, the client has every page of the server, up to the last one
/// at handshake time: it held bytes with the server's hash, or was sent the
/// server's bytes.
pub proof fn law_pull_converges(s: FsmView, local: Seq<(u32, Seq<u8>)>, n: u32)
    requires
        s.saw_hello,
        s.direction == Direction::Pull,
        s.client_seen.is_empty(),
        s.pages.contains_key(n),
        1 <= n <= s.server_max_page,
    ensures
        ({
            let e = conversation(s, announcements(local).push(MessageView::Complete));
            &&& e.fault is None
            &&& {
                ||| e.frames.contains(
                    MessageView::PageData { page_no: n, data: s.pages[n].data },
                )
                ||| exists|i: int|
                    0 <= i < local.len() && (#[trigger] local[i]).0 == n && blake3_digest(
                        local[i].1,
                    ) == s.pages[n].hash
            }
        }),
{
    lemma_announced(s, local, n);
    let msgs = announcements(local).push(MessageView::Complete);
    assert(msgs.drop_last() =~= announcements(local));
    let b = conversation(s, announcements(local));
    let e = conversation(s, msgs);
    let last = step(b.next, MessageView::Complete);
    assert(e.frames == b.frames + last.frames);
    let want = MessageView::PageData { page_no: n, data: s.pages[n].data };
    if b.next.client_seen.contains(n) {
        let i = choose|i: int| 0 <= i < local.len() && (#[trigger] local[i]).0 == n;
        if s.pages[n].hash != blake3_digest(local[i].1) {
            let k = choose|k: int| 0 <= k < b.frames.len() && b.frames[k] == want;
            assert(e.frames[k] == want);
        }
    } else {
        law_pull_sends_what_is_missing(b.next, n);
        let k = choose|k: int| 0 <= k < last.frames.len() && last.frames[k] == want;
        assert(e.frames[b.frames.len() + k] == want);
    }
}

// ---------- a push as the client runs it ----------

/// Whether the server does not hold a page of the client by its hash.
pub open spec fn differs(pages: Map<u32, PageView>, page: (u32, Seq<u8>)) -> bool {
    !(pages.contains_key(page.0) && pages[page.0].hash == blake3_digest(page.1))
}

/// The pages of the client that the server has yet to get.
pub open spec fn wanted(pages: Map<u32, PageView>, local: Seq<(u32, Seq<u8>)>) -> Seq<
    (u32, Seq<u8>),
>
    decreases local.len(),
{
    if local.len() == 0 {
        Seq::empty()
    } else {
        let before = wanted(pages, local.drop_last());
        if differs(pages, local.last()) {
            before.push(local.last())
        } else {
            before
        }
    }
}

/// The requests for pages.
pub open spec fn requests(list: Seq<(u32, Seq<u8>)>) -> Seq<MessageView> {
    list.map_values(|p: (u32, Seq<u8>)| MessageView::RequestPage { page_no: p.0 })
}

/// The numbers of pages.
pub open spec fn numbers(list: Seq<(u32, Seq<u8>)>) -> Set<u32>
    decreases list.len(),
{
    if list.len() == 0 {
        Set::empty()
    } else {
        numbers(list.drop_last()).insert(list.last().0)
    }
}

/// Whether no number occurs twice.
pub open spec fn numbered_once(list: Seq<(u32, Seq<u8>)>) -> bool {
    forall|i: int, j: int|
        0 <= i < j < list.len() ==> (#[trigger] list[i]).0 != (#[trigger] list[j]).0
}

pub(crate) proof fn lemma_numbers(list: Seq<(u32, Seq<u8>)>, n: u32)
    ensures
        numbers(list).contains(n) <==> exists|i: int|
            0 <= i < list.len() && (#[trigger] list[i]).0 == n,
    decreases list.len(),
{
    if list.len() > 0 {
        let before = list.drop_last();
        lemma_numbers(before, n);
        if numbers(list).contains(n) {
            if n == list.last().0 {
                assert(list[list.len() - 1].0 == n);
            } else {
                let i = choose|i: int| 0 <= i < before.len() && (#[trigger] before[i]).0 == n;
                assert(list[i].0 == n);
            }
        }
        if exists|i: int| 0 <= i < list.len() && (#[trigger] list[i]).0 == n {
            let i = choose|i: int| 0 <= i < list.len() && (#[trigger] list[i]).0 == n;
            if i < before.len() {
                assert(before[i].0 == n);
            }
        }
    }
}

/// The pages wanted are the client's that differ.
pub(crate) proof fn lemma_wanted(pages: Map<u32, PageView>, local: Seq<(u32, Seq<u8>)>)
    ensures
        forall|p: (u32, Seq<u8>)| #[trigger]
            wanted(pages, local).contains(p) <==> local.contains(p) && differs(pages, p),
        numbered_once(local) ==> numbered_once(wanted(pages, local)),
    decreases local.len(),
{
    let list = wanted(pages, local);
    if local.len() > 0 {
        let before = local.drop_last();
        let part = wanted(pages, before);
        lemma_wanted(pages, before);
        assert(local =~= before.push(local.last()));
        assert forall|p: (u32, Seq<u8>)| #[trigger]
            list.contains(p) <==> local.contains(p) && differs(pages, p) by {
            vstd::seq_lib::lemma_seq_contains_after_push(before, local.last(), p);
            vstd::seq_lib::lemma_seq_contains_after_push(part, local.last(), p);
        }
        if numbered_once(local) {
            assert forall|i: int, j: int| 0 <= i < j < before.len() implies (
            #[trigger] before[i]).0 != (#[trigger] before[j]).0 by {
                assert(before[i] == local[i] && before[j] == local[j]);
            }
            assert forall|i: int, j: int| 0 <= i < j < list.len() implies (#[trigger] list[i]).0
                != (#[trigger] list[j]).0 by {
                if j < part.len() {
                    assert(list[i] == part[i] && list[j] == part[j]);
                } else {
                    assert(list[i] == part[i] && part.contains(part[i]));
                    let k = choose|k: int| 0 <= k < before.len() && before[k] == part[i];
                    assert(local[k] == part[i]);
                    assert(local[k].0 != local[local.len() - 1].0);
                }
            }
        }
    }
}

/// Announcing asks for exactly the pages that differ.
proof fn lemma_announced_push(s: FsmView, local: Seq<(u32, Seq<u8>)>)
    requires
        s.saw_hello,
        s.direction == Direction::Push,
    ensures
        ({
            let e = conversation(s, announcements(local));
            &&& e.fault is None
            &&& e.frames == requests(wanted(s.pages, local))
            &&& e.next == (FsmView {
                client_seen: e.next.client_seen,
                pending: s.pending.union(numbers(wanted(s.pages, local))),
                ..s
            })
        }),
    decreases local.len(),
{
    let list = wanted(s.pages, local);
    let e = conversation(s, announcements(local));
    if local.len() > 0 {
        let before = local.drop_last();
        lemma_announced_push(s, before);
        assert(announcements(local).drop_last() =~= announcements(before));
        let b = conversation(s, announcements(before));
        let last = step(b.next, announcements(local).last());
        assert(e.frames == b.frames + last.frames);
        if differs(s.pages, local.last()) {
            assert(list.drop_last() =~= wanted(s.pages, before));
            assert(e.frames =~= requests(list));
            assert(e.next.pending =~= s.pending.union(numbers(list)));
        } else {
            assert(e.frames =~= requests(list));
        }
    } else {
        assert(e.frames =~= requests(list));
        assert(s.pending.union(numbers(list)) =~= s.pending);
    }
}

/// The bytes of pages.
pub open spec fn page_messages(list: Seq<(u32, Seq<u8>)>) -> Seq<MessageView> {
    list.map_values(|p: (u32, Seq<u8>)| MessageView::PageData { page_no: p.0, data: p.1 })
}

/// Whether a page is stored, with its hash.
spec fn holds(pages: Map<u32, PageView>, page: (u32, Seq<u8>)) -> bool {
    pages.contains_key(page.0) && pages[page.0] == (PageView {
        data: page.1,
        hash: blake3_digest(page.1),
    })
}

/// Whether a page number stands for the same in both.
spec fn same_at(a: Map<u32, PageView>, b: Map<u32, PageView>, n: u32) -> bool {
    a.contains_key(n) == b.contains_key(n) && a[n] == b[n]
}

/// Serving the first `k` pages of those awaited.
proof fn lemma_served_push(t: FsmView, list: Seq<(u32, Seq<u8>)>, k: int)
    requires
        t.saw_hello,
        t.direction == Direction::Push,
        t.completed_hash_phase,
        !t.emitted_complete,
        t.pending == numbers(list),
        numbered_once(list),
        0 <= k <= list.len(),
    ensures
        ({
            let e = conversation(t, page_messages(list.take(k)));
            &&& e.fault is None
            &&& e.next.saw_hello
            &&& e.next.direction == Direction::Push
            &&& e.next.completed_hash_phase
            &&& e.next.pending == numbers(list).difference(numbers(list.take(k)))
            &&& e.next.emitted_complete == (0 < k == list.len())
            &&& completions(e.frames) == if 0 < k == list.len() {
                1nat
            } else {
                0nat
            }
            &&& forall|i: int| 0 <= i < k ==> holds(e.next.pages, #[trigger] list[i])
            &&& forall|n: u32|
                !numbers(list.take(k)).contains(n) ==> #[trigger] same_at(
                    e.next.pages,
                    t.pages,
                    n,
                )
        }),
    decreases k,
{
    let done = list.take(k);
    let e = conversation(t, page_messages(done));
    if k == 0 {
        assert(page_messages(done) =~= Seq::<MessageView>::empty());
        assert(numbers(list).difference(numbers(done)) =~= numbers(list));
    } else {
        let part = list.take(k - 1);
        lemma_served_push(t, list, k - 1);
        assert(done.drop_last() =~= part);
        assert(done.last() == list[k - 1]);
        assert(page_messages(done).drop_last() =~= page_messages(part));
        let b = conversation(t, page_messages(part));
        let n = list[k - 1].0;
        let now = stored(b.next, n, list[k - 1].1);
        let last = gate(now);
        assert(page_messages(done).last() == MessageView::PageData {
            page_no: n,
            data: list[k - 1].1,
        });
        assert(e.frames == b.frames + last.frames);
        assert(now.pending =~= numbers(list).difference(numbers(done)));
        lemma_completions_concat(b.frames, last.frames);
        lemma_gate_consistent(now);
        if k < list.len() {
            let m = list[k].0;
            lemma_numbers(list, m);
            lemma_numbers(done, m);
            if numbers(done).contains(m) {
                let i = choose|i: int| 0 <= i < done.len() && (#[trigger] done[i]).0 == m;
                assert(done[i] == list[i]);
            }
            assert(now.pending.contains(m));
        } else {
            assert(done =~= list);
            assert(now.pending =~= Set::<u32>::empty());
        }
        assert forall|i: int| 0 <= i < k implies holds(e.next.pages, #[trigger] list[i]) by {
            if i < k - 1 {
                assert(list[i].0 != list[k - 1].0);
            }
        }
        assert forall|m: u32| !numbers(done).contains(m) implies #[trigger] same_at(
            e.next.pages,
            t.pages,
            m,
        ) by {
            assert(!numbers(part).contains(m) && m != n);
            assert(same_at(b.next.pages, t.pages, m));
        }
    }
}

/// A push as the client runs it: it announces every page, says that it is
/// complete, and then sends the pages that were requested. The server asks for
/// exactly the pages whose hash it does not hold; in the end it holds the bytes
/// of those and the hash of the others, awaits nothing, and has reported
/// completion once.
pub proof fn law_push_session(s: FsmView, local: Seq<(u32, Seq<u8>)>)
    requires
        s.saw_hello,
        s.direction == Direction::Push,
        s.pending.is_empty(),
        !s.completed_hash_phase,
        !s.emitted_complete,
        numbered_once(local),
    ensures
        ({
            let list = wanted(s.pages, local);
            let asked = conversation(s, announcements(local));
            let ended = step(asked.next, MessageView::Complete);
            let e = conversation(ended.next, page_messages(list));
            &&& asked.fault is None && ended.fault is None && e.fault is None
            &&& asked.frames == requests(list)
            &&& completions(asked.frames + ended.frames + e.frames) == 1
            &&& e.next.emitted_complete
            &&& e.next.pending.is_empty()
            &&& forall|i: int|
                0 <= i < local.len() ==> {
                    let page = #[trigger] local[i];
                    &&& e.next.pages.contains_key(page.0)
                    &&& e.next.pages[page.0].hash == blake3_digest(page.1)
                    &&& differs(s.pages, page) ==> e.next.pages[page.0].data == page.1
                }
        }),
{
    let list = wanted(s.pages, local);
    let asked = conversation(s, announcements(local));
    let ended = step(asked.next, MessageView::Complete);
    let e = conversation(ended.next, page_messages(list));
    lemma_announced_push(s, local);
    lemma_wanted(s.pages, local);
    assert(asked.next.pending =~= numbers(list));
    let s1 = FsmView { completed_hash_phase: true, ..asked.next };
    assert(owed(s1) =~= Seq::<(u32, Seq<u8>)>::empty());
    assert(served(s1, owed(s1)) == s1);
    assert(page_frames(owed(s1)) =~= Seq::<MessageView>::empty());
    assert(ended.frames =~= gate(s1).frames);
    assert(ended.next == gate(s1).next);
    lemma_gate_consistent(s1);
    lemma_requests_silent(list);
    lemma_completions_concat(asked.frames, ended.frames);
    lemma_completions_concat(asked.frames + ended.frames, e.frames);
    assert(list.take(list.len() as int) =~= list);
    if list.len() == 0 {
        assert(page_messages(list) =~= Seq::<MessageView>::empty());
        assert(e == goes(ended.next, Seq::empty()));
    } else {
        lemma_numbers(list, list[0].0);
        assert(numbers(list).contains(list[0].0));
        lemma_served_push(ended.next, list, list.len() as int);
        assert(numbers(list).difference(numbers(list)) =~= Set::<u32>::empty());
    }
    assert forall|i: int| 0 <= i < local.len() implies ({
        let page = #[trigger] local[i];
        &&& e.next.pages.contains_key(page.0)
        &&& e.next.pages[page.0].hash == blake3_digest(page.1)
        &&& differs(s.pages, page) ==> e.next.pages[page.0].data == page.1
    }) by {
        let page = local[i];
        assert(local.contains(page));
        if differs(s.pages, page) {
            assert(list.contains(page));
            let k = choose|k: int| 0 <= k < list.len() && list[k] == page;
            assert(holds(e.next.pages, list[k]));
        } else {
            lemma_numbers(list, page.0);
            if numbers(list).contains(page.0) {
                let k = choose|k: int| 0 <= k < list.len() && (#[trigger] list[k]).0 == page.0;
                assert(list.contains(list[k]));
                let j = choose|j: int| 0 <= j < local.len() && local[j] == list[k];
                assert(local[j].0 == local[i].0);
                assert(j == i);
            }
            if list.len() > 0 {
                assert(same_at(e.next.pages, ended.next.pages, page.0));
            }
        }
    }
}

proof fn lemma_requests_silent(list: Seq<(u32, Seq<u8>)>)
    ensures
        completions(requests(list)) == 0,
    decreases list.len(),
{
    if list.len() > 0 {
        lemma_requests_silent(list.drop_last());
        assert(requests(list).drop_last() =~= requests(list.drop_last()));
    }
}

/// Whether every page is stored with the hash of its own bytes.
pub open spec fn hashes_true(pages: Map<u32, PageView>) -> bool {
    forall|n: u32| #[trigger]
        pages.contains_key(n) ==> pages[n].hash == blake3_digest(pages[n].data)
}

proof fn lemma_batch_hashes(s: FsmView, entries: Seq<(u32, Seq<u8>)>)
    requires
        hashes_true(s.pages),
    ensures
        hashes_true(on_data_batch(s, entries).next.pages),
    decreases entries.len(),
{
    if entries.len() > 0 {
        lemma_batch_hashes(s, entries.drop_last());
    }
}

/// Where every page is stored with the hash of its own bytes, no message
/// changes that.
pub proof fn law_hashes_stay_true(s: FsmView, m: MessageView)
    requires
        hashes_true(s.pages),
    ensures
        hashes_true(step(s, m).next.pages),
{
    if let MessageView::PageDataBatch { pages } = m {
        lemma_batch_hashes(s, pages);
    }
    let s1 = FsmView { completed_hash_phase: true, ..s };
    lemma_pages_silent(s1, owed(s1));
}

/// Nothing is answered before the handshake, and there is only one handshake.
pub proof fn law_handshake_comes_first(s: FsmView, m: MessageView)
    ensures
        !s.saw_hello && m !is Hello ==> step(s, m).fault is Some && step(s, m).next == s,
        s.saw_hello && m is Hello ==> step(s, m).fault is Some && step(s, m).next == s,
{
}

} // verus!
