//! When a push reports, whatever the order of its messages.

use vstd::prelude::*;

use super::sync_fsm::{completions, gate, owed, page_frames, served, step, stored, FsmView};
use super::sync_laws::{conversation, lemma_gate_consistent, lemma_one_frame};
use crate::shared::domain::enums::Direction;
use crate::shared::sync_protocol::MessageView;

verus! {

/// What a client sends on a push once the handshake is over.
pub open spec fn pushes(m: MessageView) -> bool {
    m is PageHash || m is PageData || m is Complete
}

/// Whether the message at `i` made the server ask for a page.
pub open spec fn asked(s: FsmView, msgs: Seq<MessageView>, i: int, n: u32) -> bool {
    step(conversation(s, msgs.take(i)).next, msgs[i]).frames.contains(
        MessageView::RequestPage { page_no: n },
    )
}

/// Whether the message at `i` holds the bytes of a page.
pub open spec fn given(msgs: Seq<MessageView>, i: int, n: u32) -> bool {
    msgs[i] matches MessageView::PageData { page_no, .. } && page_no == n
}

/// Whether the message at `i` made the server ask for a page whose bytes have
/// not come since.
pub open spec fn outstanding(s: FsmView, msgs: Seq<MessageView>, i: int, n: u32) -> bool {
    &&& 0 <= i < msgs.len()
    &&& asked(s, msgs, i, n)
    &&& forall|j: int| i < j < msgs.len() ==> !#[trigger] given(msgs, j, n)
}

/// Whether the bytes of every page that the server asked for have come since.
pub open spec fn all_given(s: FsmView, msgs: Seq<MessageView>) -> bool {
    forall|i: int, n: u32| !#[trigger] outstanding(s, msgs, i, n)
}

/// How many messages hold the bytes of a page.
pub open spec fn pages_given(msgs: Seq<MessageView>) -> nat
    decreases msgs.len(),
{
    if msgs.len() == 0 {
        0
    } else if msgs.last() is PageData {
        pages_given(msgs.drop_last()) + 1
    } else {
        pages_given(msgs.drop_last())
    }
}

/// How many bytes of pages messages hold.
pub open spec fn bytes_given(msgs: Seq<MessageView>) -> nat
    decreases msgs.len(),
{
    if msgs.len() == 0 {
        0
    } else {
        bytes_given(msgs.drop_last()) + match msgs.last() {
            MessageView::PageData { data, .. } => data.len(),
            _ => 0,
        }
    }
}

/// A push whose handshake is over and that has not gone on.
pub open spec fn push_begun(s: FsmView) -> bool {
    &&& s.saw_hello
    &&& s.direction == Direction::Push
    &&& !s.completed_hash_phase
    &&& !s.emitted_complete
    &&& s.pending.is_empty()
    &&& s.pages_transferred == 0
    &&& s.bytes_transferred == 0
}

/// A push owes no page when it ends its hash phase.
proof fn lemma_push_complete(s: FsmView)
    requires
        s.saw_hello,
        s.direction == Direction::Push,
    ensures
        step(s, MessageView::Complete).next == gate(
            FsmView { completed_hash_phase: true, ..s },
        ).next,
        step(s, MessageView::Complete).frames == gate(
            FsmView { completed_hash_phase: true, ..s },
        ).frames,
        step(s, MessageView::Complete).fault is None,
{
    let s1 = FsmView { completed_hash_phase: true, ..s };
    assert(owed(s1) =~= Seq::<(u32, Seq<u8>)>::empty());
    assert(served(s1, owed(s1)) == s1);
    assert(page_frames(owed(s1)) + gate(s1).frames =~= gate(s1).frames);
}

/// What the state of a push says of its messages.
proof fn lemma_push_state(s: FsmView, msgs: Seq<MessageView>)
    requires
        push_begun(s),
        forall|i: int| 0 <= i < msgs.len() ==> pushes(#[trigger] msgs[i]),
        pages_given(msgs) <= u64::MAX,
        bytes_given(msgs) <= u64::MAX,
    ensures
        ({
            let e = conversation(s, msgs);
            &&& e.fault is None
            &&& e.next.saw_hello
            &&& e.next.direction == Direction::Push
            &&& e.next.completed_hash_phase <==> msgs.contains(MessageView::Complete)
            &&& e.next.pages_transferred == pages_given(msgs)
            &&& e.next.bytes_transferred == bytes_given(msgs)
            &&& forall|n: u32| #[trigger]
                e.next.pending.contains(n) <==> exists|i: int| outstanding(s, msgs, i, n)
        }),
    decreases msgs.len(),
{
    let e = conversation(s, msgs);
    if msgs.len() == 0 {
        assert forall|n: u32| #[trigger] e.next.pending.contains(n) <==> exists|i: int|
            outstanding(s, msgs, i, n) by {
            assert(s.pending =~= Set::<u32>::empty());
        }
    } else {
        let part = msgs.drop_last();
        let m = msgs.last();
        let at = msgs.len() - 1;
        assert forall|i: int| 0 <= i < part.len() implies pushes(#[trigger] part[i]) by {
            assert(part[i] == msgs[i]);
        }
        assert(pushes(msgs[at]));
        lemma_push_state(s, part);
        let b = conversation(s, part);
        let last = step(b.next, m);
        assert(msgs =~= part.push(m));
        assert(msgs.take(at) =~= part);
        vstd::seq_lib::lemma_seq_contains_after_push(part, m, MessageView::Complete);
        if m is Complete {
            lemma_push_complete(b.next);
            assert(msgs[at] == MessageView::Complete);
        }
        assert forall|i: int, n: u32| 0 <= i < at implies (#[trigger] outstanding(s, msgs, i, n)
            <==> outstanding(s, part, i, n) && !given(msgs, at, n)) by {
            assert(msgs.take(i) =~= part.take(i));
            assert(asked(s, msgs, i, n) == asked(s, part, i, n));
            assert forall|j: int| i < j < at implies given(msgs, j, n) == #[trigger] given(
                part,
                j,
                n,
            ) by {}
            if outstanding(s, msgs, i, n) {
                assert(!given(msgs, at, n));
                assert forall|j: int| i < j < part.len() implies !#[trigger] given(part, j, n) by {
                    assert(!given(msgs, j, n));
                }
            }
            if outstanding(s, part, i, n) && !given(msgs, at, n) {
                assert forall|j: int| i < j < msgs.len() implies !#[trigger] given(msgs, j, n) by {
                    if j < at {
                        assert(!given(part, j, n));
                    }
                }
            }
        }
        assert forall|n: u32| #[trigger] e.next.pending.contains(n) <==> exists|i: int|
            outstanding(s, msgs, i, n) by {
            let ask = MessageView::RequestPage { page_no: n };
            assert(outstanding(s, msgs, at, n) <==> last.frames.contains(ask));
            match m {
                MessageView::PageHash { page_no, .. } => {
                    if last.frames.len() > 0 {
                        assert(last.frames[0] == MessageView::RequestPage { page_no });
                    }
                },
                MessageView::PageData { page_no, data } => {
                    assert(last.frames == gate(stored(b.next, page_no, data)).frames);
                    assert(!last.frames.contains(ask));
                },
                _ => {
                    assert(!last.frames.contains(ask));
                },
            }
            if e.next.pending.contains(n) {
                if b.next.pending.contains(n) {
                    let i = choose|i: int| outstanding(s, part, i, n);
                    assert(outstanding(s, msgs, i, n));
                } else {
                    assert(last.frames[0] == ask);
                    assert(outstanding(s, msgs, at, n));
                }
            }
            if exists|i: int| outstanding(s, msgs, i, n) {
                let i = choose|i: int| outstanding(s, msgs, i, n);
                if i < at {
                    assert(outstanding(s, part, i, n));
                    assert(b.next.pending.contains(n));
                }
            }
        }
    }
}

/// When a push reports: with the end of the hash phase or with the bytes of a
/// page, once both the end was said and the bytes of every page that was asked
/// for have come; and with the number and the bytes of all pages that came.
/// (Counters beyond 64 bits would wrap around.)
pub proof fn law_push_report(s: FsmView, msgs: Seq<MessageView>, m: MessageView)
    requires
        push_begun(s),
        forall|i: int| 0 <= i < msgs.len() ==> pushes(#[trigger] msgs[i]),
        pushes(m),
        !conversation(s, msgs).next.emitted_complete,
        pages_given(msgs.push(m)) <= u64::MAX,
        bytes_given(msgs.push(m)) <= u64::MAX,
    ensures
        ({
            let e = step(conversation(s, msgs).next, m);
            let all = msgs.push(m);
            &&& conversation(s, msgs).fault is None
            &&& e.fault is None
            &&& completions(e.frames) == if (m is Complete || m is PageData) && all.contains(
                MessageView::Complete,
            ) && all_given(s, all) {
                1nat
            } else {
                0nat
            }
            &&& e.next.emitted_complete <==> completions(e.frames) == 1
            &&& completions(e.frames) == 1 ==> e.frames == seq![
                MessageView::SyncComplete {
                    pages_transferred: pages_given(all) as u64,
                    bytes_transferred: bytes_given(all) as u64,
                },
            ]
        }),
{
    let all = msgs.push(m);
    let before = conversation(s, msgs);
    let e = step(before.next, m);
    assert(all.drop_last() =~= msgs);
    assert forall|i: int| 0 <= i < all.len() implies pushes(#[trigger] all[i]) by {
        if i < msgs.len() {
            assert(all[i] == msgs[i]);
        }
    }
    lemma_push_state(s, msgs);
    lemma_push_state(s, all);
    let t = conversation(s, all).next;
    assert(t == e.next);
    if t.pending.is_empty() {
        assert forall|i: int, n: u32| !#[trigger] outstanding(s, all, i, n) by {
            assert(!t.pending.contains(n));
        }
    } else {
        let n = choose|n: u32| t.pending.contains(n);
        assert(t.pending.contains(n));
        let i = choose|i: int| outstanding(s, all, i, n);
        assert(outstanding(s, all, i, n));
    }
    match m {
        MessageView::Complete => {
            lemma_push_complete(before.next);
            lemma_gate_consistent(FsmView { completed_hash_phase: true, ..before.next });
        },
        MessageView::PageData { page_no, data } => {
            lemma_gate_consistent(stored(before.next, page_no, data));
        },
        _ => {
            lemma_one_frame(m);
            if e.frames.len() > 0 {
                lemma_one_frame(e.frames[0]);
                assert(e.frames =~= seq![e.frames[0]]);
            } else {
                assert(e.frames =~= Seq::<MessageView>::empty());
            }
        },
    }
}

} // verus!
