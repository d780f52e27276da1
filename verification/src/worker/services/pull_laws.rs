//! What holds of a whole pull.

use vstd::prelude::*;

use super::sync_fsm::{
    fresh_session, gate, lemma_max_page, on_page_hash, owed, page_frames, served, step, unclaimed,
    Effect, FsmView, HANDSHAKE_VERSION,
};
use super::sync_laws::{conversation, lemma_numbers, numbered_once, numbers};
use super::sync_storage::{is_max_page, PageView};
use crate::shared::domain::enums::Direction;
use crate::shared::sync_protocol::MessageView;

verus! {

/// What a client claims of its pages: a number and a hash each.
pub open spec fn claim_messages(claims: Seq<(u32, Seq<u8>)>) -> Seq<MessageView> {
    claims.map_values(
        |c: (u32, Seq<u8>)| MessageView::PageHash { page_no: c.0, hash: c.1 },
    )
}

/// The pages that claims are answered with: those stored with another hash.
pub open spec fn corrected(pages: Map<u32, PageView>, claims: Seq<(u32, Seq<u8>)>) -> Seq<
    (u32, Seq<u8>),
>
    decreases claims.len(),
{
    if claims.len() == 0 {
        Seq::empty()
    } else {
        let before = corrected(pages, claims.drop_last());
        let c = claims.last();
        if pages.contains_key(c.0) && pages[c.0].hash != c.1 {
            before.push((c.0, pages[c.0].data))
        } else {
            before
        }
    }
}

/// The pages that a pull sends: those claimed with another hash, and then those
/// not claimed.
pub open spec fn pulled(pages: Map<u32, PageView>, claims: Seq<(u32, Seq<u8>)>, max: u32) -> Seq<
    (u32, Seq<u8>),
> {
    corrected(pages, claims) + unclaimed(pages, numbers(claims), 1, max as int)
}

/// The bytes of pages, added up.
pub open spec fn total_bytes(list: Seq<(u32, Seq<u8>)>) -> nat
    decreases list.len(),
{
    if list.len() == 0 {
        0
    } else {
        total_bytes(list.drop_last()) + list.last().1.len()
    }
}

/// Whether page numbers ascend.
pub open spec fn ascending(list: Seq<(u32, Seq<u8>)>) -> bool {
    forall|i: int, j: int|
        0 <= i < j < list.len() ==> (#[trigger] list[i]).0 < (#[trigger] list[j]).0
}

/// A conversation goes on from where its first part ended.
pub(crate) proof fn lemma_conversation_concat(s: FsmView, a: Seq<MessageView>, b: Seq<MessageView>)
    requires
        conversation(s, a).fault is None,
    ensures
        ({
            let first = conversation(s, a);
            let second = conversation(first.next, b);
            conversation(s, a + b) == (Effect {
                next: second.next,
                frames: first.frames + second.frames,
                fault: second.fault,
            })
        }),
    decreases b.len(),
{
    let first = conversation(s, a);
    let second = conversation(first.next, b);
    if b.len() == 0 {
        assert(a + b =~= a);
        assert(first.frames + second.frames =~= first.frames);
    } else {
        lemma_conversation_concat(s, a, b.drop_last());
        assert((a + b).drop_last() =~= a + b.drop_last());
        assert((a + b).last() == b.last());
        let part = conversation(first.next, b.drop_last());
        if part.fault is None {
            let last = step(part.next, b.last());
            assert(first.frames + part.frames + last.frames =~= first.frames + (part.frames
                + last.frames));
        }
    }
}

/// A conversation of one message is a step.
proof fn lemma_conversation_one(s: FsmView, m: MessageView)
    ensures
        conversation(s, seq![m]) == step(s, m),
{
    assert(seq![m].drop_last() =~= Seq::<MessageView>::empty());
    let e = step(s, m);
    let before = conversation(s, seq![m].drop_last());
    assert(before.next == s && before.frames.len() == 0 && before.fault is None);
    assert(before.frames + e.frames =~= e.frames);
}

/// The state after claims: they are noted, and answered where they are wrong.
proof fn lemma_claimed(s: FsmView, claims: Seq<(u32, Seq<u8>)>)
    requires
        s.saw_hello,
        s.direction == Direction::Pull,
    ensures
        ({
            let e = conversation(s, claim_messages(claims));
            let list = corrected(s.pages, claims);
            &&& e.fault is None
            &&& e.frames == page_frames(list)
            &&& e.next == (FsmView {
                client_seen: s.client_seen.union(numbers(claims)),
                ..served(s, list)
            })
        }),
    decreases claims.len(),
{
    let e = conversation(s, claim_messages(claims));
    let list = corrected(s.pages, claims);
    if claims.len() == 0 {
        assert(page_frames(list) =~= Seq::<MessageView>::empty());
        assert(s.client_seen.union(numbers(claims)) =~= s.client_seen);
    } else {
        let part = claims.drop_last();
        let c = claims.last();
        lemma_claimed(s, part);
        lemma_served_keeps(s, corrected(s.pages, part));
        assert(claim_messages(claims).drop_last() =~= claim_messages(part));
        let b = conversation(s, claim_messages(part));
        let last = on_page_hash(b.next, c.0, c.1);
        assert(claim_messages(claims).last() == MessageView::PageHash { page_no: c.0, hash: c.1 });
        assert(e.frames == b.frames + last.frames);
        assert(b.next.client_seen.insert(c.0) =~= s.client_seen.union(numbers(claims)));
        if s.pages.contains_key(c.0) && s.pages[c.0].hash != c.1 {
            assert(list.drop_last() =~= corrected(s.pages, part));
            assert(page_frames(list) =~= page_frames(corrected(s.pages, part)).push(
                MessageView::PageData { page_no: c.0, data: s.pages[c.0].data },
            ));
        }
        assert(e.frames =~= page_frames(list));
    }
}

/// Sending pages changes the counters alone.
proof fn lemma_served_keeps(s: FsmView, list: Seq<(u32, Seq<u8>)>)
    ensures
        served(s, list) == (FsmView {
            pages_transferred: served(s, list).pages_transferred,
            bytes_transferred: served(s, list).bytes_transferred,
            ..s
        }),
    decreases list.len(),
{
    if list.len() > 0 {
        lemma_served_keeps(s, list.drop_last());
    }
}

/// Sending pages counts them and their bytes.
proof fn lemma_served_counts(s: FsmView, list: Seq<(u32, Seq<u8>)>)
    requires
        s.pages_transferred + list.len() <= u64::MAX,
        s.bytes_transferred + total_bytes(list) <= u64::MAX,
    ensures
        served(s, list).pages_transferred == s.pages_transferred + list.len(),
        served(s, list).bytes_transferred == s.bytes_transferred + total_bytes(list),
    decreases list.len(),
{
    if list.len() > 0 {
        lemma_served_counts(s, list.drop_last());
    }
}

/// Sending pages after pages is sending all of them.
proof fn lemma_served_concat(s: FsmView, a: Seq<(u32, Seq<u8>)>, b: Seq<(u32, Seq<u8>)>)
    ensures
        served(served(s, a), b) == served(s, a + b),
    decreases b.len(),
{
    if b.len() == 0 {
        assert(a + b =~= a);
    } else {
        lemma_served_concat(s, a, b.drop_last());
        assert((a + b).drop_last() =~= a + b.drop_last());
    }
}

/// Sending pages does not look at what the client claimed or ended.
proof fn lemma_served_apart(s: FsmView, t: FsmView, list: Seq<(u32, Seq<u8>)>)
    requires
        t.pages_transferred == s.pages_transferred,
        t.bytes_transferred == s.bytes_transferred,
    ensures
        served(t, list).pages_transferred == served(s, list).pages_transferred,
        served(t, list).bytes_transferred == served(s, list).bytes_transferred,
    decreases list.len(),
{
    if list.len() > 0 {
        lemma_served_apart(s, t, list.drop_last());
    }
}

/// The pages not claimed ascend, and are exactly those.
proof fn lemma_unclaimed(pages: Map<u32, PageView>, seen: Set<u32>, to: int)
    requires
        0 <= to <= u32::MAX,
    ensures
        ascending(unclaimed(pages, seen, 1, to)),
        forall|n: u32, d: Seq<u8>| #[trigger]
            unclaimed(pages, seen, 1, to).contains((n, d)) <==> 1 <= n <= to && pages.contains_key(
                n,
            ) && !seen.contains(n) && d == pages[n].data,
    decreases to,
{
    let all = unclaimed(pages, seen, 1, to);
    if to >= 1 {
        let before = unclaimed(pages, seen, 1, to - 1);
        lemma_unclaimed(pages, seen, to - 1);
        let k = to as u32;
        if pages.contains_key(k) && !seen.contains(k) {
            let added = (k, pages[k].data);
            assert(all == before.push(added));
            assert forall|n: u32, d: Seq<u8>| #[trigger] all.contains((n, d)) <==> 1 <= n <= to
                && pages.contains_key(n) && !seen.contains(n) && d == pages[n].data by {
                vstd::seq_lib::lemma_seq_contains_after_push(before, added, (n, d));
                assert(all.contains((n, d)) <==> before.contains((n, d)) || (n, d) == added);
            }
            assert forall|i: int, j: int| 0 <= i < j < all.len() implies (#[trigger] all[i]).0 < (
            #[trigger] all[j]).0 by {
                if j == before.len() {
                    assert(before.contains((all[i].0, all[i].1))) by {
                        assert(before[i] == all[i]);
                    }
                } else {
                    assert(before[i] == all[i] && before[j] == all[j]);
                }
            }
        }
    } else {
        assert(all =~= Seq::<(u32, Seq<u8>)>::empty());
    }
}

/// The pages that claims are answered with are those claimed with another hash.
proof fn lemma_corrected(pages: Map<u32, PageView>, claims: Seq<(u32, Seq<u8>)>)
    requires
        numbered_once(claims),
    ensures
        numbered_once(corrected(pages, claims)),
        forall|n: u32, d: Seq<u8>| #[trigger]
            corrected(pages, claims).contains((n, d)) <==> numbers(claims).contains(n)
                && pages.contains_key(n) && d == pages[n].data && !claims.contains(
                (n, pages[n].hash),
            ),
    decreases claims.len(),
{
    let all = corrected(pages, claims);
    if claims.len() > 0 {
        let part = claims.drop_last();
        let c = claims.last();
        let before = corrected(pages, part);
        assert forall|i: int, j: int| 0 <= i < j < part.len() implies (#[trigger] part[i]).0 != (
        #[trigger] part[j]).0 by {
            assert(part[i] == claims[i] && part[j] == claims[j]);
        }
        lemma_corrected(pages, part);
        assert(claims =~= part.push(c));
        lemma_numbers(part, c.0);
        assert(!numbers(part).contains(c.0)) by {
            if numbers(part).contains(c.0) {
                let i = choose|i: int| 0 <= i < part.len() && (#[trigger] part[i]).0 == c.0;
                assert(claims[i].0 == claims[claims.len() - 1].0);
            }
        }
        assert forall|n: u32, d: Seq<u8>| #[trigger] all.contains((n, d)) <==> numbers(
            claims,
        ).contains(n) && pages.contains_key(n) && d == pages[n].data && !claims.contains(
            (n, pages[n].hash),
        ) by {
            vstd::seq_lib::lemma_seq_contains_after_push(part, c, (n, pages[n].hash));
            vstd::seq_lib::lemma_seq_contains_after_push(
                before,
                (c.0, pages[c.0].data),
                (n, d),
            );
            assert(before.contains((n, d)) ==> n != c.0);
            if n == c.0 {
                if part.contains((n, pages[n].hash)) {
                    let i = choose|i: int| 0 <= i < part.len() && part[i] == (n, pages[n].hash);
                    assert(claims[i].0 == claims[claims.len() - 1].0);
                }
            }
        }
        assert forall|i: int, j: int| 0 <= i < j < all.len() implies (#[trigger] all[i]).0 != (
        #[trigger] all[j]).0 by {
            assert(before[i] == all[i]);
            if j == before.len() {
                assert(before.contains((all[i].0, all[i].1)));
            } else {
                assert(before[j] == all[j]);
            }
        }
    } else {
        assert(all =~= Seq::<(u32, Seq<u8>)>::empty());
        assert forall|n: u32| !numbers(claims).contains(n) by {}
    }
}

/// There are no more pages than page numbers.
proof fn lemma_numbered_len(list: Seq<(u32, Seq<u8>)>)
    requires
        numbered_once(list),
    ensures
        list.len() <= 0x1_0000_0000,
{
    let ns = list.map_values(|p: (u32, Seq<u8>)| p.0 as int);
    let range = vstd::set_lib::set_int_range(0, 0x1_0000_0000);
    assert(ns.no_duplicates()) by {
        assert forall|i: int, j: int| 0 <= i < ns.len() && 0 <= j < ns.len() && i != j implies ns[i]
            != ns[j] by {
            assert(list[i].0 != list[j].0);
        }
    }
    ns.unique_seq_to_set();
    vstd::set_lib::lemma_int_range(0, 0x1_0000_0000);
    assert(ns.to_set().subset_of(range)) by {
        assert forall|x: int| ns.to_set().contains(x) implies range.contains(x) by {
            let i = choose|i: int| 0 <= i < ns.len() && ns[i] == x;
            assert(ns[i] == list[i].0 as int);
        }
    }
    vstd::set_lib::lemma_len_subset(ns.to_set(), range);
}

/// A whole pull: the client says hello, claims each of its pages once, and says
/// that it is complete. Between the greeting and the report the server sends
/// exactly the pages that it stores and the client did not claim with their
/// hash, each once: those claimed with another hash as they were claimed, and
/// then those not claimed, ascending. The report gives their number and their
/// bytes. (Bytes beyond 64 bits would wrap around.)
pub proof fn law_pull_session(
    pages: Map<u32, PageView>,
    max: u32,
    page_size: u32,
    client_max: u32,
    claims: Seq<(u32, Seq<u8>)>,
)
    requires
        is_max_page(pages, max),
        !pages.contains_key(0),
        numbered_once(claims),
        total_bytes(pulled(pages, claims, max)) <= u64::MAX,
    ensures
        ({
            let hello = MessageView::Hello {
                protocol_version: HANDSHAKE_VERSION,
                page_size,
                max_page: client_max,
            };
            let e = conversation(
                fresh_session(Direction::Pull, pages),
                seq![hello] + claim_messages(claims) + seq![MessageView::Complete],
            );
            let list = pulled(pages, claims, max);
            &&& e.fault is None
            &&& e.frames == seq![
                MessageView::HelloReply {
                    protocol_version: HANDSHAKE_VERSION,
                    page_size,
                    max_page: max,
                },
            ] + page_frames(list) + seq![
                MessageView::SyncComplete {
                    pages_transferred: list.len() as u64,
                    bytes_transferred: total_bytes(list) as u64,
                },
            ]
            &&& list.len() <= 0x1_0000_0000
            &&& numbered_once(list)
            &&& ascending(list.skip(corrected(pages, claims).len() as int))
            &&& forall|n: u32, d: Seq<u8>| #[trigger]
                list.contains((n, d)) <==> pages.contains_key(n) && d == pages[n].data
                    && !claims.contains((n, pages[n].hash))
            &&& e.next.emitted_complete
            &&& e.next.pages == pages
        }),
{
    let s0 = fresh_session(Direction::Pull, pages);
    let hello = MessageView::Hello {
        protocol_version: HANDSHAKE_VERSION,
        page_size,
        max_page: client_max,
    };
    let fixed = corrected(pages, claims);
    let rest = unclaimed(pages, numbers(claims), 1, max as int);
    let list = pulled(pages, claims, max);
    // The handshake.
    lemma_max_page(pages, max);
    lemma_conversation_one(s0, hello);
    let greeted = step(s0, hello);
    let s1 = greeted.next;
    // The claims.
    lemma_claimed(s1, claims);
    lemma_conversation_concat(s0, seq![hello], claim_messages(claims));
    let claimed = conversation(s1, claim_messages(claims));
    let s2 = claimed.next;
    lemma_served_keeps(s1, fixed);
    assert(s2.client_seen =~= numbers(claims));
    // The end of the hash phase.
    lemma_conversation_concat(
        s0,
        seq![hello] + claim_messages(claims),
        seq![MessageView::Complete],
    );
    lemma_conversation_one(s2, MessageView::Complete);
    let s3 = FsmView { completed_hash_phase: true, ..s2 };
    if max == 0 {
        assert(rest =~= Seq::<(u32, Seq<u8>)>::empty());
    }
    assert(owed(s3) =~= rest);
    lemma_served_keeps(s3, rest);
    lemma_served_apart(served(s1, fixed), s3, rest);
    lemma_served_concat(s1, fixed, rest);
    let t = served(s3, rest);
    assert(t.pending =~= Set::<u32>::empty());
    // What is in the list.
    lemma_corrected(pages, claims);
    lemma_unclaimed(pages, numbers(claims), max as int);
    assert forall|n: u32, d: Seq<u8>| #[trigger]
        list.contains((n, d)) <==> pages.contains_key(n) && d == pages[n].data && !claims.contains(
            (n, pages[n].hash),
        ) by {
        vstd::seq_lib::lemma_seq_concat_contains_all_elements(fixed, rest, (n, d));
        assert(fixed.contains((n, d)) <==> numbers(claims).contains(n) && pages.contains_key(n) && d
            == pages[n].data && !claims.contains((n, pages[n].hash)));
        assert(rest.contains((n, d)) <==> 1 <= n <= max && pages.contains_key(n) && !numbers(
            claims,
        ).contains(n) && d == pages[n].data);
        if claims.contains((n, pages[n].hash)) {
            let i = choose|i: int| 0 <= i < claims.len() && claims[i] == (n, pages[n].hash);
            lemma_numbers(claims, n);
            assert(claims[i].0 == n);
        }
    }
    assert forall|i: int, j: int| 0 <= i < j < list.len() implies (#[trigger] list[i]).0 != (
    #[trigger] list[j]).0 by {
        if j < fixed.len() {
            assert(list[i] == fixed[i] && list[j] == fixed[j]);
        } else if i >= fixed.len() {
            assert(list[i] == rest[i - fixed.len()] && list[j] == rest[j - fixed.len()]);
        } else {
            assert(fixed.contains((list[i].0, list[i].1))) by {
                assert(fixed[i] == list[i]);
            }
            assert(rest.contains((list[j].0, list[j].1))) by {
                assert(rest[j - fixed.len()] == list[j]);
            }
        }
    }
    assert(list.skip(fixed.len() as int) =~= rest);
    lemma_numbered_len(list);
    lemma_served_counts(s1, list);
    let report = MessageView::SyncComplete {
        pages_transferred: list.len() as u64,
        bytes_transferred: total_bytes(list) as u64,
    };
    assert(gate(t).frames =~= seq![report]);
    assert(page_frames(list) =~= page_frames(fixed) + page_frames(rest));
    let e = conversation(s0, seq![hello] + claim_messages(claims) + seq![MessageView::Complete]);
    assert(e.frames =~= greeted.frames + page_frames(list) + seq![report]);
}

} // verus!
