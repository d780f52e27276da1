//! What a sync over the stream does with each answer, and what a whole run of
//! it sends and keeps.

use vstd::prelude::*;

use super::sync_cmd::{
    answered, has_page, is_last_of, page_of, page_sent, pull_start, push_start, requests_served,
    stream_answer, stream_next, Answer, Page, StreamActionView, StreamPhase, StreamView,
};
use crate::shared::domain::enums::Direction;
use crate::shared::domain::ids::hex_text;
use crate::shared::sync_protocol::blake3_digest;
use crate::text::decimal;
use crate::worker::services::sync::RequestView;

verus! {

// ---------- one step ----------

/// The flow greets first, with its version, the page size and its own last
/// page, and then awaits the answer.
pub proof fn law_flow_greets(s: StreamView)
    requires
        s.queue.len() == 0,
        s.phase == StreamPhase::Start,
    ensures
        stream_next(s).0 == StreamActionView::Send(
            Some(
                RequestView::Hello {
                    protocol_version: 1,
                    page_size: 4096,
                    max_page: s.local_max,
                },
            ),
        ),
        stream_next(s).1 == (StreamView { phase: StreamPhase::Greeting, ..s }),
        stream_next(stream_next(s).1).0 is Receive,
{
}

/// What is queued is done first, in order; a failure that is done ends the
/// flow.
pub proof fn law_flow_drains_its_queue(s: StreamView)
    requires
        s.queue.len() > 0,
    ensures
        stream_next(s).0 == s.queue[0],
        stream_next(s).1.queue == s.queue.subrange(1, s.queue.len() as int),
        stream_next(s).1 == (StreamView {
            queue: stream_next(s).1.queue,
            phase: stream_next(s).1.phase,
            ..s
        }),
        s.queue[0] is Fail ==> stream_next(s).1.phase == StreamPhase::Finished,
        !(s.queue[0] is Fail) ==> stream_next(s).1.phase == s.phase,
{
    assert(s.queue.skip(1) =~= s.queue.subrange(1, s.queue.len() as int));
}

/// A push announces the page that comes next, by its number and its hash,
/// which is the digest of that page's bytes where the page is hashed. It
/// awaits an answer after every 64th page and after the last.
pub proof fn law_push_announces_its_page(s: StreamView)
    requires
        s.direction == Direction::Push,
        s.queue.len() == 0,
        s.phase == StreamPhase::Announcing,
        0 <= s.next < s.total,
        s.total == s.pages.len(),
    ensures
        ({
            let page = s.pages[s.next];
            let (action, t) = stream_next(s);
            &&& action == StreamActionView::Send(
                Some(RequestView::PageHash { page_no: page.page_no, hash: page.hash@ }),
            )
            &&& page.hashed() ==> action == StreamActionView::Send(
                Some(
                    RequestView::PageHash {
                        page_no: page.page_no,
                        hash: hex_text(blake3_digest(page.data@)),
                    },
                ),
            )
            &&& t == (StreamView { next: s.next + 1, phase: t.phase, ..s })
            &&& t.phase == if (s.next + 1) % 64 == 0 || s.next + 1 == s.pages.len() {
                StreamPhase::Answer
            } else {
                StreamPhase::Announcing
            }
        }),
{
}

/// A pull announces the number that comes next, from one on: with the hash of
/// its own last page of that number, or with none where it has no such page.
/// It awaits an answer after each.
pub proof fn law_pull_announces_its_number(s: StreamView, i: int)
    requires
        s.direction == Direction::Pull,
        s.queue.len() == 0,
        s.phase == StreamPhase::Announcing,
        0 <= s.next < s.total,
        s.total <= u32::MAX,
    ensures
        ({
            let (action, t) = stream_next(s);
            &&& action matches StreamActionView::Send(Some(RequestView::PageHash { page_no, hash }))
                && {
                &&& page_no == s.next + 1
                &&& (forall|j: int|
                    0 <= j < s.pages.len() ==> (#[trigger] s.pages[j]).page_no != page_no)
                    ==> hash.len() == 0
                &&& 0 <= i < s.pages.len() && s.pages[i].page_no == page_no && (forall|j: int|
                    i < j < s.pages.len() ==> (#[trigger] s.pages[j]).page_no != page_no) ==> hash
                    == s.pages[i].hash@
            }
            &&& t == (StreamView { next: s.next + 1, phase: StreamPhase::Answer, ..s })
        }),
{
    let n = (s.next + 1) as u32;
    if is_last_of(s.pages, n, i) {
        lemma_page_of(s.pages, n, i);
    }
}

proof fn lemma_page_of(pages: Seq<Page>, n: u32, i: int)
    requires
        is_last_of(pages, n, i),
    ensures
        has_page(pages, n),
        page_of(pages, n) == pages[i],
{
    assert(pages[i].page_no == n);
    let c = choose|c: int| is_last_of(pages, n, c);
    assert(is_last_of(pages, n, c));
    assert(c == i);
}

/// Once everything is announced the flow says so, closes its side, and takes
/// answers until the end.
pub proof fn law_flow_completes(s: StreamView)
    requires
        s.queue.len() == 0,
        s.phase == StreamPhase::Announcing,
        s.next >= s.total,
    ensures
        stream_next(s).0 == StreamActionView::Send(Some(RequestView::Complete)),
        stream_next(s).1 == (StreamView { phase: StreamPhase::Closing, ..s }),
        stream_next(stream_next(s).1) == (
            StreamActionView::CloseSend,
            (StreamView { phase: StreamPhase::Draining, ..s }),
        ),
        stream_next(stream_next(stream_next(s).1).1).0 is Receive,
{
}

/// Whether an answer is awaited past the greeting.
pub open spec fn awaiting(s: StreamView) -> bool {
    s.phase == StreamPhase::Answer || s.phase == StreamPhase::Draining
}

/// On a pull the bytes of a page that come while an answer is awaited are kept
/// with the page's number behind what was received before; no other answer,
/// nothing at another time and nothing on a push changes what was received.
pub proof fn law_received_grows_by_page_data(
    s: StreamView,
    page_no: u32,
    data: Vec<u8>,
    other: Option<Option<Answer>>,
    shown: Seq<char>,
)
    ensures
        ({
            let t = stream_answer(s, Some(Some(Answer::PageData { page_no, data })), shown);
            &&& s.direction == Direction::Pull && awaiting(s) ==> {
                &&& t.received.len() == s.received.len() + 1
                &&& t.received.drop_last() == s.received
                &&& t.received.last() == (page_no, data@)
            }
            &&& !(s.direction == Direction::Pull && awaiting(s)) ==> t.received == s.received
        }),
        !(other matches Some(Some(Answer::PageData { .. }))) ==> stream_answer(s, other, shown).received
            == s.received,
        stream_next(s).1.received == s.received,
{
    let t = stream_answer(s, Some(Some(Answer::PageData { page_no, data })), shown);
    if s.direction == Direction::Pull && awaiting(s) {
        assert(t.received.drop_last() =~= s.received);
    }
}

/// A push that is asked for a page sends the bytes of its own page of that
/// number (the last one, where a number came twice), and fails where it has
/// none; a pull does nothing.
pub proof fn law_asked_page_is_sent(s: StreamView, page_no: u32, i: int, shown: Seq<char>)
    requires
        awaiting(s),
    ensures
        ({
            let t = stream_answer(s, Some(Some(Answer::RequestPage { page_no })), shown);
            &&& s.direction == Direction::Push && 0 <= i < s.pages.len() && s.pages[i].page_no
                == page_no && (forall|j: int|
                i < j < s.pages.len() ==> (#[trigger] s.pages[j]).page_no != page_no) ==> t.queue
                == s.queue.push(
                StreamActionView::Send(
                    Some(RequestView::PageData { page_no, data: s.pages[i].data@ }),
                ),
            )
            &&& s.direction == Direction::Push && (forall|j: int|
                0 <= j < s.pages.len() ==> (#[trigger] s.pages[j]).page_no != page_no) ==> t.queue
                == s.queue.push(
                StreamActionView::Fail(
                    "server requested unknown page "@ + decimal(page_no as nat),
                ),
            )
            &&& s.direction == Direction::Pull ==> t.queue == s.queue
            &&& t == (StreamView { queue: t.queue, phase: t.phase, ..s })
            &&& t.phase == if s.phase == StreamPhase::Answer {
                StreamPhase::Announcing
            } else {
                StreamPhase::Draining
            }
        }),
{
    reveal_with_fuel(requests_served, 2);
    let ns = seq![page_no];
    assert(ns.skip(1) =~= Seq::empty());
    if is_last_of(s.pages, page_no, i) {
        lemma_page_of(s.pages, page_no, i);
    }
    let t = stream_answer(s, Some(Some(Answer::RequestPage { page_no })), shown);
    if s.direction == Direction::Push {
        assert(requests_served(s.pages, ns) =~= seq![requests_served(s.pages, ns)[0]]);
        assert(t.queue =~= s.queue.push(requests_served(s.pages, ns)[0]));
    } else {
        assert(t.queue =~= s.queue);
    }
}

/// A push that is asked for several pages it has sends them in the order of
/// their numbers in the request, each with the bytes of its own page.
pub proof fn law_asked_pages_are_sent(s: StreamView, page_numbers: Vec<u32>, shown: Seq<char>)
    requires
        awaiting(s),
        s.direction == Direction::Push,
        forall|k: int| 0 <= k < page_numbers@.len() ==> has_page(s.pages, #[trigger] page_numbers@[k]),
    ensures
        ({
            let t = stream_answer(s, Some(Some(Answer::RequestPages { page_numbers })), shown);
            &&& t.queue.len() == s.queue.len() + page_numbers@.len()
            &&& forall|k: int| 0 <= k < s.queue.len() ==> #[trigger] t.queue[k] == s.queue[k]
            &&& forall|k: int, i: int|
                #![trigger page_numbers@[k], s.pages[i]]
                0 <= k < page_numbers@.len() && is_last_of(s.pages, page_numbers@[k], i)
                    ==> t.queue[s.queue.len() + k] == StreamActionView::Send(
                    Some(
                        RequestView::PageData {
                            page_no: page_numbers@[k],
                            data: s.pages[i].data@,
                        },
                    ),
                )
        }),
{
    let t = stream_answer(s, Some(Some(Answer::RequestPages { page_numbers })), shown);
    super::sync_cmd::law_requests_are_served(s.pages, page_numbers@);
    assert forall|k: int, i: int|
        #![trigger page_numbers@[k], s.pages[i]]
        0 <= k < page_numbers@.len() && is_last_of(s.pages, page_numbers@[k], i) implies t.queue[
    s.queue.len() + k] == StreamActionView::Send(
        Some(RequestView::PageData { page_no: page_numbers@[k], data: s.pages[i].data@ }),
    ) by {
        lemma_page_of(s.pages, page_numbers@[k], i);
        assert(t.queue[s.queue.len() + k] == requests_served(s.pages, page_numbers@)[k]);
    }
}

/// A report is shown with its own numbers, and ends the flow once everything
/// was announced; an error of the server fails the flow with its words; any
/// other answer changes at most which answer is awaited.
pub proof fn law_flow_takes_reports(
    s: StreamView,
    pages_transferred: u64,
    bytes_transferred: u64,
    message: String,
    max_page: u32,
    shown: Seq<char>,
)
    requires
        awaiting(s),
    ensures
        ({
            let t = stream_answer(
                s,
                Some(Some(Answer::SyncComplete { pages_transferred, bytes_transferred })),
                shown,
            );
            &&& t.queue == s.queue.push(
                StreamActionView::Show(
                    "sync complete: "@ + decimal(pages_transferred as nat) + " pages, "@ + decimal(
                        bytes_transferred as nat,
                    ) + " bytes"@,
                ),
            )
            &&& s.phase == StreamPhase::Draining <==> t.phase == StreamPhase::Finished
            &&& s.phase == StreamPhase::Answer ==> t.phase == StreamPhase::Announcing
            &&& t == (StreamView { queue: t.queue, phase: t.phase, ..s })
        }),
        ({
            let t = stream_answer(s, Some(Some(Answer::Error { message })), shown);
            &&& t.queue == s.queue.push(StreamActionView::Fail("server error: "@ + message@))
            &&& t == (StreamView { queue: t.queue, phase: t.phase, ..s })
        }),
        forall|a: Answer| #[trigger]
            is_silent(a) ==> {
                let t = stream_answer(s, Some(Some(a)), shown);
                t.queue == s.queue && t.phase != StreamPhase::Finished && t == (StreamView {
                    phase: t.phase,
                    ..s
                })
            },
        ({
            let t = stream_answer(s, Some(None), shown);
            t.queue == s.queue && t.phase != StreamPhase::Finished && t == (StreamView {
                phase: t.phase,
                ..s
            })
        }),
        ({
            let t = stream_answer(s, None, shown);
            t == (StreamView { phase: t.phase, ..s }) && (s.phase == StreamPhase::Draining
                <==> t.phase == StreamPhase::Finished)
        }),
{
    let report = answered(s, Some(Answer::SyncComplete { pages_transferred, bytes_transferred }));
    assert(report.queue =~= s.queue.push(report.queue.last()));
    let failure = answered(s, Some(Answer::Error { message }));
    assert(failure.queue =~= s.queue.push(failure.queue.last()));
    assert(s.queue + Seq::<StreamActionView>::empty() =~= s.queue);
}

/// Whether an answer asks for nothing and says nothing of the sync.
pub open spec fn is_silent(a: Answer) -> bool {
    a is HelloReply || a is Other
}

/// The server's greeting starts the announcements; anything in its place fails
/// the flow, and the failure says what came.
pub proof fn law_flow_needs_the_greeting(
    s: StreamView,
    max_page: u32,
    a: Option<Option<Answer>>,
    shown: Seq<char>,
)
    requires
        s.phase == StreamPhase::Greeting,
    ensures
        ({
            let t = stream_answer(s, Some(Some(Answer::HelloReply { max_page })), shown);
            &&& t == (StreamView { phase: StreamPhase::Announcing, total: t.total, ..s })
            &&& s.direction == Direction::Push ==> t.total == s.total
            &&& s.direction == Direction::Pull ==> t.total >= max_page && t.total >= s.local_max
                && (t.total == max_page || t.total == s.local_max)
        }),
        !(a matches Some(Some(Answer::HelloReply { .. }))) ==> {
            let t = stream_answer(s, a, shown);
            &&& t == (StreamView { queue: t.queue, ..s })
            &&& t.queue == s.queue.push(
                StreamActionView::Fail(
                    match a {
                        None => "server closed unexpectedly"@,
                        Some(None) => "server closed before HelloReply"@,
                        Some(Some(_)) => "expected HelloReply, got "@ + shown,
                    },
                ),
            )
        },
{
}

// ---------- whole runs ----------

/// What happens to a flow: it is asked what to do next, or an answer is handed
/// in.
pub enum StreamStep {
    Next,
    Hand(Option<Option<Answer>>, Seq<char>),
}

/// Where the flow stands after steps.
pub open spec fn after_steps(s: StreamView, steps: Seq<StreamStep>) -> StreamView
    decreases steps.len(),
{
    if steps.len() == 0 {
        s
    } else {
        let t = after_steps(s, steps.drop_last());
        match steps.last() {
            StreamStep::Next => stream_next(t).1,
            StreamStep::Hand(a, shown) => stream_answer(t, a, shown),
        }
    }
}

/// What the flow had done in steps.
pub open spec fn actions_of(s: StreamView, steps: Seq<StreamStep>) -> Seq<StreamActionView>
    decreases steps.len(),
{
    if steps.len() == 0 {
        Seq::empty()
    } else {
        let before = actions_of(s, steps.drop_last());
        match steps.last() {
            StreamStep::Next => before.push(
                stream_next(after_steps(s, steps.drop_last())).0,
            ),
            StreamStep::Hand(..) => before,
        }
    }
}

/// The announcements among actions.
pub open spec fn announcements(actions: Seq<StreamActionView>) -> Seq<RequestView>
    decreases actions.len(),
{
    if actions.len() == 0 {
        Seq::empty()
    } else {
        let before = announcements(actions.drop_last());
        match actions.last() {
            StreamActionView::Send(Some(RequestView::PageHash { page_no, hash })) => before.push(
                RequestView::PageHash { page_no, hash },
            ),
            _ => before,
        }
    }
}

/// Whether the end of the announcements is among actions.
pub open spec fn completed(actions: Seq<StreamActionView>) -> bool {
    actions.contains(StreamActionView::Send(Some(RequestView::Complete)))
}

/// Whether an action neither announces a page nor ends the announcements.
spec fn is_plain(a: StreamActionView) -> bool {
    !(a matches StreamActionView::Send(Some(RequestView::PageHash { .. }))) && a
        != StreamActionView::Send(Some(RequestView::Complete))
}

spec fn plain(queue: Seq<StreamActionView>) -> bool {
    forall|i: int| 0 <= i < queue.len() ==> is_plain(#[trigger] queue[i])
}

proof fn lemma_served_plain(pages: Seq<Page>, ns: Seq<u32>)
    ensures
        plain(requests_served(pages, ns)),
    decreases ns.len(),
{
    if ns.len() > 0 && has_page(pages, ns[0]) {
        lemma_served_plain(pages, ns.skip(1));
        assert(is_plain(page_sent(pages, ns[0])));
    }
}

/// What every state of a run keeps: what is set at the start stays, and
/// nothing is announced but by its turn.
spec fn kept(s: StreamView, t: StreamView, actions: Seq<StreamActionView>) -> bool {
    &&& t.direction == s.direction
    &&& t.pages == s.pages
    &&& t.local_max == s.local_max
    &&& plain(t.queue)
    &&& 0 <= t.next <= t.total
    &&& s.direction == Direction::Push ==> t.total == s.total
    &&& s.direction == Direction::Pull ==> t.total <= u32::MAX
    &&& t.phase == StreamPhase::Start || t.phase == StreamPhase::Greeting ==> t.next == 0
    &&& t.phase == StreamPhase::Closing || t.phase == StreamPhase::Draining ==> t.next == t.total
    &&& completed(actions) ==> t.next == t.total && t.phase != StreamPhase::Start && t.phase
        != StreamPhase::Greeting
    &&& announcements(actions).len() == t.next
}

proof fn lemma_action_added(before: Seq<StreamActionView>, a: StreamActionView)
    ensures
        completed(before.push(a)) <==> completed(before) || a == StreamActionView::Send(
            Some(RequestView::Complete),
        ),
        match a {
            StreamActionView::Send(Some(RequestView::PageHash { page_no, hash })) => {
                announcements(before.push(a)) == announcements(before).push(
                    RequestView::PageHash { page_no, hash },
                )
            },
            _ => announcements(before.push(a)) == announcements(before),
        },
{
    assert(before.push(a).drop_last() =~= before);
    vstd::seq_lib::lemma_seq_contains_after_push(
        before,
        a,
        StreamActionView::Send(Some(RequestView::Complete)),
    );
}

proof fn lemma_handed(s: StreamView, t: StreamView, actions: Seq<StreamActionView>, a: Option<
    Option<Answer>,
>, shown: Seq<char>)
    requires
        kept(s, t, actions),
    ensures
        kept(s, stream_answer(t, a, shown), actions),
        stream_answer(t, a, shown).next == t.next,
{
    if awaiting(t) {
        match a {
            Some(Some(Answer::RequestPage { page_no })) => {
                lemma_served_plain(t.pages, seq![page_no]);
            },
            Some(Some(Answer::RequestPages { page_numbers })) => {
                lemma_served_plain(t.pages, page_numbers@);
            },
            _ => {},
        }
    }
}

proof fn lemma_went_on(s: StreamView, t: StreamView, actions: Seq<StreamActionView>)
    requires
        kept(s, t, actions),
    ensures
        kept(s, stream_next(t).1, actions.push(stream_next(t).0)),
{
    let (a, u) = stream_next(t);
    lemma_action_added(actions, a);
    if t.queue.len() > 0 {
        assert(is_plain(t.queue[0]));
        assert forall|i: int| 0 <= i < u.queue.len() implies is_plain(#[trigger] u.queue[i]) by {
            assert(u.queue[i] == t.queue[i + 1]);
        }
    } else if t.phase == StreamPhase::Announcing && t.next < t.total {
        assert(announcements(actions.push(a)).len() == announcements(actions).len() + 1);
        assert(!completed(actions));
    }
}

proof fn lemma_kept(s: StreamView, steps: Seq<StreamStep>)
    requires
        s.phase == StreamPhase::Start,
        s.next == 0,
        s.queue.len() == 0,
        s.direction == Direction::Push ==> s.total >= 0,
        s.direction == Direction::Pull ==> s.total == 0,
    ensures
        kept(s, after_steps(s, steps), actions_of(s, steps)),
    decreases steps.len(),
{
    if steps.len() > 0 {
        lemma_kept(s, steps.drop_last());
        let t = after_steps(s, steps.drop_last());
        let before = actions_of(s, steps.drop_last());
        match steps.last() {
            StreamStep::Next => {
                lemma_went_on(s, t, before);
            },
            StreamStep::Hand(a, shown) => {
                lemma_handed(s, t, before, a, shown);
            },
        }
    }
}

/// A flow starts with the pages and the last page that it is given, with
/// nothing announced, queued or received; a push has one announcement to make
/// for each page.
pub proof fn law_flow_starts(pages: Seq<Page>, local_max: u32)
    ensures
        ({
            let s = push_start(pages, local_max);
            &&& s.direction == Direction::Push
            &&& s.pages == pages
            &&& s.total == pages.len()
            &&& s.next == 0 && s.queue.len() == 0 && s.received.len() == 0
            &&& stream_next(s).0 == StreamActionView::Send(
                Some(
                    RequestView::Hello {
                        protocol_version: 1,
                        page_size: 4096,
                        max_page: local_max,
                    },
                ),
            )
        }),
        ({
            let s = pull_start(pages, local_max);
            &&& s.direction == Direction::Pull
            &&& s.pages == pages
            &&& s.next == 0 && s.queue.len() == 0 && s.received.len() == 0
            &&& stream_next(s).0 == StreamActionView::Send(
                Some(
                    RequestView::Hello {
                        protocol_version: 1,
                        page_size: 4096,
                        max_page: local_max,
                    },
                ),
            )
        }),
{
    law_flow_greets(push_start(pages, local_max));
    law_flow_greets(pull_start(pages, local_max));
}

/// However a push runs, its announcements are its own pages in their order,
/// each once: the k-th has the number of the k-th page and, where that page is
/// hashed, the digest of that page's bytes. It says that it is complete only
/// once every page was announced.
pub proof fn law_push_run_announces_each_page_once(
    pages: Seq<Page>,
    local_max: u32,
    steps: Seq<StreamStep>,
)
    ensures
        ({
            let actions = actions_of(push_start(pages, local_max), steps);
            let sent = announcements(actions);
            &&& sent.len() <= pages.len()
            &&& forall|k: int|
                0 <= k < sent.len() ==> (#[trigger] sent[k] matches RequestView::PageHash {
                    page_no,
                    hash,
                } && page_no == pages[k].page_no && hash == pages[k].hash@ && (
                pages[k].hashed() ==> hash == hex_text(blake3_digest(pages[k].data@))))
            &&& completed(actions) ==> sent.len() == pages.len()
        }),
    decreases steps.len(),
{
    let s = push_start(pages, local_max);
    lemma_kept(s, steps);
    if steps.len() > 0 {
        let before = steps.drop_last();
        law_push_run_announces_each_page_once(pages, local_max, before);
        lemma_kept(s, before);
        let t = after_steps(s, before);
        let was = actions_of(s, before);
        if steps.last() is Next {
            let a = stream_next(t).0;
            lemma_action_added(was, a);
            if t.queue.len() > 0 {
                assert(is_plain(t.queue[0]));
            } else if t.phase == StreamPhase::Announcing && t.next < t.total {
                law_push_announces_its_page(t);
                let page = pages[t.next];
                assert(announcements(was.push(a)) == announcements(was).push(
                    RequestView::PageHash { page_no: page.page_no, hash: page.hash@ },
                ));
            }
        }
    }
}

/// However a pull runs, its announcements are the numbers from one on, each
/// once, with the hash of its own last page of that number, or none where it
/// has no such page. It says that it is complete only once every number was
/// announced up to its own last page and the one that the server named.
pub proof fn law_pull_run_announces_each_number_once(
    pages: Seq<Page>,
    local_max: u32,
    steps: Seq<StreamStep>,
)
    ensures
        ({
            let actions = actions_of(pull_start(pages, local_max), steps);
            let t = after_steps(pull_start(pages, local_max), steps);
            let sent = announcements(actions);
            &&& sent.len() <= t.total
            &&& forall|k: int|
                0 <= k < sent.len() ==> (#[trigger] sent[k] matches RequestView::PageHash {
                    page_no,
                    hash,
                } && {
                    &&& page_no == k + 1
                    &&& (forall|j: int|
                        0 <= j < pages.len() ==> (#[trigger] pages[j]).page_no != page_no)
                        ==> hash.len() == 0
                    &&& forall|i: int| #[trigger]
                        is_last_of(pages, page_no, i) ==> hash == pages[i].hash@
                })
            &&& completed(actions) ==> sent.len() == t.total
        }),
    decreases steps.len(),
{
    let s = pull_start(pages, local_max);
    lemma_kept(s, steps);
    if steps.len() > 0 {
        let before = steps.drop_last();
        law_pull_run_announces_each_number_once(pages, local_max, before);
        lemma_kept(s, before);
        let t = after_steps(s, before);
        let was = actions_of(s, before);
        if steps.last() is Next {
            let a = stream_next(t).0;
            lemma_action_added(was, a);
            if t.queue.len() > 0 {
                assert(is_plain(t.queue[0]));
            } else if t.phase == StreamPhase::Announcing && t.next < t.total {
                law_pull_announces_its_number(t, 0);
                let page_no = a->Send_0->0->PageHash_page_no;
                let hash = a->Send_0->0->PageHash_hash;
                assert(announcements(was.push(a)) == announcements(was).push(
                    RequestView::PageHash { page_no, hash },
                ));
                assert forall|i: int| #[trigger] is_last_of(pages, page_no, i) implies hash
                    == pages[i].hash@ by {
                    law_pull_announces_its_number(t, i);
                }
            }
        }
    }
}

/// The pages that were handed in while an answer was awaited, in order.
pub open spec fn pages_handed(s: StreamView, steps: Seq<StreamStep>) -> Seq<(u32, Seq<u8>)>
    decreases steps.len(),
{
    if steps.len() == 0 {
        Seq::empty()
    } else {
        let before = pages_handed(s, steps.drop_last());
        match steps.last() {
            StreamStep::Hand(Some(Some(Answer::PageData { page_no, data })), _) => if awaiting(
                after_steps(s, steps.drop_last()),
            ) {
                before.push((page_no, data@))
            } else {
                before
            },
            _ => before,
        }
    }
}

/// However a pull runs, what it received is the numbers and the bytes of the
/// pages that were handed in, in their order; a push receives nothing.
pub proof fn law_received_is_what_was_handed(
    pages: Seq<Page>,
    local_max: u32,
    steps: Seq<StreamStep>,
)
    ensures
        after_steps(pull_start(pages, local_max), steps).received == pages_handed(
            pull_start(pages, local_max),
            steps,
        ),
        after_steps(push_start(pages, local_max), steps).received.len() == 0,
    decreases steps.len(),
{
    if steps.len() > 0 {
        law_received_is_what_was_handed(pages, local_max, steps.drop_last());
        lemma_kept(pull_start(pages, local_max), steps.drop_last());
        lemma_kept(push_start(pages, local_max), steps.drop_last());
        let t = after_steps(pull_start(pages, local_max), steps.drop_last());
        let u = after_steps(push_start(pages, local_max), steps.drop_last());
        match steps.last() {
            StreamStep::Hand(Some(Some(Answer::PageData { page_no, data })), shown) => {
                law_received_grows_by_page_data(t, page_no, data, None, shown);
                law_received_grows_by_page_data(u, page_no, data, None, shown);
                if awaiting(t) {
                    let r = stream_answer(t, Some(Some(Answer::PageData { page_no, data })), shown);
                    assert(r.received =~= t.received.push((page_no, data@)));
                }
            },
            _ => {},
        }
    }
}

} // verus!
