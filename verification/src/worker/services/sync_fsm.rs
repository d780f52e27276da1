//! Transport-agnostic sync state machine. Drives the per-connection state
//! against a [`SyncStorage`]. Operates on [`SyncMessage`] frames in both
//! directions; the WebSocket layer just plumbs frames in and ships whatever
//! the machine emits.
//!
//! Direction (push vs pull) is set at construction from the verified
//! sync macaroon: the machine enforces who may send what.
//!
//! `SyncComplete` is emitted at most once: handlers route through
//! `maybe_emit_complete`, which short-circuits when `emitted_complete`
//! is already set. Multiple triggers (last `PageData`, `Complete`, peer
//! close) can each independently satisfy the emit predicate.

use std::collections::HashSet;
use vstd::prelude::*;

use super::sync_storage::{hashes_in_range, is_max_page, PageView, SyncStorage};
use crate::shared::error::StoreErrorView;
use crate::shared::clock::Clock;
use crate::shared::domain::enums::Direction;
use crate::shared::sync_protocol::{
    blake3_digest, entries_view, page_hash, MessageView, PageDataEntry, SyncMessage,
};
use crate::text::{bytes_eq, decimal, format_u64, has_prefix, join2};

verus! {

broadcast use vstd::std_specs::hash::group_hash_axioms;

/// Wire-protocol version carried in the [`SyncMessage::Hello`] handshake.
/// Same value as the frame-byte version, widened to the `u32` field on the
/// message.
pub const HANDSHAKE_VERSION: u32 = 1;

/// Frames in the order in which they were taken.
pub type SentFrames = Seq<MessageView>;

/// A frame that a sink refused: how many frames it had taken before, and why.
pub struct Refusal {
    pub taken: nat,
    pub frame: MessageView,
    pub why: Seq<char>,
}

/// Refusals in the order in which they came.
pub type Refusals = Seq<Refusal>;

/// Sink that the machine hands each outbound frame to. Refusing a frame
/// aborts the current `apply` call (e.g. the WebSocket send failed); the
/// machine does not retry or buffer.
pub trait Emit: Sized {
    /// The frames taken so far.
    spec fn sent(&self) -> SentFrames;

    /// The frames refused so far.
    spec fn refusals(&self) -> Refusals;

    /// Whether the sink never refuses a frame.
    spec fn willing(&self) -> bool;

    /// Whether what the sink remembers agrees with what it has seen.
    spec fn consistent(&self) -> bool;

    fn emit(&mut self, message: SyncMessage) -> (r: Result<(), String>)
        ensures
            final(self).willing() == old(self).willing(),
            old(self).consistent() ==> final(self).consistent(),
            old(self).willing() ==> r is Ok,
            match r {
                Ok(()) => {
                    &&& final(self).sent() == old(self).sent().push(message@)
                    &&& final(self).refusals() == old(self).refusals()
                },
                Err(e) => {
                    &&& final(self).sent() == old(self).sent()
                    &&& final(self).refusals() == old(self).refusals().push(
                        (Refusal { taken: old(self).sent().len(), frame: message@, why: e@ }),
                    )
                },
            },
    ;
}

/// A sink that keeps every frame.
pub struct Outbox {
    pub messages: Vec<SyncMessage>,
}

impl Outbox {
    pub fn new() -> (r: Self)
        ensures
            r.sent() == Seq::<MessageView>::empty(),
            r.refusals() == Seq::<Refusal>::empty(),
    {
        let r = Outbox { messages: Vec::new() };
        assert(r.sent() =~= Seq::<MessageView>::empty());
        r
    }
}

impl Emit for Outbox {
    open spec fn sent(&self) -> Seq<MessageView> {
        self.messages@.map_values(|m: SyncMessage| m@)
    }

    open spec fn refusals(&self) -> Seq<Refusal> {
        Seq::empty()
    }

    open spec fn willing(&self) -> bool {
        true
    }

    open spec fn consistent(&self) -> bool {
        true
    }

    fn emit(&mut self, message: SyncMessage) -> (r: Result<(), String>) {
        let ghost m = message;
        self.messages.push(message);
        assert(self.sent() =~= old(self).sent().push(m@));
        Ok(())
    }
}

// ---------- the model ----------

/// The state of a session, with the pages stored beside it.
#[verifier::ext_equal]
pub struct FsmView {
    pub direction: Direction,
    pub saw_hello: bool,
    pub completed_hash_phase: bool,
    pub pending: Set<u32>,
    pub client_seen: Set<u32>,
    pub server_max_page: u32,
    pub pages_transferred: u64,
    pub bytes_transferred: u64,
    pub emitted_complete: bool,
    pub pages: Map<u32, PageView>,
}

/// What a message does: the next state, the frames emitted, and the refusal
/// where there is one. Counters wrap around.
#[verifier::ext_equal]
pub struct Effect {
    pub next: FsmView,
    pub frames: Seq<MessageView>,
    pub fault: Option<Seq<char>>,
}

pub open spec fn goes(next: FsmView, frames: Seq<MessageView>) -> Effect {
    Effect { next, frames, fault: None }
}

pub open spec fn refuses(s: FsmView, text: Seq<char>) -> Effect {
    Effect { next: s, frames: Seq::empty(), fault: Some(text) }
}

/// The page that ends the stored ones.
pub open spec fn max_page_of(pages: Map<u32, PageView>) -> u32 {
    choose|max: u32| is_max_page(pages, max)
}

/// The single emission gate: `SyncComplete` is due once the hash phase is over
/// and no page is awaited, and only the first time.
pub open spec fn complete_due(s: FsmView) -> bool {
    !s.emitted_complete && s.completed_hash_phase && s.pending.is_empty()
}

pub open spec fn gate(s: FsmView) -> Effect {
    if complete_due(s) {
        goes(
            FsmView { emitted_complete: true, ..s },
            seq![
                MessageView::SyncComplete {
                    pages_transferred: s.pages_transferred,
                    bytes_transferred: s.bytes_transferred,
                },
            ],
        )
    } else {
        goes(s, Seq::empty())
    }
}

pub open spec fn version_text(client: u32) -> Seq<char> {
    "protocol_version mismatch: server=1, client="@ + decimal(client as nat)
}

pub open spec fn on_hello(s: FsmView, protocol_version: u32, page_size: u32) -> Effect {
    if protocol_version != HANDSHAKE_VERSION {
        refuses(s, version_text(protocol_version))
    } else {
        let max_page = max_page_of(s.pages);
        goes(
            FsmView { saw_hello: true, server_max_page: max_page, ..s },
            seq![
                MessageView::HelloReply { protocol_version: HANDSHAKE_VERSION, page_size, max_page },
            ],
        )
    }
}

/// One page more sent to the client or taken from it.
pub open spec fn counted(s: FsmView, data: Seq<u8>) -> FsmView {
    FsmView {
        pages_transferred: s.pages_transferred.wrapping_add(1),
        bytes_transferred: s.bytes_transferred.wrapping_add(data.len() as u64),
        ..s
    }
}

pub open spec fn on_page_hash(s: FsmView, page_no: u32, hash: Seq<u8>) -> Effect {
    let seen = FsmView { client_seen: s.client_seen.insert(page_no), ..s };
    if s.pages.contains_key(page_no) && s.pages[page_no].hash == hash {
        goes(seen, Seq::empty())
    } else if s.direction == Direction::Push {
        goes(
            FsmView { pending: s.pending.insert(page_no), ..seen },
            seq![MessageView::RequestPage { page_no }],
        )
    } else if s.pages.contains_key(page_no) {
        let data = s.pages[page_no].data;
        goes(counted(seen, data), seq![MessageView::PageData { page_no, data }])
    } else {
        goes(seen, Seq::empty())
    }
}

/// The page numbers `from..=to`.
pub open spec fn page_range(from: u32, to: u32) -> Seq<u32> {
    Seq::new(
        if from <= to {
            (to - from + 1) as nat
        } else {
            0
        },
        |i: int| (from + i) as u32,
    )
}

pub open spec fn on_hash_batch(s: FsmView, from: u32, to: u32, combined: Seq<u8>) -> Effect {
    if blake3_digest(hashes_in_range(s.pages, from as int, to as int)) == combined {
        goes(s, Seq::empty())
    } else {
        goes(s, seq![MessageView::HashMismatchBatch { page_numbers: page_range(from, to) }])
    }
}

/// A page taken from the client.
pub open spec fn stored(s: FsmView, page_no: u32, data: Seq<u8>) -> FsmView {
    counted(
        FsmView {
            pending: s.pending.remove(page_no),
            pages: s.pages.insert(page_no, PageView { data, hash: blake3_digest(data) }),
            ..s
        },
        data,
    )
}

pub open spec fn on_page_data(s: FsmView, page_no: u32, data: Seq<u8>) -> Effect {
    gate(stored(s, page_no, data))
}

pub open spec fn on_data_batch(s: FsmView, entries: Seq<(u32, Seq<u8>)>) -> Effect
    decreases entries.len(),
{
    if entries.len() == 0 {
        goes(s, Seq::empty())
    } else {
        let before = on_data_batch(s, entries.drop_last());
        let last = on_page_data(before.next, entries.last().0, entries.last().1);
        goes(last.next, before.frames + last.frames)
    }
}

/// The stored pages of `from..=to` that the client did not claim, ascending.
pub open spec fn unclaimed(
    pages: Map<u32, PageView>,
    seen: Set<u32>,
    from: int,
    to: int,
) -> Seq<(u32, Seq<u8>)>
    decreases to - from + 1,
{
    if from > to {
        Seq::empty()
    } else {
        let before = unclaimed(pages, seen, from, to - 1);
        let n = to as u32;
        if pages.contains_key(n) && !seen.contains(n) {
            before.push((n, pages[n].data))
        } else {
            before
        }
    }
}

/// The state after sending pages.
pub open spec fn served(s: FsmView, list: Seq<(u32, Seq<u8>)>) -> FsmView
    decreases list.len(),
{
    if list.len() == 0 {
        s
    } else {
        counted(served(s, list.drop_last()), list.last().1)
    }
}

/// The frames that send pages.
pub open spec fn page_frames(list: Seq<(u32, Seq<u8>)>) -> Seq<MessageView> {
    list.map_values(|e: (u32, Seq<u8>)| MessageView::PageData { page_no: e.0, data: e.1 })
}

/// The pages that the end of the hash phase makes the server send: on a pull,
/// every page that the client did not claim.
pub open spec fn owed(s: FsmView) -> Seq<(u32, Seq<u8>)> {
    if s.direction == Direction::Pull && s.server_max_page > 0 {
        unclaimed(s.pages, s.client_seen, 1, s.server_max_page as int)
    } else {
        Seq::empty()
    }
}

pub open spec fn on_complete(s: FsmView) -> Effect {
    let s1 = FsmView { completed_hash_phase: true, ..s };
    let g = gate(served(s1, owed(s1)));
    goes(g.next, page_frames(owed(s1)) + g.frames)
}

/// What one inbound message does.
pub open spec fn step(s: FsmView, m: MessageView) -> Effect {
    if !s.saw_hello {
        match m {
            MessageView::Hello { protocol_version, page_size, .. } => on_hello(
                s,
                protocol_version,
                page_size,
            ),
            _ => refuses(s, "first message must be Hello"@),
        }
    } else {
        match m {
            MessageView::Hello { .. } => refuses(s, "Hello may only be sent once"@),
            MessageView::PageHash { page_no, hash } => on_page_hash(s, page_no, hash),
            MessageView::PageHashBatch { start_page, end_page, combined_hash } => on_hash_batch(
                s,
                start_page,
                end_page,
                combined_hash,
            ),
            MessageView::PageData { page_no, data } => if s.direction == Direction::Push {
                on_page_data(s, page_no, data)
            } else {
                refuses(s, "page bytes may only be sent on a push"@)
            },
            MessageView::PageDataBatch { pages } => if s.direction == Direction::Push {
                on_data_batch(s, pages)
            } else {
                refuses(s, "page bytes may only be sent on a push"@)
            },
            MessageView::Complete => on_complete(s),
            _ => refuses(s, "client may not send server-originated message"@),
        }
    }
}

/// The state once the client has gone: done where nothing is awaited any more.
pub open spec fn closed_by_client(s: FsmView) -> FsmView {
    if s.saw_hello && complete_due(s) {
        FsmView { emitted_complete: true, ..s }
    } else {
        s
    }
}

/// How many frames report completion.
pub open spec fn completions(frames: Seq<MessageView>) -> nat
    decreases frames.len(),
{
    if frames.len() == 0 {
        0
    } else if frames.last() is SyncComplete {
        completions(frames.drop_last()) + 1
    } else {
        completions(frames.drop_last())
    }
}

/// What a sink has seen.
#[verifier::ext_equal]
pub struct Trace {
    pub sent: Seq<MessageView>,
    pub refusals: Seq<Refusal>,
}

pub open spec fn trace<E: Emit>(sink: E) -> Trace {
    Trace { sent: sink.sent(), refusals: sink.refusals() }
}

/// Whether a sink is as willing as before, and remembers as well.
pub open spec fn sink_kept<E: Emit>(before: E, after: E) -> bool {
    &&& after.willing() == before.willing()
    &&& before.consistent() ==> after.consistent()
}

/// The state in which a batch of pages hands over its report.
pub open spec fn held_in_batch(s: FsmView, entries: Seq<(u32, Seq<u8>)>) -> FsmView
    decreases entries.len(),
{
    if entries.len() == 0 {
        s
    } else {
        let before = on_data_batch(s, entries.drop_last());
        if before.frames.len() > 0 {
            held_in_batch(s, entries.drop_last())
        } else {
            stored(before.next, entries.last().0, entries.last().1)
        }
    }
}

/// The state in which the frame at `k` of a message's answer is handed over.
/// The flag of completion is set only once the report was taken.
pub open spec fn held(s: FsmView, m: MessageView, k: int) -> FsmView {
    match m {
        MessageView::PageData { page_no, data } => stored(s, page_no, data),
        MessageView::PageDataBatch { pages } => held_in_batch(s, pages),
        MessageView::Complete => {
            let s1 = FsmView { completed_hash_phase: true, ..s };
            let due = owed(s1);
            served(
                s1,
                if k < due.len() {
                    due.take(k + 1)
                } else {
                    due
                },
            )
        },
        _ => step(s, m).next,
    }
}

/// Whether `next` is a state in which a message can be left when the backend
/// fails after `k` frames of its answer.
pub open spec fn stalled(s: FsmView, m: MessageView, k: int, next: FsmView) -> bool {
    match m {
        MessageView::Hello { .. } => k == 0 && next == (FsmView { saw_hello: true, ..s }),
        MessageView::PageHash { page_no, .. } => k == 0 && next == (FsmView {
            client_seen: s.client_seen.insert(page_no),
            ..s
        }),
        MessageView::PageHashBatch { .. } => k == 0 && next == s,
        MessageView::PageData { page_no, .. } => k == 0 && next == (FsmView {
            pending: s.pending.remove(page_no),
            ..s
        }),
        MessageView::PageDataBatch { pages } => exists|i: int|
            0 <= i < pages.len() && {
                let before = #[trigger] on_data_batch(s, pages.take(i));
                &&& k == before.frames.len()
                &&& next == (FsmView {
                    pending: before.next.pending.remove(pages[i].0),
                    ..before.next
                })
            },
        MessageView::Complete => {
            let s1 = FsmView { completed_hash_phase: true, ..s };
            k <= owed(s1).len() && next == served(s1, owed(s1).take(k))
        },
        _ => false,
    }
}

/// A call that carried out what a message does.
pub open spec fn finished(
    s: FsmView,
    m: MessageView,
    before: Trace,
    next: FsmView,
    after: Trace,
    r: Result<(), String>,
) -> bool {
    let e = step(s, m);
    &&& e.fault is None
    &&& r is Ok
    &&& next == e.next
    &&& after == (Trace { sent: before.sent + e.frames, ..before })
}

/// A call that refused a message, and did nothing else.
pub open spec fn turned_down(
    s: FsmView,
    m: MessageView,
    before: Trace,
    next: FsmView,
    after: Trace,
    r: Result<(), String>,
) -> bool {
    &&& step(s, m).fault matches Some(text) && r matches Err(t) && t@ == text
    &&& next == s
    &&& after == before
}

/// A call that ended when the sink refused the frame at `k`: the sink's error
/// is handed on as it is, and no other frame was tried after it.
pub open spec fn cut_off(
    s: FsmView,
    m: MessageView,
    before: Trace,
    next: FsmView,
    after: Trace,
    r: Result<(), String>,
    k: int,
) -> bool {
    let e = step(s, m);
    &&& e.fault is None
    &&& 0 <= k < e.frames.len()
    &&& r matches Err(t) && after == (Trace {
        sent: before.sent + e.frames.take(k),
        refusals: before.refusals.push(
            Refusal { taken: (before.sent.len() + k) as nat, frame: e.frames[k], why: t@ },
        ),
    })
    &&& next == held(s, m, k)
}

/// A call that ended when the backend failed, after `k` frames: the backend's
/// error is told.
pub open spec fn broken_off(
    s: FsmView,
    m: MessageView,
    before: Trace,
    next: FsmView,
    after: Trace,
    r: Result<(), String>,
    faults: Set<StoreErrorView>,
    k: int,
) -> bool {
    let e = step(s, m);
    &&& e.fault is None
    &&& 0 <= k <= e.frames.len()
    &&& after == (Trace { sent: before.sent + e.frames.take(k), ..before })
    &&& r matches Err(t) && tells(faults, t@)
    &&& stalled(s, m, k, next)
}

/// Whether a text is the message of one of the errors.
pub open spec fn tells(faults: Set<StoreErrorView>, text: Seq<char>) -> bool {
    exists|f: StoreErrorView| #[trigger] faults.contains(f) && text == f.text()
}

/// What a call did with a message: it carried it out, or refused it, or ended
/// where the sink or the backend failed. Neither fails where it never does.
pub open spec fn carried_out(
    s: FsmView,
    m: MessageView,
    before: Trace,
    next: FsmView,
    after: Trace,
    r: Result<(), String>,
    faults: Set<StoreErrorView>,
    reliable: bool,
    willing: bool,
) -> bool {
    ||| finished(s, m, before, next, after, r)
    ||| turned_down(s, m, before, next, after, r)
    ||| !willing && exists|k: int| cut_off(s, m, before, next, after, r, k)
    ||| !reliable && exists|k: int| broken_off(s, m, before, next, after, r, faults, k)
}

/// The pages that a message stores.
pub open spec fn written(s: FsmView, m: MessageView) -> Seq<(u32, Seq<u8>)> {
    if s.saw_hello && s.direction == Direction::Push {
        match m {
            MessageView::PageData { page_no, data } => seq![(page_no, data)],
            MessageView::PageDataBatch { pages } => pages,
            _ => Seq::empty(),
        }
    } else {
        Seq::empty()
    }
}

/// The times of stored pages after pages were stored at times, one by one.
pub open spec fn timed(before: Map<u32, i64>, list: Seq<(u32, Seq<u8>)>, times: Seq<i64>) -> Map<
    u32,
    i64,
>
    decreases list.len(),
{
    if list.len() == 0 {
        before
    } else {
        timed(before, list.drop_last(), times.drop_last()).insert(list.last().0, times.last())
    }
}

/// Whether pages were stored in order, each at a time that the clock shows:
/// the first of them, or all where the call succeeded. The times of other
/// pages stay.
pub open spec fn times_kept<C: Clock>(
    clock: C,
    list: Seq<(u32, Seq<u8>)>,
    before: Map<u32, i64>,
    after: Map<u32, i64>,
    all: bool,
) -> bool {
    exists|times: Seq<i64>|
        {
            &&& times.len() <= list.len()
            &&& all ==> times.len() == list.len()
            &&& forall|i: int| 0 <= i < times.len() ==> clock.shows(#[trigger] times[i])
            &&& after == #[trigger] timed(before, list.take(times.len() as int), times)
        }
}

/// Whether the completion flag tells what was sent: it is set with the one
/// frame that reports completion, and stays set.
pub open spec fn flag_kept(
    s: FsmView,
    before: Seq<MessageView>,
    next: FsmView,
    after: Seq<MessageView>,
) -> bool {
    &&& s.emitted_complete ==> next.emitted_complete
    &&& completions(after) == completions(before) + if next.emitted_complete
        && !s.emitted_complete {
        1nat
    } else {
        0nat
    }
}

// ---------- the machine ----------

/// One sync session's worth of state.
pub struct SyncFsm<S: SyncStorage, C: Clock> {
    storage: S,
    clock: C,
    direction: Direction,
    saw_hello: bool,
    completed_hash_phase: bool,
    pending_requests: HashSet<u32>,
    /// Page numbers the client claims to have. Populated from inbound
    /// `PageHash` frames. Used in pull to skip pages the client already
    /// has (matching hash) or has been served inline (mismatching hash);
    /// any server page NOT in this set on `Complete` is sent fresh.
    client_seen: HashSet<u32>,
    /// Cached snapshot of the storage's `max_page()` taken at handshake
    /// time. Storage is single-writer within a session, so the value is
    /// stable for the duration of the session.
    server_max_page: u32,
    pages_transferred: u64,
    bytes_transferred: u64,
    emitted_complete: bool,
}

impl<S: SyncStorage, C: Clock> View for SyncFsm<S, C> {
    type V = FsmView;

    closed spec fn view(&self) -> FsmView {
        FsmView {
            direction: self.direction,
            saw_hello: self.saw_hello,
            completed_hash_phase: self.completed_hash_phase,
            pending: self.pending_requests@,
            client_seen: self.client_seen@,
            server_max_page: self.server_max_page,
            pages_transferred: self.pages_transferred,
            bytes_transferred: self.bytes_transferred,
            emitted_complete: self.emitted_complete,
            pages: self.storage.pages(),
        }
    }
}

/// The state of a session that has not begun.
pub open spec fn fresh_session(direction: Direction, pages: Map<u32, PageView>) -> FsmView {
    FsmView {
        direction,
        saw_hello: false,
        completed_hash_phase: false,
        pending: Set::empty(),
        client_seen: Set::empty(),
        server_max_page: 0,
        pages_transferred: 0,
        bytes_transferred: 0,
        emitted_complete: false,
        pages,
    }
}

impl<S: SyncStorage, C: Clock> SyncFsm<S, C> {
    /// Whether the storage never fails.
    pub closed spec fn reliable(&self) -> bool {
        self.storage.reliable()
    }

    /// What the storage may fail with.
    pub closed spec fn faults(&self) -> Set<StoreErrorView> {
        self.storage.faults()
    }

    /// The clock that stored pages are timed by.
    pub closed spec fn clock(&self) -> C {
        self.clock
    }

    /// When each page was stored.
    pub closed spec fn stored_at(&self) -> Map<u32, i64> {
        self.storage.stored_at()
    }

    /// Whether `later` has the same clock and a storage of the same kind.
    pub open spec fn same_setting(&self, later: &Self) -> bool {
        &&& later.reliable() == self.reliable()
        &&& later.faults() == self.faults()
        &&& later.clock() == self.clock()
    }

    pub fn new(storage: S, clock: C, direction: Direction) -> (r: Self)
        ensures
            r@ == fresh_session(direction, storage.pages()),
            r.reliable() == storage.reliable(),
            r.faults() == storage.faults(),
            r.clock() == clock,
            r.stored_at() == storage.stored_at(),
    {
        let r = SyncFsm {
            storage,
            clock,
            direction,
            saw_hello: false,
            completed_hash_phase: false,
            pending_requests: HashSet::new(),
            client_seen: HashSet::new(),
            server_max_page: 0,
            pages_transferred: 0,
            bytes_transferred: 0,
            emitted_complete: false,
        };
        assert(r@ =~= fresh_session(direction, storage.pages()));
        r
    }

    /// The pages that the session reads and writes.
    pub fn storage(&self) -> (r: &S)
        ensures
            r.pages() == self@.pages,
            r.stored_at() == self.stored_at(),
            r.reliable() == self.reliable(),
            r.faults() == self.faults(),
    {
        &self.storage
    }

    /// Drive one inbound message through the machine, handing any outbound
    /// frames to `sink` in order. The machine never buffers more than one
    /// outbound message at a time: this is what keeps a pull of a multi-GB DB
    /// from holding every page in worker RAM.
    pub fn apply<E: Emit>(&mut self, msg: &SyncMessage, sink: &mut E) -> (r: Result<(), String>)
        ensures
            old(self).same_setting(final(self)),
            sink_kept(*old(sink), *final(sink)),
            carried_out(
                old(self)@,
                msg@,
                trace(*old(sink)),
                final(self)@,
                trace(*final(sink)),
                r,
                old(self).faults(),
                old(self).reliable(),
                old(sink).willing(),
            ),
            times_kept(
                old(self).clock(),
                written(old(self)@, msg@),
                old(self).stored_at(),
                final(self).stored_at(),
                r is Ok,
            ),
            flag_kept(old(self)@, old(sink).sent(), final(self)@, final(sink).sent()),
    {
        proof {
            lemma_no_times(self.clock(), written(self@, msg@), self.stored_at());
        }
        if !self.saw_hello {
            return match msg {
                SyncMessage::Hello { protocol_version, page_size, max_page } => {
                    self.handle_hello(*protocol_version, *page_size, Ghost(*max_page), sink)
                },
                _ => Err("first message must be Hello".to_owned()),
            };
        }
        match msg {
            SyncMessage::Hello { .. } => Err("Hello may only be sent once".to_owned()),
            SyncMessage::PageHash { page_no, hash } => {
                self.handle_page_hash(*page_no, hash.as_slice(), sink)
            },
            SyncMessage::PageHashBatch { start_page, end_page, combined_hash } => {
                self.handle_page_hash_batch(*start_page, *end_page, combined_hash.as_slice(), sink)
            },
            SyncMessage::PageData { page_no, data } => match self.direction {
                Direction::Push => self.handle_page_data(*page_no, data.as_slice(), sink),
                Direction::Pull => Err("page bytes may only be sent on a push".to_owned()),
            },
            SyncMessage::PageDataBatch { pages } => match self.direction {
                Direction::Push => self.handle_page_data_batch(pages, sink),
                Direction::Pull => Err("page bytes may only be sent on a push".to_owned()),
            },
            SyncMessage::Complete => self.handle_complete(sink),
            _ => Err("client may not send server-originated message".to_owned()),
        }
    }

    /// Called when the client side of the WebSocket closes (clean or
    /// otherwise). Marks the session as done if the predicate fits; the
    /// closed transport means we can't actually deliver anything, so
    /// no messages are emitted.
    pub fn client_closed(&mut self)
        ensures
            final(self)@ == closed_by_client(old(self)@),
            old(self).same_setting(final(self)),
            final(self).stored_at() == old(self).stored_at(),
    {
        if self.saw_hello && self.pending_requests.is_empty() {
            if !self.emitted_complete && self.completed_hash_phase {
                self.emitted_complete = true;
            }
        }
        assert(self@ =~= closed_by_client(old(self)@));
    }

    /// True once the machine has emitted SyncComplete. The handler uses this
    /// to decide when to close the WebSocket cleanly.
    pub fn done(&self) -> (r: bool)
        ensures
            r == self@.emitted_complete,
    {
        self.emitted_complete
    }

    // ----- handlers -----

    fn handle_hello<E: Emit>(
        &mut self,
        protocol_version: u32,
        page_size: u32,
        Ghost(max_page): Ghost<u32>,
        sink: &mut E,
    ) -> (r: Result<(), String>)
        requires
            !old(self)@.saw_hello,
        ensures
            old(self).same_setting(final(self)),
            sink_kept(*old(sink), *final(sink)),
            carried_out(
                old(self)@,
                (MessageView::Hello { protocol_version, page_size, max_page }),
                trace(*old(sink)),
                final(self)@,
                trace(*final(sink)),
                r,
                old(self).faults(),
                old(self).reliable(),
                old(sink).willing(),
            ),
            final(self).stored_at() == old(self).stored_at(),
            flag_kept(old(self)@, old(sink).sent(), final(self)@, final(sink).sent()),
    {
        let ghost m = MessageView::Hello { protocol_version, page_size, max_page };
        let ghost e = step(self@, m);
        let ghost before = trace(*sink);
        if protocol_version != HANDSHAKE_VERSION {
            return Err(
                join2(
                    "protocol_version mismatch: server=1, client=",
                    format_u64(protocol_version as u64).as_str(),
                ),
            );
        }
        self.saw_hello = true;
        match self.storage.max_page() {
            Ok(max) => {
                proof {
                    lemma_max_page(self.storage.pages(), max);
                }
                self.server_max_page = max;
            },
            Err(f) => {
                let text: String = f.to_string();
                proof {
                    assert(self@ =~= FsmView { saw_hello: true, ..old(self)@ });
                    lemma_broken(old(self)@, m, before, self@, f@, text, self.faults(), 0);
                }
                return Err(text);
            },
        }
        assert(self@ =~= e.next);
        let reply = SyncMessage::HelloReply {
            protocol_version: HANDSHAKE_VERSION,
            page_size,
            max_page: self.server_max_page,
        };
        proof {
            lemma_completions_push(sink.sent(), reply@);
            assert(e.frames =~= seq![reply@]);
        }
        let r: Result<(), String> = sink.emit(reply);
        proof {
            lemma_one_frame(old(self)@, m, before, self@, trace(*sink), r);
        }
        r
    }

    fn handle_page_hash<E: Emit>(&mut self, page_no: u32, hash: &[u8], sink: &mut E) -> (r: Result<
        (),
        String,
    >)
        requires
            old(self)@.saw_hello,
        ensures
            old(self).same_setting(final(self)),
            sink_kept(*old(sink), *final(sink)),
            carried_out(
                old(self)@,
                (MessageView::PageHash { page_no, hash: hash@ }),
                trace(*old(sink)),
                final(self)@,
                trace(*final(sink)),
                r,
                old(self).faults(),
                old(self).reliable(),
                old(sink).willing(),
            ),
            final(self).stored_at() == old(self).stored_at(),
            flag_kept(old(self)@, old(sink).sent(), final(self)@, final(sink).sent()),
    {
        let ghost m = MessageView::PageHash { page_no, hash: hash@ };
        let ghost e = step(self@, m);
        let ghost before = trace(*sink);
        // Record that the client claims this page so the post-`Complete`
        // walk in pull doesn't re-send it.
        self.client_seen.insert(page_no);
        assert(self@ =~= FsmView {
            client_seen: old(self)@.client_seen.insert(page_no),
            ..old(self)@
        });
        match self.storage.get_page_hash(page_no) {
            Ok(found) => {
                if let Some(stored) = found {
                    if bytes_eq(stored.as_slice(), hash) {
                        assert(sink.sent() + e.frames =~= sink.sent());
                        return Ok(());
                    }
                }
            },
            Err(f) => {
                let text: String = f.to_string();
                proof {
                    lemma_broken(old(self)@, m, before, self@, f@, text, self.faults(), 0);
                }
                return Err(text);
            },
        }
        match self.direction {
            Direction::Push => {
                self.pending_requests.insert(page_no);
                assert(self@ =~= e.next);
                let request = SyncMessage::RequestPage { page_no };
                proof {
                    lemma_completions_push(sink.sent(), request@);
                    assert(e.frames =~= seq![request@]);
                }
                let r: Result<(), String> = sink.emit(request);
                proof {
                    lemma_one_frame(old(self)@, m, before, self@, trace(*sink), r);
                }
                r
            },
            Direction::Pull => {
                match self.storage.get_page(page_no) {
                    Ok(found) => {
                        if let Some(data) = found {
                            self.bytes_transferred = self.bytes_transferred.wrapping_add(
                                data.len() as u64,
                            );
                            self.pages_transferred = self.pages_transferred.wrapping_add(1);
                            assert(self@ =~= e.next);
                            let page = SyncMessage::PageData { page_no, data };
                            proof {
                                lemma_completions_push(sink.sent(), page@);
                                assert(e.frames =~= seq![page@]);
                            }
                            let r: Result<(), String> = sink.emit(page);
                            proof {
                                lemma_one_frame(old(self)@, m, before, self@, trace(*sink), r);
                            }
                            return r;
                        }
                        assert(sink.sent() + e.frames =~= sink.sent());
                        Ok(())
                    },
                    Err(f) => {
                        let text: String = f.to_string();
                        proof {
                            lemma_broken(old(self)@, m, before, self@, f@, text, self.faults(), 0);
                        }
                        Err(text)
                    },
                }
            },
        }
    }

    fn handle_page_hash_batch<E: Emit>(
        &mut self,
        start_page: u32,
        end_page: u32,
        client_combined: &[u8],
        sink: &mut E,
    ) -> (r: Result<(), String>)
        requires
            old(self)@.saw_hello,
        ensures
            old(self).same_setting(final(self)),
            sink_kept(*old(sink), *final(sink)),
            carried_out(
                old(self)@,
                (MessageView::PageHashBatch {
                    start_page,
                    end_page,
                    combined_hash: client_combined@,
                }),
                trace(*old(sink)),
                final(self)@,
                trace(*final(sink)),
                r,
                old(self).faults(),
                old(self).reliable(),
                old(sink).willing(),
            ),
            final(self).stored_at() == old(self).stored_at(),
            flag_kept(old(self)@, old(sink).sent(), final(self)@, final(sink).sent()),
    {
        let ghost m = MessageView::PageHashBatch {
            start_page,
            end_page,
            combined_hash: client_combined@,
        };
        let ghost e = step(self@, m);
        let ghost before = trace(*sink);
        match self.storage.combined_hash(start_page, end_page) {
            Ok(stored) => {
                if bytes_eq(stored.as_slice(), client_combined) {
                    assert(sink.sent() + e.frames =~= sink.sent());
                    return Ok(());
                }
            },
            Err(f) => {
                let text: String = f.to_string();
                proof {
                    lemma_broken(old(self)@, m, before, self@, f@, text, self.faults(), 0);
                }
                return Err(text);
            },
        }
        let page_numbers: Vec<u32> = collect_range(start_page, end_page);
        let hint = SyncMessage::HashMismatchBatch { page_numbers };
        proof {
            lemma_completions_push(sink.sent(), hint@);
            assert(e.frames =~= seq![hint@]);
        }
        let r: Result<(), String> = sink.emit(hint);
        proof {
            lemma_one_frame(old(self)@, m, before, self@, trace(*sink), r);
        }
        r
    }

    fn handle_page_data<E: Emit>(&mut self, page_no: u32, data: &[u8], sink: &mut E) -> (r: Result<
        (),
        String,
    >)
        requires
            old(self)@.saw_hello,
            old(self)@.direction == Direction::Push,
        ensures
            old(self).same_setting(final(self)),
            sink_kept(*old(sink), *final(sink)),
            carried_out(
                old(self)@,
                (MessageView::PageData { page_no, data: data@ }),
                trace(*old(sink)),
                final(self)@,
                trace(*final(sink)),
                r,
                old(self).faults(),
                old(self).reliable(),
                old(sink).willing(),
            ),
            times_kept(
                old(self).clock(),
                seq![(page_no, data@)],
                old(self).stored_at(),
                final(self).stored_at(),
                r is Ok,
            ),
            flag_kept(old(self)@, old(sink).sent(), final(self)@, final(sink).sent()),
    {
        let ghost m = MessageView::PageData { page_no, data: data@ };
        let ghost e = step(self@, m);
        let ghost before = trace(*sink);
        let ghost list = seq![(page_no, data@)];
        self.pending_requests.remove(&page_no);
        let hash: Vec<u8> = page_hash(data);
        let now: i64 = self.clock.now_ms();
        match self.storage.put_page(page_no, data, hash.as_slice(), now) {
            Ok(()) => {},
            Err(f) => {
                let text: String = f.to_string();
                proof {
                    assert(self@ =~= FsmView {
                        pending: old(self)@.pending.remove(page_no),
                        ..old(self)@
                    });
                    lemma_broken(old(self)@, m, before, self@, f@, text, self.faults(), 0);
                    lemma_no_times(self.clock(), list, self.stored_at());
                }
                return Err(text);
            },
        }
        proof {
            let times = seq![now];
            assert(list.take(1) =~= list);
            assert(list.drop_last() =~= Seq::<(u32, Seq<u8>)>::empty());
            assert(timed(old(self).stored_at(), list.drop_last(), times.drop_last())
                == old(self).stored_at());
            assert(timed(old(self).stored_at(), list.take(1), times) =~= self.stored_at());
        }
        self.pages_transferred = self.pages_transferred.wrapping_add(1);
        self.bytes_transferred = self.bytes_transferred.wrapping_add(data.len() as u64);
        assert(self@ =~= stored(old(self)@, page_no, data@));
        let r: Result<(), String> = self.maybe_emit_complete(sink);
        proof {
            if r is Err {
                lemma_one_frame(old(self)@, m, before, self@, trace(*sink), r);
            }
        }
        r
    }

    fn handle_page_data_batch<E: Emit>(&mut self, pages: &Vec<PageDataEntry>, sink: &mut E) -> (r:
        Result<(), String>)
        requires
            old(self)@.saw_hello,
            old(self)@.direction == Direction::Push,
        ensures
            old(self).same_setting(final(self)),
            sink_kept(*old(sink), *final(sink)),
            carried_out(
                old(self)@,
                (MessageView::PageDataBatch { pages: entries_view(pages@) }),
                trace(*old(sink)),
                final(self)@,
                trace(*final(sink)),
                r,
                old(self).faults(),
                old(self).reliable(),
                old(sink).willing(),
            ),
            times_kept(
                old(self).clock(),
                entries_view(pages@),
                old(self).stored_at(),
                final(self).stored_at(),
                r is Ok,
            ),
            flag_kept(old(self)@, old(sink).sent(), final(self)@, final(sink).sent()),
    {
        let ghost start = self@;
        let ghost before = trace(*sink);
        let ghost all = entries_view(pages@);
        let ghost m = MessageView::PageDataBatch { pages: all };
        let ghost mut times: Seq<i64> = Seq::empty();
        assert(all.take(0) =~= Seq::<(u32, Seq<u8>)>::empty());
        assert(before.sent + Seq::<MessageView>::empty() =~= before.sent);
        let mut i: usize = 0;
        while i < pages.len()
            invariant
                i <= pages.len(),
                all == entries_view(pages@),
                m == (MessageView::PageDataBatch { pages: all }),
                start == old(self)@,
                start.saw_hello,
                start.direction == Direction::Push,
                before == trace(*old(sink)),
                old(self).same_setting(self),
                sink_kept(*old(sink), *sink),
                self@ == on_data_batch(start, all.take(i as int)).next,
                trace(*sink) == (Trace {
                    sent: before.sent + on_data_batch(start, all.take(i as int)).frames,
                    ..before
                }),
                flag_kept(start, before.sent, self@, sink.sent()),
                times.len() == i,
                forall|j: int| 0 <= j < i ==> old(self).clock().shows(#[trigger] times[j]),
                self.stored_at() == timed(old(self).stored_at(), all.take(i as int), times),
            decreases pages.len() - i,
        {
            let ghost done = on_data_batch(start, all.take(i as int));
            let ghost more = on_data_batch(start, all.take(i + 1));
            let ghost one = MessageView::PageData { page_no: all[i as int].0, data: all[i as int].1 };
            let ghost mid = trace(*sink);
            let ghost at = self.stored_at();
            proof {
                assert(all.take(i + 1).drop_last() =~= all.take(i as int));
                assert(all.take(i + 1).last() == (pages@[i as int].page_no, pages@[i
                    as int].data@));
                lemma_batch_kind(start, all.take(i as int));
            }
            let r: Result<(), String> = self.handle_page_data(
                pages[i].page_no,
                pages[i].data.as_slice(),
                sink,
            );
            proof {
                let list = seq![all[i as int]];
                let got = choose|got: Seq<i64>|
                    {
                        &&& got.len() <= list.len()
                        &&& r is Ok ==> got.len() == list.len()
                        &&& forall|j: int|
                            0 <= j < got.len() ==> old(self).clock().shows(#[trigger] got[j])
                        &&& self.stored_at() == #[trigger] timed(
                            at,
                            list.take(got.len() as int),
                            got,
                        )
                    };
                if got.len() == 1 {
                    assert(list.take(1).drop_last() =~= Seq::<(u32, Seq<u8>)>::empty());
                    assert(times.push(got[0]).drop_last() =~= times);
                    assert(timed(at, list.take(1).drop_last(), got.drop_last()) == at);
                    assert(self.stored_at() == at.insert(all[i as int].0, got[0]));
                    assert(self.stored_at() == timed(
                        old(self).stored_at(),
                        all.take(i + 1),
                        times.push(got[0]),
                    ));
                    times = times.push(got[0]);
                } else {
                    assert(list.take(0) =~= Seq::<(u32, Seq<u8>)>::empty());
                }
                lemma_batch_step(
                    start,
                    all,
                    i as int,
                    before,
                    self@,
                    trace(*sink),
                    r,
                    self.faults(),
                    old(self).reliable(),
                    old(sink).willing(),
                );
            }
            match r {
                Ok(()) => {},
                Err(e) => {
                    return Err(e);
                },
            }
            i = i + 1;
        }
        assert(all.take(i as int) =~= all);
        proof {
            assert(on_data_batch(start, all).fault is None);
        }
        Ok(())
    }

    fn handle_complete<E: Emit>(&mut self, sink: &mut E) -> (r: Result<(), String>)
        requires
            old(self)@.saw_hello,
        ensures
            old(self).same_setting(final(self)),
            sink_kept(*old(sink), *final(sink)),
            carried_out(
                old(self)@,
                (MessageView::Complete),
                trace(*old(sink)),
                final(self)@,
                trace(*final(sink)),
                r,
                old(self).faults(),
                old(self).reliable(),
                old(sink).willing(),
            ),
            final(self).stored_at() == old(self).stored_at(),
            flag_kept(old(self)@, old(sink).sent(), final(self)@, final(sink).sent()),
    {
        let ghost before = trace(*sink);
        let ghost base = sink.sent();
        let ghost m = MessageView::Complete;
        let ghost e = on_complete(self@);
        self.completed_hash_phase = true;
        let ghost s1 = self@;
        assert(s1 =~= FsmView { completed_hash_phase: true, ..old(self)@ });
        let ghost due = owed(s1);
        assert(page_frames(Seq::<(u32, Seq<u8>)>::empty()) =~= Seq::<MessageView>::empty());
        assert(base + Seq::<MessageView>::empty() =~= base);
        // Pull only: stream any page the client didn't claim. Pages the
        // client *did* claim were already handled inline (matched ones
        // skipped, mismatched ones sent). The walk holds one page at a time,
        // and each frame is shipped before the next page is read, so it runs
        // in bounded RAM regardless of DB size.
        let pull: bool = match self.direction {
            Direction::Pull => true,
            Direction::Push => false,
        };
        if pull && self.server_max_page > 0 {
            let mut from: u32 = 1;
            let mut more: bool = true;
            while more
                invariant
                    s1.pages == self.storage.pages(),
                    s1.client_seen == self.client_seen@,
                    s1.server_max_page == self.server_max_page,
                    s1.completed_hash_phase,
                    s1.direction == Direction::Pull,
                    s1 == (FsmView { completed_hash_phase: true, ..old(self)@ }),
                    old(self)@.saw_hello,
                    m == MessageView::Complete,
                    self.emitted_complete == s1.emitted_complete,
                    e == on_complete(old(self)@),
                    due == owed(s1),
                    due == unclaimed(s1.pages, s1.client_seen, 1, s1.server_max_page as int),
                    e.frames == page_frames(due) + gate(served(s1, due)).frames,
                    old(self).same_setting(self),
                    self.stored_at() == old(self).stored_at(),
                    sink_kept(*old(sink), *sink),
                    before == trace(*old(sink)),
                    base == before.sent,
                    sink.refusals() == before.refusals,
                    completions(sink.sent()) == completions(base),
                    more ==> 1 <= from <= s1.server_max_page,
                    more ==> ({
                        let sent = unclaimed(s1.pages, s1.client_seen, 1, from - 1);
                        &&& self@ == served(s1, sent)
                        &&& sink.sent() == base + page_frames(sent)
                    }),
                    !more ==> self@ == served(s1, due) && sink.sent() == base + page_frames(due),
                decreases s1.server_max_page - from + (if more {
                    1int
                } else {
                    0int
                }),
            {
                let ghost sent = unclaimed(s1.pages, s1.client_seen, 1, from - 1);
                proof {
                    lemma_unclaimed_prefix(
                        s1.pages,
                        s1.client_seen,
                        from - 1,
                        s1.server_max_page as int,
                    );
                    lemma_frames_prefix(due, sent, gate(served(s1, due)).frames);
                }
                match self.storage.next_page_in_range(from, self.server_max_page) {
                    Err(f) => {
                        let text: String = f.to_string();
                        proof {
                            assert(due.take(sent.len() as int) =~= sent);
                            lemma_broken(
                                old(self)@,
                                m,
                                before,
                                self@,
                                f@,
                                text,
                                self.faults(),
                                sent.len() as int,
                            );
                            assert(trace(*sink) =~= Trace {
                                sent: base + e.frames.take(sent.len() as int),
                                ..before
                            });
                        }
                        return Err(text);
                    },
                    Ok(None) => {
                        proof {
                            lemma_unclaimed_gap(
                                s1.pages,
                                s1.client_seen,
                                from as int,
                                s1.server_max_page as int,
                            );
                        }
                        more = false;
                    },
                    Ok(Some((page_no, data))) => {
                        let ghost upto = unclaimed(s1.pages, s1.client_seen, 1, page_no as int);
                        proof {
                            lemma_unclaimed_gap(
                                s1.pages,
                                s1.client_seen,
                                from as int,
                                page_no - 1,
                            );
                            lemma_unclaimed_prefix(
                                s1.pages,
                                s1.client_seen,
                                page_no as int,
                                s1.server_max_page as int,
                            );
                            lemma_frames_prefix(due, upto, gate(served(s1, due)).frames);
                        }
                        if !self.client_seen.contains(&page_no) {
                            self.bytes_transferred = self.bytes_transferred.wrapping_add(
                                data.len() as u64,
                            );
                            self.pages_transferred = self.pages_transferred.wrapping_add(1);
                            let frame = SyncMessage::PageData { page_no, data };
                            proof {
                                assert(upto.drop_last() =~= sent);
                                assert(page_frames(upto) =~= page_frames(sent).push(frame@));
                                assert(sink.sent().push(frame@) =~= base + page_frames(upto));
                                lemma_completions_push(sink.sent(), frame@);
                                assert(self@ =~= served(s1, upto));
                            }
                            let ghost f = frame@;
                            match sink.emit(frame) {
                                Ok(()) => {},
                                Err(text) => {
                                    proof {
                                        let k = sent.len() as int;
                                        let r = Err::<(), String>(text);
                                        assert(upto.len() == k + 1);
                                        assert(due.take(k + 1) =~= upto);
                                        assert(e.frames.take(k + 1)[k] == page_frames(upto)[k]);
                                        assert(e.frames[k] == f);
                                        assert(step(old(self)@, m) == e);
                                        assert(trace(*sink) =~= Trace {
                                            sent: base + e.frames.take(k),
                                            refusals: before.refusals.push(
                                                Refusal {
                                                    taken: (base.len() + k) as nat,
                                                    frame: e.frames[k],
                                                    why: text@,
                                                },
                                            ),
                                        });
                                        assert(cut_off(
                                            old(self)@,
                                            m,
                                            before,
                                            self@,
                                            trace(*sink),
                                            r,
                                            k,
                                        ));
                                    }
                                    return Err(text);
                                },
                            }
                        }
                        if page_no == self.server_max_page {
                            more = false;
                        } else {
                            from = page_no + 1;
                        }
                    },
                }
            }
        }
        assert(self@ == served(s1, due));
        assert(sink.sent() == base + page_frames(due));
        let ghost g = gate(self@);
        proof {
            assert(base + page_frames(due) + g.frames =~= base + e.frames);
            lemma_page_completions(base, due);
        }
        let r: Result<(), String> = self.maybe_emit_complete(sink);
        proof {
            lemma_served_flag(s1, due);
            if r is Err {
                let k = due.len() as int;
                assert(e.frames.take(k) =~= page_frames(due));
                assert(e.frames[k] == g.frames[0]);
                assert(step(old(self)@, m) == e);
                assert(cut_off(old(self)@, m, before, self@, trace(*sink), r, k));
            }
        }
        r
    }

    /// Single emission gate. Only emits SyncComplete if we haven't
    /// already, the client has finished its hash phase, and we're not
    /// waiting on any page bytes.
    fn maybe_emit_complete<E: Emit>(&mut self, sink: &mut E) -> (r: Result<(), String>)
        ensures
            old(self).same_setting(final(self)),
            final(self).stored_at() == old(self).stored_at(),
            sink_kept(*old(sink), *final(sink)),
            match r {
                Ok(()) => {
                    &&& final(self)@ == gate(old(self)@).next
                    &&& trace(*final(sink)) == (Trace {
                        sent: old(sink).sent() + gate(old(self)@).frames,
                        ..trace(*old(sink))
                    })
                },
                Err(e) => {
                    &&& !old(sink).willing()
                    &&& complete_due(old(self)@)
                    &&& final(self)@ == old(self)@
                    &&& trace(*final(sink)) == (Trace {
                        refusals: old(sink).refusals().push(
                            Refusal {
                                taken: old(sink).sent().len(),
                                frame: gate(old(self)@).frames[0],
                                why: e@,
                            },
                        ),
                        ..trace(*old(sink))
                    })
                },
            },
            flag_kept(old(self)@, old(sink).sent(), final(self)@, final(sink).sent()),
    {
        let ghost e = gate(self@);
        if self.emitted_complete || !self.completed_hash_phase || !self.pending_requests.is_empty()
        {
            assert(sink.sent() + e.frames =~= sink.sent());
            return Ok(());
        }
        let report = SyncMessage::SyncComplete {
            pages_transferred: self.pages_transferred,
            bytes_transferred: self.bytes_transferred,
        };
        proof {
            assert(sink.sent().push(report@) =~= sink.sent() + e.frames);
            lemma_completions_push(sink.sent(), report@);
        }
        match sink.emit(report) {
            Ok(()) => {},
            Err(e) => {
                return Err(e);
            },
        }
        self.emitted_complete = true;
        assert(self@ =~= e.next);
        Ok(())
    }
}

/// The page numbers `from..=to`.
pub(crate) fn collect_range(from: u32, to: u32) -> (r: Vec<u32>)
    ensures
        r@ == page_range(from, to),
{
    let mut out: Vec<u32> = Vec::new();
    let mut n: u32 = from;
    let mut more: bool = from <= to;
    while more
        invariant
            more ==> from <= n <= to,
            more ==> out@ == page_range(from, to).take(n - from),
            !more ==> out@ == page_range(from, to),
        decreases to - n + (if more {
            1int
        } else {
            0int
        }),
    {
        out.push(n);
        proof {
            let all = page_range(from, to);
            assert(all.take(n + 1 - from) =~= all.take(n - from).push(n));
            if n == to {
                assert(all.take(n + 1 - from) =~= all);
            }
        }
        if n == to {
            more = false;
        } else {
            n = n + 1;
        }
    }
    out
}

// ---------- lemmas ----------

/// A backend that failed left the message where it stalled.
proof fn lemma_broken(
    s: FsmView,
    m: MessageView,
    before: Trace,
    next: FsmView,
    f: StoreErrorView,
    text: String,
    faults: Set<StoreErrorView>,
    k: int,
)
    requires
        step(s, m).fault is None,
        0 <= k <= step(s, m).frames.len(),
        faults.contains(f),
        text@ == f.text(),
        stalled(s, m, k, next),
    ensures
        broken_off(
            s,
            m,
            before,
            next,
            (Trace { sent: before.sent + step(s, m).frames.take(k), ..before }),
            Err(text),
            faults,
            k,
        ),
        k == 0 ==> broken_off(s, m, before, next, before, Err(text), faults, k),
{
    if k == 0 {
        assert(before.sent + step(s, m).frames.take(k) =~= before.sent);
    }
}

/// A single frame, once handed over, was taken or refused.
proof fn lemma_one_frame(
    s: FsmView,
    m: MessageView,
    before: Trace,
    next: FsmView,
    after: Trace,
    r: Result<(), String>,
)
    requires
        step(s, m).fault is None,
        step(s, m).frames.len() == 1,
        match r {
            Ok(()) => next == step(s, m).next && after == (Trace {
                sent: before.sent.push(step(s, m).frames[0]),
                ..before
            }),
            Err(t) => next == held(s, m, 0) && after == (Trace {
                refusals: before.refusals.push(
                    Refusal { taken: before.sent.len(), frame: step(s, m).frames[0], why: t@ },
                ),
                ..before
            }),
        },
    ensures
        r is Ok ==> finished(s, m, before, next, after, r),
        r is Err ==> cut_off(s, m, before, next, after, r, 0),
{
    let frames = step(s, m).frames;
    assert(before.sent + frames =~= before.sent.push(frames[0]));
    assert(before.sent + frames.take(0) =~= before.sent);
}

/// A batch of pages keeps the handshake and the direction, and has a frame
/// only where it set the flag.
proof fn lemma_batch_kind(s: FsmView, entries: Seq<(u32, Seq<u8>)>)
    ensures
        ({
            let e = on_data_batch(s, entries);
            &&& e.fault is None
            &&& e.next.saw_hello == s.saw_hello
            &&& e.next.direction == s.direction
            &&& e.frames.len() > 0 ==> e.next.emitted_complete
        }),
    decreases entries.len(),
{
    if entries.len() > 0 {
        lemma_batch_kind(s, entries.drop_last());
    }
}

/// The frames of a part of a batch begin those of the whole, and the report of
/// the part is that of the whole.
proof fn lemma_batch_part(s: FsmView, all: Seq<(u32, Seq<u8>)>, n: int)
    requires
        0 <= n <= all.len(),
    ensures
        ({
            let part = on_data_batch(s, all.take(n));
            let whole = on_data_batch(s, all);
            &&& part.frames.len() <= whole.frames.len()
            &&& whole.frames.take(part.frames.len() as int) == part.frames
            &&& part.frames.len() > 0 ==> held_in_batch(s, all) == held_in_batch(s, all.take(n))
        }),
    decreases all.len() - n,
{
    let part = on_data_batch(s, all.take(n));
    if n == all.len() {
        assert(all.take(n) =~= all);
        assert(part.frames.take(part.frames.len() as int) =~= part.frames);
    } else {
        lemma_batch_part(s, all, n + 1);
        let next = on_data_batch(s, all.take(n + 1));
        assert(all.take(n + 1).drop_last() =~= all.take(n));
        let whole = on_data_batch(s, all);
        assert(next.frames.take(part.frames.len() as int) =~= part.frames);
        assert(whole.frames.take(next.frames.len() as int).take(part.frames.len() as int)
            =~= whole.frames.take(part.frames.len() as int));
    }
}

/// What one page of a batch did is what the batch did so far.
proof fn lemma_batch_step(
    s: FsmView,
    all: Seq<(u32, Seq<u8>)>,
    i: int,
    before: Trace,
    next: FsmView,
    after: Trace,
    r: Result<(), String>,
    faults: Set<StoreErrorView>,
    reliable: bool,
    willing: bool,
)
    requires
        s.saw_hello,
        s.direction == Direction::Push,
        0 <= i < all.len(),
        ({
            let done = on_data_batch(s, all.take(i));
            carried_out(
                done.next,
                MessageView::PageData { page_no: all[i].0, data: all[i].1 },
                Trace { sent: before.sent + done.frames, ..before },
                next,
                after,
                r,
                faults,
                reliable,
                willing,
            )
        }),
    ensures
        ({
            let more = on_data_batch(s, all.take(i + 1));
            &&& r is Ok ==> next == more.next && after == (Trace {
                sent: before.sent + more.frames,
                ..before
            })
            &&& r is Err ==> carried_out(
                s,
                MessageView::PageDataBatch { pages: all },
                before,
                next,
                after,
                r,
                faults,
                reliable,
                willing,
            )
        }),
{
    let m = MessageView::PageDataBatch { pages: all };
    let done = on_data_batch(s, all.take(i));
    let more = on_data_batch(s, all.take(i + 1));
    let whole = on_data_batch(s, all);
    let one = MessageView::PageData { page_no: all[i].0, data: all[i].1 };
    let mid = Trace { sent: before.sent + done.frames, ..before };
    assert(all.take(i + 1).drop_last() =~= all.take(i));
    assert(all.take(i + 1).last() == all[i]);
    lemma_batch_kind(s, all.take(i));
    lemma_batch_kind(s, all);
    lemma_batch_part(s, all, i);
    lemma_batch_part(s, all, i + 1);
    let last = step(done.next, one);
    assert(last == on_page_data(done.next, all[i].0, all[i].1));
    assert(more.frames == done.frames + last.frames);
    if r is Ok {
        assert(mid.sent + last.frames =~= before.sent + more.frames);
    } else if exists|k: int| cut_off(done.next, one, mid, next, after, r, k) {
        let k = choose|k: int| cut_off(done.next, one, mid, next, after, r, k);
        assert(k == 0 && last.frames.len() == 1);
        assert(done.frames.len() == 0);
        assert(more.frames =~= last.frames);
        assert(whole.frames[0] == whole.frames.take(1)[0]);
        assert(whole.frames[0] == last.frames[0]);
        assert(mid.sent + last.frames.take(0) =~= before.sent + whole.frames.take(0));
        assert(mid.sent.len() == before.sent.len());
        assert(next == held(s, m, 0));
        assert(cut_off(s, m, before, next, after, r, 0));
    } else {
        let k = choose|k: int| broken_off(done.next, one, mid, next, after, r, faults, k);
        assert(k == 0);
        let n = done.frames.len() as int;
        assert(mid.sent + last.frames.take(0) =~= before.sent + whole.frames.take(n));
        assert(stalled(s, m, n, next));
        assert(broken_off(s, m, before, next, after, r, faults, n));
    }
}

/// Where nothing was stored, the times stay.
pub(crate) proof fn lemma_no_times<C: Clock>(clock: C, list: Seq<(u32, Seq<u8>)>, at: Map<u32, i64>)
    ensures
        times_kept(clock, list, at, at, false),
        list.len() == 0 ==> times_kept(clock, list, at, at, true),
{
    let none = Seq::<i64>::empty();
    assert(at == timed(at, list.take(none.len() as int), none));
}

proof fn lemma_completions_push(s: Seq<MessageView>, m: MessageView)
    ensures
        completions(s.push(m)) == completions(s) + if m is SyncComplete {
            1nat
        } else {
            0nat
        },
{
    assert(s.push(m).drop_last() =~= s);
}

/// Completions add up over a concatenation.
pub proof fn lemma_completions_concat(a: Seq<MessageView>, b: Seq<MessageView>)
    ensures
        completions(a + b) == completions(a) + completions(b),
    decreases b.len(),
{
    if b.len() == 0 {
        assert(a + b =~= a);
    } else {
        assert((a + b).drop_last() =~= a + b.drop_last());
        lemma_completions_concat(a, b.drop_last());
    }
}

proof fn lemma_page_completions(base: Seq<MessageView>, list: Seq<(u32, Seq<u8>)>)
    ensures
        completions(page_frames(list)) == 0,
        completions(base + page_frames(list)) == completions(base),
    decreases list.len(),
{
    lemma_completions_concat(base, page_frames(list));
    if list.len() > 0 {
        lemma_page_completions(base, list.drop_last());
        assert(page_frames(list).drop_last() =~= page_frames(list.drop_last()));
    }
}

proof fn lemma_served_flag(s: FsmView, list: Seq<(u32, Seq<u8>)>)
    ensures
        served(s, list).emitted_complete == s.emitted_complete,
    decreases list.len(),
{
    if list.len() > 0 {
        lemma_served_flag(s, list.drop_last());
    }
}

pub(crate) proof fn lemma_max_page(pages: Map<u32, PageView>, max: u32)
    requires
        is_max_page(pages, max),
    ensures
        max_page_of(pages) == max,
{
    let chosen = max_page_of(pages);
    assert(is_max_page(pages, chosen));
    if chosen != 0 {
        assert(pages.contains_key(chosen));
    }
    if max != 0 {
        assert(pages.contains_key(max));
    }
}

proof fn lemma_unclaimed_prefix(pages: Map<u32, PageView>, seen: Set<u32>, n: int, to: int)
    requires
        0 <= n <= to,
    ensures
        has_prefix(unclaimed(pages, seen, 1, to), unclaimed(pages, seen, 1, n)),
    decreases to - n,
{
    let part = unclaimed(pages, seen, 1, n);
    if n == to {
        assert(part.take(part.len() as int) =~= part);
    } else {
        lemma_unclaimed_prefix(pages, seen, n, to - 1);
        let before = unclaimed(pages, seen, 1, to - 1);
        let all = unclaimed(pages, seen, 1, to);
        assert(all.take(part.len() as int) =~= before.take(part.len() as int));
    }
}

proof fn lemma_unclaimed_gap(pages: Map<u32, PageView>, seen: Set<u32>, from: int, to: int)
    requires
        1 <= from <= to + 1,
        to <= u32::MAX,
        forall|k: u32| from <= k <= to ==> !#[trigger] pages.contains_key(k),
    ensures
        unclaimed(pages, seen, 1, to) == unclaimed(pages, seen, 1, from - 1),
    decreases to - from + 1,
{
    if from <= to {
        lemma_unclaimed_gap(pages, seen, from, to - 1);
        assert(!pages.contains_key(to as u32));
    }
}

/// The frames of the first pages begin those of all.
proof fn lemma_frames_prefix(
    list: Seq<(u32, Seq<u8>)>,
    part: Seq<(u32, Seq<u8>)>,
    rest: Seq<MessageView>,
)
    requires
        has_prefix(list, part),
    ensures
        (page_frames(list) + rest).take(part.len() as int) == page_frames(part),
        part.len() <= (page_frames(list) + rest).len(),
{
    assert forall|i: int| 0 <= i < part.len() implies part[i] == list[i] by {
        assert(list.take(part.len() as int)[i] == part[i]);
    }
    assert((page_frames(list) + rest).take(part.len() as int) =~= page_frames(part));
}

} // verus!
