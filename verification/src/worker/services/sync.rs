//! The sync service: a session that queues its answers.
//!
//! Each turn either drains a queued outbound envelope or asks for the next
//! request, which is routed through `process_envelope`. That keeps the state
//! in one place.
//!
//! Direction (push vs pull) comes from the verified sync macaroon. The
//! session trusts that: there is no ambient "current direction" to
//! second-guess. Page bytes are taken on a push alone. Hashes travel as
//! lowercase hexadecimal text.

use std::collections::{HashSet, VecDeque};
use vstd::prelude::*;

use super::rpc::{rpc_error, RpcCode, RpcError, RpcErrorView};
use super::sync_fsm::{
    collect_range, lemma_no_times, max_page_of, page_range, tells, timed, times_kept,
};
use super::sync_storage::{hashes_in_range, PageView, SyncStorage};
use crate::shared::auth::session::SyncContext;
use crate::shared::clock::Clock;
use crate::shared::domain::enums::Direction;
use crate::shared::error::StoreErrorView;
use crate::shared::domain::ids::{hex_encode, hex_text};
use crate::shared::sync_protocol::{blake3_digest, entries_view, page_hash, PageDataEntry};
use crate::text::{decimal, format_u64, has_prefix, join2, str_eq};
use crate::worker::middleware::require_sync;

verus! {

broadcast use vstd::std_specs::hash::group_hash_axioms;

/// Wire protocol version. Bump when the session's semantics change in a way
/// older clients can't parse.
pub const PROTOCOL_VERSION: u32 = 1;

/// What a client sends.
#[derive(Debug, PartialEq, Eq)]
pub enum ClientPayload {
    Hello { protocol_version: u32, page_size: u32, max_page: u32 },
    PageHash { page_no: u32, hash: String },
    PageHashBatch { start_page: u32, end_page: u32, combined_hash: String },
    PageData { page_no: u32, data: Vec<u8> },
    PageDataBatch { pages: Vec<PageDataEntry> },
    Complete,
}

/// A request of the stream; its payload may be missing.
#[derive(Debug, PartialEq, Eq)]
pub struct ClientEnvelope {
    pub payload: Option<ClientPayload>,
}

/// What the server answers.
#[derive(Debug, PartialEq, Eq)]
pub enum ServerPayload {
    HelloReply { protocol_version: u32, page_size: u32, max_page: u32 },
    RequestPage { page_no: u32 },
    HashMismatchBatch { page_numbers: Vec<u32> },
    PageData { page_no: u32, data: Vec<u8> },
    SyncComplete { pages_transferred: u64, bytes_transferred: u64 },
    Error { message: String },
}

/// [`ClientPayload`] over sequences.
#[verifier::ext_equal]
pub enum RequestView {
    Hello { protocol_version: u32, page_size: u32, max_page: u32 },
    PageHash { page_no: u32, hash: Seq<char> },
    PageHashBatch { start_page: u32, end_page: u32, combined_hash: Seq<char> },
    PageData { page_no: u32, data: Seq<u8> },
    PageDataBatch { pages: Seq<(u32, Seq<u8>)> },
    Complete,
}

/// [`ServerPayload`] over sequences.
#[verifier::ext_equal]
pub enum AnswerView {
    HelloReply { protocol_version: u32, page_size: u32, max_page: u32 },
    RequestPage { page_no: u32 },
    HashMismatchBatch { page_numbers: Seq<u32> },
    PageData { page_no: u32, data: Seq<u8> },
    SyncComplete { pages_transferred: u64, bytes_transferred: u64 },
    Error { message: Seq<char> },
}

impl View for ClientPayload {
    type V = RequestView;

    open spec fn view(&self) -> RequestView {
        match self {
            ClientPayload::Hello { protocol_version, page_size, max_page } => RequestView::Hello {
                protocol_version: *protocol_version,
                page_size: *page_size,
                max_page: *max_page,
            },
            ClientPayload::PageHash { page_no, hash } => RequestView::PageHash {
                page_no: *page_no,
                hash: hash@,
            },
            ClientPayload::PageHashBatch { start_page, end_page, combined_hash } => {
                RequestView::PageHashBatch {
                    start_page: *start_page,
                    end_page: *end_page,
                    combined_hash: combined_hash@,
                }
            },
            ClientPayload::PageData { page_no, data } => RequestView::PageData {
                page_no: *page_no,
                data: data@,
            },
            ClientPayload::PageDataBatch { pages } => RequestView::PageDataBatch {
                pages: entries_view(pages@),
            },
            ClientPayload::Complete => RequestView::Complete,
        }
    }
}

impl View for ServerPayload {
    type V = AnswerView;

    open spec fn view(&self) -> AnswerView {
        match self {
            ServerPayload::HelloReply { protocol_version, page_size, max_page } => {
                AnswerView::HelloReply {
                    protocol_version: *protocol_version,
                    page_size: *page_size,
                    max_page: *max_page,
                }
            },
            ServerPayload::RequestPage { page_no } => AnswerView::RequestPage { page_no: *page_no },
            ServerPayload::HashMismatchBatch { page_numbers } => AnswerView::HashMismatchBatch {
                page_numbers: page_numbers@,
            },
            ServerPayload::PageData { page_no, data } => AnswerView::PageData {
                page_no: *page_no,
                data: data@,
            },
            ServerPayload::SyncComplete { pages_transferred, bytes_transferred } => {
                AnswerView::SyncComplete {
                    pages_transferred: *pages_transferred,
                    bytes_transferred: *bytes_transferred,
                }
            },
            ServerPayload::Error { message } => AnswerView::Error { message: message@ },
        }
    }
}

// ---------- the model ----------

/// The state of a session, with the pages stored beside it.
#[verifier::ext_equal]
pub struct SessionView {
    pub direction: Direction,
    pub saw_hello: bool,
    pub completed_hash_phase: bool,
    pub pending: Set<u32>,
    pub pages_transferred: u64,
    pub bytes_transferred: u64,
    pub queue: Seq<AnswerView>,
    pub reported: bool,
    pub finished: bool,
    pub pages: Map<u32, PageView>,
}

pub open spec fn queued(s: SessionView, a: AnswerView) -> SessionView {
    SessionView { queue: s.queue.push(a), ..s }
}

/// The report of a finished sync, with the totals so far.
pub open spec fn report(s: SessionView) -> AnswerView {
    AnswerView::SyncComplete {
        pages_transferred: s.pages_transferred,
        bytes_transferred: s.bytes_transferred,
    }
}

/// The state once completion was reported.
pub open spec fn with_report(s: SessionView) -> SessionView {
    SessionView { reported: true, ..queued(s, report(s)) }
}

/// One page more sent to the client or taken from it. Counters wrap around.
pub open spec fn counted(s: SessionView, data: Seq<u8>) -> SessionView {
    SessionView {
        pages_transferred: s.pages_transferred.wrapping_add(1),
        bytes_transferred: s.bytes_transferred.wrapping_add(data.len() as u64),
        ..s
    }
}

pub open spec fn version_text(client: u32) -> Seq<char> {
    "protocol_version mismatch: server=1, client="@ + decimal(client as nat)
}

pub open spec fn on_hello(s: SessionView, protocol_version: u32, page_size: u32) -> Result<
    SessionView,
    Seq<char>,
> {
    if protocol_version != PROTOCOL_VERSION {
        Err(version_text(protocol_version))
    } else {
        Ok(
            queued(
                SessionView { saw_hello: true, ..s },
                AnswerView::HelloReply {
                    protocol_version: PROTOCOL_VERSION,
                    page_size,
                    max_page: max_page_of(s.pages),
                },
            ),
        )
    }
}

pub open spec fn on_page_hash(s: SessionView, page_no: u32, hash: Seq<char>) -> SessionView {
    if s.pages.contains_key(page_no) && hex_text(s.pages[page_no].hash) == hash {
        s
    } else if s.direction == Direction::Push {
        queued(
            SessionView { pending: s.pending.insert(page_no), ..s },
            AnswerView::RequestPage { page_no },
        )
    } else if s.pages.contains_key(page_no) {
        let data = s.pages[page_no].data;
        queued(counted(s, data), AnswerView::PageData { page_no, data })
    } else {
        s
    }
}

pub open spec fn on_hash_batch(s: SessionView, from: u32, to: u32, combined: Seq<char>) -> SessionView {
    if hex_text(blake3_digest(hashes_in_range(s.pages, from as int, to as int))) == combined {
        s
    } else {
        queued(s, AnswerView::HashMismatchBatch { page_numbers: page_range(from, to) })
    }
}

pub open spec fn on_page_data(s: SessionView, page_no: u32, data: Seq<u8>) -> SessionView {
    let t = counted(
        SessionView {
            pending: s.pending.remove(page_no),
            pages: s.pages.insert(page_no, PageView { data, hash: blake3_digest(data) }),
            ..s
        },
        data,
    );
    if t.completed_hash_phase && t.pending.is_empty() {
        with_report(t)
    } else {
        t
    }
}

pub open spec fn on_data_batch(s: SessionView, entries: Seq<(u32, Seq<u8>)>) -> SessionView
    decreases entries.len(),
{
    if entries.len() == 0 {
        s
    } else {
        on_page_data(
            on_data_batch(s, entries.drop_last()),
            entries.last().0,
            entries.last().1,
        )
    }
}

pub open spec fn on_complete(s: SessionView) -> SessionView {
    let t = SessionView { completed_hash_phase: true, ..s };
    if t.pending.is_empty() {
        SessionView { finished: true, ..with_report(t) }
    } else {
        t
    }
}

/// What a request does: the next state, or the refusal.
pub open spec fn routed(s: SessionView, payload: Option<RequestView>) -> Result<
    SessionView,
    Seq<char>,
> {
    match payload {
        None => Err("empty client envelope"@),
        Some(p) => if !s.saw_hello {
            match p {
                RequestView::Hello { protocol_version, page_size, .. } => on_hello(
                    s,
                    protocol_version,
                    page_size,
                ),
                _ => Err("first envelope must be Hello"@),
            }
        } else {
            match p {
                RequestView::Hello { .. } => Err("Hello may only be sent once"@),
                RequestView::PageHash { page_no, hash } => Ok(on_page_hash(s, page_no, hash)),
                RequestView::PageHashBatch { start_page, end_page, combined_hash } => Ok(
                    on_hash_batch(s, start_page, end_page, combined_hash),
                ),
                RequestView::PageData { page_no, data } => if s.direction == Direction::Push {
                    Ok(on_page_data(s, page_no, data))
                } else {
                    Err("page bytes may only be sent on a push"@)
                },
                RequestView::PageDataBatch { pages } => if s.direction == Direction::Push {
                    Ok(on_data_batch(s, pages))
                } else {
                    Err("page bytes may only be sent on a push"@)
                },
                RequestView::Complete => Ok(on_complete(s)),
            }
        },
    }
}

/// What the request stream yields.
#[derive(Debug, PartialEq, Eq)]
pub enum Received {
    /// A request.
    Envelope(ClientEnvelope),
    /// The stream failed.
    Failed(RpcError),
    /// The client hung up.
    Closed,
}

pub open spec fn payload_view(e: ClientEnvelope) -> Option<RequestView> {
    match e.payload {
        Some(p) => Some(p@),
        None => None,
    }
}

/// The state after something was received. A refused request is answered with
/// an error, and ends the session; so does a failed stream. A client that
/// hangs up while nothing is awaited gets the report, where none was made.
pub open spec fn received(s: SessionView, input: Received) -> SessionView {
    match input {
        Received::Envelope(e) => match routed(s, payload_view(e)) {
            Ok(t) => t,
            Err(message) => SessionView {
                finished: true,
                ..queued(s, AnswerView::Error { message })
            },
        },
        Received::Failed(_) => SessionView { finished: true, ..s },
        Received::Closed => if s.saw_hello && s.pending.is_empty() && !s.reported {
            SessionView { finished: true, ..with_report(s) }
        } else {
            SessionView { finished: true, ..s }
        },
    }
}

/// What the response stream does next.
#[derive(Debug, PartialEq, Eq)]
pub enum Turn {
    /// Yield this answer.
    Emit(ServerPayload),
    /// End the stream.
    End,
    /// Read the next request.
    Await,
}

/// [`Turn`] over sequences.
pub enum TurnView {
    Emit(AnswerView),
    End,
    Await,
}

impl View for Turn {
    type V = TurnView;

    open spec fn view(&self) -> TurnView {
        match self {
            Turn::Emit(a) => TurnView::Emit(a@),
            Turn::End => TurnView::End,
            Turn::Await => TurnView::Await,
        }
    }
}

/// What the response stream does next, and the state after it.
pub open spec fn turned(s: SessionView) -> (TurnView, SessionView) {
    if s.queue.len() > 0 {
        (TurnView::Emit(s.queue[0]), SessionView { queue: s.queue.skip(1), ..s })
    } else if s.finished {
        (TurnView::End, s)
    } else {
        (TurnView::Await, s)
    }
}

// ---------- the session ----------

/// One session: the storage handle, the verified direction, the running
/// stats, and the answers that wait to be sent (a single request may queue
/// several).
pub struct FsmState<S: SyncStorage, C: Clock> {
    storage: S,
    clock: C,
    direction: Direction,
    saw_hello: bool,
    completed_hash_phase: bool,
    pending_requests: HashSet<u32>,
    pages_transferred: u64,
    bytes_transferred: u64,
    pending_outgoing: VecDeque<ServerPayload>,
    reported: bool,
    finished: bool,
}

spec fn answers(q: Seq<ServerPayload>) -> Seq<AnswerView> {
    q.map_values(|p: ServerPayload| p@)
}

impl<S: SyncStorage, C: Clock> View for FsmState<S, C> {
    type V = SessionView;

    closed spec fn view(&self) -> SessionView {
        SessionView {
            direction: self.direction,
            saw_hello: self.saw_hello,
            completed_hash_phase: self.completed_hash_phase,
            pending: self.pending_requests@,
            pages_transferred: self.pages_transferred,
            bytes_transferred: self.bytes_transferred,
            queue: answers(self.pending_outgoing@),
            reported: self.reported,
            finished: self.finished,
            pages: self.storage.pages(),
        }
    }
}

/// The state of a session that has not begun.
pub open spec fn fresh_session(direction: Direction, pages: Map<u32, PageView>) -> SessionView {
    SessionView {
        direction,
        saw_hello: false,
        completed_hash_phase: false,
        pending: Set::empty(),
        pages_transferred: 0,
        bytes_transferred: 0,
        queue: Seq::empty(),
        reported: false,
        finished: false,
        pages,
    }
}

/// The session that a request's sync context opens over stored pages.
pub open spec fn opened(ctx: Option<SyncContext>, pages: Map<u32, PageView>) -> Result<
    SessionView,
    RpcErrorView,
> {
    match ctx {
        Some(c) => Ok(fresh_session(c.direction, pages)),
        None => Err(rpc_error(RpcCode::Unauthenticated, "sync token required"@)),
    }
}

/// Serves sync sessions over a storage.
pub struct SyncServer<S: SyncStorage, C: Clock> {
    storage: S,
    clock: C,
}

impl<S: SyncStorage, C: Clock> SyncServer<S, C> {
    /// The stored pages.
    pub closed spec fn pages(&self) -> Map<u32, PageView> {
        self.storage.pages()
    }

    /// Whether the storage never fails.
    pub closed spec fn reliable(&self) -> bool {
        self.storage.reliable()
    }

    /// What the storage may fail with.
    pub closed spec fn faults(&self) -> Set<StoreErrorView> {
        self.storage.faults()
    }

    /// When each page was stored.
    pub closed spec fn stored_at(&self) -> Map<u32, i64> {
        self.storage.stored_at()
    }

    /// The clock that stored pages are timed by.
    pub closed spec fn clock(&self) -> C {
        self.clock
    }

    pub fn new(storage: S, clock: C) -> (r: Self)
        ensures
            r.pages() == storage.pages(),
            r.reliable() == storage.reliable(),
            r.faults() == storage.faults(),
            r.stored_at() == storage.stored_at(),
            r.clock() == clock,
    {
        SyncServer { storage, clock }
    }

    /// Opens a session in the direction that the request's sync context
    /// allows; without one the request is unauthenticated.
    pub fn sync(self, ctx: Option<SyncContext>) -> (r: Result<FsmState<S, C>, RpcError>)
        ensures
            match opened(ctx, self.pages()) {
                Ok(want) => r matches Ok(s) && s@ == want && s.reliable() == self.reliable()
                    && s.faults() == self.faults() && s.stored_at() == self.stored_at()
                    && s.clock() == self.clock(),
                Err(want) => r matches Err(e) && e@ == want,
            },
    {
        let sync_ctx: SyncContext = match require_sync(ctx) {
            Ok(c) => c,
            Err(e) => {
                return Err(e);
            },
        };
        let s = FsmState {
            storage: self.storage,
            clock: self.clock,
            direction: sync_ctx.direction,
            saw_hello: false,
            completed_hash_phase: false,
            pending_requests: HashSet::new(),
            pages_transferred: 0,
            bytes_transferred: 0,
            pending_outgoing: VecDeque::new(),
            reported: false,
            finished: false,
        };
        assert(s@ =~= fresh_session(sync_ctx.direction, self.pages()));
        Ok(s)
    }
}

/// Whether `next` is a state in which a request can be left when the backend
/// fails.
pub open spec fn halted(s: SessionView, p: RequestView, next: SessionView) -> bool {
    match p {
        RequestView::Hello { .. } => next == (SessionView { saw_hello: true, ..s }),
        RequestView::PageHash { .. } => next == s,
        RequestView::PageHashBatch { .. } => next == s,
        RequestView::PageData { page_no, .. } => next == (SessionView {
            pending: s.pending.remove(page_no),
            ..s
        }),
        RequestView::PageDataBatch { pages } => exists|i: int|
            0 <= i < pages.len() && {
                let before = #[trigger] on_data_batch(s, pages.take(i));
                next == (SessionView { pending: before.pending.remove(pages[i].0), ..before })
            },
        RequestView::Complete => false,
    }
}

/// What a call did with a request: it carried it out; it refused it, and did
/// nothing else; or the backend failed, its error is told, and the request was
/// left where it stood. A backend that never fails does not.
pub open spec fn processed(
    s: SessionView,
    payload: Option<RequestView>,
    next: SessionView,
    r: Result<(), String>,
    faults: Set<StoreErrorView>,
    reliable: bool,
) -> bool {
    &&& has_prefix(next.queue, s.queue)
    &&& {
        let want = routed(s, payload);
        ||| r is Ok && want == Ok::<SessionView, Seq<char>>(next)
        ||| {
            &&& want matches Err(text) && r matches Err(t) && t@ == text
            &&& next == s
        }
        ||| {
            &&& !reliable
            &&& want is Ok
            &&& r matches Err(t) && tells(faults, t@)
            &&& payload matches Some(p) && halted(s, p, next)
        }
    }
}

/// The pages that a request stores.
pub open spec fn written(s: SessionView, payload: Option<RequestView>) -> Seq<(u32, Seq<u8>)> {
    if s.saw_hello && s.direction == Direction::Push {
        match payload {
            Some(RequestView::PageData { page_no, data }) => seq![(page_no, data)],
            Some(RequestView::PageDataBatch { pages }) => pages,
            _ => Seq::empty(),
        }
    } else {
        Seq::empty()
    }
}

/// The state once a request was dealt with: a failure is answered with an
/// error, and ends the session.
pub open spec fn settled(next: SessionView, r: Result<(), String>) -> SessionView {
    match r {
        Ok(()) => next,
        Err(t) => SessionView { finished: true, ..queued(next, AnswerView::Error { message: t@ }) },
    }
}

impl<S: SyncStorage, C: Clock> FsmState<S, C> {
    /// Whether the storage never fails.
    pub closed spec fn reliable(&self) -> bool {
        self.storage.reliable()
    }

    /// What the storage may fail with.
    pub closed spec fn faults(&self) -> Set<StoreErrorView> {
        self.storage.faults()
    }

    /// When each page was stored.
    pub closed spec fn stored_at(&self) -> Map<u32, i64> {
        self.storage.stored_at()
    }

    /// The clock that stored pages are timed by.
    pub closed spec fn clock(&self) -> C {
        self.clock
    }

    /// Whether `later` has the same clock and a storage of the same kind.
    pub open spec fn same_setting(&self, later: &Self) -> bool {
        &&& later.reliable() == self.reliable()
        &&& later.faults() == self.faults()
        &&& later.clock() == self.clock()
    }

    /// The pages that the session reads and writes.
    pub fn storage(&self) -> (r: &S)
        ensures
            r.pages() == self@.pages,
            r.stored_at() == self.stored_at(),
            r.reliable() == self.reliable(),
            r.faults() == self.faults(),
    {
        &self.storage
    }

    fn push(&mut self, answer: ServerPayload)
        ensures
            final(self)@ == queued(old(self)@, answer@),
            old(self).same_setting(final(self)),
            final(self).stored_at() == old(self).stored_at(),
            has_prefix(final(self)@.queue, old(self)@.queue),
    {
        let ghost a = answer;
        self.pending_outgoing.push_back(answer);
        proof {
            assert(self@.queue =~= old(self)@.queue.push(a@));
            assert(self@ =~= queued(old(self)@, a@));
            assert(self@.queue.take(old(self)@.queue.len() as int) =~= old(self)@.queue);
        }
    }

    /// One turn of the response stream. Drains the queue first; once it is
    /// empty, a finished session ends, and any other reads the next request.
    pub fn step(&mut self) -> (r: Turn)
        ensures
            old(self).same_setting(final(self)),
            final(self).stored_at() == old(self).stored_at(),
            (r@, final(self)@) == turned(old(self)@),
    {
        match self.pending_outgoing.pop_front() {
            Some(a) => {
                proof {
                    assert(self@.queue =~= old(self)@.queue.skip(1));
                    assert(self@ =~= SessionView { queue: old(self)@.queue.skip(1), ..old(self)@ });
                }
                Turn::Emit(a)
            },
            None => {
                assert(self@ =~= old(self)@);
                if self.finished {
                    Turn::End
                } else {
                    Turn::Await
                }
            },
        }
    }

    /// Takes what the request stream yielded. The error of a failed stream is
    /// handed back for the response stream to yield.
    pub fn receive(&mut self, input: Received) -> (r: Option<RpcError>)
        ensures
            old(self).same_setting(final(self)),
            old(self).reliable() ==> final(self)@ == received(old(self)@, input),
            match input {
                Received::Envelope(e) => exists|next: SessionView, done: Result<(), String>|
                    {
                        &&& #[trigger] processed(
                            old(self)@,
                            payload_view(e),
                            next,
                            done,
                            old(self).faults(),
                            old(self).reliable(),
                        )
                        &&& final(self)@ == settled(next, done)
                        &&& times_kept(
                            old(self).clock(),
                            written(old(self)@, payload_view(e)),
                            old(self).stored_at(),
                            final(self).stored_at(),
                            done is Ok,
                        )
                    },
                _ => final(self)@ == received(old(self)@, input) && final(self).stored_at() == old(
                    self,
                ).stored_at(),
            },
            match input {
                Received::Failed(e) => r == Some(e),
                _ => r is None,
            },
            has_prefix(final(self)@.queue, old(self)@.queue),
    {
        proof {
            assert(self@.queue.take(self@.queue.len() as int) =~= self@.queue);
        }
        match input {
            Received::Envelope(envelope) => {
                let done: Result<(), String> = self.process_envelope(&envelope);
                let ghost mid = self@;
                assert(processed(
                    old(self)@,
                    payload_view(envelope),
                    mid,
                    done,
                    old(self).faults(),
                    old(self).reliable(),
                ));
                match done {
                    Ok(()) => {},
                    Err(e) => {
                        let ghost text = e@;
                        self.push(ServerPayload::Error { message: e });
                        self.finished = true;
                        proof {
                            lemma_prefix_chain(self@.queue, mid.queue, old(self)@.queue);
                            assert(self@ =~= settled(mid, done));
                            if old(self).reliable() {
                                assert(self@ =~= received(old(self)@, input));
                            }
                        }
                    },
                }
                None
            },
            Received::Failed(e) => {
                self.finished = true;
                assert(self@ =~= SessionView { finished: true, ..old(self)@ });
                Some(e)
            },
            Received::Closed => {
                // Client closed without `Complete`. If there's an
                // unsent SyncComplete to emit, queue it; otherwise end.
                if self.saw_hello && self.pending_requests.is_empty() && !self.reported {
                    self.report_completion();
                }
                self.finished = true;
                assert(self@ =~= received(old(self)@, input));
                None
            },
        }
    }

    /// Queues the report.
    fn report_completion(&mut self)
        ensures
            final(self)@ == with_report(old(self)@),
            old(self).same_setting(final(self)),
            final(self).stored_at() == old(self).stored_at(),
            has_prefix(final(self)@.queue, old(self)@.queue),
    {
        let answer = self.sync_complete();
        self.push(answer);
        self.reported = true;
        assert(self@ =~= with_report(old(self)@));
    }

    fn sync_complete(&self) -> (r: ServerPayload)
        ensures
            r@ == report(self@),
    {
        ServerPayload::SyncComplete {
            pages_transferred: self.pages_transferred,
            bytes_transferred: self.bytes_transferred,
        }
    }

    /// Route a single request.
    pub fn process_envelope(&mut self, envelope: &ClientEnvelope) -> (r: Result<(), String>)
        ensures
            old(self).same_setting(final(self)),
            processed(
                old(self)@,
                payload_view(*envelope),
                final(self)@,
                r,
                old(self).faults(),
                old(self).reliable(),
            ),
            times_kept(
                old(self).clock(),
                written(old(self)@, payload_view(*envelope)),
                old(self).stored_at(),
                final(self).stored_at(),
                r is Ok,
            ),
    {
        proof {
            lemma_no_times(
                self.clock(),
                written(self@, payload_view(*envelope)),
                self.stored_at(),
            );
            assert(self@.queue.take(self@.queue.len() as int) =~= self@.queue);
        }
        let payload: &ClientPayload = match &envelope.payload {
            Some(p) => p,
            None => {
                return Err("empty client envelope".to_owned());
            },
        };
        if !self.saw_hello {
            return match payload {
                ClientPayload::Hello { protocol_version, page_size, max_page } => {
                    self.handle_hello(*protocol_version, *page_size, Ghost(*max_page))
                },
                _ => Err("first envelope must be Hello".to_owned()),
            };
        }
        match payload {
            ClientPayload::Hello { .. } => Err("Hello may only be sent once".to_owned()),
            ClientPayload::PageHash { page_no, hash } => {
                self.handle_page_hash(*page_no, hash.as_str())
            },
            ClientPayload::PageHashBatch { start_page, end_page, combined_hash } => {
                self.handle_page_hash_batch(*start_page, *end_page, combined_hash.as_str())
            },
            ClientPayload::PageData { page_no, data } => match self.direction {
                Direction::Push => self.handle_page_data(*page_no, data.as_slice()),
                Direction::Pull => Err("page bytes may only be sent on a push".to_owned()),
            },
            ClientPayload::PageDataBatch { pages } => match self.direction {
                Direction::Push => self.handle_page_data_batch(pages),
                Direction::Pull => Err("page bytes may only be sent on a push".to_owned()),
            },
            ClientPayload::Complete => self.handle_complete(),
        }
    }

    fn handle_hello(
        &mut self,
        protocol_version: u32,
        page_size: u32,
        Ghost(max_page): Ghost<u32>,
    ) -> (r: Result<(), String>)
        requires
            !old(self)@.saw_hello,
        ensures
            old(self).same_setting(final(self)),
            processed(
                old(self)@,
                Some((RequestView::Hello { protocol_version, page_size, max_page })),
                final(self)@,
                r,
                old(self).faults(),
                old(self).reliable(),
            ),
            final(self).stored_at() == old(self).stored_at(),
    {
        proof {
            assert(self@.queue.take(self@.queue.len() as int) =~= self@.queue);
        }
        if protocol_version != PROTOCOL_VERSION {
            return Err(
                join2(
                    "protocol_version mismatch: server=1, client=",
                    format_u64(protocol_version as u64).as_str(),
                ),
            );
        }
        self.saw_hello = true;
        assert(self@ =~= SessionView { saw_hello: true, ..old(self)@ });
        let stored_max: u32 = match self.storage.max_page() {
            Ok(max) => max,
            Err(f) => {
                assert(self.faults().contains(f@));
                return Err(f.to_string());
            },
        };
        proof {
            super::sync_fsm::lemma_max_page(self.storage.pages(), stored_max);
        }
        self.push(
            ServerPayload::HelloReply {
                protocol_version: PROTOCOL_VERSION,
                page_size,
                max_page: stored_max,
            },
        );
        Ok(())
    }

    fn handle_page_hash(&mut self, page_no: u32, hash: &str) -> (r: Result<(), String>)
        requires
            old(self)@.saw_hello,
        ensures
            old(self).same_setting(final(self)),
            processed(
                old(self)@,
                Some((RequestView::PageHash { page_no, hash: hash@ })),
                final(self)@,
                r,
                old(self).faults(),
                old(self).reliable(),
            ),
            final(self).stored_at() == old(self).stored_at(),
    {
        proof {
            assert(self@.queue.take(self@.queue.len() as int) =~= self@.queue);
        }
        match self.storage.get_page_hash(page_no) {
            Ok(found) => {
                if let Some(stored) = found {
                    if str_eq(hex_encode(stored.as_slice()).as_str(), hash) {
                        return Ok(());
                    }
                }
            },
            Err(f) => {
                assert(self.faults().contains(f@));
                return Err(f.to_string());
            },
        }
        match self.direction {
            Direction::Push => {
                // Track the request so SyncComplete waits for the matching PageData.
                self.pending_requests.insert(page_no);
                assert(self@ =~= SessionView {
                    pending: old(self)@.pending.insert(page_no),
                    ..old(self)@
                });
                self.push(ServerPayload::RequestPage { page_no });
                Ok(())
            },
            Direction::Pull => {
                // Pull: client reports its hash; server pushes canonical bytes
                // when it has them, otherwise stays silent (client's copy stands).
                match self.storage.get_page(page_no) {
                    Ok(found) => {
                        if let Some(data) = found {
                            self.bytes_transferred = self.bytes_transferred.wrapping_add(
                                data.len() as u64,
                            );
                            self.pages_transferred = self.pages_transferred.wrapping_add(1);
                            assert(self@ =~= counted(old(self)@, data@));
                            self.push(ServerPayload::PageData { page_no, data });
                        }
                        Ok(())
                    },
                    Err(f) => {
                        assert(self.faults().contains(f@));
                        Err(f.to_string())
                    },
                }
            },
        }
    }

    fn handle_page_hash_batch(&mut self, start_page: u32, end_page: u32, combined: &str) -> (r:
        Result<(), String>)
        requires
            old(self)@.saw_hello,
        ensures
            old(self).same_setting(final(self)),
            processed(
                old(self)@,
                Some((RequestView::PageHashBatch { start_page, end_page, combined_hash: combined@ })),
                final(self)@,
                r,
                old(self).faults(),
                old(self).reliable(),
            ),
            final(self).stored_at() == old(self).stored_at(),
    {
        proof {
            assert(self@.queue.take(self@.queue.len() as int) =~= self@.queue);
        }
        match self.storage.combined_hash(start_page, end_page) {
            Ok(stored) => {
                if str_eq(hex_encode(stored.as_slice()).as_str(), combined) {
                    return Ok(());
                }
            },
            Err(f) => {
                assert(self.faults().contains(f@));
                return Err(f.to_string());
            },
        }
        let page_numbers: Vec<u32> = collect_range(start_page, end_page);
        self.push(ServerPayload::HashMismatchBatch { page_numbers });
        Ok(())
    }

    fn handle_page_data(&mut self, page_no: u32, data: &[u8]) -> (r: Result<(), String>)
        requires
            old(self)@.saw_hello,
            old(self)@.direction == Direction::Push,
        ensures
            old(self).same_setting(final(self)),
            processed(
                old(self)@,
                Some((RequestView::PageData { page_no, data: data@ })),
                final(self)@,
                r,
                old(self).faults(),
                old(self).reliable(),
            ),
            times_kept(
                old(self).clock(),
                seq![(page_no, data@)],
                old(self).stored_at(),
                final(self).stored_at(),
                r is Ok,
            ),
    {
        proof {
            assert(self@.queue.take(self@.queue.len() as int) =~= self@.queue);
        }
        let ghost list = seq![(page_no, data@)];
        self.pending_requests.remove(&page_no);
        let hash: Vec<u8> = page_hash(data);
        let now: i64 = self.clock.now_ms();
        match self.storage.put_page(page_no, data, hash.as_slice(), now) {
            Ok(()) => {},
            Err(f) => {
                proof {
                    assert(self.faults().contains(f@));
                    assert(self@ =~= SessionView {
                        pending: old(self)@.pending.remove(page_no),
                        ..old(self)@
                    });
                    lemma_no_times(self.clock(), list, self.stored_at());
                }
                return Err(f.to_string());
            },
        }
        proof {
            let times = seq![now];
            assert(list.take(1) =~= list);
            assert(list.drop_last() =~= Seq::<(u32, Seq<u8>)>::empty());
            assert(timed(old(self).stored_at(), list.drop_last(), times.drop_last())
                == old(self).stored_at());
            assert(timed(old(self).stored_at(), list.take(times.len() as int), times)
                =~= self.stored_at());
        }
        self.pages_transferred = self.pages_transferred.wrapping_add(1);
        self.bytes_transferred = self.bytes_transferred.wrapping_add(data.len() as u64);
        let ghost t = counted(
            SessionView {
                pending: old(self)@.pending.remove(page_no),
                pages: old(self)@.pages.insert(
                    page_no,
                    PageView { data: data@, hash: blake3_digest(data@) },
                ),
                ..old(self)@
            },
            data@,
        );
        assert(self@ =~= t);
        if self.completed_hash_phase && self.pending_requests.is_empty() {
            self.report_completion();
        }
        Ok(())
    }

    fn handle_page_data_batch(&mut self, pages: &Vec<PageDataEntry>) -> (r: Result<(), String>)
        requires
            old(self)@.saw_hello,
            old(self)@.direction == Direction::Push,
        ensures
            old(self).same_setting(final(self)),
            processed(
                old(self)@,
                Some((RequestView::PageDataBatch { pages: entries_view(pages@) })),
                final(self)@,
                r,
                old(self).faults(),
                old(self).reliable(),
            ),
            times_kept(
                old(self).clock(),
                entries_view(pages@),
                old(self).stored_at(),
                final(self).stored_at(),
                r is Ok,
            ),
    {
        let ghost all = entries_view(pages@);
        let ghost mut times: Seq<i64> = Seq::empty();
        proof {
            assert(self@.queue.take(self@.queue.len() as int) =~= self@.queue);
            assert(all.take(0) =~= Seq::<(u32, Seq<u8>)>::empty());
        }
        let mut i: usize = 0;
        while i < pages.len()
            invariant
                i <= pages.len(),
                all == entries_view(pages@),
                old(self)@.saw_hello,
                old(self)@.direction == Direction::Push,
                old(self).same_setting(self),
                self@ == on_data_batch(old(self)@, all.take(i as int)),
                has_prefix(self@.queue, old(self)@.queue),
                times.len() == i,
                forall|j: int| 0 <= j < i ==> old(self).clock().shows(#[trigger] times[j]),
                self.stored_at() == timed(old(self).stored_at(), all.take(i as int), times),
            decreases pages.len() - i,
        {
            let ghost mid = self@;
            let ghost at = self.stored_at();
            proof {
                assert(all.take(i + 1).drop_last() =~= all.take(i as int));
                assert(all.take(i + 1).last() == (pages@[i as int].page_no, pages@[i
                    as int].data@));
                lemma_batch_kind(old(self)@, all.take(i as int));
            }
            let r: Result<(), String> = self.handle_page_data(
                pages[i].page_no,
                pages[i].data.as_slice(),
            );
            proof {
                lemma_prefix_chain(self@.queue, mid.queue, old(self)@.queue);
                let list = seq![all[i as int]];
                let got = choose|got: Seq<i64>|
                    {
                        &&& got.len() <= list.len()
                        &&& r is Ok ==> got.len() == list.len()
                        &&& forall|j: int|
                            0 <= j < got.len() ==> old(self).clock().shows(#[trigger] got[j])
                        &&& self.stored_at() == #[trigger] timed(
                            at,
                            list.take(got.len() as int),
                            got,
                        )
                    };
                if got.len() == 1 {
                    assert(list.take(1).drop_last() =~= Seq::<(u32, Seq<u8>)>::empty());
                    assert(times.push(got[0]).drop_last() =~= times);
                    assert(timed(at, list.take(1).drop_last(), got.drop_last()) == at);
                    assert(self.stored_at() == at.insert(all[i as int].0, got[0]));
                    assert(self.stored_at() == timed(
                        old(self).stored_at(),
                        all.take(i + 1),
                        times.push(got[0]),
                    ));
                    times = times.push(got[0]);
                } else {
                    assert(list.take(0) =~= Seq::<(u32, Seq<u8>)>::empty());
                }
                if r is Err {
                    assert(mid == on_data_batch(old(self)@, all.take(i as int)));
                    assert(halted(
                        old(self)@,
                        RequestView::PageDataBatch { pages: all },
                        self@,
                    ));
                }
            }
            match r {
                Ok(()) => {},
                Err(e) => {
                    return Err(e);
                },
            }
            i = i + 1;
        }
        assert(all.take(i as int) =~= all);
        Ok(())
    }

    fn handle_complete(&mut self) -> (r: Result<(), String>)
        requires
            old(self)@.saw_hello,
        ensures
            old(self).same_setting(final(self)),
            processed(
                old(self)@,
                Some((RequestView::Complete)),
                final(self)@,
                r,
                old(self).faults(),
                old(self).reliable(),
            ),
            final(self).stored_at() == old(self).stored_at(),
    {
        proof {
            assert(self@.queue.take(self@.queue.len() as int) =~= self@.queue);
        }
        self.completed_hash_phase = true;
        assert(self@ =~= SessionView { completed_hash_phase: true, ..old(self)@ });
        if self.pending_requests.is_empty() {
            self.report_completion();
            self.finished = true;
            assert(self@ =~= on_complete(old(self)@));
        }
        Ok(())
    }
}

/// A batch of pages keeps the handshake and the direction.
proof fn lemma_batch_kind(s: SessionView, entries: Seq<(u32, Seq<u8>)>)
    ensures
        on_data_batch(s, entries).saw_hello == s.saw_hello,
        on_data_batch(s, entries).direction == s.direction,
    decreases entries.len(),
{
    if entries.len() > 0 {
        lemma_batch_kind(s, entries.drop_last());
    }
}

proof fn lemma_prefix_chain(a: Seq<AnswerView>, b: Seq<AnswerView>, c: Seq<AnswerView>)
    requires
        has_prefix(a, b),
        has_prefix(b, c),
    ensures
        has_prefix(a, c),
{
    assert(a.take(b.len() as int).take(c.len() as int) =~= a.take(c.len() as int));
}

// ---------- laws ----------

/// How many answers report completion.
pub open spec fn reports(answers: Seq<AnswerView>) -> nat
    decreases answers.len(),
{
    if answers.len() == 0 {
        0
    } else if answers.last() is SyncComplete {
        reports(answers.drop_last()) + 1
    } else {
        reports(answers.drop_last())
    }
}

/// What happens to a session: something is received, or an answer is sent.
pub enum StreamEvent {
    Receive(Received),
    Send,
}

/// The answers sent and the state after events.
pub open spec fn after_events(s: SessionView, events: Seq<StreamEvent>) -> (
    Seq<AnswerView>,
    SessionView,
)
    decreases events.len(),
{
    if events.len() == 0 {
        (Seq::empty(), s)
    } else {
        let (sent, t) = after_events(s, events.drop_last());
        match events.last() {
            StreamEvent::Receive(input) => (sent, received(t, input)),
            StreamEvent::Send => if t.queue.len() > 0 {
                (sent.push(t.queue[0]), SessionView { queue: t.queue.skip(1), ..t })
            } else {
                (sent, t)
            },
        }
    }
}

proof fn lemma_reports_concat(a: Seq<AnswerView>, b: Seq<AnswerView>)
    ensures
        reports(a + b) == reports(a) + reports(b),
    decreases b.len(),
{
    if b.len() == 0 {
        assert(a + b =~= a);
    } else {
        assert((a + b).drop_last() =~= a + b.drop_last());
        lemma_reports_concat(a, b.drop_last());
    }
}

/// What a state's flag and its queue say of reports agree with those before:
/// the flag is set with the first.
spec fn flag_agrees(s: SessionView, t: SessionView) -> bool {
    &&& s.reported ==> t.reported
    &&& reports(t.queue) >= reports(s.queue)
    &&& !s.reported ==> (t.reported <==> reports(t.queue) > reports(s.queue))
}

proof fn lemma_queued(s: SessionView, a: AnswerView)
    ensures
        reports(queued(s, a).queue) == reports(s.queue) + if a is SyncComplete {
            1nat
        } else {
            0nat
        },
{
    assert(s.queue.push(a).drop_last() =~= s.queue);
}

proof fn lemma_page_reported(s: SessionView, page_no: u32, data: Seq<u8>)
    ensures
        flag_agrees(s, on_page_data(s, page_no, data)),
{
    let t = counted(
        SessionView {
            pending: s.pending.remove(page_no),
            pages: s.pages.insert(page_no, PageView { data, hash: blake3_digest(data) }),
            ..s
        },
        data,
    );
    lemma_queued(t, report(t));
}

proof fn lemma_batch_reported(s: SessionView, entries: Seq<(u32, Seq<u8>)>)
    ensures
        flag_agrees(s, on_data_batch(s, entries)),
    decreases entries.len(),
{
    if entries.len() > 0 {
        let before = on_data_batch(s, entries.drop_last());
        lemma_batch_reported(s, entries.drop_last());
        lemma_page_reported(before, entries.last().0, entries.last().1);
    }
}

proof fn lemma_received_reported(s: SessionView, input: Received)
    ensures
        flag_agrees(s, received(s, input)),
{
    lemma_queued(s, report(s));
    if let Received::Envelope(e) = input {
        match routed(s, payload_view(e)) {
            Err(message) => {
                lemma_queued(s, AnswerView::Error { message });
            },
            Ok(t) => {
                match payload_view(e) {
                    Some(RequestView::Hello { page_size, .. }) => {
                        lemma_queued(
                            s,
                            AnswerView::HelloReply {
                                protocol_version: PROTOCOL_VERSION,
                                page_size,
                                max_page: max_page_of(s.pages),
                            },
                        );
                    },
                    Some(RequestView::PageHash { page_no, .. }) => {
                        lemma_queued(s, AnswerView::RequestPage { page_no });
                        lemma_queued(
                            s,
                            AnswerView::PageData { page_no, data: s.pages[page_no].data },
                        );
                    },
                    Some(RequestView::PageHashBatch { start_page, end_page, .. }) => {
                        lemma_queued(
                            s,
                            AnswerView::HashMismatchBatch {
                                page_numbers: page_range(start_page, end_page),
                            },
                        );
                    },
                    Some(RequestView::PageData { page_no, data }) => {
                        lemma_page_reported(s, page_no, data);
                    },
                    Some(RequestView::PageDataBatch { pages }) => {
                        lemma_batch_reported(s, pages);
                    },
                    _ => {},
                }
            },
        }
    }
}

/// A session says that it has reported exactly where it has, whatever the client
/// does and whenever answers are sent.
pub proof fn law_reported_is_true(
    direction: Direction,
    pages: Map<u32, PageView>,
    events: Seq<StreamEvent>,
)
    ensures
        ({
            let (sent, t) = after_events(fresh_session(direction, pages), events);
            reports(sent + t.queue) > 0 <==> t.reported
        }),
    decreases events.len(),
{
    let s = fresh_session(direction, pages);
    let (sent, t) = after_events(s, events);
    if events.len() == 0 {
        assert(sent + t.queue =~= Seq::<AnswerView>::empty());
    } else {
        law_reported_is_true(direction, pages, events.drop_last());
        let (sent0, t0) = after_events(s, events.drop_last());
        match events.last() {
            StreamEvent::Receive(input) => {
                lemma_received_reported(t0, input);
                lemma_reports_concat(sent0, t0.queue);
                lemma_reports_concat(sent0, t.queue);
            },
            StreamEvent::Send => {
                if t0.queue.len() > 0 {
                    assert(sent + t.queue =~= sent0 + t0.queue);
                }
            },
        }
    }
}

/// A client that hangs up gets a report exactly where the handshake is over,
/// nothing is awaited and no report was made before.
pub proof fn law_hang_up_reports_what_is_unsent(
    direction: Direction,
    pages: Map<u32, PageView>,
    events: Seq<StreamEvent>,
)
    ensures
        ({
            let (sent, s) = after_events(fresh_session(direction, pages), events);
            let t = received(s, Received::Closed);
            &&& t.finished
            &&& reports(t.queue) == reports(s.queue) + if s.saw_hello && s.pending.is_empty()
                && reports(sent + s.queue) == 0 {
                1nat
            } else {
                0nat
            }
        }),
{
    let (sent, s) = after_events(fresh_session(direction, pages), events);
    law_reported_is_true(direction, pages, events);
    lemma_queued(s, report(s));
}

/// Page bytes are taken on a push alone: a pull refuses them, and no request of
/// a pull changes a stored page.
pub proof fn law_stream_pull_writes_nothing(s: SessionView, p: RequestView)
    requires
        s.direction == Direction::Pull,
    ensures
        routed(s, Some(p)) matches Ok(t) ==> t.pages == s.pages && t.direction == Direction::Pull,
        p is PageData || p is PageDataBatch ==> routed(s, Some(p)) is Err,
        written(s, Some(p)).len() == 0,
{
}

} // verus!
