//! `sync push` / `sync pull` over the bidi `SyncService.Sync` stream: what to
//! send, and what the server's answers ask for.

use std::collections::VecDeque;

use vstd::prelude::*;

use super::output::{complete_line, complete_text};
use super::sync_ws::DEFAULT_PAGE_SIZE;
use crate::shared::domain::enums::Direction;
use crate::shared::domain::ids::{hex_encode, hex_text};
use crate::shared::sync_protocol::{blake3_digest, page_hash};
use crate::text::{copy_bytes, decimal, format_u64, join2};
use crate::worker::services::sync::{payload_view, ClientEnvelope, ClientPayload, RequestView};

verus! {

/// Wire protocol version. Bumped together with the worker.
pub const PROTOCOL_VERSION: u32 = 1;

/// How many pages are announced before an answer is taken.
pub const CHUNK_SIZE: usize = 64;

/// A page with the hash of its bytes, in lowercase hexadecimal.
#[derive(Debug, PartialEq, Eq)]
pub struct Page {
    pub page_no: u32,
    pub data: Vec<u8>,
    pub hash: String,
}

impl Page {
    /// Whether the hash is that of the bytes.
    pub open spec fn hashed(&self) -> bool {
        self.hash@ == hex_text(blake3_digest(self.data@))
    }

    /// A page of these bytes.
    pub fn new(page_no: u32, data: Vec<u8>) -> (r: Self)
        ensures
            r.page_no == page_no,
            r.data == data,
            r.hashed(),
    {
        let hash: String = page_hash_hex(data.as_slice());
        Page { page_no, data, hash }
    }
}

/// The hash of a page's bytes, in lowercase hexadecimal.
pub fn page_hash_hex(data: &[u8]) -> (r: String)
    ensures
        r@ == hex_text(blake3_digest(data@)),
{
    hex_encode(page_hash(data).as_slice())
}

// ---------- what to send ----------

pub fn client_hello(max_page: u32) -> (r: ClientEnvelope)
    ensures
        payload_view(r) == Some(
            RequestView::Hello {
                protocol_version: PROTOCOL_VERSION,
                page_size: DEFAULT_PAGE_SIZE,
                max_page,
            },
        ),
{
    ClientEnvelope {
        payload: Some(
            ClientPayload::Hello {
                protocol_version: PROTOCOL_VERSION,
                page_size: DEFAULT_PAGE_SIZE,
                max_page,
            },
        ),
    }
}

pub fn client_page_hash(page_no: u32, hash: &str) -> (r: ClientEnvelope)
    ensures
        payload_view(r) == Some(RequestView::PageHash { page_no, hash: hash@ }),
{
    ClientEnvelope { payload: Some(ClientPayload::PageHash { page_no, hash: hash.to_owned() }) }
}

pub fn client_page_data(page_no: u32, data: Vec<u8>) -> (r: ClientEnvelope)
    ensures
        payload_view(r) == Some(RequestView::PageData { page_no, data: data@ }),
{
    ClientEnvelope { payload: Some(ClientPayload::PageData { page_no, data }) }
}

pub fn client_complete() -> (r: ClientEnvelope)
    ensures
        payload_view(r) == Some(RequestView::Complete),
{
    ClientEnvelope { payload: Some(ClientPayload::Complete) }
}

/// Whether the page at `i` is the last one of its number.
pub open spec fn is_last_of(pages: Seq<Page>, page_no: u32, i: int) -> bool {
    &&& 0 <= i < pages.len()
    &&& pages[i].page_no == page_no
    &&& forall|j: int| i < j < pages.len() ==> (#[trigger] pages[j]).page_no != page_no
}

/// Whether there is a page of this number.
pub open spec fn has_page(pages: Seq<Page>, page_no: u32) -> bool {
    exists|i: int| 0 <= i < pages.len() && (#[trigger] pages[i]).page_no == page_no
}

/// The page of a number; where a number came twice, the later one counts.
pub open spec fn page_of(pages: Seq<Page>, page_no: u32) -> Page {
    pages[choose|i: int| is_last_of(pages, page_no, i)]
}

fn find_page(pages: &Vec<Page>, page_no: u32) -> (r: Option<usize>)
    ensures
        match r {
            Some(i) => is_last_of(pages@, page_no, i as int) && has_page(pages@, page_no)
                && page_of(pages@, page_no) == pages@[i as int],
            None => !has_page(pages@, page_no),
        },
{
    let mut i: usize = pages.len();
    while i > 0
        invariant
            i <= pages.len(),
            forall|j: int| i <= j < pages@.len() ==> (#[trigger] pages@[j]).page_no != page_no,
        decreases i,
    {
        i = i - 1;
        if pages[i].page_no == page_no {
            proof {
                assert(is_last_of(pages@, page_no, i as int));
                let c = choose|c: int| is_last_of(pages@, page_no, c);
                assert(c == i);
            }
            return Some(i);
        }
    }
    None
}

/// What a pull announces of a page: its hash, or nothing where it is not
/// there.
pub open spec fn announced_hash(local: Seq<Page>, page_no: u32) -> Seq<char> {
    if has_page(local, page_no) {
        page_of(local, page_no).hash@
    } else {
        Seq::empty()
    }
}

/// What a pull announces of a page.
pub fn pull_announcement(local: &Vec<Page>, page_no: u32) -> (r: ClientEnvelope)
    ensures
        payload_view(r) == Some(
            RequestView::PageHash { page_no, hash: announced_hash(local@, page_no) },
        ),
{
    match find_page(local, page_no) {
        Some(i) => client_page_hash(page_no, local[i].hash.as_str()),
        None => {
            proof {
                reveal_strlit("");
                assert(""@ =~= Seq::<char>::empty());
            }
            client_page_hash(page_no, "")
        },
    }
}

/// The last page that a pull announces: the later of both sides' last pages.
pub fn highest_page(local_max: u32, server_max: u32) -> (r: u32)
    ensures
        r >= local_max,
        r >= server_max,
        r == local_max || r == server_max,
{
    if local_max >= server_max {
        local_max
    } else {
        server_max
    }
}

// ---------- what the server answers ----------

/// What the server answers.
#[derive(Debug, PartialEq, Eq)]
pub enum Answer {
    HelloReply { max_page: u32 },
    RequestPage { page_no: u32 },
    RequestPages { page_numbers: Vec<u32> },
    PageData { page_no: u32, data: Vec<u8> },
    SyncComplete { pages_transferred: u64, bytes_transferred: u64 },
    Error { message: String },
    /// Any other answer, or one without a payload.
    Other,
}

/// What came in place of the server's greeting.
#[derive(Copy, Clone, Debug, PartialEq, Eq, Structural)]
pub enum GreetingFault {
    /// The stream ended.
    Closed,
    /// An answer without a payload.
    Empty,
    /// Another answer, which is to be shown behind the message.
    Unexpected,
}

impl GreetingFault {
    pub open spec fn text(self) -> Seq<char> {
        match self {
            GreetingFault::Closed => "server closed unexpectedly"@,
            GreetingFault::Empty => "server closed before HelloReply"@,
            GreetingFault::Unexpected => "expected HelloReply, got "@,
        }
    }

    pub fn to_string(&self) -> (r: String)
        ensures
            r@ == self.text(),
    {
        match self {
            GreetingFault::Closed => "server closed unexpectedly".to_owned(),
            GreetingFault::Empty => "server closed before HelloReply".to_owned(),
            GreetingFault::Unexpected => "expected HelloReply, got ".to_owned(),
        }
    }
}

/// What comes first is a greeting with the server's last page, or a fault.
pub open spec fn greeted(first: Option<Option<Answer>>) -> Result<u32, GreetingFault> {
    match first {
        None => Err(GreetingFault::Closed),
        Some(None) => Err(GreetingFault::Empty),
        Some(Some(Answer::HelloReply { max_page })) => Ok(max_page),
        Some(Some(_)) => Err(GreetingFault::Unexpected),
    }
}

/// A greeting gives the last page that it names and nothing else gives one:
/// the end, an empty answer and any other answer are told apart.
pub proof fn law_greeting(answer: Answer, max_page: u32)
    ensures
        greeted(Some(Some(Answer::HelloReply { max_page }))) == Ok::<u32, GreetingFault>(max_page),
        answer !is HelloReply ==> greeted(Some(Some(answer))) == Err::<u32, GreetingFault>(
            GreetingFault::Unexpected,
        ),
        greeted(Some(None)) == Err::<u32, GreetingFault>(GreetingFault::Empty),
        greeted(None) == Err::<u32, GreetingFault>(GreetingFault::Closed),
{
}

/// The server's last page, out of what came first: an answer with a payload,
/// one without, or the end of the stream.
pub fn greeting(first: Option<Option<Answer>>) -> (r: Result<u32, GreetingFault>)
    ensures
        r == greeted(first),
{
    match first {
        None => Err(GreetingFault::Closed),
        Some(None) => Err(GreetingFault::Empty),
        Some(Some(answer)) => match answer {
            Answer::HelloReply { max_page } => Ok(max_page),
            _ => Err(GreetingFault::Unexpected),
        },
    }
}

// ---------- the flow ----------

/// What the driver of a stream does next.
#[derive(Debug, PartialEq, Eq)]
pub enum StreamAction {
    Send(ClientEnvelope),
    /// Nothing more is sent.
    CloseSend,
    /// Wait for an answer, or for the end of the stream, and hand it in.
    Receive,
    /// Show this line.
    Show(String),
    /// Stop with this error.
    Fail(String),
    /// The sync is over; after a pull, write the pages that were received.
    Done,
}

/// [`StreamAction`] over sequences.
pub enum StreamActionView {
    Send(Option<RequestView>),
    CloseSend,
    Receive,
    Show(Seq<char>),
    Fail(Seq<char>),
    Done,
}

impl View for StreamAction {
    type V = StreamActionView;

    open spec fn view(&self) -> StreamActionView {
        match self {
            StreamAction::Send(e) => StreamActionView::Send(payload_view(*e)),
            StreamAction::CloseSend => StreamActionView::CloseSend,
            StreamAction::Receive => StreamActionView::Receive,
            StreamAction::Show(s) => StreamActionView::Show(s@),
            StreamAction::Fail(s) => StreamActionView::Fail(s@),
            StreamAction::Done => StreamActionView::Done,
        }
    }
}

pub open spec fn action_views(s: Seq<StreamAction>) -> Seq<StreamActionView> {
    s.map_values(|a: StreamAction| a@)
}

/// Where a stream stands.
#[derive(Copy, Clone, Debug, PartialEq, Eq, Structural)]
pub enum StreamPhase {
    /// The greeting is to be sent.
    Start,
    /// The server's greeting is awaited.
    Greeting,
    /// Pages are announced.
    Announcing,
    /// One answer is awaited before the next announcements.
    Answer,
    /// Everything is announced; the sending side is to be closed.
    Closing,
    /// Answers are taken until the server reports completion.
    Draining,
    /// The sync is over.
    Finished,
}

/// A sync over the stream. `next` of `total` announcements are made; `queue`
/// is done before anything else.
#[verifier::ext_equal]
pub struct StreamView {
    pub direction: Direction,
    pub pages: Seq<Page>,
    pub local_max: u32,
    pub phase: StreamPhase,
    pub next: int,
    pub total: int,
    pub queue: Seq<StreamActionView>,
    pub received: Seq<(u32, Seq<u8>)>,
}

/// The state of a push before its first step.
pub open spec fn push_start(pages: Seq<Page>, local_max: u32) -> StreamView {
    StreamView {
        direction: Direction::Push,
        pages,
        local_max,
        phase: StreamPhase::Start,
        next: 0,
        total: pages.len() as int,
        queue: Seq::empty(),
        received: Seq::empty(),
    }
}

/// The state of a pull before its first step.
pub open spec fn pull_start(pages: Seq<Page>, local_max: u32) -> StreamView {
    StreamView {
        direction: Direction::Pull,
        pages,
        local_max,
        phase: StreamPhase::Start,
        next: 0,
        total: 0,
        queue: Seq::empty(),
        received: Seq::empty(),
    }
}

/// The `k`-th announcement: a push announces its own pages in their order, a
/// pull every page number, with the hash of the page where it has one.
pub open spec fn announced(s: StreamView, k: int) -> RequestView {
    match s.direction {
        Direction::Push => RequestView::PageHash {
            page_no: s.pages[k].page_no,
            hash: s.pages[k].hash@,
        },
        Direction::Pull => RequestView::PageHash {
            page_no: (k + 1) as u32,
            hash: announced_hash(s.pages, (k + 1) as u32),
        },
    }
}

/// Whether an answer is awaited after `done` announcements: a pull awaits one
/// after each, a push after each full chunk and after the last page.
pub open spec fn answer_due(s: StreamView, done: int) -> bool {
    s.direction == Direction::Pull || done % (CHUNK_SIZE as int) == 0 || done == s.total
}

/// What is done next, and where the stream then stands.
pub open spec fn stream_next(s: StreamView) -> (StreamActionView, StreamView) {
    if s.queue.len() > 0 {
        (
            s.queue[0],
            StreamView {
                queue: s.queue.skip(1),
                phase: if s.queue[0] is Fail {
                    StreamPhase::Finished
                } else {
                    s.phase
                },
                ..s
            },
        )
    } else {
        match s.phase {
            StreamPhase::Start => (
                StreamActionView::Send(
                    Some(
                        RequestView::Hello {
                            protocol_version: PROTOCOL_VERSION,
                            page_size: DEFAULT_PAGE_SIZE,
                            max_page: s.local_max,
                        },
                    ),
                ),
                StreamView { phase: StreamPhase::Greeting, ..s },
            ),
            StreamPhase::Greeting | StreamPhase::Answer | StreamPhase::Draining => (
                StreamActionView::Receive,
                s,
            ),
            StreamPhase::Announcing => if s.next < s.total {
                (
                    StreamActionView::Send(Some(announced(s, s.next))),
                    StreamView {
                        next: s.next + 1,
                        phase: if answer_due(s, s.next + 1) {
                            StreamPhase::Answer
                        } else {
                            StreamPhase::Announcing
                        },
                        ..s
                    },
                )
            } else {
                (
                    StreamActionView::Send(Some(RequestView::Complete)),
                    StreamView { phase: StreamPhase::Closing, ..s },
                )
            },
            StreamPhase::Closing => (
                StreamActionView::CloseSend,
                StreamView { phase: StreamPhase::Draining, ..s },
            ),
            StreamPhase::Finished => (StreamActionView::Done, s),
        }
    }
}

/// The page sent for a request.
pub open spec fn page_sent(pages: Seq<Page>, n: u32) -> StreamActionView {
    StreamActionView::Send(
        Some(RequestView::PageData { page_no: n, data: page_of(pages, n).data@ }),
    )
}

/// What requests lead to: the pages are sent, up to the first that is not
/// there, which fails the sync.
pub open spec fn requests_served(pages: Seq<Page>, ns: Seq<u32>) -> Seq<StreamActionView>
    decreases ns.len(),
{
    if ns.len() == 0 {
        Seq::empty()
    } else if !has_page(pages, ns[0]) {
        seq![
            StreamActionView::Fail(
                "server requested unknown page "@ + decimal(ns[0] as nat),
            ),
        ]
    } else {
        seq![page_sent(pages, ns[0])] + requests_served(pages, ns.skip(1))
    }
}

/// What an answer leads to: requested pages are sent by a push, page bytes are
/// kept by a pull; a report is shown; an error fails the sync.
pub open spec fn answered(s: StreamView, a: Option<Answer>) -> StreamView {
    let actions = match a {
        Some(Answer::RequestPage { page_no }) => if s.direction == Direction::Push {
            requests_served(s.pages, seq![page_no])
        } else {
            Seq::empty()
        },
        Some(Answer::RequestPages { page_numbers }) => if s.direction == Direction::Push {
            requests_served(s.pages, page_numbers@)
        } else {
            Seq::empty()
        },
        Some(Answer::SyncComplete { pages_transferred, bytes_transferred }) => seq![
            StreamActionView::Show(complete_text(pages_transferred, bytes_transferred)),
        ],
        Some(Answer::Error { message }) => seq![
            StreamActionView::Fail("server error: "@ + message@),
        ],
        _ => Seq::empty(),
    };
    StreamView {
        queue: s.queue + actions,
        received: match a {
            Some(Answer::PageData { page_no, data }) => if s.direction == Direction::Pull {
                s.received.push((page_no, data@))
            } else {
                s.received
            },
            _ => s.received,
        },
        phase: match s.phase {
            StreamPhase::Answer => StreamPhase::Announcing,
            _ => if a matches Some(Answer::SyncComplete { .. }) {
                StreamPhase::Finished
            } else {
                s.phase
            },
        },
        ..s
    }
}

/// What handing in the next answer does: one with a payload, one without, or
/// the end of the stream. `shown` is how the answer reads to a user.
pub open spec fn stream_answer(
    s: StreamView,
    a: Option<Option<Answer>>,
    shown: Seq<char>,
) -> StreamView {
    match s.phase {
        StreamPhase::Greeting => match a {
            Some(Some(Answer::HelloReply { max_page })) => StreamView {
                phase: StreamPhase::Announcing,
                total: match s.direction {
                    Direction::Push => s.total,
                    Direction::Pull => if max_page > s.local_max {
                        max_page as int
                    } else {
                        s.local_max as int
                    },
                },
                ..s
            },
            _ => StreamView {
                queue: s.queue.push(
                    StreamActionView::Fail(
                        match a {
                            None => GreetingFault::Closed.text(),
                            Some(None) => GreetingFault::Empty.text(),
                            Some(Some(_)) => GreetingFault::Unexpected.text() + shown,
                        },
                    ),
                ),
                ..s
            },
        },
        StreamPhase::Answer | StreamPhase::Draining => match a {
            Some(p) => answered(s, p),
            None => StreamView {
                phase: if s.phase == StreamPhase::Answer {
                    StreamPhase::Announcing
                } else {
                    StreamPhase::Finished
                },
                ..s
            },
        },
        _ => s,
    }
}

/// A sync over the stream, with the local pages.
pub struct StreamFlow {
    direction: Direction,
    pages: Vec<Page>,
    local_max: u32,
    phase: StreamPhase,
    next: u64,
    total: u64,
    queue: VecDeque<StreamAction>,
    /// What a pull received, in the order in which it came.
    received: Vec<Page>,
}

pub open spec fn received_views(s: Seq<Page>) -> Seq<(u32, Seq<u8>)> {
    s.map_values(|p: Page| (p.page_no, p.data@))
}

impl View for StreamFlow {
    type V = StreamView;

    closed spec fn view(&self) -> StreamView {
        StreamView {
            direction: self.direction,
            pages: self.pages@,
            local_max: self.local_max,
            phase: self.phase,
            next: self.next as int,
            total: self.total as int,
            queue: action_views(self.queue@),
            received: received_views(self.received@),
        }
    }
}

impl StreamFlow {
    /// Whether there is a page, or a page number, for every announcement, and
    /// what was received is kept with its own hashes.
    pub closed spec fn valid(&self) -> bool {
        &&& self.next <= self.total
        &&& forall|i: int| 0 <= i < self.received@.len() ==> (#[trigger] self.received@[i]).hashed()
        &&& self.direction == Direction::Push ==> self.total == self.pages@.len()
        &&& self.direction == Direction::Pull ==> self.total <= u32::MAX
        &&& self.phase == StreamPhase::Start || self.phase == StreamPhase::Greeting ==> self.next
            == 0
    }

    /// A push of these pages, the last of which has the number `local_max`.
    pub fn push(pages: Vec<Page>, local_max: u32) -> (r: Self)
        ensures
            r.valid(),
            r@ == push_start(pages@, local_max),
    {
        let total: u64 = pages.len() as u64;
        let r = StreamFlow {
            direction: Direction::Push,
            pages,
            local_max,
            phase: StreamPhase::Start,
            next: 0,
            total,
            queue: VecDeque::new(),
            received: Vec::new(),
        };
        assert(action_views(r.queue@) =~= Seq::<StreamActionView>::empty());
        assert(received_views(r.received@) =~= Seq::<(u32, Seq<u8>)>::empty());
        r
    }

    /// A pull over these local pages, the last of which has the number
    /// `local_max`.
    pub fn pull(pages: Vec<Page>, local_max: u32) -> (r: Self)
        ensures
            r.valid(),
            r@ == pull_start(pages@, local_max),
    {
        let r = StreamFlow {
            direction: Direction::Pull,
            pages,
            local_max,
            phase: StreamPhase::Start,
            next: 0,
            total: 0,
            queue: VecDeque::new(),
            received: Vec::new(),
        };
        assert(action_views(r.queue@) =~= Seq::<StreamActionView>::empty());
        assert(received_views(r.received@) =~= Seq::<(u32, Seq<u8>)>::empty());
        r
    }

    /// What a pull received, in the order in which it came, each page with
    /// the hash of its bytes.
    pub fn received(&self) -> (r: &Vec<Page>)
        requires
            self.valid(),
        ensures
            received_views(r@) == self@.received,
            forall|i: int| 0 <= i < r@.len() ==> (#[trigger] r@[i]).hashed(),
    {
        &self.received
    }

    fn announce(&mut self) -> (r: ClientEnvelope)
        requires
            old(self).valid(),
            old(self)@.next < old(self)@.total,
            old(self)@.phase == StreamPhase::Announcing,
        ensures
            final(self).valid(),
            payload_view(r) == Some(announced(old(self)@, old(self)@.next)),
            final(self)@ == (StreamView { next: old(self)@.next + 1, ..old(self)@ }),
    {
        let k: u64 = self.next;
        self.next = k + 1;
        match self.direction {
            Direction::Push => {
                assert(k < self.pages.len());
                let i: usize = k as usize;
                client_page_hash(self.pages[i].page_no, self.pages[i].hash.as_str())
            },
            Direction::Pull => pull_announcement(&self.pages, (k + 1) as u32),
        }
    }

    /// What to do next.
    pub fn next(&mut self) -> (r: StreamAction)
        requires
            old(self).valid(),
        ensures
            final(self).valid(),
            (r@, final(self)@) == stream_next(old(self)@),
    {
        match self.queue.pop_front() {
            Some(action) => {
                proof {
                    assert(action_views(self.queue@) =~= old(self)@.queue.skip(1));
                    assert(action@ == old(self)@.queue[0]);
                }
                match &action {
                    StreamAction::Fail(_) => {
                        self.phase = StreamPhase::Finished;
                    },
                    _ => {},
                }
                return action;
            },
            None => {},
        }
        match self.phase {
            StreamPhase::Start => {
                self.phase = StreamPhase::Greeting;
                StreamAction::Send(client_hello(self.local_max))
            },
            StreamPhase::Greeting | StreamPhase::Answer | StreamPhase::Draining => {
                StreamAction::Receive
            },
            StreamPhase::Announcing => {
                if self.next < self.total {
                    let e: ClientEnvelope = self.announce();
                    if self.direction == Direction::Pull || self.next % (CHUNK_SIZE as u64) == 0
                        || self.next == self.total {
                        self.phase = StreamPhase::Answer;
                    }
                    StreamAction::Send(e)
                } else {
                    self.phase = StreamPhase::Closing;
                    StreamAction::Send(client_complete())
                }
            },
            StreamPhase::Closing => {
                self.phase = StreamPhase::Draining;
                StreamAction::CloseSend
            },
            StreamPhase::Finished => StreamAction::Done,
        }
    }

    fn enqueue(&mut self, action: StreamAction)
        requires
            old(self).valid(),
        ensures
            final(self).valid(),
            final(self)@ == (StreamView { queue: old(self)@.queue.push(action@), ..old(self)@ }),
    {
        self.queue.push_back(action);
        assert(action_views(self.queue@) =~= old(self)@.queue.push(action@));
    }

    fn serve(&mut self, ns: &Vec<u32>)
        requires
            old(self).valid(),
        ensures
            final(self).valid(),
            final(self)@ == (StreamView {
                queue: old(self)@.queue + requests_served(old(self)@.pages, ns@),
                ..old(self)@
            }),
    {
        let ghost was = self@;
        let ghost all = requests_served(was.pages, ns@);
        let mut i: usize = 0;
        assert(ns@.skip(0) =~= ns@);
        while i < ns.len()
            invariant
                i <= ns.len(),
                self.valid(),
                was == old(self)@,
                all == requests_served(was.pages, ns@),
                self@ == (StreamView { queue: self@.queue, ..was }),
                self@.queue + requests_served(was.pages, ns@.skip(i as int)) == was.queue + all,
            decreases ns.len() - i,
        {
            let n: u32 = ns[i];
            let ghost rest = ns@.skip(i as int);
            let ghost before = self@.queue;
            proof {
                assert(rest[0] == n);
                assert(rest.skip(1) =~= ns@.skip(i + 1));
            }
            match find_page(&self.pages, n) {
                Some(k) => {
                    let data: Vec<u8> = copy_bytes(self.pages[k].data.as_slice());
                    self.enqueue(StreamAction::Send(client_page_data(n, data)));
                    proof {
                        assert(self@.queue == before.push(page_sent(was.pages, n)));
                        assert(self@.queue + requests_served(was.pages, ns@.skip(i + 1)) =~= before
                            + requests_served(was.pages, rest));
                    }
                },
                None => {
                    let message: String = join2(
                        "server requested unknown page ",
                        format_u64(n as u64).as_str(),
                    );
                    self.enqueue(StreamAction::Fail(message));
                    assert(self@.queue =~= before + requests_served(was.pages, rest));
                    return;
                },
            }
            i = i + 1;
        }
        proof {
            assert(ns@.skip(i as int) =~= Seq::<u32>::empty());
            assert(self@.queue + requests_served(was.pages, ns@.skip(i as int)) =~= self@.queue);
        }
    }

    fn take_answer(&mut self, answer: Option<Answer>)
        requires
            old(self).valid(),
        ensures
            final(self).valid(),
            final(self)@ == answered(old(self)@, answer),
    {
        let push: bool = self.direction == Direction::Push;
        let answering: bool = self.phase == StreamPhase::Answer;
        if answering {
            self.phase = StreamPhase::Announcing;
        }
        proof {
            assert(self@.queue + Seq::<StreamActionView>::empty() =~= self@.queue);
        }
        match answer {
            Some(Answer::RequestPage { page_no }) => {
                if push {
                    let mut one: Vec<u32> = Vec::new();
                    one.push(page_no);
                    assert(one@ =~= seq![page_no]);
                    self.serve(&one);
                }
            },
            Some(Answer::RequestPages { page_numbers }) => {
                if push {
                    self.serve(&page_numbers);
                }
            },
            Some(Answer::PageData { page_no, data }) => {
                if !push {
                    let ghost before = received_views(self.received@);
                    let ghost bytes = data@;
                    self.received.push(Page::new(page_no, data));
                    assert(received_views(self.received@) =~= before.push((page_no, bytes)));
                }
            },
            Some(Answer::SyncComplete { pages_transferred, bytes_transferred }) => {
                if !answering {
                    self.phase = StreamPhase::Finished;
                }
                let line: String = complete_line(pages_transferred, bytes_transferred);
                let ghost before = self@.queue;
                self.enqueue(StreamAction::Show(line));
                assert(self@.queue =~= before + seq![StreamActionView::Show(line@)]);
            },
            Some(Answer::Error { message }) => {
                let text: String = join2("server error: ", message.as_str());
                let ghost before = self@.queue;
                self.enqueue(StreamAction::Fail(text));
                assert(self@.queue =~= before + seq![StreamActionView::Fail(text@)]);
            },
            _ => {},
        }
    }

    /// Takes an answer in: one with a payload, one without, or the end of the
    /// stream. `shown` is how the answer reads to a user.
    pub fn on_answer(&mut self, answer: Option<Option<Answer>>, shown: &str)
        requires
            old(self).valid(),
        ensures
            final(self).valid(),
            final(self)@ == stream_answer(old(self)@, answer, shown@),
    {
        match self.phase {
            StreamPhase::Greeting => match greeting(answer) {
                Ok(server_max) => {
                    self.phase = StreamPhase::Announcing;
                    if self.direction == Direction::Pull {
                        self.total = highest_page(self.local_max, server_max) as u64;
                    }
                },
                Err(fault) => {
                    let head: String = fault.to_string();
                    let message: String = if fault == GreetingFault::Unexpected {
                        join2(head.as_str(), shown)
                    } else {
                        head
                    };
                    self.enqueue(StreamAction::Fail(message));
                },
            },
            StreamPhase::Answer | StreamPhase::Draining => match answer {
                Some(a) => self.take_answer(a),
                None => {
                    if self.phase == StreamPhase::Answer {
                        self.phase = StreamPhase::Announcing;
                    } else {
                        self.phase = StreamPhase::Finished;
                    }
                },
            },
            _ => {},
        }
    }
}

// ---------- what holds of every run ----------

/// Requests for pages that are there are served in their order.
pub proof fn law_requests_are_served(pages: Seq<Page>, ns: Seq<u32>)
    requires
        forall|i: int| 0 <= i < ns.len() ==> has_page(pages, #[trigger] ns[i]),
    ensures
        requests_served(pages, ns) == ns.map_values(|n: u32| page_sent(pages, n)),
    decreases ns.len(),
{
    let sent = ns.map_values(|n: u32| page_sent(pages, n));
    if ns.len() > 0 {
        let rest = ns.skip(1);
        assert forall|i: int| 0 <= i < rest.len() implies has_page(pages, #[trigger] rest[i]) by {
            assert(rest[i] == ns[i + 1]);
        }
        assert(has_page(pages, ns[0]));
        law_requests_are_served(pages, rest);
    }
    assert(requests_served(pages, ns) =~= sent);
}

/// The first request for a page that is not there fails the sync; the pages
/// before it are sent.
pub proof fn law_unknown_page_fails(pages: Seq<Page>, ns: Seq<u32>, k: int)
    requires
        0 <= k < ns.len(),
        forall|i: int| 0 <= i < k ==> has_page(pages, #[trigger] ns[i]),
        !has_page(pages, ns[k]),
    ensures
        requests_served(pages, ns) == ns.take(k).map_values(|n: u32| page_sent(pages, n)).push(
            StreamActionView::Fail("server requested unknown page "@ + decimal(ns[k] as nat)),
        ),
    decreases k,
{
    let want = ns.take(k).map_values(|n: u32| page_sent(pages, n)).push(
        StreamActionView::Fail("server requested unknown page "@ + decimal(ns[k] as nat)),
    );
    if k > 0 {
        let rest = ns.skip(1);
        assert forall|i: int| 0 <= i < k - 1 implies has_page(pages, #[trigger] rest[i]) by {
            assert(rest[i] == ns[i + 1]);
        }
        assert(rest[k - 1] == ns[k]);
        assert(has_page(pages, ns[0]));
        law_unknown_page_fails(pages, rest, k - 1);
    }
    assert(requests_served(pages, ns) =~= want);
}

/// A stream sync ends well only with the server's report or its end of the
/// stream, and only once everything was announced.
pub proof fn law_stream_ends_on_report(s: StreamView, a: Option<Option<Answer>>, shown: Seq<char>)
    requires
        s.phase != StreamPhase::Finished,
    ensures
        stream_answer(s, a, shown).phase == StreamPhase::Finished ==> {
            &&& s.phase == StreamPhase::Draining
            &&& a matches Some(p) ==> p is Some && p->0 is SyncComplete
        },
{
}

/// A pull announces every page number that either side has.
pub proof fn law_pull_covers_both_sides(s: StreamView, max_page: u32, shown: Seq<char>)
    requires
        s.direction == Direction::Pull,
        s.phase == StreamPhase::Greeting,
    ensures
        ({
            let t = stream_answer(s, Some(Some(Answer::HelloReply { max_page })), shown);
            &&& t.phase == StreamPhase::Announcing
            &&& t.total >= max_page && t.total >= s.local_max
            &&& t.total == max_page || t.total == s.local_max
        }),
{
}

} // verus!
