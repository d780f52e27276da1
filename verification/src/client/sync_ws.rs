//! WebSocket sync client. Drives push and pull against the worker's
//! `/sync` endpoint.
//!
//! A flow says what to do next and takes what came in; whoever drives it reads
//! and writes pages, sends and receives.

use std::collections::VecDeque;

use vstd::prelude::*;

use super::output::{complete_line, complete_text, pulled_line};
use super::pages::PageReader;
use crate::shared::sync_protocol::{entries_view, MessageView, PageDataEntry, SyncMessage};
use crate::text::{
    decimal, format_u64, has_prefix, join2, join3, starts_with, strip_prefix, trim_end_of,
    trimmed_end_of,
};

verus! {

/// Wire-protocol version carried in the `Hello` handshake.
pub const HANDSHAKE_VERSION: u32 = 1;

pub const DEFAULT_PAGE_SIZE: u32 = 4096;

// ---------- the endpoint ----------

/// The sync endpoint of a server: its URL without slashes at the end, with a
/// WebSocket scheme in place of an HTTP one, and `/sync` behind it.
pub open spec fn endpoint(server: Seq<char>) -> Option<Seq<char>> {
    let t = trimmed_end_of(server, '/');
    if has_prefix(t, "http://"@) {
        Some("ws://"@ + t.skip("http://"@.len() as int) + "/sync"@)
    } else if has_prefix(t, "https://"@) {
        Some("wss://"@ + t.skip("https://"@.len() as int) + "/sync"@)
    } else if has_prefix(t, "ws://"@) || has_prefix(t, "wss://"@) {
        Some(t + "/sync"@)
    } else {
        None
    }
}

/// The sync endpoint of a server.
pub fn ws_url(server: &str) -> (r: Result<String, String>)
    ensures
        match endpoint(server@) {
            Some(url) => r matches Ok(s) && s@ == url,
            None => r matches Err(e) && e@ == "unsupported server scheme in `"@ + server@
                + "` (expected http/https/ws/wss)"@,
        },
{
    let trimmed: String = trim_end_of(server, '/');
    if let Some(rest) = strip_prefix(trimmed.as_str(), "http://") {
        return Ok(join3("ws://", rest.as_str(), "/sync"));
    }
    if let Some(rest) = strip_prefix(trimmed.as_str(), "https://") {
        return Ok(join3("wss://", rest.as_str(), "/sync"));
    }
    if starts_with(trimmed.as_str(), "ws://") || starts_with(trimmed.as_str(), "wss://") {
        return Ok(join2(trimmed.as_str(), "/sync"));
    }
    Err(join3("unsupported server scheme in `", server, "` (expected http/https/ws/wss)"))
}

// ---------- what can go wrong ----------

/// Where a message did not belong.
#[derive(Copy, Clone, Debug, PartialEq, Eq, Structural)]
pub enum Stage {
    Handshake,
    Hashing,
    PushDrain,
    Pull,
}

/// Why a flow stops short.
#[derive(Debug, PartialEq, Eq)]
pub enum FlowError {
    /// The server reported an error.
    Server(String),
    /// The server speaks another version.
    Version(u32),
    /// A message that does not belong where it came.
    Unexpected(Stage, SyncMessage),
}

/// [`FlowError`] over characters.
pub enum FlowErrorView {
    Server(Seq<char>),
    Version(u32),
    Unexpected(Stage, MessageView),
}

impl View for FlowError {
    type V = FlowErrorView;

    open spec fn view(&self) -> FlowErrorView {
        match self {
            FlowError::Server(s) => FlowErrorView::Server(s@),
            FlowError::Version(v) => FlowErrorView::Version(*v),
            FlowError::Unexpected(stage, m) => FlowErrorView::Unexpected(*stage, m@),
        }
    }
}

impl FlowErrorView {
    /// The message of the error; an unexpected message is to be shown behind.
    pub open spec fn text(self) -> Seq<char> {
        match self {
            FlowErrorView::Server(s) => "server error: "@ + s,
            FlowErrorView::Version(v) => "protocol_version mismatch: client=1, server="@ + decimal(
                v as nat,
            ),
            FlowErrorView::Unexpected(stage, _) => match stage {
                Stage::Handshake => "expected HelloReply, got "@,
                Stage::Hashing => "unexpected mid-hash message: "@,
                Stage::PushDrain => "unexpected message during push drain: "@,
                Stage::Pull => "unexpected message during pull: "@,
            },
        }
    }
}

impl FlowError {
    /// The message of the error; an unexpected message is to be shown behind.
    pub fn to_string(&self) -> (r: String)
        ensures
            r@ == self@.text(),
    {
        match self {
            FlowError::Server(s) => join2("server error: ", s.as_str()),
            FlowError::Version(v) => join2(
                "protocol_version mismatch: client=1, server=",
                format_u64(*v as u64).as_str(),
            ),
            FlowError::Unexpected(stage, _) => match stage {
                Stage::Handshake => "expected HelloReply, got ".to_owned(),
                Stage::Hashing => "unexpected mid-hash message: ".to_owned(),
                Stage::PushDrain => "unexpected message during push drain: ".to_owned(),
                Stage::Pull => "unexpected message during pull: ".to_owned(),
            },
        }
    }
}

// ---------- the handshake ----------

/// The handshake of a client whose last page is `max_page`.
pub fn hello(max_page: u32) -> (r: SyncMessage)
    ensures
        r@ == (MessageView::Hello {
            protocol_version: HANDSHAKE_VERSION,
            page_size: DEFAULT_PAGE_SIZE,
            max_page,
        }),
{
    SyncMessage::Hello {
        protocol_version: HANDSHAKE_VERSION,
        page_size: DEFAULT_PAGE_SIZE,
        max_page,
    }
}

/// What is wrong with the answer to the handshake.
pub open spec fn handshake_fault(m: MessageView) -> Option<FlowErrorView> {
    match m {
        MessageView::HelloReply { protocol_version, .. } => if protocol_version
            == HANDSHAKE_VERSION {
            None
        } else {
            Some(FlowErrorView::Version(protocol_version))
        },
        MessageView::Error { message } => Some(FlowErrorView::Server(message)),
        _ => Some(FlowErrorView::Unexpected(Stage::Handshake, m)),
    }
}

/// Verifies that the server's answer matches our protocol version.
pub fn check_handshake(msg: SyncMessage) -> (r: Result<(), FlowError>)
    ensures
        match handshake_fault(msg@) {
            None => r is Ok,
            Some(e) => r matches Err(got) && got@ == e,
        },
{
    match msg {
        SyncMessage::HelloReply { protocol_version, .. } => {
            if protocol_version == HANDSHAKE_VERSION {
                Ok(())
            } else {
                Err(FlowError::Version(protocol_version))
            }
        },
        SyncMessage::Error { message } => Err(FlowError::Server(message)),
        other => Err(FlowError::Unexpected(Stage::Handshake, other)),
    }
}

// ---------- push ----------

/// Where a push stands.
#[derive(Copy, Clone, Debug, PartialEq, Eq, Structural)]
pub enum PushPhase {
    /// The handshake is to be sent.
    Start,
    /// The server's answer to it is awaited.
    Handshake,
    /// Pages are announced.
    Hashing,
    /// A page was announced; what the server already answered is to be taken.
    Draining,
    /// Everything is announced; requested pages are served.
    Serving,
    /// The server reported completion.
    Finished,
}

/// What the driver of a push does next.
#[derive(Debug, PartialEq, Eq)]
pub enum PushAction {
    Send(SyncMessage),
    /// Read this page and send its announcement.
    Announce(u32),
    /// Hand in every frame that has already arrived, without waiting.
    DrainReady,
    /// Read this page and send its bytes.
    Serve(u32),
    /// Wait for a frame and hand it in.
    Receive,
    /// Close the socket; the push is over.
    Close,
}

/// [`PushAction`] over sequences.
pub enum PushActionView {
    Send(MessageView),
    Announce(u32),
    DrainReady,
    Serve(u32),
    Receive,
    Close,
}

impl View for PushAction {
    type V = PushActionView;

    open spec fn view(&self) -> PushActionView {
        match self {
            PushAction::Send(m) => PushActionView::Send(m@),
            PushAction::Announce(n) => PushActionView::Announce(*n),
            PushAction::DrainReady => PushActionView::DrainReady,
            PushAction::Serve(n) => PushActionView::Serve(*n),
            PushAction::Receive => PushActionView::Receive,
            PushAction::Close => PushActionView::Close,
        }
    }
}

/// A push: where it stands, the next page to announce, and the pages that the
/// server requested, oldest request first.
#[verifier::ext_equal]
pub struct PushView {
    pub phase: PushPhase,
    pub next: int,
    pub last: u32,
    pub pending: Seq<u32>,
}

/// A push before its first step.
pub open spec fn push_start(max_page: u32) -> PushView {
    PushView { phase: PushPhase::Start, next: 1, last: max_page, pending: Seq::empty() }
}

/// What is done next, and where the push then stands.
pub open spec fn push_next(s: PushView) -> (PushActionView, PushView) {
    match s.phase {
        PushPhase::Start => (
            PushActionView::Send(
                MessageView::Hello {
                    protocol_version: HANDSHAKE_VERSION,
                    page_size: DEFAULT_PAGE_SIZE,
                    max_page: s.last,
                },
            ),
            PushView { phase: PushPhase::Handshake, ..s },
        ),
        PushPhase::Handshake => (PushActionView::Receive, s),
        PushPhase::Hashing => if s.next <= s.last {
            (
                PushActionView::Announce(s.next as u32),
                PushView { phase: PushPhase::Draining, next: s.next + 1, ..s },
            )
        } else {
            (
                PushActionView::Send(MessageView::Complete),
                PushView { phase: PushPhase::Serving, ..s },
            )
        },
        PushPhase::Draining => (
            PushActionView::DrainReady,
            PushView { phase: PushPhase::Hashing, ..s },
        ),
        PushPhase::Serving => if s.pending.len() > 0 {
            (PushActionView::Serve(s.pending[0]), PushView { pending: s.pending.skip(1), ..s })
        } else {
            (PushActionView::Receive, s)
        },
        PushPhase::Finished => (PushActionView::Close, s),
    }
}

/// What a message does: the line to show where the sync is complete, and where
/// the push then stands, or why it stops.
pub open spec fn push_message(s: PushView, m: MessageView) -> Result<
    (Option<Seq<char>>, PushView),
    FlowErrorView,
> {
    match s.phase {
        PushPhase::Start | PushPhase::Handshake => match handshake_fault(m) {
            None => Ok((None, PushView { phase: PushPhase::Hashing, ..s })),
            Some(e) => Err(e),
        },
        _ => match m {
            MessageView::RequestPage { page_no } => Ok(
                (None, PushView { pending: s.pending.push(page_no), ..s }),
            ),
            MessageView::RequestPages { page_numbers } => Ok(
                (None, PushView { pending: s.pending + page_numbers, ..s }),
            ),
            MessageView::Error { message } => Err(FlowErrorView::Server(message)),
            MessageView::SyncComplete { pages_transferred, bytes_transferred } => if s.phase
                == PushPhase::Serving || s.phase == PushPhase::Finished {
                Ok(
                    (
                        Some(complete_text(pages_transferred, bytes_transferred)),
                        PushView { phase: PushPhase::Finished, ..s },
                    ),
                )
            } else {
                Err(FlowErrorView::Unexpected(Stage::Hashing, m))
            },
            _ => Err(
                FlowErrorView::Unexpected(
                    if s.phase == PushPhase::Serving || s.phase == PushPhase::Finished {
                        Stage::PushDrain
                    } else {
                        Stage::Hashing
                    },
                    m,
                ),
            ),
        },
    }
}

/// A push of a local database.
pub struct PushFlow {
    phase: PushPhase,
    reader: PageReader,
    pending: VecDeque<u32>,
}

impl View for PushFlow {
    type V = PushView;

    closed spec fn view(&self) -> PushView {
        PushView {
            phase: self.phase,
            next: self.reader.next(),
            last: self.reader.last(),
            pending: self.pending@,
        }
    }
}

/// What handing in a message gave, over characters.
pub open spec fn push_result(r: Result<Option<String>, FlowError>, next: PushView) -> Result<
    (Option<Seq<char>>, PushView),
    FlowErrorView,
> {
    match r {
        Ok(line) => Ok((crate::shared::domain::entities::opt_chars(line), next)),
        Err(e) => Err(e@),
    }
}

impl PushFlow {
    pub closed spec fn valid(&self) -> bool {
        self.reader.valid()
    }

    /// A push of a database whose last page is `max_page`.
    pub fn new(max_page: u32) -> (r: Self)
        ensures
            r.valid(),
            r@ == push_start(max_page),
    {
        PushFlow {
            phase: PushPhase::Start,
            reader: PageReader::new(max_page),
            pending: VecDeque::new(),
        }
    }

    /// What to do next.
    pub fn next(&mut self) -> (r: PushAction)
        requires
            old(self).valid(),
        ensures
            final(self).valid(),
            (r@, final(self)@) == push_next(old(self)@),
    {
        match self.phase {
            PushPhase::Start => {
                self.phase = PushPhase::Handshake;
                PushAction::Send(hello(self.reader.max_page()))
            },
            PushPhase::Handshake => PushAction::Receive,
            PushPhase::Hashing => match self.reader.advance() {
                Some(n) => {
                    self.phase = PushPhase::Draining;
                    PushAction::Announce(n)
                },
                None => {
                    self.phase = PushPhase::Serving;
                    PushAction::Send(SyncMessage::Complete)
                },
            },
            PushPhase::Draining => {
                self.phase = PushPhase::Hashing;
                PushAction::DrainReady
            },
            PushPhase::Serving => match self.pending.pop_front() {
                Some(n) => {
                    assert(self.pending@ =~= old(self)@.pending.skip(1));
                    PushAction::Serve(n)
                },
                None => PushAction::Receive,
            },
            PushPhase::Finished => PushAction::Close,
        }
    }

    fn request_all(&mut self, pages: &Vec<u32>)
        requires
            old(self).valid(),
        ensures
            final(self).valid(),
            final(self)@ == (PushView { pending: old(self)@.pending + pages@, ..old(self)@ }),
    {
        let mut i: usize = 0;
        assert(self.pending@ =~= old(self)@.pending + pages@.take(0));
        while i < pages.len()
            invariant
                i <= pages.len(),
                self.valid(),
                self@ == (PushView {
                    pending: old(self)@.pending + pages@.take(i as int),
                    ..old(self)@
                }),
            decreases pages.len() - i,
        {
            let n: u32 = pages[i];
            self.pending.push_back(n);
            assert(pages@.take(i + 1) =~= pages@.take(i as int).push(n));
            assert(self.pending@ =~= old(self)@.pending + pages@.take(i + 1));
            i = i + 1;
        }
        assert(pages@.take(i as int) =~= pages@);
    }

    /// Takes a frame in. Gives the line to show where the sync is complete.
    pub fn on_message(&mut self, msg: SyncMessage) -> (r: Result<Option<String>, FlowError>)
        requires
            old(self).valid(),
        ensures
            final(self).valid(),
            push_result(r, final(self)@) == push_message(old(self)@, msg@),
            r is Err ==> final(self)@ == old(self)@,
    {
        if self.phase == PushPhase::Start || self.phase == PushPhase::Handshake {
            return match check_handshake(msg) {
                Ok(()) => {
                    self.phase = PushPhase::Hashing;
                    Ok(None)
                },
                Err(e) => Err(e),
            };
        }
        let serving: bool = self.phase == PushPhase::Serving || self.phase == PushPhase::Finished;
        let stage: Stage = if serving {
            Stage::PushDrain
        } else {
            Stage::Hashing
        };
        match msg {
            SyncMessage::RequestPage { page_no } => {
                self.pending.push_back(page_no);
                Ok(None)
            },
            SyncMessage::RequestPages { page_numbers } => {
                self.request_all(&page_numbers);
                Ok(None)
            },
            SyncMessage::Error { message } => Err(FlowError::Server(message)),
            SyncMessage::SyncComplete { pages_transferred, bytes_transferred } => {
                if serving {
                    self.phase = PushPhase::Finished;
                    Ok(Some(complete_line(pages_transferred, bytes_transferred)))
                } else {
                    Err(
                        FlowError::Unexpected(
                            stage,
                            SyncMessage::SyncComplete { pages_transferred, bytes_transferred },
                        ),
                    )
                }
            },
            other => Err(FlowError::Unexpected(stage, other)),
        }
    }
}

// ---------- pull ----------

/// Where a pull stands.
#[derive(Copy, Clone, Debug, PartialEq, Eq, Structural)]
pub enum PullPhase {
    /// The handshake is to be sent.
    Start,
    /// The server's answer to it is awaited.
    Handshake,
    /// Local pages are announced, so that the server can decide which differ.
    Announcing,
    /// Everything is announced; pages are taken.
    Receiving,
    /// The server reported completion.
    Finished,
}

/// What the driver of a pull does next.
#[derive(Debug, PartialEq, Eq)]
pub enum PullAction {
    Send(SyncMessage),
    /// Read this page and send its announcement.
    Announce(u32),
    /// Wait for a frame and hand it in.
    Receive,
    /// Close the socket; the pull is over.
    Close,
}

/// [`PullAction`] over sequences.
pub enum PullActionView {
    Send(MessageView),
    Announce(u32),
    Receive,
    Close,
}

impl View for PullAction {
    type V = PullActionView;

    open spec fn view(&self) -> PullActionView {
        match self {
            PullAction::Send(m) => PullActionView::Send(m@),
            PullAction::Announce(n) => PullActionView::Announce(*n),
            PullAction::Receive => PullActionView::Receive,
            PullAction::Close => PullActionView::Close,
        }
    }
}

/// What a message asks the driver of a pull to do.
#[derive(Debug, PartialEq, Eq)]
pub enum PullEffect {
    Nothing,
    /// Write these pages.
    Write(Vec<PageDataEntry>),
    /// Show the line and commit what was written.
    Commit(String),
}

/// [`PullEffect`] over sequences.
pub enum PullEffectView {
    Nothing,
    Write(Seq<(u32, Seq<u8>)>),
    Commit(Seq<char>),
}

impl View for PullEffect {
    type V = PullEffectView;

    open spec fn view(&self) -> PullEffectView {
        match self {
            PullEffect::Nothing => PullEffectView::Nothing,
            PullEffect::Write(pages) => PullEffectView::Write(entries_view(pages@)),
            PullEffect::Commit(line) => PullEffectView::Commit(line@),
        }
    }
}

/// A pull: where it stands, the next local page to announce, and how many
/// pages were written. The count wraps around.
#[verifier::ext_equal]
pub struct PullView {
    pub phase: PullPhase,
    pub next: int,
    pub last: u32,
    pub written: u64,
}

/// A pull before its first step.
pub open spec fn pull_start(local_max: u32) -> PullView {
    PullView { phase: PullPhase::Start, next: 1, last: local_max, written: 0 }
}

/// What is done next, and where the pull then stands.
pub open spec fn pull_next(s: PullView) -> (PullActionView, PullView) {
    match s.phase {
        PullPhase::Start => (
            PullActionView::Send(
                MessageView::Hello {
                    protocol_version: HANDSHAKE_VERSION,
                    page_size: DEFAULT_PAGE_SIZE,
                    max_page: s.last,
                },
            ),
            PullView { phase: PullPhase::Handshake, ..s },
        ),
        PullPhase::Handshake | PullPhase::Receiving => (PullActionView::Receive, s),
        PullPhase::Announcing => if s.next <= s.last {
            (PullActionView::Announce(s.next as u32), PullView { next: s.next + 1, ..s })
        } else {
            (
                PullActionView::Send(MessageView::Complete),
                PullView { phase: PullPhase::Receiving, ..s },
            )
        },
        PullPhase::Finished => (PullActionView::Close, s),
    }
}

/// What a message does, and where the pull then stands, or why it stops.
pub open spec fn pull_message(s: PullView, m: MessageView) -> Result<
    (PullEffectView, PullView),
    FlowErrorView,
> {
    match s.phase {
        PullPhase::Start | PullPhase::Handshake => match handshake_fault(m) {
            None => Ok((PullEffectView::Nothing, PullView { phase: PullPhase::Announcing, ..s })),
            Some(e) => Err(e),
        },
        _ => match m {
            MessageView::PageData { page_no, data } => Ok(
                (
                    PullEffectView::Write(seq![(page_no, data)]),
                    PullView { written: s.written.wrapping_add(1), ..s },
                ),
            ),
            MessageView::PageDataBatch { pages } => Ok(
                (
                    PullEffectView::Write(pages),
                    PullView { written: s.written.wrapping_add(pages.len() as u64), ..s },
                ),
            ),
            MessageView::SyncComplete { pages_transferred, bytes_transferred } => Ok(
                (
                    PullEffectView::Commit(
                        complete_text(pages_transferred, bytes_transferred) + " (wrote "@
                            + decimal(s.written as nat) + " locally)"@,
                    ),
                    PullView { phase: PullPhase::Finished, ..s },
                ),
            ),
            MessageView::Error { message } => Err(FlowErrorView::Server(message)),
            _ => Err(FlowErrorView::Unexpected(Stage::Pull, m)),
        },
    }
}

/// A pull into a local database.
pub struct PullFlow {
    phase: PullPhase,
    reader: PageReader,
    written: u64,
}

impl View for PullFlow {
    type V = PullView;

    closed spec fn view(&self) -> PullView {
        PullView {
            phase: self.phase,
            next: self.reader.next(),
            last: self.reader.last(),
            written: self.written,
        }
    }
}

/// What handing in a message gave, over sequences.
pub open spec fn pull_result(r: Result<PullEffect, FlowError>, next: PullView) -> Result<
    (PullEffectView, PullView),
    FlowErrorView,
> {
    match r {
        Ok(a) => Ok((a@, next)),
        Err(e) => Err(e@),
    }
}

impl PullFlow {
    pub closed spec fn valid(&self) -> bool {
        self.reader.valid()
    }

    /// A pull into a database whose last page is `local_max`, zero where there
    /// is none yet.
    pub fn new(local_max: u32) -> (r: Self)
        ensures
            r.valid(),
            r@ == pull_start(local_max),
    {
        PullFlow { phase: PullPhase::Start, reader: PageReader::new(local_max), written: 0 }
    }

    /// What to do next.
    pub fn next(&mut self) -> (r: PullAction)
        requires
            old(self).valid(),
        ensures
            final(self).valid(),
            (r@, final(self)@) == pull_next(old(self)@),
    {
        match self.phase {
            PullPhase::Start => {
                self.phase = PullPhase::Handshake;
                PullAction::Send(hello(self.reader.max_page()))
            },
            PullPhase::Handshake | PullPhase::Receiving => PullAction::Receive,
            PullPhase::Announcing => match self.reader.advance() {
                Some(n) => PullAction::Announce(n),
                None => {
                    self.phase = PullPhase::Receiving;
                    PullAction::Send(SyncMessage::Complete)
                },
            },
            PullPhase::Finished => PullAction::Close,
        }
    }

    /// Takes a frame in.
    pub fn on_message(&mut self, msg: SyncMessage) -> (r: Result<PullEffect, FlowError>)
        requires
            old(self).valid(),
        ensures
            final(self).valid(),
            pull_result(r, final(self)@) == pull_message(old(self)@, msg@),
            r is Err ==> final(self)@ == old(self)@,
    {
        if self.phase == PullPhase::Start || self.phase == PullPhase::Handshake {
            return match check_handshake(msg) {
                Ok(()) => {
                    self.phase = PullPhase::Announcing;
                    Ok(PullEffect::Nothing)
                },
                Err(e) => Err(e),
            };
        }
        match msg {
            SyncMessage::PageData { page_no, data } => {
                self.written = self.written.wrapping_add(1);
                let mut pages: Vec<PageDataEntry> = Vec::new();
                let ghost bytes = data@;
                pages.push(PageDataEntry { page_no, data });
                assert(entries_view(pages@) =~= seq![(page_no, bytes)]);
                Ok(PullEffect::Write(pages))
            },
            SyncMessage::PageDataBatch { pages } => {
                self.written = self.written.wrapping_add(pages.len() as u64);
                Ok(PullEffect::Write(pages))
            },
            SyncMessage::SyncComplete { pages_transferred, bytes_transferred } => {
                self.phase = PullPhase::Finished;
                Ok(
                    PullEffect::Commit(
                        pulled_line(pages_transferred, bytes_transferred, self.written),
                    ),
                )
            },
            SyncMessage::Error { message } => Err(FlowError::Server(message)),
            other => Err(FlowError::Unexpected(Stage::Pull, other)),
        }
    }
}

// ---------- frames ----------

/// What a socket gave.
#[derive(Debug, PartialEq, Eq)]
pub enum Incoming {
    Binary(Vec<u8>),
    Text(String),
    /// A ping, a pong or a raw frame.
    Control,
    /// The server closed, with a code and a reason where it gave them.
    Closed(Option<(u16, String)>),
    /// The stream ended.
    Ended,
}

/// What to make of it.
#[derive(Debug, PartialEq, Eq)]
pub enum Taken {
    /// Decode these bytes.
    Frame(Vec<u8>),
    /// Wait for the next one: pings are answered elsewhere.
    Skip,
}

/// Why nothing more comes.
pub open spec fn closed_text(f: Option<(u16, Seq<char>)>) -> Seq<char> {
    "server closed connection: "@ + match f {
        Some((code, reason)) => decimal(code as nat) + " "@ + reason,
        None => Seq::empty(),
    }
}

/// Whether a result is what is due, or the error with the words that are.
pub open spec fn taken_as(r: Result<Taken, String>, due: Result<Taken, Seq<char>>) -> bool {
    match due {
        Ok(t) => r == Ok::<Taken, String>(t),
        Err(words) => r matches Err(e) && e@ == words,
    }
}

/// What is due while a frame is awaited.
pub open spec fn awaited(incoming: Incoming) -> Result<Taken, Seq<char>> {
    match incoming {
        Incoming::Binary(b) => Ok(Taken::Frame(b)),
        Incoming::Control => Ok(Taken::Skip),
        Incoming::Text(t) => Err("unexpected text frame: "@ + t@),
        Incoming::Closed(f) => Err(
            closed_text(
                match f {
                    Some((code, reason)) => Some((code, reason@)),
                    None => None,
                },
            ),
        ),
        Incoming::Ended => Err("ws closed before SyncComplete"@),
    }
}

/// What is due between announcements.
pub open spec fn ready(incoming: Incoming) -> Result<Taken, Seq<char>> {
    match incoming {
        Incoming::Binary(b) => Ok(Taken::Frame(b)),
        Incoming::Ended => Err("ws closed during hash phase"@),
        _ => Ok(Taken::Skip),
    }
}

/// A binary frame is handed on whole, whenever it comes, and nothing else is a
/// frame. A control frame never matters; text, a close and the end are errors
/// while a frame is awaited, but between announcements only the end is.
pub proof fn law_incoming(incoming: Incoming, b: Vec<u8>)
    ensures
        incoming == Incoming::Binary(b) <==> awaited(incoming) == Ok::<Taken, Seq<char>>(
            Taken::Frame(b),
        ),
        incoming == Incoming::Binary(b) <==> ready(incoming) == Ok::<Taken, Seq<char>>(
            Taken::Frame(b),
        ),
        awaited(incoming) == Ok::<Taken, Seq<char>>(Taken::Skip) <==> incoming is Control,
        ready(incoming) is Err <==> incoming is Ended,
        incoming matches Incoming::Text(t) ==> awaited(incoming) == Err::<Taken, Seq<char>>(
            "unexpected text frame: "@ + t@,
        ),
        incoming matches Incoming::Closed(Some((code, reason))) ==> awaited(incoming) == Err::<
            Taken,
            Seq<char>,
        >("server closed connection: "@ + decimal(code as nat) + " "@ + reason@),
{
    if let Incoming::Closed(Some((code, reason))) = incoming {
        law_closed_text(code, reason@);
    }
}

/// What to make of what a socket gave while a frame is awaited.
pub fn take_in(incoming: Incoming) -> (r: Result<Taken, String>)
    ensures
        taken_as(r, awaited(incoming)),
{
    match incoming {
        Incoming::Binary(b) => Ok(Taken::Frame(b)),
        Incoming::Control => Ok(Taken::Skip),
        Incoming::Text(t) => Err(join2("unexpected text frame: ", t.as_str())),
        Incoming::Closed(f) => {
            let detail: String = match f {
                Some((code, reason)) => join3(
                    format_u64(code as u64).as_str(),
                    " ",
                    reason.as_str(),
                ),
                None => String::new(),
            };
            Err(join2("server closed connection: ", detail.as_str()))
        },
        Incoming::Ended => Err("ws closed before SyncComplete".to_owned()),
    }
}

/// What to make of what a socket already has between announcements: only a
/// binary frame counts, and the stream must not end.
pub fn take_ready(incoming: Incoming) -> (r: Result<Taken, String>)
    ensures
        taken_as(r, ready(incoming)),
{
    match incoming {
        Incoming::Binary(b) => Ok(Taken::Frame(b)),
        Incoming::Ended => Err("ws closed during hash phase".to_owned()),
        _ => Ok(Taken::Skip),
    }
}

// ---------- laws ----------

/// The state after a push ran through `n` more announcements, with nothing
/// handed in.
pub open spec fn after_announcing(s: PushView, n: nat) -> PushView
    decreases n,
{
    if n == 0 {
        s
    } else {
        let t = after_announcing(s, (n - 1) as nat);
        push_next(push_next(t).1).1
    }
}

/// A push announces its pages one after another, from the first to the last,
/// and then says that it is complete.
pub proof fn law_every_page_is_announced(s: PushView, n: nat)
    requires
        s.phase == PushPhase::Hashing,
        s.next == 1,
        n <= s.last,
    ensures
        after_announcing(s, n) == (PushView { next: n as int + 1, ..s }),
        push_next(after_announcing(s, n)).0 == if n < s.last {
            PushActionView::Announce((n + 1) as u32)
        } else {
            PushActionView::Send(MessageView::Complete)
        },
    decreases n,
{
    if n > 0 {
        law_every_page_is_announced(s, (n - 1) as nat);
    }
}

/// Pages are served in the order in which they were requested: what is handed
/// in goes behind what is pending.
pub proof fn law_requests_are_served_in_order(s: PushView, pages: Seq<u32>)
    requires
        s.phase == PushPhase::Serving,
        s.pending.len() > 0,
    ensures
        push_message(s, MessageView::RequestPages { page_numbers: pages }) matches Ok((line, t))
            && line is None && push_next(t).0 == PushActionView::Serve(s.pending[0]) && push_next(
            t,
        ).1.pending == s.pending.skip(1) + pages,
{
    let t = PushView { pending: s.pending + pages, ..s };
    assert(t.pending.skip(1) =~= s.pending.skip(1) + pages);
}

/// Nothing is committed by a pull but on the server's report, and every page
/// that was sent before it is written.
pub proof fn law_pull_commits_on_report(s: PullView, m: MessageView)
    requires
        s.phase != PullPhase::Finished,
    ensures
        pull_message(s, m) matches Ok((e, t)) ==> {
            &&& (e is Commit) == (m is SyncComplete)
            &&& (e is Commit) == (t.phase == PullPhase::Finished)
            &&& m matches MessageView::PageData { page_no, data } ==> e == PullEffectView::Write(
                seq![(page_no, data)],
            )
        },
{
}

/// Nothing but the server's report ends a push, and none is taken before
/// everything was announced.
pub proof fn law_push_ends_on_report(s: PushView, m: MessageView)
    requires
        s.phase != PushPhase::Finished,
    ensures
        push_message(s, m) matches Ok((_, t)) && t.phase == PushPhase::Finished ==> m
            is SyncComplete && s.phase == PushPhase::Serving,
{
}

/// A close is told with its code and then its reason where it had them.
pub proof fn law_closed_text(code: u16, reason: Seq<char>)
    ensures
        closed_text(None) == "server closed connection: "@,
        closed_text(Some((code, reason))) == "server closed connection: "@ + decimal(code as nat)
            + " "@ + reason,
{
    assert(closed_text(None) =~= "server closed connection: "@);
    assert(closed_text(Some((code, reason))) =~= "server closed connection: "@ + decimal(
        code as nat,
    ) + " "@ + reason);
}

} // verus!
