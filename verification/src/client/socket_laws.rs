//! What a sync over the socket does with each message, and what a whole run
//! of it announces, serves and writes.

use vstd::prelude::*;

use super::sync_ws::{
    endpoint, handshake_fault, pull_message, pull_next, pull_start, push_message, push_next,
    push_start, FlowErrorView, PullActionView, PullEffectView, PullPhase, PullView, PushActionView,
    PushPhase, PushView, Stage,
};
use crate::shared::sync_protocol::MessageView;
use crate::text::{decimal, has_prefix, trimmed_end_of};

verus! {

// ---------- the endpoint ----------

/// The endpoint of a server is its address with `/sync` behind it, over a
/// plain socket for `http` and a secure one for `https`; slashes at the end of
/// the address do not matter.
pub proof fn law_endpoint(host: Seq<char>, server: Seq<char>)
    requires
        host.len() > 0,
        host.last() != '/',
    ensures
        endpoint("http://"@ + host) == Some("ws://"@ + host + "/sync"@),
        endpoint("https://"@ + host) == Some("wss://"@ + host + "/sync"@),
        endpoint("ws://"@ + host) == Some("ws://"@ + host + "/sync"@),
        endpoint("wss://"@ + host) == Some("wss://"@ + host + "/sync"@),
        endpoint(server.push('/')) == endpoint(server),
{
    reveal_strlit("http://");
    reveal_strlit("https://");
    reveal_strlit("ws://");
    reveal_strlit("wss://");
    let a = "http://"@ + host;
    let b = "https://"@ + host;
    let c = "ws://"@ + host;
    let d = "wss://"@ + host;
    assert(a.last() == host.last() && b.last() == host.last());
    assert(c.last() == host.last() && d.last() == host.last());
    assert(trimmed_end_of(a, '/') == a);
    assert(trimmed_end_of(b, '/') == b);
    assert(trimmed_end_of(c, '/') == c);
    assert(trimmed_end_of(d, '/') == d);
    assert(a.take(7) =~= "http://"@ && a.skip(7) =~= host);
    assert(b.take(8) =~= "https://"@ && b.skip(8) =~= host);
    assert(b[4] == 's' && "http://"@[4] == ':');
    assert(b.take(7)[4] == 's');
    assert(c.take(5) =~= "ws://"@);
    assert(c[0] == 'w' && d[0] == 'w');
    assert(d.take(6) =~= "wss://"@);
    assert("http://"@[0] == 'h' && "https://"@[0] == 'h');
    assert(!has_prefix(c, "http://"@)) by {
        if has_prefix(c, "http://"@) {
            assert(c.take(7)[0] == c[0]);
        }
    }
    assert(!has_prefix(c, "https://"@)) by {
        if has_prefix(c, "https://"@) {
            assert(c.take(8)[0] == c[0]);
        }
    }
    assert(!has_prefix(d, "http://"@)) by {
        if has_prefix(d, "http://"@) {
            assert(d.take(7)[0] == d[0]);
        }
    }
    assert(!has_prefix(d, "https://"@)) by {
        if has_prefix(d, "https://"@) {
            assert(d.take(8)[0] == d[0]);
        }
    }
    assert(server.push('/').drop_last() =~= server);
    assert(trimmed_end_of(server.push('/'), '/') == trimmed_end_of(server, '/'));
}

// ---------- one message ----------

/// The server's greeting is taken exactly where it speaks our version; its
/// own error, and any other message, stop the flow with what came.
pub proof fn law_handshake(m: MessageView)
    ensures
        handshake_fault(m) is None <==> (m matches MessageView::HelloReply {
            protocol_version,
            ..
        } && protocol_version == 1),
        m matches MessageView::HelloReply { protocol_version, .. } ==> (protocol_version != 1
            ==> handshake_fault(m) == Some(FlowErrorView::Version(protocol_version))),
        m matches MessageView::Error { message } ==> handshake_fault(m) == Some(
            FlowErrorView::Server(message),
        ),
        !(m is HelloReply) && !(m is Error) ==> handshake_fault(m) == Some(
            FlowErrorView::Unexpected(Stage::Handshake, m),
        ),
{
}

/// Both flows greet first, with their version, the page size and their own
/// last page, and then await the answer; announcements follow it.
pub proof fn law_flows_greet(s: PushView, t: PullView, m: MessageView)
    requires
        s.phase == PushPhase::Start,
        t.phase == PullPhase::Start,
    ensures
        push_next(s).0 == PushActionView::Send(
            MessageView::Hello { protocol_version: 1, page_size: 4096, max_page: s.last },
        ),
        push_next(push_next(s).1).0 is Receive,
        push_next(s).1 == (PushView { phase: PushPhase::Handshake, ..s }),
        pull_next(t).0 == PullActionView::Send(
            MessageView::Hello { protocol_version: 1, page_size: 4096, max_page: t.last },
        ),
        pull_next(pull_next(t).1).0 is Receive,
        pull_next(t).1 == (PullView { phase: PullPhase::Handshake, ..t }),
        handshake_fault(m) is None ==> push_message(push_next(s).1, m) == Ok::<
            (Option<Seq<char>>, PushView),
            FlowErrorView,
        >((None, PushView { phase: PushPhase::Hashing, ..s })),
        handshake_fault(m) is None ==> pull_message(pull_next(t).1, m) == Ok::<
            (PullEffectView, PullView),
            FlowErrorView,
        >((PullEffectView::Nothing, PullView { phase: PullPhase::Announcing, ..t })),
        handshake_fault(m) matches Some(e) ==> push_message(push_next(s).1, m) == Err::<
            (Option<Seq<char>>, PushView),
            FlowErrorView,
        >(e) && pull_message(pull_next(t).1, m) == Err::<(PullEffectView, PullView), FlowErrorView>(
            e,
        ),
{
}

/// Whether a push is past its handshake.
pub open spec fn push_greeted(s: PushView) -> bool {
    s.phase != PushPhase::Start && s.phase != PushPhase::Handshake
}

/// Whether a pull is past its handshake.
pub open spec fn pull_greeted(s: PullView) -> bool {
    s.phase != PullPhase::Start && s.phase != PullPhase::Handshake
}

/// Requests go behind those that wait, in their order; a report is shown with
/// its own numbers, and ends a push that has announced everything; an error
/// stops it with its words.
pub proof fn law_push_takes_messages(
    s: PushView,
    page_no: u32,
    page_numbers: Seq<u32>,
    pages: u64,
    bytes: u64,
    message: Seq<char>,
)
    requires
        push_greeted(s),
    ensures
        push_message(s, MessageView::RequestPage { page_no }) matches Ok((line, t)) && line is None
            && t.pending == s.pending.push(page_no) && t == (PushView { pending: t.pending, ..s }),
        push_message(s, MessageView::RequestPages { page_numbers }) matches Ok((line, t)) && line
            is None && t.pending == s.pending + page_numbers && t == (PushView {
            pending: t.pending,
            ..s
        }),
        s.phase == PushPhase::Serving ==> (push_message(
            s,
            MessageView::SyncComplete { pages_transferred: pages, bytes_transferred: bytes },
        ) matches Ok((line, t)) && line == Some(
            "sync complete: "@ + decimal(pages as nat) + " pages, "@ + decimal(bytes as nat)
                + " bytes"@,
        ) && t == (PushView { phase: PushPhase::Finished, ..s })),
        s.phase == PushPhase::Hashing || s.phase == PushPhase::Draining ==> push_message(
            s,
            MessageView::SyncComplete { pages_transferred: pages, bytes_transferred: bytes },
        ) is Err,
        push_message(s, MessageView::Error { message }) == Err::<
            (Option<Seq<char>>, PushView),
            FlowErrorView,
        >(FlowErrorView::Server(message)),
{
}

/// A message that has no place in a push or a pull stops it, and is told with
/// the stage that it came in.
pub proof fn law_strays_stop_the_sync(s: PushView, t: PullView, m: MessageView)
    requires
        push_greeted(s),
        pull_greeted(t),
        !(m is Error || m is SyncComplete),
    ensures
        !(m is RequestPage || m is RequestPages) && (s.phase == PushPhase::Hashing || s.phase
            == PushPhase::Draining) ==> push_message(s, m) == Err::<
            (Option<Seq<char>>, PushView),
            FlowErrorView,
        >(FlowErrorView::Unexpected(Stage::Hashing, m)),
        !(m is RequestPage || m is RequestPages) && (s.phase == PushPhase::Serving || s.phase
            == PushPhase::Finished) ==> push_message(s, m) == Err::<
            (Option<Seq<char>>, PushView),
            FlowErrorView,
        >(FlowErrorView::Unexpected(Stage::PushDrain, m)),
        !(m is PageData || m is PageDataBatch) ==> pull_message(t, m) == Err::<
            (PullEffectView, PullView),
            FlowErrorView,
        >(FlowErrorView::Unexpected(Stage::Pull, m)),
{
}

/// A page that the server sends is written under its number with its bytes,
/// and counted; pages in one message are written in their order. A report is
/// shown with its numbers and the count of what was written, and ends the
/// pull; an error stops it with its words.
pub proof fn law_pull_takes_messages(
    s: PullView,
    page_no: u32,
    data: Seq<u8>,
    pages: Seq<(u32, Seq<u8>)>,
    count: u64,
    bytes: u64,
    message: Seq<char>,
)
    requires
        pull_greeted(s),
    ensures
        pull_message(s, MessageView::PageData { page_no, data }) matches Ok((e, t)) && {
            &&& e matches PullEffectView::Write(w) && w.len() == 1 && w[0] == (page_no, data)
            &&& s.written < u64::MAX ==> t.written == s.written + 1
            &&& t == (PullView { written: t.written, ..s })
        },
        pull_message(s, MessageView::PageDataBatch { pages }) matches Ok((e, t)) && {
            &&& e == PullEffectView::Write(pages)
            &&& s.written + pages.len() <= u64::MAX ==> t.written == s.written + pages.len()
            &&& t == (PullView { written: t.written, ..s })
        },
        pull_message(
            s,
            MessageView::SyncComplete { pages_transferred: count, bytes_transferred: bytes },
        ) matches Ok((e, t)) && {
            &&& e == PullEffectView::Commit(
                "sync complete: "@ + decimal(count as nat) + " pages, "@ + decimal(bytes as nat)
                    + " bytes"@ + " (wrote "@ + decimal(s.written as nat) + " locally)"@,
            )
            &&& t == (PullView { phase: PullPhase::Finished, ..s })
        },
        pull_message(s, MessageView::Error { message }) == Err::<
            (PullEffectView, PullView),
            FlowErrorView,
        >(FlowErrorView::Server(message)),
{
}

// ---------- whole runs ----------

/// What happens to a flow: it is asked what to do next, or a message is handed
/// in.
pub enum SocketStep {
    Next,
    Hand(MessageView),
}

/// Where a push stands after steps; a message that stops it changes nothing.
pub open spec fn push_after(s: PushView, steps: Seq<SocketStep>) -> PushView
    decreases steps.len(),
{
    if steps.len() == 0 {
        s
    } else {
        let t = push_after(s, steps.drop_last());
        match steps.last() {
            SocketStep::Next => push_next(t).1,
            SocketStep::Hand(m) => match push_message(t, m) {
                Ok((_, u)) => u,
                Err(_) => t,
            },
        }
    }
}

/// The pages that a push announced.
pub open spec fn push_announced(s: PushView, steps: Seq<SocketStep>) -> Seq<u32>
    decreases steps.len(),
{
    if steps.len() == 0 {
        Seq::empty()
    } else {
        let before = push_announced(s, steps.drop_last());
        if steps.last() is Next {
            match push_next(push_after(s, steps.drop_last())).0 {
                PushActionView::Announce(n) => before.push(n),
                _ => before,
            }
        } else {
            before
        }
    }
}

/// The pages that a push served.
pub open spec fn push_served(s: PushView, steps: Seq<SocketStep>) -> Seq<u32>
    decreases steps.len(),
{
    if steps.len() == 0 {
        Seq::empty()
    } else {
        let before = push_served(s, steps.drop_last());
        if steps.last() is Next {
            match push_next(push_after(s, steps.drop_last())).0 {
                PushActionView::Serve(n) => before.push(n),
                _ => before,
            }
        } else {
            before
        }
    }
}

/// Whether a push said that it is complete.
pub open spec fn push_completed(s: PushView, steps: Seq<SocketStep>) -> bool
    decreases steps.len(),
{
    steps.len() > 0 && (push_completed(s, steps.drop_last()) || (steps.last() is Next && push_next(
        push_after(s, steps.drop_last()),
    ).0 == PushActionView::Send(MessageView::Complete)))
}

/// The pages that were requested of a push after the handshake.
pub open spec fn push_requested(s: PushView, steps: Seq<SocketStep>) -> Seq<u32>
    decreases steps.len(),
{
    if steps.len() == 0 {
        Seq::empty()
    } else {
        let before = push_requested(s, steps.drop_last());
        if push_greeted(push_after(s, steps.drop_last())) {
            match steps.last() {
                SocketStep::Hand(MessageView::RequestPage { page_no }) => before.push(page_no),
                SocketStep::Hand(MessageView::RequestPages { page_numbers }) => before
                    + page_numbers,
                _ => before,
            }
        } else {
            before
        }
    }
}

/// However a push runs, it announces its pages from the first on, each once
/// and in order, and says that it is complete only once it announced the last.
/// It serves the pages that were requested, in the order of the requests; what
/// it has not served yet waits.
pub proof fn law_push_run(last: u32, steps: Seq<SocketStep>)
    ensures
        ({
            let s = push_start(last);
            let announced = push_announced(s, steps);
            &&& announced.len() <= last
            &&& forall|k: int| 0 <= k < announced.len() ==> #[trigger] announced[k] == k + 1
            &&& push_completed(s, steps) ==> announced.len() == last
            &&& push_served(s, steps) + push_after(s, steps).pending == push_requested(s, steps)
            &&& push_after(s, steps).next == announced.len() + 1
            &&& push_after(s, steps).last == last
            &&& push_after(s, steps).phase == PushPhase::Serving || push_after(s, steps).phase
                == PushPhase::Finished ==> announced.len() == last
            &&& !push_greeted(push_after(s, steps)) ==> announced.len() == 0 && push_served(
                s,
                steps,
            ).len() == 0
        }),
    decreases steps.len(),
{
    let s = push_start(last);
    if steps.len() == 0 {
        assert(push_served(s, steps) + push_after(s, steps).pending =~= push_requested(s, steps));
    } else {
        let before = steps.drop_last();
        law_push_run(last, before);
        let t = push_after(s, before);
        let u = push_after(s, steps);
        let served = push_served(s, before);
        match steps.last() {
            SocketStep::Next => {
                if t.phase == PushPhase::Serving && t.pending.len() > 0 {
                    assert(served.push(t.pending[0]) + t.pending.skip(1) =~= served + t.pending);
                }
            },
            SocketStep::Hand(m) => {
                if push_greeted(t) {
                    match m {
                        MessageView::RequestPage { page_no } => {
                            assert(served + t.pending.push(page_no) =~= (served + t.pending).push(
                                page_no,
                            ));
                        },
                        MessageView::RequestPages { page_numbers } => {
                            assert(served + (t.pending + page_numbers) =~= (served + t.pending)
                                + page_numbers);
                        },
                        _ => {},
                    }
                }
            },
        }
    }
}

/// Where a pull stands after steps; a message that stops it changes nothing.
pub open spec fn pull_after(s: PullView, steps: Seq<SocketStep>) -> PullView
    decreases steps.len(),
{
    if steps.len() == 0 {
        s
    } else {
        let t = pull_after(s, steps.drop_last());
        match steps.last() {
            SocketStep::Next => pull_next(t).1,
            SocketStep::Hand(m) => match pull_message(t, m) {
                Ok((_, u)) => u,
                Err(_) => t,
            },
        }
    }
}

/// The pages that a pull announced.
pub open spec fn pull_announced(s: PullView, steps: Seq<SocketStep>) -> Seq<u32>
    decreases steps.len(),
{
    if steps.len() == 0 {
        Seq::empty()
    } else {
        let before = pull_announced(s, steps.drop_last());
        if steps.last() is Next {
            match pull_next(pull_after(s, steps.drop_last())).0 {
                PullActionView::Announce(n) => before.push(n),
                _ => before,
            }
        } else {
            before
        }
    }
}

/// Whether a pull said that it is complete.
pub open spec fn pull_completed(s: PullView, steps: Seq<SocketStep>) -> bool
    decreases steps.len(),
{
    steps.len() > 0 && (pull_completed(s, steps.drop_last()) || (steps.last() is Next && pull_next(
        pull_after(s, steps.drop_last()),
    ).0 == PullActionView::Send(MessageView::Complete)))
}

/// The pages that a pull had written.
pub open spec fn pull_written(s: PullView, steps: Seq<SocketStep>) -> Seq<(u32, Seq<u8>)>
    decreases steps.len(),
{
    if steps.len() == 0 {
        Seq::empty()
    } else {
        let before = pull_written(s, steps.drop_last());
        match steps.last() {
            SocketStep::Hand(m) => match pull_message(pull_after(s, steps.drop_last()), m) {
                Ok((PullEffectView::Write(pages), _)) => before + pages,
                _ => before,
            },
            _ => before,
        }
    }
}

/// The pages that were handed to a pull after the handshake.
pub open spec fn pull_handed(s: PullView, steps: Seq<SocketStep>) -> Seq<(u32, Seq<u8>)>
    decreases steps.len(),
{
    if steps.len() == 0 {
        Seq::empty()
    } else {
        let before = pull_handed(s, steps.drop_last());
        if pull_greeted(pull_after(s, steps.drop_last())) {
            match steps.last() {
                SocketStep::Hand(MessageView::PageData { page_no, data }) => before.push(
                    (page_no, data),
                ),
                SocketStep::Hand(MessageView::PageDataBatch { pages }) => before + pages,
                _ => before,
            }
        } else {
            before
        }
    }
}

/// However a pull runs, it announces its pages from the first on, each once
/// and in order, and says that it is complete only once it announced the last.
/// What it had written is what was handed in, in order, and it counts it.
pub proof fn law_pull_run(last: u32, steps: Seq<SocketStep>)
    ensures
        ({
            let s = pull_start(last);
            let announced = pull_announced(s, steps);
            &&& announced.len() <= last
            &&& forall|k: int| 0 <= k < announced.len() ==> #[trigger] announced[k] == k + 1
            &&& pull_completed(s, steps) ==> announced.len() == last
            &&& pull_written(s, steps) == pull_handed(s, steps)
            &&& pull_handed(s, steps).len() <= u64::MAX ==> pull_after(s, steps).written
                == pull_handed(s, steps).len()
            &&& pull_after(s, steps).next == announced.len() + 1
            &&& pull_after(s, steps).last == last
            &&& !pull_greeted(pull_after(s, steps)) ==> announced.len() == 0
        }),
    decreases steps.len(),
{
    let s = pull_start(last);
    if steps.len() > 0 {
        let before = steps.drop_last();
        law_pull_run(last, before);
        let t = pull_after(s, before);
        match steps.last() {
            SocketStep::Next => {},
            SocketStep::Hand(m) => {
                if pull_greeted(t) {
                    match m {
                        MessageView::PageData { page_no, data } => {
                            assert(pull_written(s, before) + seq![(page_no, data)] =~= pull_handed(
                                s,
                                before,
                            ).push((page_no, data)));
                        },
                        _ => {},
                    }
                }
            },
        }
    }
}

} // verus!
