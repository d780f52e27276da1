//! Decisions of the WebSocket sync handler hosted inside the EdgeReplica
//! DurableObject.
//!
//! The handler re-verifies the sync macaroon on the inside (defense in depth:
//! the object never implicitly trusts the worker), then drives a [`SyncFsm`]
//! over the socket. Each event is turned into what the socket has to do.
//!
//! The sync direction (push/pull) comes from the verified macaroon.

use vstd::prelude::*;

use super::middleware::issued::{issued_sync_at, issued_sync_of_header};
use super::middleware::{bearer_of, extract_bearer};
use super::services::sync_fsm::{
    carried_out, closed_by_client, flag_kept, times_kept, trace, written, Emit, Refusal, SyncFsm,
};
use super::services::sync_storage::SyncStorage;
use crate::shared::auth::keyring::Keyring;
use crate::shared::auth::session::{SyncContext, SyncView};
use crate::shared::auth::token_laws::{law_expired_sync_refused, law_sync_round_trip};
use crate::shared::auth::tokens::{
    sync_outcome, sync_result, sync_token, verify_sync, TokenError,
};
use crate::shared::clock::Clock;
use crate::shared::sync_protocol::{
    decode_frame, decoded_message, frame_body, FrameError, MessageView, SyncMessage,
};
use crate::text::join2;

verus! {

/// The status of a refused upgrade, and its text.
pub const INVALID_TOKEN_TEXT: &'static str = "invalid sync token";

/// Whether `r` is what verifying an upgrade request gives at a time. A header
/// that cannot be read is a bad request; a missing header, another
/// authorization or a token that does not verify is unauthorized.
pub open spec fn token_outcome(
    key: Seq<u8>,
    now_unix: i64,
    header: Result<Option<Seq<char>>, ()>,
    r: Result<SyncContext, u16>,
) -> bool {
    match header {
        Err(_) => r == Err::<SyncContext, u16>(400),
        Ok(None) => r == Err::<SyncContext, u16>(401),
        Ok(Some(h)) => match bearer_of(h) {
            None => r == Err::<SyncContext, u16>(401),
            Some(t) => exists|v: Result<SyncContext, TokenError>| #[trigger]
                sync_outcome(key, now_unix, t, sync_result(v)) && match v {
                    Ok(c) => r == Ok::<SyncContext, u16>(c),
                    Err(_) => r == Err::<SyncContext, u16>(401),
                },
        },
    }
}

/// A header read over characters.
pub open spec fn read_view(header: Result<Option<&str>, ()>) -> Result<Option<Seq<char>>, ()> {
    match header {
        Ok(Some(h)) => Ok(Some(h@)),
        Ok(None) => Ok(None),
        Err(_) => Err(()),
    }
}

/// Verifies an upgrade request by its authorization header at a time.
pub fn verify_token(keyring: &Keyring, now_unix: i64, authorization: Result<Option<&str>, ()>) -> (r:
    Result<SyncContext, u16>)
    ensures
        token_outcome(keyring@, now_unix, read_view(authorization), r),
{
    let raw: &str = match authorization {
        Err(_) => {
            return Err(400);
        },
        Ok(None) => {
            return Err(401);
        },
        Ok(Some(h)) => h,
    };
    match extract_bearer(raw) {
        None => Err(401),
        Some(t) => {
            let v: Result<SyncContext, TokenError> = verify_sync(keyring, now_unix, t.as_str());
            assert(sync_outcome(keyring@, now_unix, t@, sync_result(v)));
            match v {
                Ok(c) => Ok(c),
                Err(_) => Err(401),
            }
        },
    }
}

/// Whether `r` is what verifying an upgrade request with an issued token gives
/// at a time.
pub open spec fn issued_token_outcome(
    key: Seq<u8>,
    now_unix: i64,
    header: Result<Option<Seq<char>>, ()>,
    r: Result<SyncContext, u16>,
) -> bool {
    match header {
        Err(_) => r == Err::<SyncContext, u16>(400),
        Ok(h) => match r {
            Ok(c) => issued_sync_of_header(key, now_unix, h, Some(c@)),
            Err(status) => status == 401 && issued_sync_of_header(key, now_unix, h, None),
        },
    }
}

/// Verifies an upgrade request with a token that the admin service issued, as
/// the worker's edge did before it.
pub fn verify_issued_token(
    keyring: &Keyring,
    now_unix: i64,
    authorization: Result<Option<&str>, ()>,
) -> (r: Result<SyncContext, u16>)
    ensures
        issued_token_outcome(keyring@, now_unix, read_view(authorization), r),
{
    match authorization {
        Err(_) => Err(400),
        Ok(h) => match issued_sync_at(keyring, now_unix, h) {
            Some(c) => Ok(c),
            None => Err(401),
        },
    }
}

/// What the socket has to do next.
#[derive(Debug, PartialEq, Eq)]
pub enum SocketAction {
    /// Wait for the next event.
    Continue,
    /// Stop without another word: the socket cannot be written to.
    Stop,
    /// Close with a code and a reason.
    Close { code: u16, reason: &'static str },
    /// Send an error frame, then close with a code and a reason.
    Fail { message: String, code: u16, reason: &'static str },
}

/// [`SocketAction`] over characters.
pub enum ActionView {
    Continue,
    Stop,
    Close { code: u16, reason: Seq<char> },
    Fail { message: Seq<char>, code: u16, reason: Seq<char> },
}

impl View for SocketAction {
    type V = ActionView;

    open spec fn view(&self) -> ActionView {
        match self {
            SocketAction::Continue => ActionView::Continue,
            SocketAction::Stop => ActionView::Stop,
            SocketAction::Close { code, reason } => ActionView::Close {
                code: *code,
                reason: reason@,
            },
            SocketAction::Fail { message, code, reason } => ActionView::Fail {
                message: message@,
                code: *code,
                reason: reason@,
            },
        }
    }
}

pub open spec fn decode_failure(e: FrameError) -> ActionView {
    ActionView::Fail { message: "decode: "@ + e.text(), code: 1002, reason: "protocol error"@ }
}

/// The body of an inbound message, or how it ends the connection.
pub open spec fn inspected(bytes: Option<Seq<u8>>) -> Result<Seq<u8>, ActionView> {
    match bytes {
        None => Err(
            ActionView::Fail {
                message: "expected binary frame"@,
                code: 1003,
                reason: "text frames not supported"@,
            },
        ),
        Some(b) => match frame_body(b) {
            Ok(body) => Ok(body),
            Err(e) => Err(decode_failure(e)),
        },
    }
}

/// A binary message that is a frame gives its body. A text message and a frame
/// that cannot be taken apart end the connection, each under its own code.
pub proof fn law_inspected(b: Seq<u8>, e: FrameError)
    ensures
        frame_body(b) is Ok ==> inspected(Some(b)) == Ok::<Seq<u8>, ActionView>(frame_body(b)->Ok_0),
        frame_body(b) == Err::<Seq<u8>, FrameError>(e) ==> inspected(Some(b)) == Err::<
            Seq<u8>,
            ActionView,
        >(
            (ActionView::Fail {
                message: "decode: "@ + e.text(),
                code: 1002,
                reason: "protocol error"@,
            }),
        ),
        decode_failure(e) == (ActionView::Fail {
            message: "decode: "@ + e.text(),
            code: 1002,
            reason: "protocol error"@,
        }),
        inspected(None) matches Err(a) && a == (ActionView::Fail {
            message: "expected binary frame"@,
            code: 1003,
            reason: "text frames not supported"@,
        }),
{
}

/// The message body of an inbound message; a text message or a frame that
/// cannot be taken apart ends the connection.
pub fn inspect_message(bytes: Option<&[u8]>) -> (r: Result<Vec<u8>, SocketAction>)
    ensures
        match inspected(
            match bytes {
                Some(b) => Some(b@),
                None => None,
            },
        ) {
            Ok(body) => r matches Ok(got) && got@ == body,
            Err(due) => r matches Err(a) && a@ == due,
        },
{
    match bytes {
        None => Err(
            SocketAction::Fail {
                message: "expected binary frame".to_owned(),
                code: 1003,
                reason: "text frames not supported",
            },
        ),
        Some(b) => match decode_frame(b) {
            Ok(body) => Ok(body),
            Err(e) => Err(
                SocketAction::Fail {
                    message: join2("decode: ", e.to_string().as_str()),
                    code: 1002,
                    reason: "protocol error",
                },
            ),
        },
    }
}

/// Sends frames through a socket and remembers a failed send.
pub struct SocketSink<E: Emit> {
    pub inner: E,
    pub failed: bool,
}

impl<E: Emit> Emit for SocketSink<E> {
    open spec fn sent(&self) -> Seq<MessageView> {
        self.inner.sent()
    }

    open spec fn refusals(&self) -> Seq<Refusal> {
        self.inner.refusals()
    }

    open spec fn willing(&self) -> bool {
        self.inner.willing()
    }

    /// A failed send is remembered, and nothing else is taken for one.
    open spec fn consistent(&self) -> bool {
        self.failed == (self.inner.refusals().len() > 0)
    }

    fn emit(&mut self, message: SyncMessage) -> (r: Result<(), String>) {
        match self.inner.emit(message) {
            Ok(()) => Ok(()),
            Err(e) => {
                self.failed = true;
                Err(e)
            },
        }
    }
}

/// What follows a message: a socket that cannot be written to is left alone;
/// a finished sync closes it; a refused message or failed storage is reported
/// and closes it.
pub open spec fn after_message(
    send_failed: bool,
    result: Result<(), Seq<char>>,
    done: bool,
) -> ActionView {
    if send_failed {
        ActionView::Stop
    } else {
        match result {
            Ok(()) => if done {
                ActionView::Close { code: 1000, reason: "sync complete"@ }
            } else {
                ActionView::Continue
            },
            Err(e) => ActionView::Fail { message: e, code: 1011, reason: "server error"@ },
        }
    }
}

/// A result over characters.
pub open spec fn text_result(r: Result<(), String>) -> Result<(), Seq<char>> {
    match r {
        Ok(()) => Ok(()),
        Err(e) => Err(e@),
    }
}

/// What follows a message.
pub fn next_action(send_failed: bool, result: Result<(), String>, done: bool) -> (r: SocketAction)
    ensures
        r@ == after_message(send_failed, text_result(result), done),
{
    if send_failed {
        return SocketAction::Stop;
    }
    match result {
        Ok(()) => {
            if done {
                SocketAction::Close { code: 1000, reason: "sync complete" }
            } else {
                SocketAction::Continue
            }
        },
        Err(e) => SocketAction::Fail { message: e, code: 1011, reason: "server error" },
    }
}

/// Drives a decoded message, or the decoder's complaint, through the session.
/// Where neither the storage nor the socket fails, the frames are those of the
/// message, and the connection goes on until the sync is complete or the
/// message is refused. The socket is left alone exactly where it refused a
/// frame.
pub fn on_message<S: SyncStorage, C: Clock, E: Emit>(
    fsm: &mut SyncFsm<S, C>,
    parsed: Result<SyncMessage, String>,
    sink: &mut SocketSink<E>,
) -> (r: SocketAction)
    requires
        old(sink).consistent(),
        !old(sink).failed,
    ensures
        final(sink).consistent(),
        old(fsm).same_setting(final(fsm)),
        match parsed {
            Err(e) => {
                &&& r@ == decode_failure(FrameError::Decode(e))
                &&& final(fsm)@ == old(fsm)@
                &&& final(fsm).stored_at() == old(fsm).stored_at()
                &&& trace(*final(sink)) == trace(*old(sink))
            },
            Ok(m) => {
                &&& flag_kept(old(fsm)@, old(sink).sent(), final(fsm)@, final(sink).sent())
                &&& exists|result: Result<(), String>|
                    {
                        &&& carried_out(
                            old(fsm)@,
                            m@,
                            trace(*old(sink)),
                            final(fsm)@,
                            trace(*final(sink)),
                            result,
                            old(fsm).faults(),
                            old(fsm).reliable(),
                            old(sink).willing(),
                        )
                        &&& times_kept(
                            old(fsm).clock(),
                            written(old(fsm)@, m@),
                            old(fsm).stored_at(),
                            final(fsm).stored_at(),
                            result is Ok,
                        )
                        &&& r@ == after_message(
                            final(sink).refusals().len() > 0,
                            #[trigger] text_result(result),
                            final(fsm)@.emitted_complete,
                        )
                    }
            },
        },
{
    let message: SyncMessage = match decoded_message(parsed) {
        Ok(m) => m,
        Err(e) => {
            return SocketAction::Fail {
                message: join2("decode: ", e.to_string().as_str()),
                code: 1002,
                reason: "protocol error",
            };
        },
    };
    let result: Result<(), String> = fsm.apply(&message, sink);
    assert(carried_out(
        old(fsm)@,
        message@,
        trace(*old(sink)),
        fsm@,
        trace(*sink),
        result,
        old(fsm).faults(),
        old(fsm).reliable(),
        old(sink).willing(),
    ));
    next_action(sink.failed, result, fsm.done())
}

/// The client closed the socket.
pub fn on_close<S: SyncStorage, C: Clock>(fsm: &mut SyncFsm<S, C>) -> (r: SocketAction)
    ensures
        final(fsm)@ == closed_by_client(old(fsm)@),
        r == SocketAction::Stop,
{
    fsm.client_closed();
    SocketAction::Stop
}

/// An upgrade request is let in with a live sync token, as what the token
/// grants. A header that cannot be read is a bad request; a missing one,
/// another authorization and an expired token are unauthorized.
pub proof fn law_upgrade_needs_a_token(
    key: Seq<u8>,
    s: SyncView,
    token: Seq<char>,
    header: Seq<char>,
    other: Seq<char>,
    now_unix: i64,
    r: Result<SyncContext, u16>,
    unread: Result<SyncContext, u16>,
    missing: Result<SyncContext, u16>,
    another: Result<SyncContext, u16>,
)
    requires
        sync_token(key, s, token),
        bearer_of(header) == Some(token),
        bearer_of(other) is None,
        token_outcome(key, now_unix, Ok(Some(header)), r),
        token_outcome(key, now_unix, Err(()), unread),
        token_outcome(key, now_unix, Ok(None), missing),
        token_outcome(key, now_unix, Ok(Some(other)), another),
    ensures
        now_unix < s.exp_unix ==> (r matches Ok(c) && c@.user == s.user && c@.org == s.org
            && c@.database == s.database && c@.direction == s.direction && c@.exp_unix
            == s.exp_unix),
        now_unix >= s.exp_unix ==> r == Err::<SyncContext, u16>(401),
        unread == Err::<SyncContext, u16>(400),
        missing == Err::<SyncContext, u16>(401),
        another == Err::<SyncContext, u16>(401),
{
    let v = choose|v: Result<SyncContext, TokenError>| #[trigger]
        sync_outcome(key, now_unix, token, sync_result(v)) && match v {
            Ok(c) => r == Ok::<SyncContext, u16>(c),
            Err(_) => r == Err::<SyncContext, u16>(401),
        };
    if now_unix < s.exp_unix {
        law_sync_round_trip(key, s, token, now_unix, sync_result(v));
    } else {
        law_expired_sync_refused(key, s, token, now_unix, sync_result(v));
    }
}

/// The same of a token that the admin service issued.
pub proof fn law_upgrade_needs_an_issued_token(
    key: Seq<u8>,
    now_unix: i64,
    other: Seq<char>,
    unread: Result<SyncContext, u16>,
    missing: Result<SyncContext, u16>,
    another: Result<SyncContext, u16>,
)
    requires
        bearer_of(other) is None,
        issued_token_outcome(key, now_unix, Err(()), unread),
        issued_token_outcome(key, now_unix, Ok(None), missing),
        issued_token_outcome(key, now_unix, Ok(Some(other)), another),
    ensures
        unread == Err::<SyncContext, u16>(400),
        missing == Err::<SyncContext, u16>(401),
        another == Err::<SyncContext, u16>(401),
{
}

} // verus!
