use edgereplica::client::args::{
    LoginArgs, PullArgs, PushArgs, SignupArgs, TokenArgs, TokenDirection,
};
use edgereplica::client::config::{resolve_secret, Config};
use edgereplica::client::output::{
    auth_line, complete_line, database_lines, deleted_line, expiry_note, pulled_line, whoami_lines,
};
use edgereplica::client::pages::{announcement, last_page_of, PageReader};
use edgereplica::client::sync_cmd::{
    highest_page, page_hash_hex, Answer, Page, StreamAction, StreamFlow,
};
use edgereplica::client::sync_ws::{
    take_in, take_ready, ws_url, FlowError, Incoming, PullAction, PullEffect, PullFlow, PushAction,
    PushFlow, Stage, Taken,
};
use edgereplica::client::transport::{bearer, channel, choose_channel, session_bearer, Channel};
use edgereplica::shared::clock::FixedClock;
use edgereplica::shared::domain::enums::Direction;
use edgereplica::shared::sync_protocol::{page_hash, PageDataEntry, SyncMessage};
use edgereplica::worker::services::admin_model::{DatabaseInfo, WhoamiInfo};
use edgereplica::worker::services::sync::{ClientEnvelope, ClientPayload};
use edgereplica::worker::services::sync_fsm::{Outbox, SyncFsm};
use edgereplica::worker::services::sync_storage::{InMemorySyncStorage, SyncStorage};

#[test]
fn config_defaults_and_overrides() {
    let config = Config::default();
    assert_eq!(config.server, "http://localhost:8787");
    assert_eq!(
        config.require_session().unwrap_err(),
        "no session token; run `edgereplica login` first"
    );
    let config = config
        .for_run(Some("https://x".to_string()))
        .with_session("t".to_string());
    assert_eq!(config.server, "https://x");
    assert_eq!(config.require_session().unwrap(), "t");
    assert_eq!(config.for_run(None).server, "https://x");
}

#[test]
fn secrets_come_from_flag_or_environment() {
    let some = |s: &str| Some(s.to_string());
    assert_eq!(resolve_secret(some("a"), some("b"), "V", "f").unwrap(), "a");
    assert_eq!(resolve_secret(None, some("b"), "V", "f").unwrap(), "b");
    assert_eq!(
        resolve_secret(None, None, "V", "f").unwrap_err(),
        "f not provided (use --f or set V)"
    );
    let err = SignupArgs {
        email: "x@y".to_string(),
        password: None,
    }
    .resolve(None)
    .unwrap_err();
    assert_eq!(
        err,
        "password not provided (use --password or set EDGEREPLICA_PASSWORD)"
    );
    let login = LoginArgs {
        email: "x@y".to_string(),
        password: some("p"),
    };
    assert_eq!(login.resolve(None).unwrap(), "p");
    let push = PushArgs {
        db: "a.sqlite".to_string(),
        token: None,
    };
    assert_eq!(push.resolve(some("t")).unwrap(), "t");
    let pull = PullArgs {
        db: "a.sqlite".to_string(),
        token: None,
    };
    assert_eq!(
        pull.resolve(None).unwrap_err(),
        "token not provided (use --token or set EDGEREPLICA_SYNC_TOKEN)"
    );
    let token = TokenArgs {
        database_id: "d".to_string(),
        direction: TokenDirection::Pull,
        ttl_seconds: None,
    };
    assert_eq!(token.requested_ttl(), 0);
    assert_eq!(token.direction.direction(), Direction::Pull);
}

#[test]
fn lines_to_print() {
    assert_eq!(auth_line("signup", "x@y"), "signup ok (x@y)");
    assert_eq!(deleted_line("d"), "deleted d");
    assert_eq!(expiry_note(-5), "# expires at unix -5");
    assert_eq!(complete_line(3, 12288), "sync complete: 3 pages, 12288 bytes");
    assert_eq!(
        pulled_line(1, 2, 3),
        "sync complete: 1 pages, 2 bytes (wrote 3 locally)"
    );
    assert_eq!(database_lines(&vec![]), vec!["(no databases)"]);
    let db = DatabaseInfo {
        id: "d".to_string(),
        org_id: "o".to_string(),
        name: "main".to_string(),
        created_at_unix: 0,
    };
    assert_eq!(database_lines(&vec![db]), vec!["d\tmain"]);
    let info = WhoamiInfo {
        user_id: "u".to_string(),
        email: "e".to_string(),
        org_id: "o".to_string(),
        role: "admin".to_string(),
    };
    assert_eq!(
        whoami_lines(&info),
        vec!["user_id: u", "email:   e", "org_id:  o", "role:    admin"]
    );
}

#[test]
fn tokens_must_fit_a_header() {
    assert_eq!(bearer("abc").unwrap(), b"Bearer abc");
    assert_eq!(
        bearer("a\nb").unwrap_err(),
        "session token contains invalid header bytes"
    );
    assert!(bearer("a\u{7f}").is_err());
    assert_eq!(bearer("\u{e9}").unwrap(), "Bearer \u{e9}".as_bytes());
    assert!(session_bearer(&Config::default()).is_err());
    let config = Config::default().with_session("t".to_string());
    assert_eq!(session_bearer(&config).unwrap(), b"Bearer t");
}

#[test]
fn channels_follow_the_scheme() {
    assert_eq!(channel("http://localhost:8787").unwrap(), Channel::Plaintext);
    assert_eq!(channel("https://x").unwrap(), Channel::Tls);
    assert_eq!(
        channel("ftp://x").unwrap_err(),
        "unsupported scheme `ftp` (expected http or https)"
    );
    assert_eq!(channel("not a url").unwrap_err(), "invalid server url: not a url");
    assert_eq!(
        choose_channel("s", Ok(None)).unwrap_err(),
        "unsupported scheme `` (expected http or https)"
    );
}

#[test]
fn endpoints_speak_websocket() {
    assert_eq!(ws_url("http://x:1/").unwrap(), "ws://x:1/sync");
    assert_eq!(ws_url("https://x//").unwrap(), "wss://x/sync");
    assert_eq!(ws_url("ws://x").unwrap(), "ws://x/sync");
    assert_eq!(ws_url("wss://x").unwrap(), "wss://x/sync");
    assert_eq!(
        ws_url("ftp://x").unwrap_err(),
        "unsupported server scheme in `ftp://x` (expected http/https/ws/wss)"
    );
}

#[test]
fn pages_are_walked_once() {
    assert_eq!(last_page_of(None), 0);
    assert_eq!(last_page_of(Some(-1)), 0);
    assert_eq!(last_page_of(Some(7)), 7);
    assert_eq!(last_page_of(Some(4_294_967_296)), 0);
    let mut reader = PageReader::new(2);
    assert_eq!(reader.advance(), Some(1));
    assert_eq!(reader.advance(), Some(2));
    assert_eq!(reader.advance(), None);
    assert_eq!(reader.advance(), None);
    assert_eq!(
        announcement(1, b"x"),
        SyncMessage::PageHash {
            page_no: 1,
            hash: page_hash(b"x")
        }
    );
}

/// Runs a push against a server's session and gives the line that it ended on.
fn run_push(pages: &[Vec<u8>], fsm: &mut SyncFsm<InMemorySyncStorage, FixedClock>) -> String {
    let mut flow = PushFlow::new(pages.len() as u32);
    let mut inbox: Vec<SyncMessage> = Vec::new();
    let mut line = None;
    loop {
        let outgoing = match flow.next() {
            PushAction::Send(m) => m,
            PushAction::Announce(n) => announcement(n, &pages[n as usize - 1]),
            PushAction::Serve(n) => SyncMessage::PageData {
                page_no: n,
                data: pages[n as usize - 1].clone(),
            },
            PushAction::DrainReady => {
                for m in inbox.drain(..) {
                    assert!(flow.on_message(m).unwrap().is_none());
                }
                continue;
            }
            PushAction::Receive => {
                let m = inbox.remove(0);
                if let Some(l) = flow.on_message(m).unwrap() {
                    line = Some(l);
                }
                continue;
            }
            PushAction::Close => return line.unwrap(),
        };
        let mut out = Outbox::new();
        fsm.apply(&outgoing, &mut out).unwrap();
        inbox.extend(out.messages);
    }
}

#[test]
fn a_push_makes_the_server_equal() {
    let mut storage = InMemorySyncStorage::new();
    storage.put_page(2, b"two", &page_hash(b"two"), 0).unwrap();
    storage.put_page(3, b"old", &page_hash(b"old"), 0).unwrap();
    let mut fsm = SyncFsm::new(storage, FixedClock::new(0), Direction::Push);
    let pages = vec![b"one".to_vec(), b"two".to_vec(), b"three".to_vec()];
    assert_eq!(run_push(&pages, &mut fsm), "sync complete: 2 pages, 8 bytes");
    for (i, p) in pages.iter().enumerate() {
        assert_eq!(fsm.storage().get_page(i as u32 + 1).unwrap().as_ref(), Some(p));
    }
}

#[test]
fn an_empty_push_is_complete_at_once() {
    let mut fsm = SyncFsm::new(
        InMemorySyncStorage::new(),
        FixedClock::new(0),
        Direction::Push,
    );
    assert_eq!(run_push(&[], &mut fsm), "sync complete: 0 pages, 0 bytes");
}

#[test]
fn a_pull_makes_the_client_equal() {
    let mut storage = InMemorySyncStorage::new();
    for (n, data) in [(1u32, "one"), (2, "two"), (3, "three")] {
        storage
            .put_page(n, data.as_bytes(), &page_hash(data.as_bytes()), 0)
            .unwrap();
    }
    let mut fsm = SyncFsm::new(storage, FixedClock::new(0), Direction::Pull);
    let mut local = vec![b"one".to_vec(), b"old".to_vec()];
    let mut flow = PullFlow::new(2);
    let mut inbox: Vec<SyncMessage> = Vec::new();
    let line = loop {
        let outgoing = match flow.next() {
            PullAction::Send(m) => m,
            PullAction::Announce(n) => announcement(n, &local[n as usize - 1]),
            PullAction::Receive => {
                match flow.on_message(inbox.remove(0)).unwrap() {
                    PullEffect::Nothing => {}
                    PullEffect::Write(pages) => {
                        for p in pages {
                            let i = p.page_no as usize - 1;
                            if local.len() <= i {
                                local.resize(i + 1, Vec::new());
                            }
                            local[i] = p.data;
                        }
                    }
                    PullEffect::Commit(line) => break line,
                }
                continue;
            }
            PullAction::Close => panic!("closed before the report"),
        };
        let mut out = Outbox::new();
        fsm.apply(&outgoing, &mut out).unwrap();
        inbox.extend(out.messages);
    };
    assert_eq!(line, "sync complete: 2 pages, 8 bytes (wrote 2 locally)");
    assert_eq!(local, vec![b"one".to_vec(), b"two".to_vec(), b"three".to_vec()]);
    assert_eq!(flow.next(), PullAction::Close);
}

#[test]
fn flows_stop_on_what_does_not_belong() {
    let mut push = PushFlow::new(1);
    push.next();
    let err = push
        .on_message(SyncMessage::HelloReply {
            protocol_version: 2,
            page_size: 4096,
            max_page: 0,
        })
        .unwrap_err();
    assert_eq!(err, FlowError::Version(2));
    assert_eq!(
        err.to_string(),
        "protocol_version mismatch: client=1, server=2"
    );
    let err = push
        .on_message(SyncMessage::Error {
            message: "no".to_string(),
        })
        .unwrap_err();
    assert_eq!(err.to_string(), "server error: no");
    let err = push.on_message(SyncMessage::Complete).unwrap_err();
    assert_eq!(
        err,
        FlowError::Unexpected(Stage::Handshake, SyncMessage::Complete)
    );
    assert_eq!(err.to_string(), "expected HelloReply, got ");
    push.on_message(SyncMessage::HelloReply {
        protocol_version: 1,
        page_size: 4096,
        max_page: 0,
    })
    .unwrap();
    let err = push
        .on_message(SyncMessage::SyncComplete {
            pages_transferred: 0,
            bytes_transferred: 0,
        })
        .unwrap_err();
    assert_eq!(err.to_string(), "unexpected mid-hash message: ");
    push.next();
    push.next();
    push.next();
    let err = push.on_message(SyncMessage::Complete).unwrap_err();
    assert_eq!(err.to_string(), "unexpected message during push drain: ");

    let mut pull = PullFlow::new(0);
    pull.next();
    pull.on_message(SyncMessage::HelloReply {
        protocol_version: 1,
        page_size: 4096,
        max_page: 0,
    })
    .unwrap();
    assert_eq!(pull.next(), PullAction::Send(SyncMessage::Complete));
    let err = pull
        .on_message(SyncMessage::RequestPage { page_no: 1 })
        .unwrap_err();
    assert_eq!(err.to_string(), "unexpected message during pull: ");
    let batch = vec![PageDataEntry {
        page_no: 1,
        data: vec![1],
    }];
    assert!(matches!(
        pull.on_message(SyncMessage::PageDataBatch { pages: batch }),
        Ok(PullEffect::Write(_))
    ));
}

#[test]
fn requests_are_served_in_order() {
    let mut push = PushFlow::new(0);
    push.next();
    push.on_message(SyncMessage::HelloReply {
        protocol_version: 1,
        page_size: 4096,
        max_page: 0,
    })
    .unwrap();
    assert_eq!(push.next(), PushAction::Send(SyncMessage::Complete));
    push.on_message(SyncMessage::RequestPage { page_no: 9 }).unwrap();
    push.on_message(SyncMessage::RequestPages {
        page_numbers: vec![4, 7],
    })
    .unwrap();
    assert_eq!(push.next(), PushAction::Serve(9));
    assert_eq!(push.next(), PushAction::Serve(4));
    assert_eq!(push.next(), PushAction::Serve(7));
    assert_eq!(push.next(), PushAction::Receive);
}

#[test]
fn sockets_give_frames() {
    assert_eq!(take_in(Incoming::Binary(vec![1])), Ok(Taken::Frame(vec![1])));
    assert_eq!(take_in(Incoming::Control), Ok(Taken::Skip));
    assert_eq!(
        take_in(Incoming::Text("hi".to_string())).unwrap_err(),
        "unexpected text frame: hi"
    );
    assert_eq!(
        take_in(Incoming::Closed(Some((1011, "server error".to_string())))).unwrap_err(),
        "server closed connection: 1011 server error"
    );
    assert_eq!(
        take_in(Incoming::Closed(None)).unwrap_err(),
        "server closed connection: "
    );
    assert_eq!(
        take_in(Incoming::Ended).unwrap_err(),
        "ws closed before SyncComplete"
    );
    assert_eq!(
        take_ready(Incoming::Ended).unwrap_err(),
        "ws closed during hash phase"
    );
    assert_eq!(take_ready(Incoming::Text("hi".to_string())), Ok(Taken::Skip));
}

fn sent(action: StreamAction) -> ClientPayload {
    match action {
        StreamAction::Send(ClientEnvelope { payload: Some(p) }) => p,
        other => panic!("expected a message, got {other:?}"),
    }
}

#[test]
fn stream_push_answers_requests() {
    let pages = vec![
        Page::new(1, b"one".to_vec()),
        Page::new(2, b"two".to_vec()),
    ];
    assert_eq!(pages[0].hash, page_hash_hex(b"one"));
    let mut flow = StreamFlow::push(pages, 2);
    assert_eq!(
        sent(flow.next()),
        ClientPayload::Hello {
            protocol_version: 1,
            page_size: 4096,
            max_page: 2
        }
    );
    assert_eq!(flow.next(), StreamAction::Receive);
    flow.on_answer(Some(Some(Answer::HelloReply { max_page: 0 })), "");
    assert_eq!(
        sent(flow.next()),
        ClientPayload::PageHash {
            page_no: 1,
            hash: page_hash_hex(b"one")
        }
    );
    assert!(matches!(
        sent(flow.next()),
        ClientPayload::PageHash { page_no: 2, .. }
    ));
    // The last page is announced: one answer is taken.
    assert_eq!(flow.next(), StreamAction::Receive);
    flow.on_answer(Some(Some(Answer::RequestPage { page_no: 2 })), "");
    assert_eq!(
        sent(flow.next()),
        ClientPayload::PageData {
            page_no: 2,
            data: b"two".to_vec()
        }
    );
    assert_eq!(sent(flow.next()), ClientPayload::Complete);
    assert_eq!(flow.next(), StreamAction::CloseSend);
    assert_eq!(flow.next(), StreamAction::Receive);
    flow.on_answer(Some(None), "");
    assert_eq!(flow.next(), StreamAction::Receive);
    flow.on_answer(
        Some(Some(Answer::SyncComplete {
            pages_transferred: 1,
            bytes_transferred: 3,
        })),
        "",
    );
    assert_eq!(
        flow.next(),
        StreamAction::Show("sync complete: 1 pages, 3 bytes".to_string())
    );
    assert_eq!(flow.next(), StreamAction::Done);
}

#[test]
fn stream_push_pauses_after_each_chunk() {
    let pages: Vec<Page> = (1..=65).map(|n| Page::new(n, vec![n as u8])).collect();
    let mut flow = StreamFlow::push(pages, 65);
    flow.next();
    flow.on_answer(Some(Some(Answer::HelloReply { max_page: 0 })), "");
    for _ in 0..64 {
        assert!(matches!(flow.next(), StreamAction::Send(_)));
    }
    assert_eq!(flow.next(), StreamAction::Receive);
    flow.on_answer(None, "");
    assert!(matches!(
        sent(flow.next()),
        ClientPayload::PageHash { page_no: 65, .. }
    ));
    assert_eq!(flow.next(), StreamAction::Receive);
}

#[test]
fn stream_push_fails_on_unknown_pages() {
    let mut flow = StreamFlow::push(vec![Page::new(1, b"one".to_vec())], 1);
    flow.next();
    flow.on_answer(Some(Some(Answer::HelloReply { max_page: 0 })), "");
    flow.next();
    flow.on_answer(
        Some(Some(Answer::RequestPages {
            page_numbers: vec![1, 9, 1],
        })),
        "",
    );
    assert!(matches!(
        sent(flow.next()),
        ClientPayload::PageData { page_no: 1, .. }
    ));
    assert_eq!(
        flow.next(),
        StreamAction::Fail("server requested unknown page 9".to_string())
    );
    assert_eq!(flow.next(), StreamAction::Done);
}

#[test]
fn stream_greetings_may_fail() {
    let failing = |answer: Option<Option<Answer>>, shown: &str| {
        let mut flow = StreamFlow::pull(vec![], 0);
        flow.next();
        flow.on_answer(answer, shown);
        flow.next()
    };
    assert_eq!(
        failing(None, ""),
        StreamAction::Fail("server closed unexpectedly".to_string())
    );
    assert_eq!(
        failing(Some(None), ""),
        StreamAction::Fail("server closed before HelloReply".to_string())
    );
    assert_eq!(
        failing(Some(Some(Answer::Other)), "Other"),
        StreamAction::Fail("expected HelloReply, got Other".to_string())
    );
}

#[test]
fn stream_pull_announces_every_page_and_keeps_what_comes() {
    let mut flow = StreamFlow::pull(vec![Page::new(1, b"one".to_vec())], 1);
    flow.next();
    flow.on_answer(Some(Some(Answer::HelloReply { max_page: 2 })), "");
    assert_eq!(
        sent(flow.next()),
        ClientPayload::PageHash {
            page_no: 1,
            hash: page_hash_hex(b"one")
        }
    );
    assert_eq!(flow.next(), StreamAction::Receive);
    flow.on_answer(Some(Some(Answer::Other)), "");
    assert_eq!(
        sent(flow.next()),
        ClientPayload::PageHash {
            page_no: 2,
            hash: String::new()
        }
    );
    assert_eq!(flow.next(), StreamAction::Receive);
    flow.on_answer(
        Some(Some(Answer::PageData {
            page_no: 2,
            data: b"two".to_vec(),
        })),
        "",
    );
    assert_eq!(sent(flow.next()), ClientPayload::Complete);
    assert_eq!(flow.next(), StreamAction::CloseSend);
    flow.on_answer(
        Some(Some(Answer::Error {
            message: "no".to_string(),
        })),
        "",
    );
    assert_eq!(
        flow.next(),
        StreamAction::Fail("server error: no".to_string())
    );
    assert_eq!(flow.received().len(), 1);
    assert_eq!(flow.received()[0].hash, page_hash_hex(b"two"));
    assert_eq!(highest_page(3, 5), 5);
    assert_eq!(highest_page(5, 3), 5);
}
