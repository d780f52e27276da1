use edgereplica::shared::auth::session::SyncContext;
use edgereplica::shared::clock::FixedClock;
use edgereplica::shared::domain::enums::Direction;
use edgereplica::shared::domain::ids::{DatabaseId, OrgId, UserId};
use edgereplica::shared::sync_protocol::page_hash;
use edgereplica::worker::services::rpc::{RpcCode, RpcError};
use edgereplica::worker::services::sync::{
    ClientEnvelope, ClientPayload, FsmState, Received, ServerPayload, SyncServer, Turn,
};
use edgereplica::worker::services::sync_storage::{InMemorySyncStorage, SyncStorage};

type Session = FsmState<InMemorySyncStorage, FixedClock>;

fn ctx_for(direction: Direction) -> SyncContext {
    SyncContext {
        user: UserId::from("u_1"),
        org: OrgId::from("o_1"),
        database: DatabaseId::from("db_1"),
        direction,
        exp_unix: 9_999_999_999,
    }
}

fn server(storage: InMemorySyncStorage) -> SyncServer<InMemorySyncStorage, FixedClock> {
    SyncServer::new(storage, FixedClock::new(1_700_000_000_000))
}

/// Drive the session with a fixed input vector and collect responses.
fn run(
    direction: Direction,
    storage: InMemorySyncStorage,
    inputs: Vec<ClientEnvelope>,
) -> (Vec<ServerPayload>, Session) {
    let mut session = server(storage).sync(Some(ctx_for(direction))).expect("sync");
    let mut inputs = inputs.into_iter();
    let mut out = Vec::new();
    loop {
        match session.step() {
            Turn::Emit(p) => out.push(p),
            Turn::End => return (out, session),
            Turn::Await => {
                let input = match inputs.next() {
                    Some(e) => Received::Envelope(e),
                    None => Received::Closed,
                };
                assert!(session.receive(input).is_none());
            }
        }
    }
}

fn hex_hash(data: &[u8]) -> String {
    hex::encode(page_hash(data))
}

fn envelope(payload: ClientPayload) -> ClientEnvelope {
    ClientEnvelope {
        payload: Some(payload),
    }
}

fn hello() -> ClientEnvelope {
    envelope(ClientPayload::Hello {
        protocol_version: 1,
        page_size: 4096,
        max_page: 0,
    })
}

fn page_hash_msg(page_no: u32, hash: &str) -> ClientEnvelope {
    envelope(ClientPayload::PageHash {
        page_no,
        hash: hash.into(),
    })
}

fn page_data_msg(page_no: u32, data: Vec<u8>) -> ClientEnvelope {
    envelope(ClientPayload::PageData { page_no, data })
}

fn complete() -> ClientEnvelope {
    envelope(ClientPayload::Complete)
}

#[test]
fn sync_empty_push_yields_hello_reply_and_sync_complete() {
    let (out, _) = run(
        Direction::Push,
        InMemorySyncStorage::new(),
        vec![hello(), complete()],
    );
    assert_eq!(out.len(), 2);
    assert!(matches!(out[0], ServerPayload::HelloReply { .. }));
    let ServerPayload::SyncComplete {
        pages_transferred,
        bytes_transferred,
    } = out[1]
    else {
        panic!("expected SyncComplete, got {:?}", out[1]);
    };
    assert_eq!(pages_transferred, 0);
    assert_eq!(bytes_transferred, 0);
}

#[test]
fn sync_push_unknown_page_triggers_request_then_stores_data() {
    let data = vec![0xAB; 4096];
    let h = hex_hash(&data);
    let (out, session) = run(
        Direction::Push,
        InMemorySyncStorage::new(),
        vec![
            hello(),
            page_hash_msg(1, &h),
            page_data_msg(1, data.clone()),
            complete(),
        ],
    );
    // Expected: HelloReply, RequestPage(1), SyncComplete(1, 4096).
    assert_eq!(out.len(), 3);
    assert!(matches!(out[0], ServerPayload::HelloReply { .. }));
    match &out[1] {
        ServerPayload::RequestPage { page_no } => assert_eq!(*page_no, 1),
        other => panic!("expected RequestPage, got {other:?}"),
    }
    match &out[2] {
        ServerPayload::SyncComplete {
            pages_transferred,
            bytes_transferred,
        } => {
            assert_eq!(*pages_transferred, 1);
            assert_eq!(*bytes_transferred, 4096);
        }
        other => panic!("expected SyncComplete, got {other:?}"),
    }
    assert_eq!(session.storage().get_page(1).unwrap(), Some(data));
    assert_eq!(
        session.storage().get_page_hash(1).unwrap().map(hex::encode),
        Some(h)
    );
}

#[test]
fn sync_push_matching_hash_skips_request() {
    let mut storage = InMemorySyncStorage::new();
    let data = vec![0xCD; 4096];
    storage.put_page(1, &data, &page_hash(&data), 0).unwrap();

    let (out, _) = run(
        Direction::Push,
        storage,
        vec![hello(), page_hash_msg(1, &hex_hash(&data)), complete()],
    );
    // HelloReply then SyncComplete(0, 0): no RequestPage was sent.
    assert_eq!(out.len(), 2);
    assert!(matches!(out[0], ServerPayload::HelloReply { .. }));
    match &out[1] {
        ServerPayload::SyncComplete {
            pages_transferred,
            bytes_transferred,
        } => {
            assert_eq!(*pages_transferred, 0);
            assert_eq!(*bytes_transferred, 0);
        }
        other => panic!("expected SyncComplete, got {other:?}"),
    }
}

#[test]
fn sync_pull_mismatch_streams_page_data() {
    let mut storage = InMemorySyncStorage::new();
    storage.put_page(1, b"old", &page_hash(b"old"), 0).unwrap();
    let (out, _) = run(
        Direction::Pull,
        storage,
        vec![hello(), page_hash_msg(1, &hex_hash(b"new")), complete()],
    );
    assert_eq!(out.len(), 3);
    assert!(matches!(out[0], ServerPayload::HelloReply { .. }));
    match &out[1] {
        ServerPayload::PageData { page_no, data } => {
            assert_eq!(*page_no, 1);
            assert_eq!(data.as_slice(), b"old");
        }
        other => panic!("expected PageData, got {other:?}"),
    }
    match &out[2] {
        ServerPayload::SyncComplete {
            pages_transferred,
            bytes_transferred,
        } => {
            assert_eq!(*pages_transferred, 1);
            assert_eq!(*bytes_transferred, 3);
        }
        other => panic!("expected SyncComplete, got {other:?}"),
    }
}

#[test]
fn sync_pull_matching_hash_emits_nothing_extra() {
    let mut storage = InMemorySyncStorage::new();
    let data = vec![0xEE; 4096];
    storage.put_page(1, &data, &page_hash(&data), 0).unwrap();
    let (out, _) = run(
        Direction::Pull,
        storage,
        vec![hello(), page_hash_msg(1, &hex_hash(&data)), complete()],
    );
    assert_eq!(out.len(), 2);
    assert!(matches!(out[0], ServerPayload::HelloReply { .. }));
    match &out[1] {
        ServerPayload::SyncComplete {
            pages_transferred,
            bytes_transferred,
        } => {
            assert_eq!(*pages_transferred, 0);
            assert_eq!(*bytes_transferred, 0);
        }
        other => panic!("expected SyncComplete, got {other:?}"),
    }
}

#[test]
fn first_envelope_must_be_hello() {
    let (out, _) = run(
        Direction::Push,
        InMemorySyncStorage::new(),
        vec![page_hash_msg(1, "deadbeef")],
    );
    assert_eq!(out.len(), 1);
    match &out[0] {
        ServerPayload::Error { message } => assert!(message.contains("Hello")),
        other => panic!("expected Error, got {other:?}"),
    }
}

#[test]
fn unauthenticated_when_no_sync_context() {
    let result = server(InMemorySyncStorage::new()).sync(None);
    assert!(result.is_err(), "missing sync context should reject");
}

#[test]
fn an_empty_envelope_is_refused() {
    let (out, _) = run(
        Direction::Push,
        InMemorySyncStorage::new(),
        vec![ClientEnvelope { payload: None }],
    );
    assert_eq!(
        out,
        vec![ServerPayload::Error {
            message: "empty client envelope".to_string()
        }]
    );
}

#[test]
fn a_failed_stream_ends_the_session() {
    let mut session = server(InMemorySyncStorage::new())
        .sync(Some(ctx_for(Direction::Push)))
        .unwrap();
    assert!(matches!(session.step(), Turn::Await));
    let err = session.receive(Received::Failed(RpcError::new(RpcCode::Internal, "torn")));
    assert_eq!(err.unwrap().message, "torn");
    assert!(matches!(session.step(), Turn::End));
}

#[test]
fn another_version_is_refused() {
    let (out, _) = run(
        Direction::Push,
        InMemorySyncStorage::new(),
        vec![envelope(ClientPayload::Hello {
            protocol_version: 7,
            page_size: 4096,
            max_page: 0,
        })],
    );
    assert_eq!(
        out,
        vec![ServerPayload::Error {
            message: "protocol_version mismatch: server=1, client=7".to_string()
        }]
    );
}

#[test]
fn a_pull_stream_takes_no_page_bytes() {
    let mut storage = InMemorySyncStorage::new();
    storage.put_page(1, b"old", &page_hash(b"old"), 0).unwrap();
    let (out, session) = run(
        Direction::Pull,
        storage,
        vec![hello(), page_data_msg(1, b"new".to_vec())],
    );
    assert_eq!(
        out[1],
        ServerPayload::Error { message: "page bytes may only be sent on a push".to_string() }
    );
    assert_eq!(out.len(), 2);
    assert_eq!(session.storage().get_page(1).unwrap(), Some(b"old".to_vec()));
}

#[test]
fn hanging_up_after_the_report_makes_no_second_one() {
    let data = b"page".to_vec();
    let (out, session) = run(
        Direction::Push,
        InMemorySyncStorage::new(),
        vec![hello(), page_hash_msg(1, &hex_hash(&data)), complete(), page_data_msg(1, data)],
    );
    let reports: Vec<&ServerPayload> = out
        .iter()
        .filter(|p| matches!(p, ServerPayload::SyncComplete { .. }))
        .collect();
    assert_eq!(
        reports,
        vec![&ServerPayload::SyncComplete { pages_transferred: 1, bytes_transferred: 4 }]
    );
    assert_eq!(session.storage().updated_at(1), Some(1_700_000_000_000));
}

#[test]
fn a_page_after_the_report_is_reported_again() {
    let data = b"page".to_vec();
    let (out, _) = run(
        Direction::Push,
        InMemorySyncStorage::new(),
        vec![
            hello(),
            page_hash_msg(1, &hex_hash(&data)),
            complete(),
            page_data_msg(1, data),
            page_data_msg(2, b"more".to_vec()),
        ],
    );
    assert_eq!(
        out[2..],
        [
            ServerPayload::SyncComplete { pages_transferred: 1, bytes_transferred: 4 },
            ServerPayload::SyncComplete { pages_transferred: 2, bytes_transferred: 8 },
        ]
    );
}

#[test]
fn hanging_up_without_a_report_makes_one() {
    let (out, _) = run(Direction::Push, InMemorySyncStorage::new(), vec![hello()]);
    assert_eq!(
        out[1..],
        [ServerPayload::SyncComplete { pages_transferred: 0, bytes_transferred: 0 }]
    );
}
