use edgereplica::shared::clock::FixedClock;
use edgereplica::shared::domain::enums::Direction;
use edgereplica::shared::sync_protocol::{page_hash, PageDataEntry, SyncMessage};
use edgereplica::worker::services::sync_fsm::{
    Emit, Outbox, Refusals, SentFrames, SyncFsm, HANDSHAKE_VERSION,
};
use edgereplica::worker::services::sync_storage::{InMemorySyncStorage, SyncStorage};

type Fsm = SyncFsm<InMemorySyncStorage, FixedClock>;

fn page_hash_msg(page_no: u32, hash: Vec<u8>) -> SyncMessage {
    SyncMessage::PageHash { page_no, hash }
}

fn fsm(direction: Direction, storage: InMemorySyncStorage) -> Fsm {
    SyncFsm::new(storage, FixedClock::new(1_700_000_000_000), direction)
}

fn hello() -> SyncMessage {
    SyncMessage::Hello {
        protocol_version: HANDSHAKE_VERSION,
        page_size: 4096,
        max_page: 0,
    }
}

fn page_data_msg(page_no: u32, data: Vec<u8>) -> SyncMessage {
    SyncMessage::PageData { page_no, data }
}

fn drive(f: &mut Fsm, inputs: Vec<SyncMessage>) -> Vec<SyncMessage> {
    let mut out = Outbox::new();
    for input in inputs {
        f.apply(&input, &mut out).expect("apply ok");
    }
    f.client_closed();
    out.messages
}

fn page_numbers(out: &[SyncMessage]) -> Vec<u32> {
    out.iter()
        .filter_map(|m| match m {
            SyncMessage::PageData { page_no, .. } => Some(*page_no),
            _ => None,
        })
        .collect()
}

#[test]
fn sync_fsm_empty_push_yields_hello_reply_and_sync_complete() {
    let mut f = fsm(Direction::Push, InMemorySyncStorage::new());
    let out = drive(&mut f, vec![hello(), SyncMessage::Complete]);
    assert!(matches!(out[0], SyncMessage::HelloReply { .. }));
    match &out[1] {
        SyncMessage::SyncComplete {
            pages_transferred,
            bytes_transferred,
        } => {
            assert_eq!(*pages_transferred, 0);
            assert_eq!(*bytes_transferred, 0);
        }
        other => panic!("expected SyncComplete, got {other:?}"),
    }
    assert_eq!(out.len(), 2);
}

#[test]
fn sync_fsm_push_unknown_page_triggers_request_then_stores_data() {
    let mut f = fsm(Direction::Push, InMemorySyncStorage::new());
    let data = vec![0xAB; 4096];
    let h = page_hash(&data);
    let out = drive(
        &mut f,
        vec![
            hello(),
            page_hash_msg(1, h.clone()),
            page_data_msg(1, data.clone()),
            SyncMessage::Complete,
        ],
    );
    assert!(matches!(out[0], SyncMessage::HelloReply { .. }));
    match &out[1] {
        SyncMessage::RequestPage { page_no: 1 } => {}
        other => panic!("expected RequestPage(1), got {other:?}"),
    }
    match &out[2] {
        SyncMessage::SyncComplete {
            pages_transferred: 1,
            bytes_transferred: 4096,
        } => {}
        other => panic!("expected SyncComplete(1, 4096), got {other:?}"),
    }
    assert_eq!(out.len(), 3);
    assert_eq!(f.storage().get_page(1).unwrap(), Some(data));
}

#[test]
fn sync_fsm_push_matching_hash_skips_request() {
    let mut storage = InMemorySyncStorage::new();
    let data = vec![0xCD; 4096];
    let h = page_hash(&data);
    storage.put_page(1, &data, &h, 0).unwrap();

    let mut f = fsm(Direction::Push, storage);
    let out = drive(
        &mut f,
        vec![hello(), page_hash_msg(1, h.clone()), SyncMessage::Complete],
    );
    // HelloReply then SyncComplete; no RequestPage in between.
    assert_eq!(out.len(), 2);
    assert!(matches!(out[1], SyncMessage::SyncComplete { .. }));
}

#[test]
fn sync_fsm_pull_mismatch_streams_page_data() {
    let mut storage = InMemorySyncStorage::new();
    storage.put_page(1, b"old", &page_hash(b"old"), 0).unwrap();

    let mut f = fsm(Direction::Pull, storage);
    let out = drive(
        &mut f,
        vec![
            hello(),
            page_hash_msg(1, page_hash(b"new")),
            SyncMessage::Complete,
        ],
    );
    assert_eq!(out.len(), 3);
    assert!(matches!(out[0], SyncMessage::HelloReply { .. }));
    match &out[1] {
        SyncMessage::PageData { page_no: 1, data } => assert_eq!(data.as_slice(), b"old"),
        other => panic!("expected PageData(1), got {other:?}"),
    }
    match &out[2] {
        SyncMessage::SyncComplete {
            pages_transferred: 1,
            bytes_transferred: 3,
        } => {}
        other => panic!("expected SyncComplete(1, 3), got {other:?}"),
    }
}

#[test]
fn pull_into_empty_client_streams_every_server_page() {
    let mut storage = InMemorySyncStorage::new();
    for p in 1u32..=3 {
        let data = vec![p as u8; 4096];
        let h = page_hash(&data);
        storage.put_page(p, &data, &h, 0).unwrap();
    }

    let mut f = fsm(Direction::Pull, storage);
    let out = drive(&mut f, vec![hello(), SyncMessage::Complete]);

    assert!(matches!(out[0], SyncMessage::HelloReply { .. }));
    assert_eq!(page_numbers(&out), vec![1, 2, 3]);
    match out.last().unwrap() {
        SyncMessage::SyncComplete {
            pages_transferred: 3,
            bytes_transferred: 12288,
        } => {}
        other => panic!("expected SyncComplete(3, 12288), got {other:?}"),
    }
}

#[test]
fn pull_skips_pages_client_already_has() {
    let mut storage = InMemorySyncStorage::new();
    let p1 = vec![1u8; 4096];
    let p2 = vec![2u8; 4096];
    let p3 = vec![3u8; 4096];
    storage.put_page(1, &p1, &page_hash(&p1), 0).unwrap();
    storage.put_page(2, &p2, &page_hash(&p2), 0).unwrap();
    storage.put_page(3, &p3, &page_hash(&p3), 0).unwrap();

    let mut f = fsm(Direction::Pull, storage);
    let out = drive(
        &mut f,
        vec![
            hello(),
            page_hash_msg(2, page_hash(&p2)),    // matches
            page_hash_msg(3, page_hash(b"old")), // mismatch
            SyncMessage::Complete,
        ],
    );

    assert_eq!(
        page_numbers(&out),
        vec![3, 1],
        "page 3 inline (mismatch), page 1 on complete (missing)"
    );
}

#[test]
fn sync_fsm_pull_matching_hash_emits_nothing_extra() {
    let mut storage = InMemorySyncStorage::new();
    let data = vec![0xEE; 4096];
    let h = page_hash(&data);
    storage.put_page(1, &data, &h, 0).unwrap();

    let mut f = fsm(Direction::Pull, storage);
    let out = drive(
        &mut f,
        vec![hello(), page_hash_msg(1, h.clone()), SyncMessage::Complete],
    );
    assert_eq!(out.len(), 2);
    assert!(matches!(out[1], SyncMessage::SyncComplete { .. }));
}

#[test]
fn first_message_must_be_hello() {
    let mut f = fsm(Direction::Push, InMemorySyncStorage::new());
    let err = f
        .apply(&page_hash_msg(1, vec![0xDE; 32]), &mut Outbox::new())
        .unwrap_err();
    assert!(err.contains("Hello"), "got {err}");
}

#[test]
fn protocol_version_mismatch_rejected() {
    let mut f = fsm(Direction::Push, InMemorySyncStorage::new());
    let err = f
        .apply(
            &SyncMessage::Hello {
                protocol_version: 999,
                page_size: 4096,
                max_page: 0,
            },
            &mut Outbox::new(),
        )
        .unwrap_err();
    assert!(err.contains("protocol_version mismatch"), "got {err}");
}

#[test]
fn sync_complete_emitted_at_most_once() {
    let mut f = fsm(Direction::Push, InMemorySyncStorage::new());
    let data = vec![0x11; 4096];
    let h = page_hash(&data);
    let out = drive(
        &mut f,
        vec![
            hello(),
            page_hash_msg(1, h.clone()),
            page_data_msg(1, data),
            SyncMessage::Complete,
            // Extra Complete to try to force a duplicate.
            SyncMessage::Complete,
        ],
    );
    let count = out
        .iter()
        .filter(|m| matches!(m, SyncMessage::SyncComplete { .. }))
        .count();
    assert_eq!(count, 1, "expected exactly one SyncComplete, got: {out:?}");
    assert!(f.done());
}

#[test]
fn client_close_without_complete_emits_nothing_extra() {
    let mut f = fsm(Direction::Push, InMemorySyncStorage::new());
    let mut out = Outbox::new();
    f.apply(&hello(), &mut out).unwrap();
    f.client_closed();
    assert_eq!(out.messages.len(), 1);
    assert!(matches!(out.messages[0], SyncMessage::HelloReply { .. }));
    assert!(!f.done());
}

#[test]
fn a_second_hello_is_refused() {
    let mut f = fsm(Direction::Push, InMemorySyncStorage::new());
    let mut out = Outbox::new();
    f.apply(&hello(), &mut out).unwrap();
    assert!(f.apply(&hello(), &mut out).is_err());
    assert!(f
        .apply(&SyncMessage::RequestPage { page_no: 1 }, &mut out)
        .is_err());
}

#[test]
fn ranges_compare_by_combined_hash() {
    let mut storage = InMemorySyncStorage::new();
    let a = page_hash(b"a");
    let b = page_hash(b"b");
    storage.put_page(1, b"a", &a, 0).unwrap();
    storage.put_page(2, b"b", &b, 0).unwrap();
    let mut both = a.clone();
    both.extend_from_slice(&b);
    let combined = page_hash(&both);
    assert_eq!(storage.combined_hash(1, 2).unwrap(), combined);

    let mut f = fsm(Direction::Pull, storage);
    let mut out = Outbox::new();
    f.apply(&hello(), &mut out).unwrap();
    f.apply(
        &SyncMessage::PageHashBatch {
            start_page: 1,
            end_page: 2,
            combined_hash: combined,
        },
        &mut out,
    )
    .unwrap();
    assert_eq!(out.messages.len(), 1);
    f.apply(
        &SyncMessage::PageHashBatch {
            start_page: 1,
            end_page: 2,
            combined_hash: vec![0; 32],
        },
        &mut out,
    )
    .unwrap();
    assert_eq!(
        out.messages[1],
        SyncMessage::HashMismatchBatch {
            page_numbers: vec![1, 2]
        }
    );
}

#[test]
fn batches_of_pages_are_stored() {
    let mut f = fsm(Direction::Push, InMemorySyncStorage::new());
    let out = drive(
        &mut f,
        vec![
            hello(),
            page_hash_msg(1, page_hash(b"a")),
            page_hash_msg(2, page_hash(b"bb")),
            SyncMessage::Complete,
            SyncMessage::PageDataBatch {
                pages: vec![
                    PageDataEntry {
                        page_no: 1,
                        data: b"a".to_vec(),
                    },
                    PageDataEntry {
                        page_no: 2,
                        data: b"bb".to_vec(),
                    },
                ],
            },
        ],
    );
    assert_eq!(
        out.last().unwrap(),
        &SyncMessage::SyncComplete {
            pages_transferred: 2,
            bytes_transferred: 3
        }
    );
    assert_eq!(f.storage().get_page_hash(2).unwrap(), Some(page_hash(b"bb")));
    assert_eq!(f.storage().max_page().unwrap(), 2);
    assert_eq!(
        f.storage().next_page_in_range(2, 9).unwrap(),
        Some((2, b"bb".to_vec()))
    );
}

/// Takes some frames and refuses the next.
struct Closing {
    messages: Vec<SyncMessage>,
    room: usize,
    refused: usize,
}

impl Emit for Closing {
    // The sink's model: it exists in proofs, and nothing calls it.

    fn sent(&self) -> SentFrames {
        unreachable!()
    }

    fn refusals(&self) -> Refusals {
        unreachable!()
    }

    fn willing(&self) -> bool {
        unreachable!()
    }

    fn consistent(&self) -> bool {
        unreachable!()
    }

    fn emit(&mut self, message: SyncMessage) -> Result<(), String> {
        if self.messages.len() == self.room {
            self.refused += 1;
            return Err("socket gone".to_string());
        }
        self.messages.push(message);
        Ok(())
    }
}

fn three_pages() -> InMemorySyncStorage {
    let mut storage = InMemorySyncStorage::new();
    for n in 1..=3u32 {
        let data = vec![n as u8; 10 * n as usize];
        storage.put_page(n, &data, &page_hash(&data), 5).unwrap();
    }
    storage
}

#[test]
fn a_pull_takes_no_page_bytes() {
    let mut f = fsm(Direction::Pull, three_pages());
    let mut out = Outbox::new();
    f.apply(&hello(), &mut out).unwrap();
    let sent = out.messages.len();
    let refusal = Err("page bytes may only be sent on a push".to_string());
    assert_eq!(f.apply(&page_data_msg(1, b"new".to_vec()), &mut out), refusal);
    let batch = SyncMessage::PageDataBatch {
        pages: vec![PageDataEntry { page_no: 9, data: b"new".to_vec() }],
    };
    assert_eq!(f.apply(&batch, &mut out), refusal);
    assert_eq!(out.messages.len(), sent);
    assert_eq!(f.storage().get_page(1).unwrap(), Some(vec![1; 10]));
    assert_eq!(f.storage().get_page(9).unwrap(), None);
    assert_eq!(f.storage().updated_at(1), Some(5));
    f.apply(&SyncMessage::Complete, &mut out).unwrap();
    assert!(f.done());
}

#[test]
fn pushed_pages_bear_the_time_of_the_clock() {
    let mut f = fsm(Direction::Push, three_pages());
    let mut out = Outbox::new();
    f.apply(&hello(), &mut out).unwrap();
    f.apply(&page_data_msg(2, b"new".to_vec()), &mut out).unwrap();
    assert_eq!(f.storage().updated_at(2), Some(1_700_000_000_000));
    assert_eq!(f.storage().updated_at(3), Some(5));
    assert_eq!(f.storage().updated_at(4), None);
    assert_eq!(f.storage().get_page_hash(2).unwrap(), Some(page_hash(b"new")));
}

#[test]
fn a_refused_frame_ends_the_call() {
    let mut f = fsm(Direction::Pull, three_pages());
    // Room for the greeting and one page.
    let mut sink = Closing { messages: Vec::new(), room: 2, refused: 0 };
    f.apply(&hello(), &mut sink).unwrap();
    assert_eq!(
        f.apply(&SyncMessage::Complete, &mut sink),
        Err("socket gone".to_string())
    );
    assert_eq!(page_numbers(&sink.messages), vec![1]);
    assert_eq!(sink.refused, 1);
    assert!(!f.done());
}

#[test]
fn a_refused_report_leaves_the_session_open() {
    let mut f = fsm(Direction::Push, InMemorySyncStorage::new());
    let mut sink = Closing { messages: Vec::new(), room: 1, refused: 0 };
    f.apply(&hello(), &mut sink).unwrap();
    assert!(f.apply(&SyncMessage::Complete, &mut sink).is_err());
    assert!(!f.done());
    let batch = SyncMessage::PageDataBatch {
        pages: vec![
            PageDataEntry { page_no: 1, data: b"a".to_vec() },
            PageDataEntry { page_no: 2, data: b"b".to_vec() },
        ],
    };
    assert!(f.apply(&batch, &mut sink).is_err());
    // The first page was stored before its report was refused.
    assert_eq!(f.storage().get_page(1).unwrap(), Some(b"a".to_vec()));
    assert_eq!(f.storage().get_page(2).unwrap(), None);
    assert!(!f.done());
}

#[test]
fn a_whole_pull_sends_what_differs_once() {
    let mut f = fsm(Direction::Pull, three_pages());
    let out = drive(
        &mut f,
        vec![
            hello(),
            page_hash_msg(3, page_hash(b"other")),
            page_hash_msg(2, page_hash(&[2; 20])),
            page_hash_msg(7, page_hash(b"only here")),
            SyncMessage::Complete,
        ],
    );
    assert_eq!(page_numbers(&out), vec![3, 1]);
    assert_eq!(out.len(), 4);
    assert_eq!(
        out[3],
        SyncMessage::SyncComplete { pages_transferred: 2, bytes_transferred: 40 }
    );
}

#[test]
fn a_push_reports_when_all_that_was_asked_for_came() {
    let mut f = fsm(Direction::Push, InMemorySyncStorage::new());
    let mut out = Outbox::new();
    for m in [
        hello(),
        page_data_msg(5, vec![5; 5]),
        page_hash_msg(1, page_hash(b"a")),
        page_hash_msg(2, page_hash(b"b")),
        page_data_msg(2, b"b".to_vec()),
        SyncMessage::Complete,
    ] {
        f.apply(&m, &mut out).unwrap();
        assert!(!f.done());
    }
    f.apply(&page_data_msg(1, b"a".to_vec()), &mut out).unwrap();
    assert!(f.done());
    assert_eq!(
        out.messages.last(),
        Some(&SyncMessage::SyncComplete { pages_transferred: 3, bytes_transferred: 7 })
    );
}
