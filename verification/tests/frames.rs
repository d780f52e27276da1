use edgereplica::shared::sync_protocol::{
    decode_frame, decoded_message, encode_frame, page_hash, FrameError, PageDataEntry, SyncMessage,
    PROTOCOL_VERSION,
};
use serde_json::Value;

/// The fields of a message by name, with its kind beside them.
fn tagged(kind: &str, fields: Vec<(&str, Value)>) -> Value {
    let mut data = serde_json::Map::new();
    for (name, value) in fields {
        data.insert(name.to_string(), value);
    }
    let mut out = serde_json::Map::new();
    out.insert("kind".to_string(), Value::from(kind));
    if !data.is_empty() {
        out.insert("data".to_string(), Value::Object(data));
    }
    Value::Object(out)
}

fn to_value(msg: &SyncMessage) -> Value {
    match msg {
        SyncMessage::Hello { protocol_version, page_size, max_page } => tagged(
            "hello",
            vec![
                ("protocol_version", Value::from(*protocol_version)),
                ("page_size", Value::from(*page_size)),
                ("max_page", Value::from(*max_page)),
            ],
        ),
        SyncMessage::PageHash { page_no, hash } => tagged(
            "page_hash",
            vec![("page_no", Value::from(*page_no)), ("hash", Value::from(hash.clone()))],
        ),
        SyncMessage::PageHashBatch { start_page, end_page, combined_hash } => tagged(
            "page_hash_batch",
            vec![
                ("start_page", Value::from(*start_page)),
                ("end_page", Value::from(*end_page)),
                ("combined_hash", Value::from(combined_hash.clone())),
            ],
        ),
        SyncMessage::PageData { page_no, data } => tagged(
            "page_data",
            vec![("page_no", Value::from(*page_no)), ("data", Value::from(data.clone()))],
        ),
        SyncMessage::PageDataBatch { pages } => tagged(
            "page_data_batch",
            vec![(
                "pages",
                Value::Array(
                    pages
                        .iter()
                        .map(|p| {
                            Value::Array(vec![
                                Value::from(p.page_no),
                                Value::from(p.data.clone()),
                            ])
                        })
                        .collect(),
                ),
            )],
        ),
        SyncMessage::Complete => tagged("complete", vec![]),
        SyncMessage::SyncComplete { pages_transferred, bytes_transferred } => tagged(
            "sync_complete",
            vec![
                ("pages_transferred", Value::from(*pages_transferred)),
                ("bytes_transferred", Value::from(*bytes_transferred)),
            ],
        ),
        SyncMessage::Error { message } => {
            tagged("error", vec![("message", Value::from(message.clone()))])
        }
        other => panic!("not a message of these tests: {other:?}"),
    }
}

fn number(v: &Value) -> u32 {
    v.as_u64().unwrap() as u32
}

fn bytes(v: &Value) -> Vec<u8> {
    v.as_array().unwrap().iter().map(|b| b.as_u64().unwrap() as u8).collect()
}

fn from_value(v: &Value) -> Result<SyncMessage, String> {
    let d = &v["data"];
    Ok(match v["kind"].as_str().ok_or("no kind")? {
        "hello" => SyncMessage::Hello {
            protocol_version: number(&d["protocol_version"]),
            page_size: number(&d["page_size"]),
            max_page: number(&d["max_page"]),
        },
        "page_hash" => SyncMessage::PageHash {
            page_no: number(&d["page_no"]),
            hash: bytes(&d["hash"]),
        },
        "page_hash_batch" => SyncMessage::PageHashBatch {
            start_page: number(&d["start_page"]),
            end_page: number(&d["end_page"]),
            combined_hash: bytes(&d["combined_hash"]),
        },
        "page_data" => SyncMessage::PageData {
            page_no: number(&d["page_no"]),
            data: bytes(&d["data"]),
        },
        "page_data_batch" => SyncMessage::PageDataBatch {
            pages: d["pages"]
                .as_array()
                .unwrap()
                .iter()
                .map(|p| PageDataEntry { page_no: number(&p[0]), data: bytes(&p[1]) })
                .collect(),
        },
        "complete" => SyncMessage::Complete,
        "sync_complete" => SyncMessage::SyncComplete {
            pages_transferred: d["pages_transferred"].as_u64().unwrap(),
            bytes_transferred: d["bytes_transferred"].as_u64().unwrap(),
        },
        "error" => SyncMessage::Error {
            message: d["message"].as_str().unwrap().to_string(),
        },
        other => return Err(format!("unknown kind {other}")),
    })
}

fn encode(msg: &SyncMessage) -> Result<Vec<u8>, FrameError> {
    encode_frame(rmp_serde::to_vec_named(&to_value(msg)).map_err(|e| e.to_string()))
}

fn decode(frame: &[u8]) -> Result<SyncMessage, FrameError> {
    let body = decode_frame(frame)?;
    let parsed = rmp_serde::from_slice::<Value>(&body)
        .map_err(|e| e.to_string())
        .and_then(|v| from_value(&v));
    decoded_message(parsed)
}

fn roundtrip(msg: SyncMessage) {
    let frame = encode(&msg).expect("encode");
    assert_eq!(frame[0], PROTOCOL_VERSION);
    let back = decode(&frame).expect("decode");
    assert_eq!(back, msg);
}

#[test]
fn hello_roundtrips() {
    roundtrip(SyncMessage::Hello {
        protocol_version: 1,
        page_size: 4096,
        max_page: 1234,
    });
}

#[test]
fn page_data_roundtrips_with_bytes() {
    roundtrip(SyncMessage::PageData {
        page_no: 7,
        data: vec![0xAB; 4096],
    });
}

#[test]
fn page_data_batch_roundtrips() {
    roundtrip(SyncMessage::PageDataBatch {
        pages: vec![
            PageDataEntry {
                page_no: 1,
                data: b"hello".to_vec(),
            },
            PageDataEntry {
                page_no: 2,
                data: b"world".to_vec(),
            },
        ],
    });
}

#[test]
fn page_hash_batch_roundtrips() {
    roundtrip(SyncMessage::PageHashBatch {
        start_page: 1,
        end_page: 100,
        combined_hash: vec![0xDE; 32],
    });
}

#[test]
fn page_hash_roundtrips() {
    roundtrip(SyncMessage::PageHash {
        page_no: 42,
        hash: vec![0xAB; 32],
    });
}

#[test]
fn complete_and_sync_complete_roundtrip() {
    roundtrip(SyncMessage::Complete);
    roundtrip(SyncMessage::SyncComplete {
        pages_transferred: 100,
        bytes_transferred: 100 * 4096,
    });
}

#[test]
fn error_message_roundtrips() {
    roundtrip(SyncMessage::Error {
        message: "boom".into(),
    });
}

#[test]
fn version_mismatch_rejected() {
    let mut frame = encode(&SyncMessage::Complete).unwrap();
    frame[0] = 99;
    match decode(&frame) {
        Err(FrameError::VersionMismatch {
            ours: 1,
            theirs: 99,
        }) => {}
        other => panic!("expected version mismatch, got {other:?}"),
    }
}

#[test]
fn empty_frame_rejected() {
    match decode(&[]) {
        Err(FrameError::Empty) => {}
        other => panic!("expected empty error, got {other:?}"),
    }
}

#[test]
fn adjacent_tag_present_in_msgpack() {
    let frame = encode(&SyncMessage::Complete).unwrap();
    let body = &frame[1..];
    assert!(
        body.windows(4).any(|w| w == b"kind"),
        "expected 'kind' tag in body, got {body:?}",
    );
}

#[test]
fn torn_bodies_are_decode_errors() {
    let err = decode(&[PROTOCOL_VERSION]).unwrap_err();
    assert!(matches!(err, FrameError::Decode(_)));
    assert!(err.to_string().starts_with("msgpack decode: "));
}

#[test]
fn failed_encodings_are_encode_errors() {
    let err = encode_frame(Err("nope".to_string())).unwrap_err();
    assert_eq!(err.to_string(), "msgpack encode: nope");
    assert_eq!(
        FrameError::VersionMismatch { ours: 1, theirs: 99 }.to_string(),
        "protocol_version mismatch: this peer speaks 1, frame announced 99"
    );
    assert_eq!(FrameError::Empty.to_string(), "frame is empty (no version byte)");
}

#[test]
fn page_hash_is_blake3() {
    assert_eq!(page_hash(b"abc"), blake3::hash(b"abc").as_bytes().to_vec());
    assert_eq!(
        hex::encode(page_hash(b"")),
        "af1349b9f5f9a1a6a0404dea36dcc9499bcb25c9adc112b7cc9a93cae41f3262"
    );
}
