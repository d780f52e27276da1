//! Wire types for the sync WebSocket protocol.
//!
//! Each WebSocket binary frame is a single byte protocol version followed
//! by a [`SyncMessage`] serialized with MessagePack. The version byte lets
//! peers reject incompatible frames without paying the msgpack-decode cost.
//! The MessagePack body comes and goes here as bytes.
//!
//! Page hashes are 32-byte BLAKE3 digests.

use vstd::prelude::*;

use crate::text::{decimal, format_u64, join2, join3};

verus! {

/// Wire-protocol version. Bump when message semantics change in a way that
/// older peers can't parse: peers reject frames whose first byte does not
/// match this constant.
pub const PROTOCOL_VERSION: u8 = 1;

/// The BLAKE3 digest of bytes.
pub uninterp spec fn blake3_digest(data: Seq<u8>) -> Seq<u8>;

/// `blake3::hash`: the digest, 32 bytes long.
#[verifier::external_body]
fn blake3_hash(data: &[u8]) -> (r: [u8; 32])
    ensures
        r@ == blake3_digest(data@),
{
    *blake3::hash(data).as_bytes()
}

/// 32-byte BLAKE3 digest of a raw page. The hash is exchanged on the wire
/// (`SyncMessage::PageHash`) and stored alongside each page; both peers must
/// produce identical bytes for a given input, so this is the single source.
pub fn page_hash(data: &[u8]) -> (r: Vec<u8>)
    ensures
        r@ == blake3_digest(data@),
        r@.len() == 32,
{
    let digest: [u8; 32] = blake3_hash(data);
    let mut out: Vec<u8> = Vec::new();
    let mut i: usize = 0;
    while i < 32
        invariant
            i <= 32,
            out@ == digest@.take(i as int),
        decreases 32 - i,
    {
        out.push(digest[i]);
        assert(digest@.take(i + 1) =~= digest@.take(i as int).push(digest@[i as int]));
        i = i + 1;
    }
    assert(digest@.take(32) =~= digest@);
    out
}

/// Page bytes of a batch.
#[derive(Debug, PartialEq, Eq)]
pub struct PageDataEntry {
    pub page_no: u32,
    pub data: Vec<u8>,
}

/// Single envelope flowing in either direction over the sync WebSocket.
///
/// The direction (push vs pull) is *not* on the wire: it comes from the
/// verified sync macaroon at connect time. The same message types appear
/// in both directions; the FSM enforces which side may send what.
#[derive(Debug, PartialEq, Eq)]
pub enum SyncMessage {
    // ---------- Handshake ----------
    Hello { protocol_version: u32, page_size: u32, max_page: u32 },
    HelloReply { protocol_version: u32, page_size: u32, max_page: u32 },
    // ---------- Hash phase ----------
    /// 32-byte BLAKE3 digest of the raw page bytes.
    PageHash { page_no: u32, hash: Vec<u8> },
    /// Combined hash over a contiguous range: short-circuits when an
    /// entire range is identical between peers. 32-byte BLAKE3 digest
    /// over the concatenation of each page's hash, in page_no order.
    PageHashBatch { start_page: u32, end_page: u32, combined_hash: Vec<u8> },
    // ---------- Server-initiated requests for bytes ----------
    RequestPage { page_no: u32 },
    RequestPages { page_numbers: Vec<u32> },
    // ---------- Server-initiated mismatch hints (pull) ----------
    HashMismatch { page_no: u32 },
    HashMismatchBatch { page_numbers: Vec<u32> },
    // ---------- Page bytes ----------
    PageData { page_no: u32, data: Vec<u8> },
    PageDataBatch { pages: Vec<PageDataEntry> },
    // ---------- Lifecycle ----------
    /// Client: "I've sent every hash I have." Server emits SyncComplete
    /// once any in-flight page requests resolve.
    Complete,
    SyncComplete { pages_transferred: u64, bytes_transferred: u64 },
    /// Fatal error. Connection should close after either peer sends or
    /// receives this.
    Error { message: String },
}

/// [`SyncMessage`] over sequences.
#[verifier::ext_equal]
pub enum MessageView {
    Hello { protocol_version: u32, page_size: u32, max_page: u32 },
    HelloReply { protocol_version: u32, page_size: u32, max_page: u32 },
    PageHash { page_no: u32, hash: Seq<u8> },
    PageHashBatch { start_page: u32, end_page: u32, combined_hash: Seq<u8> },
    RequestPage { page_no: u32 },
    RequestPages { page_numbers: Seq<u32> },
    HashMismatch { page_no: u32 },
    HashMismatchBatch { page_numbers: Seq<u32> },
    PageData { page_no: u32, data: Seq<u8> },
    PageDataBatch { pages: Seq<(u32, Seq<u8>)> },
    Complete,
    SyncComplete { pages_transferred: u64, bytes_transferred: u64 },
    Error { message: Seq<char> },
}

/// The entries of a batch over sequences.
pub open spec fn entries_view(pages: Seq<PageDataEntry>) -> Seq<(u32, Seq<u8>)> {
    pages.map_values(|e: PageDataEntry| (e.page_no, e.data@))
}

impl View for SyncMessage {
    type V = MessageView;

    open spec fn view(&self) -> MessageView {
        match self {
            SyncMessage::Hello { protocol_version, page_size, max_page } => MessageView::Hello {
                protocol_version: *protocol_version,
                page_size: *page_size,
                max_page: *max_page,
            },
            SyncMessage::HelloReply { protocol_version, page_size, max_page } => {
                MessageView::HelloReply {
                    protocol_version: *protocol_version,
                    page_size: *page_size,
                    max_page: *max_page,
                }
            },
            SyncMessage::PageHash { page_no, hash } => MessageView::PageHash {
                page_no: *page_no,
                hash: hash@,
            },
            SyncMessage::PageHashBatch { start_page, end_page, combined_hash } => {
                MessageView::PageHashBatch {
                    start_page: *start_page,
                    end_page: *end_page,
                    combined_hash: combined_hash@,
                }
            },
            SyncMessage::RequestPage { page_no } => MessageView::RequestPage { page_no: *page_no },
            SyncMessage::RequestPages { page_numbers } => MessageView::RequestPages {
                page_numbers: page_numbers@,
            },
            SyncMessage::HashMismatch { page_no } => MessageView::HashMismatch {
                page_no: *page_no,
            },
            SyncMessage::HashMismatchBatch { page_numbers } => MessageView::HashMismatchBatch {
                page_numbers: page_numbers@,
            },
            SyncMessage::PageData { page_no, data } => MessageView::PageData {
                page_no: *page_no,
                data: data@,
            },
            SyncMessage::PageDataBatch { pages } => MessageView::PageDataBatch {
                pages: entries_view(pages@),
            },
            SyncMessage::Complete => MessageView::Complete,
            SyncMessage::SyncComplete { pages_transferred, bytes_transferred } => {
                MessageView::SyncComplete {
                    pages_transferred: *pages_transferred,
                    bytes_transferred: *bytes_transferred,
                }
            },
            SyncMessage::Error { message } => MessageView::Error { message: message@ },
        }
    }
}

/// Errors encoding a frame, or decoding one off the WebSocket.
#[derive(Debug, PartialEq, Eq)]
pub enum FrameError {
    Empty,
    VersionMismatch { ours: u8, theirs: u8 },
    Decode(String),
    Encode(String),
}

impl FrameError {
    /// The message of the error.
    pub open spec fn text(self) -> Seq<char> {
        match self {
            FrameError::Empty => "frame is empty (no version byte)"@,
            FrameError::VersionMismatch { ours, theirs } => {
                "protocol_version mismatch: this peer speaks "@ + decimal(ours as nat)
                    + ", frame announced "@ + decimal(theirs as nat)
            },
            FrameError::Decode(s) => "msgpack decode: "@ + s@,
            FrameError::Encode(s) => "msgpack encode: "@ + s@,
        }
    }

    /// The message of the error.
    pub fn to_string(&self) -> (r: String)
        ensures
            r@ == self.text(),
    {
        match self {
            FrameError::Empty => "frame is empty (no version byte)".to_owned(),
            FrameError::VersionMismatch { ours, theirs } => join3(
                join2(
                    "protocol_version mismatch: this peer speaks ",
                    format_u64(*ours as u64).as_str(),
                ).as_str(),
                ", frame announced ",
                format_u64(*theirs as u64).as_str(),
            ),
            FrameError::Decode(s) => join2("msgpack decode: ", s.as_str()),
            FrameError::Encode(s) => join2("msgpack encode: ", s.as_str()),
        }
    }
}

/// The frame of a MessagePack body: the version byte, then the body.
pub open spec fn framed(body: Seq<u8>) -> Seq<u8> {
    seq![PROTOCOL_VERSION] + body
}

/// The body of a frame, or what is wrong with the frame.
pub open spec fn frame_body(frame: Seq<u8>) -> Result<Seq<u8>, FrameError> {
    if frame.len() == 0 {
        Err(FrameError::Empty)
    } else if frame[0] != PROTOCOL_VERSION {
        Err(FrameError::VersionMismatch { ours: PROTOCOL_VERSION, theirs: frame[0] })
    } else {
        Ok(frame.skip(1))
    }
}

/// Completes a WebSocket binary frame from a message's MessagePack body, or
/// from the encoder's complaint that there is none.
pub fn encode_frame(body: Result<Vec<u8>, String>) -> (r: Result<Vec<u8>, FrameError>)
    ensures
        match body {
            Ok(b) => r matches Ok(frame) && frame@ == framed(b@),
            Err(e) => r == Err::<Vec<u8>, FrameError>(FrameError::Encode(e)),
        },
{
    match body {
        Ok(b) => {
            let mut out: Vec<u8> = Vec::new();
            out.push(PROTOCOL_VERSION);
            let mut i: usize = 0;
            while i < b.len()
                invariant
                    i <= b.len(),
                    out@ == framed(b@.take(i as int)),
                decreases b.len() - i,
            {
                out.push(b[i]);
                assert(framed(b@.take(i + 1)) =~= framed(b@.take(i as int)).push(b@[i as int]));
                i = i + 1;
            }
            assert(b@.take(i as int) =~= b@);
            Ok(out)
        },
        Err(e) => Err(FrameError::Encode(e)),
    }
}

/// Takes a WebSocket binary frame apart: the MessagePack body of its message.
/// Verifies the leading version byte; rejects mismatches without looking at
/// the body.
pub fn decode_frame(frame: &[u8]) -> (r: Result<Vec<u8>, FrameError>)
    ensures
        match frame_body(frame@) {
            Ok(body) => r matches Ok(b) && b@ == body,
            Err(e) => r == Err::<Vec<u8>, FrameError>(e),
        },
{
    if frame.len() == 0 {
        return Err(FrameError::Empty);
    }
    let version: u8 = frame[0];
    if version != PROTOCOL_VERSION {
        return Err(FrameError::VersionMismatch { ours: PROTOCOL_VERSION, theirs: version });
    }
    let mut out: Vec<u8> = Vec::new();
    let mut i: usize = 1;
    while i < frame.len()
        invariant
            1 <= i <= frame.len(),
            out@ == frame@.subrange(1, i as int),
        decreases frame.len() - i,
    {
        out.push(frame[i]);
        assert(frame@.subrange(1, i + 1) =~= frame@.subrange(1, i as int).push(frame@[i as int]));
        i = i + 1;
    }
    assert(out@ =~= frame@.skip(1));
    Ok(out)
}

/// The message of a decoded body, or the decoder's complaint about it.
pub fn decoded_message(parsed: Result<SyncMessage, String>) -> (r: Result<SyncMessage, FrameError>)
    ensures
        r == match parsed {
            Ok(m) => Ok::<SyncMessage, FrameError>(m),
            Err(e) => Err(FrameError::Decode(e)),
        },
{
    match parsed {
        Ok(m) => Ok(m),
        Err(e) => Err(FrameError::Decode(e)),
    }
}

/// Taking a frame apart gives the body that it was made from.
pub proof fn law_frame_round_trip(body: Seq<u8>)
    ensures
        frame_body(framed(body)) == Ok::<Seq<u8>, FrameError>(body),
{
    assert(framed(body).skip(1) =~= body);
}

/// A frame is the version byte and its body, and nothing else is one: an empty
/// frame and one of another version are told apart.
pub proof fn law_frames(frame: Seq<u8>, body: Seq<u8>)
    ensures
        framed(body).len() == body.len() + 1,
        framed(body)[0] == 1,
        frame_body(frame) is Ok <==> frame.len() > 0 && frame[0] == 1,
        frame_body(frame) matches Ok(b) ==> frame == seq![1u8] + b,
        frame.len() == 0 ==> frame_body(frame) == Err::<Seq<u8>, FrameError>(FrameError::Empty),
        frame.len() > 0 && frame[0] != 1 ==> frame_body(frame) == Err::<Seq<u8>, FrameError>(
            FrameError::VersionMismatch { ours: 1, theirs: frame[0] },
        ),
{
    if frame.len() > 0 && frame[0] == 1 {
        assert(frame =~= seq![1u8] + frame.skip(1));
    }
}

} // verus!
