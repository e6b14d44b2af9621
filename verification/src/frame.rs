//! Length-delimited framing over an ordered byte stream.
//!
//! On the wire a frame is: one magic byte `0x0D`, an 8-byte fixed-width
//! little-endian `FrameHeader`, then `payload_len` payload bytes. The spec
//! functions below define that layout exactly; `read_frame` / `write_frame`
//! are proved against them.

use vstd::prelude::*;
use vstd::bytes::*;
use crate::error::{Error, ErrorV};

verus! {

/// Identifier coupling a request to its response.
pub type MessageId = u16;
/// Identifier of a sub-frame within a logical message: 0 = header, 1 = body.
pub type FrameId = u8;
/// Length of a frame payload in bytes.
pub type PayloadLen = u32;

/// First byte of every frame; detects protocol mismatches at connect time.
pub const MAGIC: u8 = 13;
/// Serialized width of a `FrameHeader` in bytes.
pub const HEADER_LEN: usize = 8;

/// Kind of payload a sub-frame carries. Unknown values decode to `Trailer`.
#[derive(Debug, Clone, Copy, PartialEq, Eq, Structural)]
pub enum PayloadType {
    Header,
    Data,
    Trailer,
}

/// The wire tag of a payload type.
pub open spec fn spec_payload_type_to_u8(t: PayloadType) -> u8 {
    match t {
        PayloadType::Header => 0,
        PayloadType::Data => 1,
        PayloadType::Trailer => 2,
    }
}

/// The payload type a wire tag decodes to; unknown tags become `Trailer`.
pub open spec fn spec_payload_type_from_u8(b: u8) -> PayloadType {
    if b == 0 {
        PayloadType::Header
    } else if b == 1 {
        PayloadType::Data
    } else {
        PayloadType::Trailer
    }
}

impl PayloadType {
    /// Decodes a wire tag; unknown tags become `Trailer`.
    pub fn from_u8(t: u8) -> (r: PayloadType)
        ensures
            r == spec_payload_type_from_u8(t),
    {
        if t == 0 {
            PayloadType::Header
        } else if t == 1 {
            PayloadType::Data
        } else {
            PayloadType::Trailer
        }
    }

    /// Encodes this payload type as its wire tag.
    pub fn to_u8(self) -> (r: u8)
        ensures
            r == spec_payload_type_to_u8(self),
    {
        match self {
            PayloadType::Header => 0,
            PayloadType::Data => 1,
            PayloadType::Trailer => 2,
        }
    }
}

impl Default for PayloadType {
    fn default() -> (r: Self)
        ensures
            r == PayloadType::Header,
    {
        PayloadType::Header
    }
}

/// Fixed-width record preceding every payload.
#[derive(Debug, Clone, Copy, PartialEq, Eq, Structural)]
pub struct FrameHeader {
    pub message_id: MessageId,
    pub frame_id: FrameId,
    pub payload_type: u8,
    pub payload_len: PayloadLen,
}

impl Default for FrameHeader {
    fn default() -> (r: Self)
        ensures
            r == (FrameHeader { message_id: 0, frame_id: 0, payload_type: 0, payload_len: 0 }),
    {
        FrameHeader { message_id: 0, frame_id: 0, payload_type: 0, payload_len: 0 }
    }
}

/// The 8-byte little-endian fixed-width serialization of a header.
pub open spec fn spec_header_bytes(h: FrameHeader) -> Seq<u8> {
    spec_u16_to_le_bytes(h.message_id) + seq![h.frame_id, h.payload_type]
        + spec_u32_to_le_bytes(h.payload_len)
}

/// The header encoded in the first 8 bytes of `s`.
pub open spec fn spec_parse_header(s: Seq<u8>) -> FrameHeader
    recommends
        s.len() >= HEADER_LEN,
{
    FrameHeader {
        message_id: spec_u16_from_le_bytes(s.subrange(0, 2)),
        frame_id: s[2],
        payload_type: s[3],
        payload_len: spec_u32_from_le_bytes(s.subrange(4, 8)),
    }
}

/// Header serialization is 8 bytes wide and parsing inverts it; any 8 bytes
/// parse to a header whose serialization is those bytes again.
pub proof fn lemma_header_round_trip()
    ensures
        forall|h: FrameHeader| (#[trigger] spec_header_bytes(h)).len() == HEADER_LEN,
        forall|h: FrameHeader| spec_parse_header(#[trigger] spec_header_bytes(h)) == h,
        forall|s: Seq<u8>|
            s.len() == HEADER_LEN ==> spec_header_bytes(#[trigger] spec_parse_header(s)) =~= s,
{
    lemma_auto_spec_u16_to_from_le_bytes();
    lemma_auto_spec_u32_to_from_le_bytes();
    assert forall|h: FrameHeader| (#[trigger] spec_header_bytes(h)).len() == HEADER_LEN by {}
    assert forall|h: FrameHeader| spec_parse_header(#[trigger] spec_header_bytes(h)) == h by {
        let s = spec_header_bytes(h);
        assert(s.subrange(0, 2) =~= spec_u16_to_le_bytes(h.message_id));
        assert(s.subrange(4, 8) =~= spec_u32_to_le_bytes(h.payload_len));
    }
    assert forall|s: Seq<u8>|
        s.len() == HEADER_LEN implies spec_header_bytes(#[trigger] spec_parse_header(s)) =~= s by {
        let h = spec_parse_header(s);
        assert(spec_u16_to_le_bytes(h.message_id) =~= s.subrange(0, 2));
        assert(spec_u32_to_le_bytes(h.payload_len) =~= s.subrange(4, 8));
    }
}

impl FrameHeader {
    pub fn new(
        message_id: MessageId,
        frame_id: FrameId,
        payload_type: PayloadType,
        payload_len: PayloadLen,
    ) -> (r: Self)
        ensures
            r == (FrameHeader {
                message_id,
                frame_id,
                payload_type: spec_payload_type_to_u8(payload_type),
                payload_len,
            }),
    {
        FrameHeader { message_id, frame_id, payload_type: payload_type.to_u8(), payload_len }
    }

    /// Decodes a header from the first 8 bytes of `buf`; fewer than 8 bytes
    /// is a `ParseError`.
    pub fn from_slice(buf: &[u8]) -> (r: Result<Self, Error>)
        ensures
            buf@.len() >= HEADER_LEN ==> r == Ok::<FrameHeader, Error>(
                spec_parse_header(buf@.subrange(0, HEADER_LEN as int)),
            ),
            buf@.len() < HEADER_LEN ==> (r matches Err(e) && e@ matches ErrorV::ParseError(_)),
    {
        if buf.len() < HEADER_LEN {
            return Err(Error::ParseError(String::from_str("Frame header is truncated")));
        }
        let message_id = u16_from_le_bytes(vstd::slice::slice_subrange(buf, 0, 2));
        let frame_id = *vstd::slice::slice_index_get(buf, 2);
        let payload_type = *vstd::slice::slice_index_get(buf, 3);
        let payload_len = u32_from_le_bytes(vstd::slice::slice_subrange(buf, 4, 8));
        let h = FrameHeader { message_id, frame_id, payload_type, payload_len };
        proof {
            let s = buf@.subrange(0, HEADER_LEN as int);
            assert(s.subrange(0, 2) =~= buf@.subrange(0, 2));
            assert(s.subrange(4, 8) =~= buf@.subrange(4, 8));
        }
        Ok(h)
    }

    /// Serializes this header to its 8-byte wire form. Serialization cannot
    /// fail; the `Result` keeps the original calling convention.
    pub fn to_vec(&self) -> (r: Result<Vec<u8>, Error>)
        ensures
            r matches Ok(v) && v@ == spec_header_bytes(*self),
    {
        let mut v = u16_to_le_bytes(self.message_id);
        v.push(self.frame_id);
        v.push(self.payload_type);
        let mut tail = u32_to_le_bytes(self.payload_len);
        v.append(&mut tail);
        proof {
            assert(v@ =~= spec_header_bytes(*self));
        }
        Ok(v)
    }
}

/// A single length-prefixed unit on the wire.
#[derive(Debug, Clone, PartialEq, Eq)]
pub struct Frame {
    pub message_id: MessageId,
    pub frame_id: FrameId,
    pub payload_type: PayloadType,
    pub payload: Vec<u8>,
}

/// Mathematical model of a `Frame`.
#[verifier::ext_equal]
pub struct FrameV {
    pub message_id: MessageId,
    pub frame_id: FrameId,
    pub payload_type: PayloadType,
    pub payload: Seq<u8>,
}

impl View for Frame {
    type V = FrameV;

    open spec fn view(&self) -> FrameV {
        FrameV {
            message_id: self.message_id,
            frame_id: self.frame_id,
            payload_type: self.payload_type,
            payload: self.payload@,
        }
    }
}

impl Frame {
    pub fn new(
        message_id: MessageId,
        frame_id: FrameId,
        payload_type: PayloadType,
        payload: Vec<u8>,
    ) -> (r: Self)
        ensures
            r@ == (FrameV { message_id, frame_id, payload_type, payload: payload@ }),
    {
        Frame { message_id, frame_id, payload_type, payload }
    }
}

/// The header a frame is written with.
pub open spec fn spec_frame_header(f: FrameV) -> FrameHeader
    recommends
        f.payload.len() <= u32::MAX,
{
    FrameHeader {
        message_id: f.message_id,
        frame_id: f.frame_id,
        payload_type: spec_payload_type_to_u8(f.payload_type),
        payload_len: f.payload.len() as u32,
    }
}

/// The full wire form of a frame: magic byte, header, payload.
pub open spec fn spec_frame_bytes(f: FrameV) -> Seq<u8>
    recommends
        f.payload.len() <= u32::MAX,
{
    seq![MAGIC] + spec_header_bytes(spec_frame_header(f)) + f.payload
}

/// Number of bytes a frame with this payload length occupies on the wire.
pub open spec fn spec_frame_wire_len(payload_len: int) -> int {
    1 + HEADER_LEN + payload_len
}

/// Outcome of reading one frame from the front of a byte sequence.
pub enum ReadOutcome {
    /// Clean end of stream before the magic byte.
    Eof,
    /// The first byte is not the magic byte.
    BadMagic,
    /// The stream ended inside the header or the payload.
    Short,
    /// A complete frame; the stream continues after it.
    Frame(FrameV),
}

/// What reading one frame from the front of `s` yields.
pub open spec fn spec_read_frame(s: Seq<u8>) -> ReadOutcome {
    if s.len() == 0 {
        ReadOutcome::Eof
    } else if s[0] != MAGIC {
        ReadOutcome::BadMagic
    } else if s.len() < 1 + HEADER_LEN {
        ReadOutcome::Short
    } else {
        let h = spec_parse_header(s.subrange(1, 1 + HEADER_LEN as int));
        if s.len() < spec_frame_wire_len(h.payload_len as int) {
            ReadOutcome::Short
        } else {
            ReadOutcome::Frame(
                FrameV {
                    message_id: h.message_id,
                    frame_id: h.frame_id,
                    payload_type: spec_payload_type_from_u8(h.payload_type),
                    payload: s.subrange(
                        1 + HEADER_LEN as int,
                        spec_frame_wire_len(h.payload_len as int),
                    ),
                },
            )
        }
    }
}

/// How many bytes the frame at the front of `s` occupies.
pub open spec fn spec_read_frame_len(s: Seq<u8>) -> int
    recommends
        spec_read_frame(s) is Frame,
{
    spec_frame_wire_len(spec_parse_header(s.subrange(1, 1 + HEADER_LEN as int)).payload_len as int)
}

/// Message shown when the first byte of a frame is not the magic byte.
pub open spec fn spec_magic_mismatch_message() -> Seq<char> {
    "Magic byte mismatch. Peer may be using a different protocol or version"@
}

/// Message shown when a frame ends before its declared length.
pub open spec fn spec_short_read_message() -> Seq<char> {
    "Unexpected end of stream inside a frame"@
}

/// Message shown when a payload exceeds the maximum frame length.
pub open spec fn spec_payload_overflow_message() -> Seq<char> {
    "Payload length exceeded maximum"@
}

/// What a conforming `read_frame` returns, given what reading one frame from
/// the pending bytes yields.
pub open spec fn read_frame_post(
    outcome: ReadOutcome,
    r: Option<Result<Frame, Error>>,
) -> bool {
    match outcome {
        ReadOutcome::Eof => r is None,
        ReadOutcome::BadMagic => r matches Some(Err(e)) && e@ == ErrorV::TransportError(
            spec_magic_mismatch_message(),
        ),
        ReadOutcome::Short => r matches Some(Err(e)) && e@ == ErrorV::IoError(
            spec_short_read_message(),
        ),
        ReadOutcome::Frame(f) => r matches Some(Ok(fr)) && fr@ == f,
    }
}

/// Source of frames. `pending()` models the bytes the transport will still
/// deliver, so reading is a pure function of that sequence.
pub trait FrameRead: Sized {
    /// The bytes not yet consumed from the transport. Implementations
    /// refine this; one that keeps the default leaves its stream
    /// unspecified.
    open spec fn pending(&self) -> Seq<u8> {
        arbitrary()
    }

    /// Reads one frame: `None` on clean end of stream before the magic byte,
    /// a `TransportError` on a magic mismatch, an `IoError` on a short read,
    /// otherwise the frame, consuming exactly its wire bytes. On a magic
    /// mismatch or a short read nothing is consumed: no header or payload
    /// byte is taken past the offending position.
    fn read_frame(&mut self) -> (r: Option<Result<Frame, Error>>)
        ensures
            read_frame_post(spec_read_frame(old(self).pending()), r),
            spec_read_frame(old(self).pending()) matches ReadOutcome::Frame(_) ==> final(self).pending() =~= old(self).pending().skip(spec_read_frame_len(old(self).pending())),
            spec_read_frame(old(self).pending()) is Eof ==> final(self).pending() == old(self).pending(),
            spec_read_frame(old(self).pending()) is BadMagic ==> final(self).pending() == old(self).pending(),
            spec_read_frame(old(self).pending()) is Short ==> final(self).pending() == old(self).pending(),
    ;
}

/// Sink of frames. `written()` models every byte handed to the transport.
pub trait FrameWrite: Sized {
    /// The bytes written to the transport so far. Implementations refine
    /// this; one that keeps the default leaves its sink unspecified.
    open spec fn written(&self) -> Seq<u8> {
        arbitrary()
    }

    /// Writes one frame: magic byte, header, payload. A payload longer than
    /// `u32::MAX` bytes fails with a `TransportError` before any write.
    fn write_frame(&mut self, frame: Frame) -> (r: Result<(), Error>)
        ensures
            frame.payload@.len() <= u32::MAX ==> r is Ok && final(self).written() =~= old(self).written() + spec_frame_bytes(frame@),
            frame.payload@.len() > u32::MAX ==> (r matches Err(e) && e@ == ErrorV::TransportError(
                spec_payload_overflow_message(),
            )) && final(self).written() == old(self).written(),
    ;
}

/// An in-memory byte stream to read frames from; the reference transport.
pub struct ByteReader {
    data: Vec<u8>,
    pos: usize,
}

impl ByteReader {
    /// The cursor lies within the buffer.
    #[verifier::type_invariant]
    spec fn wf(&self) -> bool {
        self.pos <= self.data@.len()
    }

    pub fn new(data: Vec<u8>) -> (r: ByteReader)
        ensures
            r.pending() == data@,
    {
        ByteReader { data, pos: 0 }
    }
}

impl FrameRead for ByteReader {
    closed spec fn pending(&self) -> Seq<u8> {
        self.data@.skip(self.pos as int)
    }

    fn read_frame(&mut self) -> (r: Option<Result<Frame, Error>>)
    {
        proof {
            use_type_invariant(&*self);
        }
        let ghost s = self.pending();
        if self.pos == self.data.len() {
            return None;
        }
        let magic = self.data[self.pos];
        assert(magic == s[0]);
        if magic != MAGIC {
            return Some(Err(Error::TransportError(String::from_str(
                "Magic byte mismatch. Peer may be using a different protocol or version",
            ))));
        }
        if self.data.len() - self.pos < 1 + HEADER_LEN {
            return Some(Err(Error::IoError(String::from_str(
                "Unexpected end of stream inside a frame",
            ))));
        }
        let header_start = self.pos + 1;
        let header_slice = vstd::slice::slice_subrange(
            self.data.as_slice(),
            header_start,
            header_start + HEADER_LEN,
        );
        assert(header_slice@ =~= s.subrange(1, 1 + HEADER_LEN as int));
        assert(header_slice@.subrange(0, HEADER_LEN as int) =~= header_slice@);
        let h = match FrameHeader::from_slice(header_slice) {
            Ok(h) => h,
            Err(_) => {
                return Some(Err(Error::ParseError(String::from_str(
                    "Frame header is truncated",
                ))));
            },
        };
        assert(h == spec_parse_header(s.subrange(1, 1 + HEADER_LEN as int)));
        let payload_len = h.payload_len as usize;
        if self.data.len() - self.pos - 1 - HEADER_LEN < payload_len {
            return Some(Err(Error::IoError(String::from_str(
                "Unexpected end of stream inside a frame",
            ))));
        }
        let payload_start = self.pos + 1 + HEADER_LEN;
        let payload_slice = vstd::slice::slice_subrange(
            self.data.as_slice(),
            payload_start,
            payload_start + payload_len,
        );
        let payload = vstd::slice::slice_to_vec(payload_slice);
        self.pos = payload_start + payload_len;
        let f = Frame {
            message_id: h.message_id,
            frame_id: h.frame_id,
            payload_type: PayloadType::from_u8(h.payload_type),
            payload,
        };
        proof {
            assert(f@.payload =~= s.subrange(
                1 + HEADER_LEN as int,
                spec_frame_wire_len(h.payload_len as int),
            ));
            assert(self.pending() =~= s.skip(spec_read_frame_len(s)));
        }
        Some(Ok(f))
    }
}

/// An in-memory byte sink to write frames to; the reference transport.
pub struct ByteWriter {
    data: Vec<u8>,
}

impl ByteWriter {
    pub fn new() -> (r: ByteWriter)
        ensures
            r.written() == Seq::<u8>::empty(),
    {
        ByteWriter { data: Vec::new() }
    }

    /// Hands the accumulated bytes out.
    pub fn into_vec(self) -> (r: Vec<u8>)
        ensures
            r@ == self.written(),
    {
        self.data
    }
}

impl FrameWrite for ByteWriter {
    closed spec fn written(&self) -> Seq<u8> {
        self.data@
    }

    fn write_frame(&mut self, frame: Frame) -> (r: Result<(), Error>)
    {
        if frame.payload.len() > u32::MAX as usize {
            return Err(Error::TransportError(String::from_str(
                "Payload length exceeded maximum",
            )));
        }
        let header = FrameHeader::new(
            frame.message_id,
            frame.frame_id,
            frame.payload_type,
            frame.payload.len() as u32,
        );
        self.data.push(MAGIC);
        let mut hv = match header.to_vec() {
            Ok(v) => v,
            Err(e) => { return Err(e); },
        };
        self.data.append(&mut hv);
        let mut payload = frame.payload;
        self.data.append(&mut payload);
        proof {
            assert(self.written() =~= old(self).written() + spec_frame_bytes(frame@));
        }
        Ok(())
    }
}


/// Parsing inverts serialization for whole frames: the wire form of any
/// frame whose payload fits the length limit reads back as exactly that
/// frame, consuming exactly its wire bytes.
pub proof fn lemma_frame_round_trip(f: FrameV)
    requires
        f.payload.len() <= u32::MAX,
    ensures
        spec_read_frame(spec_frame_bytes(f)) matches ReadOutcome::Frame(g) && g =~= f,
        spec_frame_bytes(f).len() == spec_frame_wire_len(f.payload.len() as int),
        spec_read_frame_len(spec_frame_bytes(f)) == spec_frame_bytes(f).len(),
{
    lemma_header_round_trip();
    let h = spec_frame_header(f);
    let b = spec_frame_bytes(f);
    assert(b[0] == MAGIC);
    assert(b.subrange(1, 1 + HEADER_LEN as int) =~= spec_header_bytes(h));
    assert(spec_parse_header(b.subrange(1, 1 + HEADER_LEN as int)) == h);
    assert(h.payload_len == f.payload.len());
    assert(b.subrange(1 + HEADER_LEN as int, spec_frame_wire_len(h.payload_len as int))
        =~= f.payload);
    assert(spec_payload_type_from_u8(spec_payload_type_to_u8(f.payload_type)) == f.payload_type);
}


/// The payload length boundary: a frame whose payload is exactly the
/// maximum length still has a well-formed wire form that reads back
/// intact; `write_frame` rejects any longer payload with a
/// `TransportError` before writing anything.
pub proof fn lemma_payload_length_boundary(f: FrameV)
    requires
        f.payload.len() == u32::MAX,
    ensures
        spec_read_frame(spec_frame_bytes(f)) matches ReadOutcome::Frame(g) && g =~= f,
{
    lemma_frame_round_trip(f);
}


/// Reading from a stream that starts with a frame's wire form yields that
/// frame and leaves exactly the rest of the stream.
pub proof fn lemma_read_frame_prefix(f: FrameV, rest: Seq<u8>)
    requires
        f.payload.len() <= u32::MAX,
    ensures
        spec_read_frame(spec_frame_bytes(f) + rest) matches ReadOutcome::Frame(g) && g =~= f,
        spec_read_frame_len(spec_frame_bytes(f) + rest) == spec_frame_bytes(f).len(),
        (spec_frame_bytes(f) + rest).skip(spec_frame_bytes(f).len() as int) =~= rest,
{
    lemma_header_round_trip();
    let h = spec_frame_header(f);
    let fb = spec_frame_bytes(f);
    let s = fb + rest;
    assert(fb.len() == spec_frame_wire_len(f.payload.len() as int));
    assert(s[0] == MAGIC);
    assert(s.subrange(1, 1 + HEADER_LEN as int) =~= spec_header_bytes(h));
    assert(spec_parse_header(s.subrange(1, 1 + HEADER_LEN as int)) == h);
    assert(h.payload_len == f.payload.len());
    assert(s.subrange(1 + HEADER_LEN as int, spec_frame_wire_len(h.payload_len as int))
        =~= f.payload);
    assert(spec_payload_type_from_u8(spec_payload_type_to_u8(f.payload_type)) == f.payload_type);
}

} // verus!
