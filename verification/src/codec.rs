//! Codec over the frame layer: reads and writes typed headers and opaque
//! bodies as logical messages.
//!
//! A logical message is a header sub-frame (frame id 0, payload type
//! `Header`) followed by a body sub-frame (frame id 1, payload type `Data`)
//! sharing one message id. A body is handed to and from callers as the raw
//! payload bytes, decoded by the caller with the `marshal` functions.

use vstd::prelude::*;
use crate::error::{Error, ErrorV};
use crate::frame::{
    Frame, FrameRead, FrameV, FrameWrite, MessageId, PayloadType, ReadOutcome,
    spec_frame_bytes, spec_read_frame, spec_read_frame_len,
};
use crate::message::{
    RequestHeader, RequestHeaderV, ResponseHeader, marshal_request_header,
    marshal_response_header, spec_request_header_bytes, spec_response_header_bytes,
    spec_unmarshal_request_header, spec_unmarshal_response_header, unmarshal_request_header,
    unmarshal_response_header,
};

verus! {

/// The frame a message's header travels in.
pub open spec fn spec_header_frame(id: MessageId, payload: Seq<u8>) -> FrameV {
    FrameV { message_id: id, frame_id: 0, payload_type: PayloadType::Header, payload }
}

/// The frame a message's body travels in.
pub open spec fn spec_body_frame(id: MessageId, payload: Seq<u8>) -> FrameV {
    FrameV { message_id: id, frame_id: 1, payload_type: PayloadType::Data, payload }
}

/// The wire bytes of a whole request message: header frame then body frame.
pub open spec fn spec_request_message_bytes(h: RequestHeaderV, body: Seq<u8>) -> Seq<u8> {
    spec_frame_bytes(spec_header_frame(h.id, spec_request_header_bytes(h))) + spec_frame_bytes(
        spec_body_frame(h.id, body),
    )
}

/// The wire bytes of a whole response message: header frame then body frame.
pub open spec fn spec_response_message_bytes(h: ResponseHeader, body: Seq<u8>) -> Seq<u8> {
    spec_frame_bytes(spec_header_frame(h.id, spec_response_header_bytes(h))) + spec_frame_bytes(
        spec_body_frame(h.id, body),
    )
}

/// Reading half of a codec; owns the reading half of the transport.
pub struct CodecReader<R: FrameRead> {
    pub reader: R,
}

/// Writing half of a codec; owns the writing half of the transport.
pub struct CodecWriter<W: FrameWrite> {
    pub writer: W,
}

/// A codec over a frame transport, split into independently owned halves.
pub struct Codec<R: FrameRead, W: FrameWrite> {
    pub reader: CodecReader<R>,
    pub writer: CodecWriter<W>,
}

impl<R: FrameRead, W: FrameWrite> Codec<R, W> {
    /// Builds a codec from a reading and a writing transport half.
    pub fn from_reader_writer(reader: R, writer: W) -> (r: Codec<R, W>)
        ensures
            r.reader.reader == reader,
            r.writer.writer == writer,
    {
        Codec { reader: CodecReader { reader }, writer: CodecWriter { writer } }
    }

    /// Splits the codec into its two independently owned halves.
    pub fn split(self) -> (r: (CodecReader<R>, CodecWriter<W>))
        ensures
            r.0 == self.reader,
            r.1 == self.writer,
    {
        (self.reader, self.writer)
    }
}

impl<R: FrameRead> CodecReader<R> {
    /// The bytes the transport will still deliver.
    pub open spec fn pending(&self) -> Seq<u8> {
        self.reader.pending()
    }

    /// Reads one frame and decodes its payload as a request header.
    pub fn read_request_header(&mut self) -> (r: Option<Result<RequestHeader, Error>>)
        ensures
            match spec_read_frame(old(self).pending()) {
                ReadOutcome::Eof => r is None && final(self).pending() == old(self).pending(),
                ReadOutcome::BadMagic => (r matches Some(Err(e)) && e@ == ErrorV::TransportError(
                    crate::frame::spec_magic_mismatch_message(),
                )) && final(self).pending() == old(self).pending(),
                ReadOutcome::Short => (r matches Some(Err(e)) && e@ == ErrorV::IoError(
                    crate::frame::spec_short_read_message(),
                )) && final(self).pending() == old(self).pending(),
                ReadOutcome::Frame(f) => final(self).pending() =~= old(self).pending().skip(
                    spec_read_frame_len(old(self).pending()),
                ) && match spec_unmarshal_request_header(f.payload) {
                    Some(h) => r matches Some(Ok(rh)) && rh@ == h,
                    None => r matches Some(Err(e)) && e@ matches ErrorV::ParseError(_),
                },
            },
    {
        match self.reader.read_frame() {
            None => None,
            Some(Err(e)) => Some(Err(e)),
            Some(Ok(frame)) => match unmarshal_request_header(frame.payload.as_slice()) {
                Ok(h) => Some(Ok(h)),
                Err(e) => Some(Err(e)),
            },
        }
    }

    /// Reads one frame and decodes its payload as a response header.
    pub fn read_response_header(&mut self) -> (r: Option<Result<ResponseHeader, Error>>)
        ensures
            match spec_read_frame(old(self).pending()) {
                ReadOutcome::Eof => r is None && final(self).pending() == old(self).pending(),
                ReadOutcome::BadMagic => (r matches Some(Err(e)) && e@ == ErrorV::TransportError(
                    crate::frame::spec_magic_mismatch_message(),
                )) && final(self).pending() == old(self).pending(),
                ReadOutcome::Short => (r matches Some(Err(e)) && e@ == ErrorV::IoError(
                    crate::frame::spec_short_read_message(),
                )) && final(self).pending() == old(self).pending(),
                ReadOutcome::Frame(f) => final(self).pending() =~= old(self).pending().skip(
                    spec_read_frame_len(old(self).pending()),
                ) && match spec_unmarshal_response_header(f.payload) {
                    Some(h) => r == Some(Ok::<ResponseHeader, Error>(h)),
                    None => r matches Some(Err(e)) && e@ matches ErrorV::ParseError(_),
                },
            },
    {
        match self.reader.read_frame() {
            None => None,
            Some(Err(e)) => Some(Err(e)),
            Some(Ok(frame)) => match unmarshal_response_header(frame.payload.as_slice()) {
                Ok(h) => Some(Ok(h)),
                Err(e) => Some(Err(e)),
            },
        }
    }

    /// Reads one frame and hands out its payload: the marshalled body of a
    /// message, already buffered, to be decoded without further reads.
    pub fn read_body(&mut self) -> (r: Option<Result<Vec<u8>, Error>>)
        ensures
            match spec_read_frame(old(self).pending()) {
                ReadOutcome::Eof => r is None && final(self).pending() == old(self).pending(),
                ReadOutcome::BadMagic => (r matches Some(Err(e)) && e@ == ErrorV::TransportError(
                    crate::frame::spec_magic_mismatch_message(),
                )) && final(self).pending() == old(self).pending(),
                ReadOutcome::Short => (r matches Some(Err(e)) && e@ == ErrorV::IoError(
                    crate::frame::spec_short_read_message(),
                )) && final(self).pending() == old(self).pending(),
                ReadOutcome::Frame(f) => final(self).pending() =~= old(self).pending().skip(
                    spec_read_frame_len(old(self).pending()),
                ) && (r matches Some(Ok(b)) && b@ == f.payload),
            },
    {
        match self.reader.read_frame() {
            None => None,
            Some(Err(e)) => Some(Err(e)),
            Some(Ok(frame)) => Some(Ok(frame.payload)),
        }
    }
}

impl<W: FrameWrite> CodecWriter<W> {
    /// The bytes handed to the transport so far.
    pub open spec fn written(&self) -> Seq<u8> {
        self.writer.written()
    }

    /// Whether a request message with this header and body fits the frame
    /// length limit.
    pub open spec fn spec_request_fits(h: RequestHeaderV, body: Seq<u8>) -> bool {
        spec_request_header_bytes(h).len() <= u32::MAX && body.len() <= u32::MAX
    }

    /// Writes a whole request message: the header frame, then the body
    /// frame. An oversized header or body fails with a `TransportError`
    /// before anything is written.
    pub fn write_request(&mut self, header: &RequestHeader, body: &[u8]) -> (r: Result<(), Error>)
        ensures
            Self::spec_request_fits(header@, body@) ==> r is Ok && final(self).written() =~= old(
                self,
            ).written() + spec_request_message_bytes(header@, body@),
            !Self::spec_request_fits(header@, body@) ==> (r matches Err(e) && e@ matches
                ErrorV::TransportError(_)) && final(self).written() == old(self).written(),
    {
        let hbuf = marshal_request_header(header);
        if hbuf.len() > u32::MAX as usize || body.len() > u32::MAX as usize {
            return Err(Error::TransportError(String::from_str(
                "Payload length exceeded maximum",
            )));
        }
        let hframe = Frame::new(header.id, 0, PayloadType::Header, hbuf);
        match self.writer.write_frame(hframe) {
            Ok(_) => {},
            Err(e) => { return Err(e); },
        }
        let bframe = Frame::new(header.id, 1, PayloadType::Data, vstd::slice::slice_to_vec(body));
        match self.writer.write_frame(bframe) {
            Ok(_) => {},
            Err(e) => { return Err(e); },
        }
        Ok(())
    }

    /// Whether a response message with this body fits the frame length
    /// limit; the response header always fits.
    pub open spec fn spec_response_fits(body: Seq<u8>) -> bool {
        body.len() <= u32::MAX
    }

    /// Writes a whole response message: the header frame, then the body
    /// frame. An oversized body fails with a `TransportError` before
    /// anything is written.
    pub fn write_response(&mut self, header: &ResponseHeader, body: &[u8]) -> (r: Result<
        (),
        Error,
    >)
        ensures
            Self::spec_response_fits(body@) ==> r is Ok && final(self).written() =~= old(
                self,
            ).written() + spec_response_message_bytes(*header, body@),
            !Self::spec_response_fits(body@) ==> (r matches Err(e) && e@ matches
                ErrorV::TransportError(_)) && final(self).written() == old(self).written(),
    {
        let hbuf = marshal_response_header(header);
        proof {
            vstd::bytes::lemma_auto_spec_u16_to_from_le_bytes();
            assert(hbuf@.len() == 3);
        }
        if body.len() > u32::MAX as usize {
            return Err(Error::TransportError(String::from_str(
                "Payload length exceeded maximum",
            )));
        }
        let hframe = Frame::new(header.id, 0, PayloadType::Header, hbuf);
        match self.writer.write_frame(hframe) {
            Ok(_) => {},
            Err(e) => { return Err(e); },
        }
        let bframe = Frame::new(header.id, 1, PayloadType::Data, vstd::slice::slice_to_vec(body));
        match self.writer.write_frame(bframe) {
            Ok(_) => {},
            Err(e) => { return Err(e); },
        }
        Ok(())
    }
}


/// The wire size of a header's frame is one magic byte, the fixed frame
/// header, and the serialized request header itself.
pub proof fn lemma_request_header_wire_size(h: RequestHeaderV)
    requires
        spec_request_header_bytes(h).len() <= u32::MAX,
    ensures
        spec_frame_bytes(spec_header_frame(h.id, spec_request_header_bytes(h))).len() == 1
            + crate::frame::HEADER_LEN + spec_request_header_bytes(h).len(),
{
    crate::frame::lemma_header_round_trip();
}

} // verus!
