//! Client-side call multiplexer.
//!
//! A client owns a monotonic message-id counter (modulo 2^16) and a
//! pending-map from in-flight ids to a caller-owned slot (in an
//! asynchronous wrapper, the single-shot sender for that call). Beginning a
//! call claims the next id and inserts the slot; a received response removes
//! exactly one entry and hands the slot back, or is silently dropped when
//! the id is unknown; a cancellation removes the entry and yields the
//! sentinel request to enqueue. When the next id is still in flight the
//! client rejects the call rather than corrupt the pending-map.

use core::marker::PhantomData;
use vstd::prelude::*;
use vstd::hash_map::HashMapWithView;
use crate::codec::CodecReader;
use crate::error::{Error, ErrorV};
use crate::frame::{FrameRead, MessageId, ReadOutcome, spec_read_frame, spec_read_frame_len};
use crate::message::{
    RequestHeader, ResponseHeader, make_cancel_request, spec_cancel_body_bytes,
    spec_cancellation_token, spec_unmarshal_response_header, spec_unmarshal_rpc_error,
    unmarshal_rpc_error,
};

verus! {

/// Type state for creating a `Client`.
pub struct NotConnected {}

/// Type state for creating a `Client`.
pub struct Connected {}

/// What a delivered response resolves to: the reply body on success, the
/// marshalled error body on failure.
pub type ResponseResult = Result<Vec<u8>, Vec<u8>>;

/// RPC client state: the id counter and the pending-map. `Slot` is whatever
/// the surrounding runtime stores per call to awaken it; the engine only
/// moves slots in and out.
#[verifier::reject_recursive_types(Mode)]
#[verifier::reject_recursive_types(Slot)]
pub struct Client<Mode, Slot> {
    count: MessageId,
    pending: HashMapWithView<MessageId, Slot>,
    marker: PhantomData<Mode>,
}

/// The id that follows `c`, wrapping modulo 2^16.
pub open spec fn spec_next_id(c: MessageId) -> MessageId {
    if c == 0xFFFF {
        0
    } else {
        (c + 1) as u16
    }
}

impl<Mode, Slot> Client<Mode, Slot> {
    /// The ids in flight, each with its caller's slot.
    pub closed spec fn spec_pending(&self) -> Map<MessageId, Slot> {
        self.pending@
    }

    /// The id the next call will be assigned.
    pub closed spec fn spec_count(&self) -> MessageId {
        self.count
    }

    /// A fresh client: no calls in flight, ids starting at 0.
    pub fn new() -> (r: Client<Mode, Slot>)
        ensures
            r.spec_pending() == Map::<MessageId, Slot>::empty(),
            r.spec_count() == 0,
    {
        broadcast use vstd::std_specs::hash::axiom_u16_obeys_hash_table_key_model;

        Client { count: 0, pending: HashMapWithView::new(), marker: PhantomData }
    }

    /// Claims the next message id for a call and parks `slot` under it.
    /// While 2^16 calls are already outstanding the next id is still in
    /// flight; the call is then rejected rather than corrupt the map.
    pub fn begin_call(&mut self, slot: Slot) -> (r: Result<MessageId, Error>)
        ensures
            !old(self).spec_pending().contains_key(old(self).spec_count()) ==> r
                == Ok::<MessageId, Error>(old(self).spec_count()) && final(self).spec_pending()
                == old(self).spec_pending().insert(old(self).spec_count(), slot) && final(self).spec_count() == spec_next_id(old(self).spec_count()),
            old(self).spec_pending().contains_key(old(self).spec_count()) ==> (r matches Err(e)
                && e@ matches ErrorV::Internal(_)) && final(self).spec_pending() == old(self).spec_pending() && final(self).spec_count() == old(self).spec_count(),
    {
        if self.pending.contains_key(&self.count) {
            return Err(Error::Internal(String::from_str(
                "Message id still in flight; too many outstanding calls",
            )));
        }
        let id = self.count;
        self.pending.insert(id, slot);
        self.count = if id == 0xFFFF {
            0
        } else {
            id + 1
        };
        Ok(id)
    }

    /// Removes and returns the slot parked under `id`, if any.
    pub fn take_pending(&mut self, id: MessageId) -> (r: Option<Slot>)
        ensures
            old(self).spec_pending().contains_key(id) ==> (r matches Some(s) && s == old(self).spec_pending()[id]),
            !old(self).spec_pending().contains_key(id) ==> r is None,
            final(self).spec_pending() == old(self).spec_pending().remove(id),
            final(self).spec_count() == old(self).spec_count(),
    {
        self.pending.remove(&id)
    }

    /// Hands a received response to its waiting call: removes exactly the
    /// one pending entry under the response's id and yields the slot with
    /// the body, or silently drops an unknown id. Never delivers twice.
    pub fn process_response(&mut self, header: ResponseHeader, body: Vec<u8>) -> (r: Option<
        (Slot, ResponseResult),
    >)
        ensures
            old(self).spec_pending().contains_key(header.id) ==> (r matches Some((s, res)) && s
                == old(self).spec_pending()[header.id] && (if header.is_error {
                res matches Err(b) && b@ == body@
            } else {
                res matches Ok(b) && b@ == body@
            })),
            !old(self).spec_pending().contains_key(header.id) ==> r is None,
            final(self).spec_pending() == old(self).spec_pending().remove(header.id),
            final(self).spec_count() == old(self).spec_count(),
    {
        match self.take_pending(header.id) {
            None => None,
            Some(slot) => {
                if header.is_error {
                    Some((slot, Err(body)))
                } else {
                    Some((slot, Ok(body)))
                }
            },
        }
    }

    /// Cancels the call under `id`: removes its pending entry (the caller
    /// resolves the returned slot with `Canceled`) and yields the sentinel
    /// request to enqueue, best effort.
    pub fn cancel_call(&mut self, id: MessageId) -> (r: (Option<Slot>, RequestHeader, Vec<u8>))
        ensures
            old(self).spec_pending().contains_key(id) ==> (r.0 matches Some(s) && s == old(self).spec_pending()[id]),
            !old(self).spec_pending().contains_key(id) ==> r.0 is None,
            final(self).spec_pending() == old(self).spec_pending().remove(id),
            final(self).spec_count() == old(self).spec_count(),
            r.1@.id == id,
            r.1@.service_method == spec_cancellation_token(),
            r.2@ == spec_cancel_body_bytes(id),
    {
        let slot = self.take_pending(id);
        let (header, body) = make_cancel_request(id);
        (slot, header, body)
    }
}

/// Beginning a call creates exactly one pending entry, under the new id,
/// and leaves every other call's entry untouched.
pub proof fn lemma_begin_call_pending<Slot>(p: Map<MessageId, Slot>, id: MessageId, slot: Slot)
    requires
        !p.contains_key(id),
    ensures
        p.insert(id, slot).contains_key(id),
        p.insert(id, slot)[id] == slot,
        forall|j: MessageId| j != id ==> p.insert(id, slot).contains_key(j) == p.contains_key(j),
        forall|j: MessageId| j != id && p.contains_key(j) ==> p.insert(id, slot)[j] == p[j],
{
}

/// A response delivers at most once: once an id's entry is removed, a
/// second response under the same id finds nothing.
pub proof fn lemma_no_double_delivery<Slot>(p: Map<MessageId, Slot>, id: MessageId)
    ensures
        !p.remove(id).contains_key(id),
{
}

/// What a delivered response means to the caller: a success body is the
/// reply; an error body is decoded as the peer's `RpcError`, or reported as
/// a `ParseError` when it does not decode.
pub fn interpret_response(is_error: bool, body: Vec<u8>) -> (r: Result<Vec<u8>, Error>)
    ensures
        !is_error ==> (r matches Ok(b) && b@ == body@),
        is_error ==> match spec_unmarshal_rpc_error(body@) {
            Some(re) => r matches Err(e) && e@ == ErrorV::RpcError(re),
            None => r matches Err(e) && e@ matches ErrorV::ParseError(_),
        },
{
    if !is_error {
        Ok(body)
    } else {
        match unmarshal_rpc_error(body.as_slice()) {
            Ok(re) => Err(Error::RpcError(re)),
            Err(e) => Err(e),
        }
    }
}

/// What one turn of the client's reader came to.
pub enum ReaderEvent<Slot> {
    /// A response was delivered: the waiting call's slot and its body.
    Delivered(Slot, ResponseResult),
    /// A response arrived for an id no longer pending — a late response
    /// after a cancellation — and was silently dropped; keep reading.
    Dropped,
    /// The stream ended cleanly before a response; the reader should stop.
    Closed,
}

/// Message shown when the stream ends between a response header and its
/// body.
pub open spec fn spec_missing_body_message() -> Seq<char> {
    "Unexpected end of stream reading a response body"@
}

/// One turn of the client's reader: reads a response header and body, and
/// delivers them to the waiting call. A clean end of stream is `Closed`; a
/// response for an unknown id is `Dropped`; a header with no body behind it
/// is an `IoError`.
pub fn read_response_once<R: FrameRead, Mode, Slot>(
    client: &mut Client<Mode, Slot>,
    reader: &mut CodecReader<R>,
) -> (r: Result<ReaderEvent<Slot>, Error>)
    ensures
        final(client).spec_count() == old(client).spec_count(),
        match spec_read_frame(old(reader).pending()) {
            ReadOutcome::Eof => (r matches Ok(ev) && ev is Closed) && final(client).spec_pending() == old(client).spec_pending(),
            ReadOutcome::BadMagic => (r matches Err(e) && e@ == ErrorV::TransportError(
                crate::frame::spec_magic_mismatch_message(),
            )) && final(client).spec_pending() == old(client).spec_pending(),
            ReadOutcome::Short => (r matches Err(e) && e@ == ErrorV::IoError(
                crate::frame::spec_short_read_message(),
            )) && final(client).spec_pending() == old(client).spec_pending(),
            ReadOutcome::Frame(f1) => match spec_unmarshal_response_header(f1.payload) {
                None => (r matches Err(e) && e@ matches ErrorV::ParseError(_)) && final(client).spec_pending() == old(client).spec_pending(),
                Some(h) => match spec_read_frame(
                    old(reader).pending().skip(spec_read_frame_len(old(reader).pending())),
                ) {
                    ReadOutcome::Frame(f2) => final(client).spec_pending() == old(client).spec_pending().remove(h.id) && (if old(client).spec_pending().contains_key(
                        h.id,
                    ) {
                        r matches Ok(ReaderEvent::Delivered(s, res)) && s == old(
                            client,
                        ).spec_pending()[h.id] && (if h.is_error {
                            res matches Err(b) && b@ == f2.payload
                        } else {
                            res matches Ok(b) && b@ == f2.payload
                        })
                    } else {
                        r matches Ok(ev) && ev is Dropped
                    }),
                    ReadOutcome::Eof => (r matches Err(e) && e@ == ErrorV::IoError(
                        spec_missing_body_message(),
                    )) && final(client).spec_pending() == old(client).spec_pending(),
                    ReadOutcome::BadMagic => (r matches Err(e) && e@ == ErrorV::TransportError(
                        crate::frame::spec_magic_mismatch_message(),
                    )) && final(client).spec_pending() == old(client).spec_pending(),
                    ReadOutcome::Short => (r matches Err(e) && e@ == ErrorV::IoError(
                        crate::frame::spec_short_read_message(),
                    )) && final(client).spec_pending() == old(client).spec_pending(),
                },
            },
        },
{
    let header = match reader.read_response_header() {
        None => {
            return Ok(ReaderEvent::Closed);
        },
        Some(Err(e)) => {
            return Err(e);
        },
        Some(Ok(h)) => h,
    };
    let body = match reader.read_body() {
        None => {
            return Err(Error::IoError(String::from_str(
                "Unexpected end of stream reading a response body",
            )));
        },
        Some(Err(e)) => {
            return Err(e);
        },
        Some(Ok(b)) => b,
    };
    match client.process_response(header, body) {
        Some((slot, res)) => Ok(ReaderEvent::Delivered(slot, res)),
        None => Ok(ReaderEvent::Dropped),
    }
}

} // verus!
