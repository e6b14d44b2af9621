//! WebSocket transport support.
//!
//! A WebSocket stream carries whole binary frames, so the engine's payloads
//! travel one per message. The halves wrap the split stream and sink of the
//! underlying connection; the classification of incoming messages — binary
//! payload, clean close, anything else an error — is the verified logic
//! here, on a plain model of a WebSocket message. An asynchronous wrapper
//! converts its library's message type into `WsMessage` and back.

use core::marker::PhantomData;
use vstd::prelude::*;
use vstd::string::StringExecFns;
use crate::error::{Error, ErrorV};

verus! {

/// Marker: this connection's sink half can be written to.
pub struct CanSink {}

/// A WebSocket message, as the transport logic sees it: a binary frame, a
/// close frame, or any other kind (text, ping, pong), which the engine
/// rejects.
pub enum WsMessage {
    Binary(Vec<u8>),
    Close,
    Other,
}

/// A connection that speaks WebSocket messages.
pub struct WebSocketConn<S, N> {
    pub inner: S,
    pub can_sink: PhantomData<N>,
}

/// A wrapper around the receiving half of a split WebSocket stream.
pub struct StreamHalf<S, Mode> {
    pub inner: S,
    pub can_sink: PhantomData<Mode>,
}

/// A wrapper around the sending half of a split WebSocket stream.
pub struct SinkHalf<S, Mode> {
    pub inner: S,
    pub can_sink: PhantomData<Mode>,
}

impl<S> WebSocketConn<S, CanSink> {
    pub fn new(inner: S) -> (r: Self)
        ensures
            r.inner == inner,
    {
        Self { inner, can_sink: PhantomData }
    }
}

/// Message shown when a peer hands anything but a binary or close frame.
pub open spec fn spec_nonbinary_message() -> Seq<char> {
    "Expecting a binary WebSocket message"@
}

/// What one received item yields as a payload read: `None` for a clean
/// close and for end of stream, the bytes of a binary message, a
/// `TransportError` for any other frame kind, and an `IoError` when the
/// read itself failed. `item` is `None` at end of stream and `Err` with the
/// transport's message on a failed read.
pub open spec fn spec_payload_of_ws(item: Option<Result<WsMessage, Seq<char>>>) -> Option<
    Result<Seq<u8>, ErrorV>,
> {
    match item {
        None => None,
        Some(Err(m)) => Some(Err(ErrorV::IoError(m))),
        Some(Ok(WsMessage::Binary(b))) => Some(Ok(b@)),
        Some(Ok(WsMessage::Close)) => None,
        Some(Ok(WsMessage::Other)) => Some(Err(ErrorV::TransportError(spec_nonbinary_message()))),
    }
}

/// Classifies one received WebSocket item as a payload read: the bytes of a
/// binary message; `None` on a close frame or end of stream, which end the
/// connection cleanly; a `TransportError` on any other frame kind, which
/// the engine rejects; an `IoError` on a failed read.
pub fn read_payload_item(item: Option<Result<WsMessage, String>>) -> (r: Option<
    Result<Vec<u8>, Error>,
>)
    ensures
        ({
            let iv = match item {
                None => None,
                Some(Ok(msg)) => Some(Ok::<WsMessage, Seq<char>>(msg)),
                Some(Err(m)) => Some(Err::<WsMessage, Seq<char>>(m@)),
            };
            match spec_payload_of_ws(iv) {
                None => r is None,
                Some(Ok(b)) => r matches Some(Ok(v)) && v@ == b,
                Some(Err(e)) => r matches Some(Err(x)) && x@ == e,
            }
        }),
{
    match item {
        None => None,
        Some(Err(m)) => Some(Err(Error::IoError(m))),
        Some(Ok(WsMessage::Binary(b))) => Some(Ok(b)),
        Some(Ok(WsMessage::Close)) => None,
        Some(Ok(WsMessage::Other)) => Some(Err(Error::TransportError(String::from_str(
            "Expecting a binary WebSocket message",
        )))),
    }
}

/// The message a payload is sent as: one binary WebSocket message.
pub fn write_payload_message(payload: Vec<u8>) -> (r: WsMessage)
    ensures
        r matches WsMessage::Binary(b) && b@ == payload@,
{
    WsMessage::Binary(payload)
}

/// The message that closes the connection cleanly.
pub fn close_message() -> (r: WsMessage)
    ensures
        r is Close,
{
    WsMessage::Close
}

} // verus!
