//! Service registry and the per-connection server loop.
//!
//! A server owns an immutable name-to-handler map built by a
//! `ServerBuilder`. The per-connection loop reads a request header and body,
//! resolves `"<service>.<method>"` at the rightmost dot, dispatches to the
//! handler, and writes back exactly one response per non-cancellation
//! request: the reply on success, the `RpcError` on failure, under the
//! request's own id. A cancellation sentinel receives no response.

use vstd::prelude::*;
use vstd::hash_map::StringHashMap;
use vstd::string::{StrSliceExecFns, StringExecFns};
use crate::codec::{
    Codec, CodecWriter, spec_body_frame, spec_header_frame, spec_request_message_bytes,
    spec_response_message_bytes,
};
use crate::error::{Error, ErrorV, RpcError, RpcErrorV};
use crate::frame::{
    FrameRead, FrameWrite, MessageId, ReadOutcome, spec_frame_bytes, spec_read_frame,
    spec_read_frame_len,
};
use crate::message::{
    RequestHeaderV, spec_request_header_bytes,
    RequestHeader, marshal_rpc_error, spec_cancellation_token, spec_marshal_rpc_error,
    spec_unmarshal_request_header, ResponseHeader,
};

verus! {

/// A handler of one service: turns a method name and a marshalled argument
/// into a marshalled reply or an `RpcError`. Users implement this for each
/// service they register; `spec_call` is the handler's own specification,
/// which `call` must meet.
pub trait HandleService: Sized {
    /// What the handler replies, as a function of method name and body.
    /// Implementations refine this; one that keeps the default leaves its
    /// replies unspecified.
    open spec fn spec_call(&self, method: Seq<char>, body: Seq<u8>) -> Result<Seq<u8>, RpcErrorV> {
        arbitrary()
    }

    /// Handles one call.
    fn call(&self, method: &str, body: &[u8]) -> (r: Result<Vec<u8>, RpcError>)
        ensures
            match self.spec_call(method@, body@) {
                Ok(sv) => r matches Ok(v) && v@ == sv,
                Err(se) => r matches Err(e) && e@ == se,
            },
    ;
}

/// The identity service: replies to every method with the body it was
/// handed, unchanged.
pub struct EchoService {}

impl HandleService for EchoService {
    open spec fn spec_call(&self, method: Seq<char>, body: Seq<u8>) -> Result<Seq<u8>, RpcErrorV> {
        Ok(body)
    }

    fn call(&self, method: &str, body: &[u8]) -> (r: Result<Vec<u8>, RpcError>) {
        Ok(vstd::slice::slice_to_vec(body))
    }
}

/// The position of the rightmost `.` in `s`, if any.
pub open spec fn spec_rfind_dot(s: Seq<char>) -> Option<int>
    decreases s.len(),
{
    if s.len() == 0 {
        None
    } else if s.last() == '.' {
        Some(s.len() - 1)
    } else {
        spec_rfind_dot(s.drop_last())
    }
}

/// Finds the rightmost `.` in `s`.
pub fn rfind_dot(s: &str) -> (r: Option<usize>)
    ensures
        match spec_rfind_dot(s@) {
            Some(p) => r matches Some(u) && u == p,
            None => r is None,
        },
{
    let n = s.unicode_len();
    let mut j = n;
    proof {
        assert(s@.subrange(0, n as int) =~= s@);
    }
    while j > 0
        invariant
            0 <= j <= n,
            n == s@.len(),
            spec_rfind_dot(s@) == spec_rfind_dot(s@.subrange(0, j as int)),
        decreases j,
    {
        let c = s.get_char(j - 1);
        proof {
            let cur = s@.subrange(0, j as int);
            assert(cur.last() == s@[j - 1]);
            assert(cur.drop_last() =~= s@.subrange(0, j - 1));
        }
        if c == '.' {
            return Some(j - 1);
        }
        j = j - 1;
    }
    proof {
        assert(s@.subrange(0, 0) =~= Seq::<char>::empty());
    }
    None
}

/// What dispatching `service_method` with `body` over the registry yields:
/// no dot or an unknown service is `MethodNotFound`; otherwise whatever the
/// service's handler replies for the method.
pub open spec fn spec_dispatch<S: HandleService>(
    m: Map<Seq<char>, S>,
    service_method: Seq<char>,
    body: Seq<u8>,
) -> Result<Seq<u8>, RpcErrorV> {
    match spec_rfind_dot(service_method) {
        None => Err(RpcErrorV::MethodNotFound),
        Some(p) => {
            let service = service_method.subrange(0, p);
            let method = service_method.subrange(p + 1, service_method.len() as int);
            if m.contains_key(service) {
                m[service].spec_call(method, body)
            } else {
                Err(RpcErrorV::MethodNotFound)
            }
        },
    }
}

/// The identity service echoes every body unchanged: whenever dispatch
/// reaches a registered `EchoService`, the reply is the request body.
pub proof fn lemma_echo_identity(
    m: Map<Seq<char>, EchoService>,
    service_method: Seq<char>,
    body: Seq<u8>,
)
    requires
        spec_rfind_dot(service_method) matches Some(p) && m.contains_key(
            service_method.subrange(0, p),
        ),
    ensures
        spec_dispatch(m, service_method, body) == Ok::<Seq<u8>, RpcErrorV>(body),
{
}

/// An RPC server: an immutable registry of named services.
#[verifier::reject_recursive_types(S)]
pub struct Server<S: HandleService> {
    services: StringHashMap<S>,
}

/// Builder for a `Server`; registration happens only here, before `build`.
#[verifier::reject_recursive_types(S)]
pub struct ServerBuilder<S: HandleService> {
    services: StringHashMap<S>,
}

impl<S: HandleService> View for Server<S> {
    type V = Map<Seq<char>, S>;

    closed spec fn view(&self) -> Map<Seq<char>, S> {
        self.services@
    }
}

impl<S: HandleService> View for ServerBuilder<S> {
    type V = Map<Seq<char>, S>;

    closed spec fn view(&self) -> Map<Seq<char>, S> {
        self.services@
    }
}

impl<S: HandleService> ServerBuilder<S> {
    pub fn new() -> (r: ServerBuilder<S>)
        ensures
            r@ == Map::<Seq<char>, S>::empty(),
    {
        ServerBuilder { services: StringHashMap::new() }
    }

    /// Registers a service under a name; a later registration under the same
    /// name replaces the earlier one.
    pub fn register(self, service_name: &str, service: S) -> (r: ServerBuilder<S>)
        ensures
            r@ == self@.insert(service_name@, service),
    {
        let mut services = self.services;
        services.insert(service_name.to_owned(), service);
        ServerBuilder { services }
    }

    /// Freezes the registry into a server.
    pub fn build(self) -> (r: Server<S>)
        ensures
            r@ == self@,
    {
        Server { services: self.services }
    }
}

impl<S: HandleService> Server<S> {
    pub fn builder() -> (r: ServerBuilder<S>)
        ensures
            r@ == Map::<Seq<char>, S>::empty(),
    {
        ServerBuilder::new()
    }

    /// Resolves `"<service>.<method>"` at the rightmost dot and invokes the
    /// handler; no dot or an unknown service is `MethodNotFound`.
    pub fn dispatch(&self, service_method: &str, body: &[u8]) -> (r: Result<Vec<u8>, RpcError>)
        ensures
            match spec_dispatch(self@, service_method@, body@) {
                Ok(sv) => r matches Ok(v) && v@ == sv,
                Err(se) => r matches Err(e) && e@ == se,
            },
    {
        let n = service_method.unicode_len();
        let p = match rfind_dot(service_method) {
            Some(p) => p,
            None => { return Err(RpcError::MethodNotFound); },
        };
        proof {
            lemma_rfind_dot_in_range(service_method@);
        }
        let service = service_method.substring_char(0, p);
        let method = service_method.substring_char(p + 1, n);
        match self.services.get(service) {
            Some(handler) => handler.call(method, body),
            None => Err(RpcError::MethodNotFound),
        }
    }
}

/// The rightmost dot, where there is one, lies inside the string.
pub proof fn lemma_rfind_dot_in_range(s: Seq<char>)
    ensures
        spec_rfind_dot(s) matches Some(p) ==> 0 <= p < s.len(),
    decreases s.len(),
{
    if s.len() > 0 && s.last() != '.' {
        lemma_rfind_dot_in_range(s.drop_last());
    }
}


/// The wire error a failed handling is reported as: an `RpcError` is used
/// verbatim; anything else is wrapped as `ServerError` of its message.
pub open spec fn spec_error_to_rpc(e: ErrorV) -> RpcErrorV {
    match e {
        ErrorV::RpcError(r) => r,
        _ => RpcErrorV::ServerError(crate::error::spec_error_message(e)),
    }
}

fn error_to_rpc(e: Error) -> (r: RpcError)
    ensures
        r@ == spec_error_to_rpc(e@),
{
    match e {
        Error::RpcError(r) => r,
        other => RpcError::ServerError(other.to_message()),
    }
}

/// The body a handling result is sent back with: the reply itself, or the
/// marshalled wire error.
pub open spec fn spec_response_body(res: Result<Seq<u8>, ErrorV>) -> Seq<u8> {
    match res {
        Ok(b) => b,
        Err(e) => spec_marshal_rpc_error(spec_error_to_rpc(e)),
    }
}

/// Sends exactly one response for a handled request: on success the reply
/// under `is_error: false`; on failure the wire error under
/// `is_error: true`; always under the request's own id.
pub fn send_response<W: FrameWrite>(
    writer: &mut CodecWriter<W>,
    id: MessageId,
    res: Result<Vec<u8>, Error>,
) -> (r: Result<(), Error>)
    ensures
        ({
            let rv: Result<Seq<u8>, ErrorV> = match res {
                Ok(b) => Ok(b@),
                Err(e) => Err(e@),
            };
            let body = spec_response_body(rv);
            let h = ResponseHeader { id, is_error: rv is Err };
            &&& body.len() <= u32::MAX ==> r is Ok && final(writer).written() =~= old(
                writer,
            ).written() + spec_response_message_bytes(h, body)
            &&& body.len() > u32::MAX ==> (r matches Err(e) && e@ matches ErrorV::TransportError(
                _,
            )) && final(writer).written() == old(writer).written()
        }),
{
    match res {
        Ok(b) => {
            let header = ResponseHeader { id, is_error: false };
            writer.write_response(&header, b.as_slice())
        },
        Err(e) => {
            let rpc = error_to_rpc(e);
            let body = marshal_rpc_error(&rpc);
            let header = ResponseHeader { id, is_error: true };
            writer.write_response(&header, body.as_slice())
        },
    }
}

/// Every byte the per-connection loop writes for the incoming bytes `s`:
/// for each complete request message, one response message under the
/// request's id, except that a cancellation sentinel gets none; a request
/// whose body frame cannot be read gets an `InternalError` response; a
/// framing or header error stops the loop with nothing written for it.
pub open spec fn spec_serve_output<S: HandleService>(m: Map<Seq<char>, S>, s: Seq<u8>) -> Seq<u8>
    decreases s.len(),
{
    match spec_read_frame(s) {
        ReadOutcome::Frame(f1) => {
            let s1 = s.skip(spec_read_frame_len(s));
            match spec_unmarshal_request_header(f1.payload) {
                Some(h) => match spec_read_frame(s1) {
                    ReadOutcome::Frame(f2) => {
                        let s2 = s1.skip(spec_read_frame_len(s1));
                        if h.service_method == spec_cancellation_token() {
                            spec_serve_output(m, s2)
                        } else {
                            let res = spec_dispatch(m, h.service_method, f2.payload);
                            let body = match res {
                                Ok(b) => b,
                                Err(re) => spec_marshal_rpc_error(re),
                            };
                            let rh = ResponseHeader { id: h.id, is_error: res is Err };
                            if body.len() <= u32::MAX {
                                spec_response_message_bytes(rh, body) + spec_serve_output(m, s2)
                            } else {
                                Seq::<u8>::empty()
                            }
                        }
                    },
                    _ => spec_response_message_bytes(
                        ResponseHeader { id: h.id, is_error: true },
                        spec_marshal_rpc_error(RpcErrorV::InternalError),
                    ),
                },
                None => Seq::<u8>::empty(),
            }
        },
        _ => Seq::<u8>::empty(),
    }
}

/// Whether the per-connection loop ends cleanly for the incoming bytes `s`:
/// every message is complete and well-formed and the stream ends before a
/// magic byte.
pub open spec fn spec_serve_clean<S: HandleService>(m: Map<Seq<char>, S>, s: Seq<u8>) -> bool
    decreases s.len(),
{
    match spec_read_frame(s) {
        ReadOutcome::Eof => true,
        ReadOutcome::Frame(f1) => {
            let s1 = s.skip(spec_read_frame_len(s));
            match spec_unmarshal_request_header(f1.payload) {
                Some(h) => match spec_read_frame(s1) {
                    ReadOutcome::Frame(f2) => {
                        let s2 = s1.skip(spec_read_frame_len(s1));
                        if h.service_method == spec_cancellation_token() {
                            spec_serve_clean(m, s2)
                        } else {
                            let res = spec_dispatch(m, h.service_method, f2.payload);
                            let body = match res {
                                Ok(b) => b,
                                Err(re) => spec_marshal_rpc_error(re),
                            };
                            body.len() <= u32::MAX && spec_serve_clean(m, s2)
                        }
                    },
                    _ => false,
                },
                None => false,
            }
        },
        _ => false,
    }
}

fn is_cancellation(h: &RequestHeader) -> (r: bool)
    ensures
        r == (h@.service_method == spec_cancellation_token()),
{
    let token = String::from_str(crate::message::cancellation_token());
    h.service_method == token
}

impl<S: HandleService> Server<S> {
    /// Serves one connection to completion: reads request messages, writes
    /// their responses, honors cancellation sentinels, and stops on end of
    /// stream or the first framing, header, or length error.
    #[verifier::loop_isolation(false)]
    pub fn serve_codec<R: FrameRead, W: FrameWrite>(&self, codec: &mut Codec<R, W>) -> (r: Result<
        (),
        Error,
    >)
        ensures
            final(codec).writer.written() =~= old(codec).writer.written() + spec_serve_output(
                self@,
                old(codec).reader.pending(),
            ),
            r is Ok <==> spec_serve_clean(self@, old(codec).reader.pending()),
    {
        let ghost m = self@;
        let ghost s0 = codec.reader.pending();
        let ghost w0 = codec.writer.written();
        loop
            invariant
                m == self@,
                w0 + spec_serve_output(m, s0) =~= codec.writer.written() + spec_serve_output(
                    m,
                    codec.reader.pending(),
                ),
                spec_serve_clean(m, s0) == spec_serve_clean(m, codec.reader.pending()),
            decreases codec.reader.pending().len(),
        {
            let ghost pend0 = codec.reader.pending();
            let ghost w_cur = codec.writer.written();
            let header = match codec.reader.read_request_header() {
                None => {
                    proof {
                        assert(spec_read_frame(pend0) is Eof);
                        assert(spec_serve_output(m, pend0) =~= Seq::<u8>::empty());
                        assert((codec.writer.written() + spec_serve_output(m, pend0))
                            =~= codec.writer.written());
                        assert(codec.writer.written() =~= w0 + spec_serve_output(m, s0));
                    }
                    return Ok(());
                },
                Some(Err(e)) => {
                    proof {
                        match spec_read_frame(pend0) {
                            ReadOutcome::Frame(f1) => {
                                assert(spec_serve_output(m, pend0) =~= Seq::<u8>::empty());
                                assert(!spec_serve_clean(m, pend0));
                            },
                            _ => {
                                assert(spec_serve_output(m, pend0) =~= Seq::<u8>::empty());
                                assert(!spec_serve_clean(m, pend0));
                            },
                        }
                        assert((codec.writer.written() + spec_serve_output(m, pend0))
                            =~= codec.writer.written());
                        assert(codec.writer.written() =~= w0 + spec_serve_output(m, s0));
                    }
                    return Err(e);
                },
                Some(Ok(h)) => h,
            };
            let ghost pend1 = codec.reader.pending();
            let body = match codec.reader.read_body() {
                None => {
                    proof {
                        vstd::bytes::lemma_auto_spec_u32_to_from_le_bytes();
                    }
                    let sent = send_response(
                        &mut codec.writer,
                        header.id,
                        Err(Error::RpcError(RpcError::InternalError)),
                    );
                    match sent {
                        Ok(_) => {},
                        Err(e2) => {
                            return Err(e2);
                        },
                    }
                    proof {
                        assert(spec_serve_output(m, pend0) =~= spec_response_message_bytes(
                            ResponseHeader { id: header@.id, is_error: true },
                            spec_marshal_rpc_error(RpcErrorV::InternalError),
                        ));
                        assert(!spec_serve_clean(m, pend0));
                        assert(codec.writer.written() =~= w0 + spec_serve_output(m, s0));
                    }
                    return Err(Error::NoneError);
                },
                Some(Err(e)) => {
                    proof {
                        vstd::bytes::lemma_auto_spec_u32_to_from_le_bytes();
                    }
                    let sent = send_response(
                        &mut codec.writer,
                        header.id,
                        Err(Error::RpcError(RpcError::InternalError)),
                    );
                    match sent {
                        Ok(_) => {},
                        Err(e2) => {
                            return Err(e2);
                        },
                    }
                    proof {
                        assert(spec_serve_output(m, pend0) =~= spec_response_message_bytes(
                            ResponseHeader { id: header@.id, is_error: true },
                            spec_marshal_rpc_error(RpcErrorV::InternalError),
                        ));
                        assert(!spec_serve_clean(m, pend0));
                        assert(codec.writer.written() =~= w0 + spec_serve_output(m, s0));
                    }
                    return Err(e);
                },
                Some(Ok(b)) => b,
            };
            let ghost pend2 = codec.reader.pending();
            if is_cancellation(&header) {
                proof {
                    assert(spec_serve_output(m, pend0) =~= spec_serve_output(m, pend2));
                    assert((w_cur + spec_serve_output(m, pend0)) =~= (codec.writer.written()
                        + spec_serve_output(m, pend2)));
                }
                continue ;
            }
            let res = self.dispatch(header.service_method.as_str(), body.as_slice());
            let handled: Result<Vec<u8>, Error> = match res {
                Ok(v) => Ok(v),
                Err(e) => Err(Error::RpcError(e)),
            };
            let ghost sres = spec_dispatch(m, header@.service_method, body@);
            let ghost sbody = match sres {
                Ok(b) => b,
                Err(re) => spec_marshal_rpc_error(re),
            };
            let ghost rh = ResponseHeader { id: header@.id, is_error: sres is Err };
            match send_response(&mut codec.writer, header.id, handled) {
                Ok(_) => {},
                Err(e) => {
                    proof {
                        assert(sbody.len() > u32::MAX);
                        assert(spec_serve_output(m, pend0) =~= Seq::<u8>::empty());
                        assert(!spec_serve_clean(m, pend0));
                        assert((codec.writer.written() + spec_serve_output(m, pend0))
                            =~= codec.writer.written());
                        assert(codec.writer.written() =~= w0 + spec_serve_output(m, s0));
                    }
                    return Err(e);
                },
            }
            proof {
                assert(spec_serve_output(m, pend0) =~= spec_response_message_bytes(rh, sbody)
                    + spec_serve_output(m, pend2));
                assert(spec_serve_clean(m, pend0) == spec_serve_clean(m, pend2));
                assert((w_cur + (spec_response_message_bytes(rh, sbody) + spec_serve_output(
                    m,
                    pend2,
                ))) =~= ((w_cur + spec_response_message_bytes(rh, sbody)) + spec_serve_output(
                    m,
                    pend2,
                )));
            }
        }
    }
}


/// The loop answers message by message: the bytes written for a well-formed
/// request message followed by anything else are that message's response —
/// under the request's own id, `is_error` exactly when dispatch failed —
/// followed by the bytes written for the rest. A cancellation sentinel
/// contributes no response at all.
pub proof fn lemma_serve_step<S: HandleService>(
    m: Map<Seq<char>, S>,
    h: RequestHeaderV,
    body: Seq<u8>,
    rest: Seq<u8>,
)
    requires
        spec_request_header_bytes(h).len() <= u32::MAX,
        body.len() <= u32::MAX,
        vstd::utf8::encode_utf8(h.service_method).len() <= u64::MAX,
    ensures
        h.service_method == spec_cancellation_token() ==> spec_serve_output(
            m,
            spec_request_message_bytes(h, body) + rest,
        ) == spec_serve_output(m, rest),
        h.service_method == spec_cancellation_token() ==> spec_serve_clean(
            m,
            spec_request_message_bytes(h, body) + rest,
        ) == spec_serve_clean(m, rest),
        ({
            let res = spec_dispatch(m, h.service_method, body);
            let rbody = match res {
                Ok(b) => b,
                Err(re) => spec_marshal_rpc_error(re),
            };
            &&& (h.service_method != spec_cancellation_token() && rbody.len() <= u32::MAX)
                ==> spec_serve_output(m, spec_request_message_bytes(h, body) + rest)
                =~= spec_response_message_bytes(
                ResponseHeader { id: h.id, is_error: res is Err },
                rbody,
            ) + spec_serve_output(m, rest)
            &&& (h.service_method != spec_cancellation_token() && rbody.len() <= u32::MAX)
                ==> spec_serve_clean(m, spec_request_message_bytes(h, body) + rest)
                == spec_serve_clean(m, rest)
        }),
{
    let hframe = spec_header_frame(h.id, spec_request_header_bytes(h));
    let bframe = spec_body_frame(h.id, body);
    let s = spec_request_message_bytes(h, body) + rest;
    let tail = spec_frame_bytes(bframe) + rest;
    assert(s =~= spec_frame_bytes(hframe) + tail);
    crate::frame::lemma_read_frame_prefix(hframe, tail);
    crate::message::lemma_request_header_round_trip(h);
    let s1 = s.skip(spec_read_frame_len(s));
    assert(s1 =~= tail);
    crate::frame::lemma_read_frame_prefix(bframe, rest);
    let s2 = s1.skip(spec_read_frame_len(s1));
    assert(s2 =~= rest);
}

/// The identity service echoes over any codec and transport framing:
/// serving one well-formed request message addressed to a registered
/// `EchoService` writes exactly one success response under the same id
/// whose body is the request body, unchanged.
pub proof fn lemma_echo_end_to_end(
    m: Map<Seq<char>, EchoService>,
    h: RequestHeaderV,
    body: Seq<u8>,
)
    requires
        spec_request_header_bytes(h).len() <= u32::MAX,
        body.len() <= u32::MAX,
        vstd::utf8::encode_utf8(h.service_method).len() <= u64::MAX,
        h.service_method != spec_cancellation_token(),
        spec_rfind_dot(h.service_method) matches Some(p) && m.contains_key(
            h.service_method.subrange(0, p),
        ),
    ensures
        spec_serve_output(m, spec_request_message_bytes(h, body)) =~= spec_response_message_bytes(
            ResponseHeader { id: h.id, is_error: false },
            body,
        ),
        spec_serve_clean(m, spec_request_message_bytes(h, body)),
{
    lemma_echo_identity(m, h.service_method, body);
    lemma_serve_step(m, h, body, Seq::<u8>::empty());
    assert(spec_request_message_bytes(h, body) + Seq::<u8>::empty() =~= spec_request_message_bytes(
        h,
        body,
    ));
    assert(spec_serve_output(m, Seq::<u8>::empty()) =~= Seq::<u8>::empty());
    assert(spec_response_message_bytes(ResponseHeader { id: h.id, is_error: false }, body)
        + Seq::<u8>::empty() =~= spec_response_message_bytes(
        ResponseHeader { id: h.id, is_error: false },
        body,
    ));
}

/// A request for an unknown service, or one whose name has no dot, is
/// answered with exactly one error response carrying `MethodNotFound`,
/// under the request's own id; the connection lives on.
pub proof fn lemma_unknown_service_end_to_end<S: HandleService>(
    m: Map<Seq<char>, S>,
    h: RequestHeaderV,
    body: Seq<u8>,
    rest: Seq<u8>,
)
    requires
        spec_request_header_bytes(h).len() <= u32::MAX,
        body.len() <= u32::MAX,
        vstd::utf8::encode_utf8(h.service_method).len() <= u64::MAX,
        h.service_method != spec_cancellation_token(),
        match spec_rfind_dot(h.service_method) {
            None => true,
            Some(p) => !m.contains_key(h.service_method.subrange(0, p)),
        },
    ensures
        spec_serve_output(m, spec_request_message_bytes(h, body) + rest)
            =~= spec_response_message_bytes(
            ResponseHeader { id: h.id, is_error: true },
            spec_marshal_rpc_error(RpcErrorV::MethodNotFound),
        ) + spec_serve_output(m, rest),
        spec_serve_clean(m, spec_request_message_bytes(h, body) + rest) == spec_serve_clean(
            m,
            rest,
        ),
{
    assert(spec_dispatch(m, h.service_method, body) == Err::<Seq<u8>, RpcErrorV>(
        RpcErrorV::MethodNotFound,
    ));
    assert(spec_marshal_rpc_error(RpcErrorV::MethodNotFound).len() <= u32::MAX) by {
        vstd::bytes::lemma_auto_spec_u32_to_from_le_bytes();
    }
    lemma_serve_step(m, h, body, rest);
}


/// A cancellation sentinel is never answered: the bytes written for a
/// sentinel message followed by anything else are exactly the bytes written
/// for the rest.
pub proof fn lemma_cancellation_no_response<S: HandleService>(
    m: Map<Seq<char>, S>,
    h: RequestHeaderV,
    body: Seq<u8>,
    rest: Seq<u8>,
)
    requires
        spec_request_header_bytes(h).len() <= u32::MAX,
        body.len() <= u32::MAX,
        vstd::utf8::encode_utf8(h.service_method).len() <= u64::MAX,
        h.service_method == spec_cancellation_token(),
    ensures
        spec_serve_output(m, spec_request_message_bytes(h, body) + rest) == spec_serve_output(
            m,
            rest,
        ),
        spec_serve_clean(m, spec_request_message_bytes(h, body) + rest) == spec_serve_clean(
            m,
            rest,
        ),
{
    lemma_serve_step(m, h, body, rest);
}

} // verus!
