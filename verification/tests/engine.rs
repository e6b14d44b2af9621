//! End-to-end tests of the server loop, the client multiplexer, and
//! cancellation, over the in-memory byte transport.

use toy_rpc::client::{Client, Connected, ReaderEvent, interpret_response, read_response_once};
use toy_rpc::codec::{Codec, CodecReader, CodecWriter};
use toy_rpc::error::{Error, RpcError};
use toy_rpc::frame::{ByteReader, ByteWriter, FrameWrite};
use toy_rpc::marshal::{marshal_i32, marshal_unit, unmarshal_i32, unmarshal_string};
use toy_rpc::message::unmarshal_rpc_error;
use toy_rpc::message::{
    cancellation_token, make_cancel_request, parse_cancel_body, RequestHeader, ResponseHeader,
};
use toy_rpc::server::{EchoService, HandleService, Server};
use toy_rpc::ws::{read_payload_item, write_payload_message, WsMessage};

/// Serializes request messages, runs the echo server loop over them, and
/// returns the loop's result together with the bytes it wrote.
fn run_server(requests: Vec<(RequestHeader, Vec<u8>)>) -> (Result<(), Error>, Vec<u8>) {
    let server: Server<EchoService> =
        Server::builder().register("Echo", EchoService {}).build();

    let mut inbound = CodecWriter { writer: ByteWriter::new() };
    for (header, body) in &requests {
        inbound.write_request(header, body).unwrap();
    }
    let incoming = inbound.writer.into_vec();

    let mut codec = Codec::from_reader_writer(ByteReader::new(incoming), ByteWriter::new());
    let result = server.serve_codec(&mut codec);
    (result, codec.writer.writer.into_vec())
}

fn read_all_responses(bytes: Vec<u8>) -> Vec<(ResponseHeader, Vec<u8>)> {
    let mut reader = CodecReader { reader: ByteReader::new(bytes) };
    let mut out = Vec::new();
    loop {
        let header = match reader.read_response_header() {
            None => break,
            Some(h) => h.unwrap(),
        };
        let body = reader.read_body().unwrap().unwrap();
        out.push((header, body));
    }
    out
}

#[test]
fn echo_i32() {
    let header = RequestHeader { id: 1, service_method: String::from("Echo.echo_i32") };
    let (result, written) = run_server(vec![(header, marshal_i32(13))]);
    result.unwrap();
    let responses = read_all_responses(written);
    assert_eq!(responses.len(), 1);
    let (rh, body) = &responses[0];
    assert_eq!(rh.id, 1);
    assert!(!rh.is_error);
    assert_eq!(unmarshal_i32(body).unwrap(), 13);
    let resolved = interpret_response(rh.is_error, body.clone()).unwrap();
    assert_eq!(unmarshal_i32(&resolved).unwrap(), 13);
}

#[test]
fn unknown_service_is_method_not_found() {
    let header = RequestHeader { id: 5, service_method: String::from("NoSuch.method") };
    let (result, written) = run_server(vec![(header, marshal_i32(1))]);
    result.unwrap();
    let responses = read_all_responses(written);
    assert_eq!(responses.len(), 1);
    let (rh, body) = &responses[0];
    assert_eq!(rh.id, 5);
    assert!(rh.is_error);
    assert!(matches!(unmarshal_rpc_error(body).unwrap(), RpcError::MethodNotFound));
    let resolved = interpret_response(rh.is_error, body.clone());
    assert!(matches!(resolved, Err(Error::RpcError(RpcError::MethodNotFound))));
}

#[test]
fn method_without_dot_is_method_not_found() {
    let header = RequestHeader { id: 2, service_method: String::from("nodothere") };
    let (result, written) = run_server(vec![(header, marshal_unit())]);
    result.unwrap();
    let responses = read_all_responses(written);
    assert_eq!(responses.len(), 1);
    assert!(responses[0].0.is_error);
    assert!(matches!(unmarshal_rpc_error(&responses[0].1).unwrap(), RpcError::MethodNotFound));
}

#[test]
fn clean_eof_after_two_requests() {
    let reqs = vec![
        (RequestHeader { id: 1, service_method: String::from("Echo.a") }, marshal_i32(10)),
        (RequestHeader { id: 2, service_method: String::from("Echo.b") }, marshal_i32(20)),
    ];
    let (result, written) = run_server(reqs);
    result.unwrap();
    let responses = read_all_responses(written);
    assert_eq!(responses.len(), 2);
    assert_eq!(responses[0].0.id, 1);
    assert_eq!(unmarshal_i32(&responses[0].1).unwrap(), 10);
    assert_eq!(responses[1].0.id, 2);
    assert_eq!(unmarshal_i32(&responses[1].1).unwrap(), 20);
}

#[test]
fn zero_byte_body_is_valid() {
    let header = RequestHeader { id: 3, service_method: String::from("Echo.unit") };
    let (result, written) = run_server(vec![(header, marshal_unit())]);
    result.unwrap();
    let responses = read_all_responses(written);
    assert_eq!(responses.len(), 1);
    assert!(!responses[0].0.is_error);
    assert_eq!(responses[0].1.len(), 0);
}

#[test]
fn bad_magic_terminates_connection() {
    let server: Server<EchoService> =
        Server::builder().register("Echo", EchoService {}).build();
    let mut codec =
        Codec::from_reader_writer(ByteReader::new(vec![0x00, 1, 2, 3]), ByteWriter::new());
    let result = server.serve_codec(&mut codec);
    assert!(matches!(result, Err(Error::TransportError(_))));
    assert_eq!(codec.writer.writer.into_vec().len(), 0);
}

#[test]
fn cancellation_sentinel_gets_no_response() {
    let (header, body) = make_cancel_request(7);
    assert_eq!(header.id, 7);
    assert_eq!(header.service_method, cancellation_token());
    assert_eq!(unmarshal_string(&body).unwrap(), "!CANCEL.7");

    let echo = RequestHeader { id: 8, service_method: String::from("Echo.still_alive") };
    let (result, written) = run_server(vec![(header, body), (echo, marshal_i32(4))]);
    result.unwrap();
    let responses = read_all_responses(written);
    // the sentinel itself is never answered; the following call still is
    assert_eq!(responses.len(), 1);
    assert_eq!(responses[0].0.id, 8);
    assert_eq!(unmarshal_i32(&responses[0].1).unwrap(), 4);
}

#[test]
fn cancel_body_round_trip() {
    for id in [0u16, 7, 9, 10, 6553, 65535] {
        let (_, body) = make_cancel_request(id);
        assert_eq!(parse_cancel_body(&body).unwrap(), id);
    }
    let (_, body) = make_cancel_request(65535);
    assert_eq!(unmarshal_string(&body).unwrap(), "!CANCEL.65535");
}

#[test]
fn cancel_body_rejects_malformed() {
    let garbled = toy_rpc::marshal::marshal_string("!CANCEL.");
    assert!(parse_cancel_body(&garbled).is_err());
    let wrong_token = toy_rpc::marshal::marshal_string("!CANCEX.7");
    assert!(parse_cancel_body(&wrong_token).is_err());
    let not_digits = toy_rpc::marshal::marshal_string("!CANCEL.7a");
    assert!(parse_cancel_body(&not_digits).is_err());
    let too_big = toy_rpc::marshal::marshal_string("!CANCEL.65536");
    assert!(parse_cancel_body(&too_big).is_err());
}

#[test]
fn pending_map_insert_and_single_removal() {
    let mut client: Client<Connected, &'static str> = Client::new();
    let id = client.begin_call("first").unwrap();
    assert_eq!(id, 0);
    // exactly one entry: taking it yields the slot, taking again yields nothing
    assert_eq!(client.take_pending(id), Some("first"));
    assert_eq!(client.take_pending(id), None);
}

#[test]
fn responses_match_callers_in_any_order() {
    let mut client: Client<Connected, &'static str> = Client::new();
    let a = client.begin_call("a").unwrap();
    let b = client.begin_call("b").unwrap();
    let c = client.begin_call("c").unwrap();
    assert_eq!((a, b, c), (0, 1, 2));

    // responses arrive in the order a, c, b; each resolves its own caller
    let (slot, res) = client
        .process_response(ResponseHeader { id: a, is_error: false }, marshal_i32(100))
        .unwrap();
    assert_eq!(slot, "a");
    assert_eq!(unmarshal_i32(&res.unwrap()).unwrap(), 100);

    let (slot, res) = client
        .process_response(ResponseHeader { id: c, is_error: false }, marshal_i32(300))
        .unwrap();
    assert_eq!(slot, "c");
    assert_eq!(unmarshal_i32(&res.unwrap()).unwrap(), 300);

    let (slot, res) = client
        .process_response(ResponseHeader { id: b, is_error: true }, vec![2, 0, 0, 0])
        .unwrap();
    assert_eq!(slot, "b");
    assert!(matches!(
        interpret_response(true, res.unwrap_err()),
        Err(Error::RpcError(RpcError::MethodNotFound))
    ));
}

#[test]
fn late_response_after_cancellation_is_dropped() {
    let mut client: Client<Connected, &'static str> = Client::new();
    let id = client.begin_call("victim").unwrap();
    let (slot, header, body) = client.cancel_call(id);
    assert_eq!(slot, Some("victim"));
    assert_eq!(header.service_method, "!CANCEL");
    assert_eq!(parse_cancel_body(&body).unwrap(), id);

    // the server may still answer; the delivery is silently dropped
    let dropped = client.process_response(ResponseHeader { id, is_error: false }, marshal_i32(1));
    assert!(dropped.is_none());
}

#[test]
fn client_reader_delivers_through_codec() {
    // a server's worth of responses on the wire
    let header = RequestHeader { id: 0, service_method: String::from("Echo.echo_i32") };
    let (result, written) = run_server(vec![(header, marshal_i32(13))]);
    result.unwrap();

    let mut client: Client<Connected, &'static str> = Client::new();
    let id = client.begin_call("caller").unwrap();
    assert_eq!(id, 0);

    let mut reader = CodecReader { reader: ByteReader::new(written) };
    let (slot, res) = match read_response_once(&mut client, &mut reader).unwrap() {
        ReaderEvent::Delivered(slot, res) => (slot, res),
        other => panic!("expected a delivery, got {:?}", describe(&other)),
    };
    assert_eq!(slot, "caller");
    assert_eq!(unmarshal_i32(&res.unwrap()).unwrap(), 13);

    // clean end of stream afterwards
    assert!(matches!(
        read_response_once(&mut client, &mut reader).unwrap(),
        ReaderEvent::Closed
    ));
}

fn describe(ev: &ReaderEvent<&'static str>) -> &'static str {
    match ev {
        ReaderEvent::Delivered(_, _) => "Delivered",
        ReaderEvent::Dropped => "Dropped",
        ReaderEvent::Closed => "Closed",
    }
}

#[test]
fn late_response_is_dropped_not_closed() {
    // the wire holds a response for id 0, but the call was cancelled
    let header = RequestHeader { id: 0, service_method: String::from("Echo.echo_i32") };
    let (result, written) = run_server(vec![(header, marshal_i32(13))]);
    result.unwrap();

    let mut client: Client<Connected, &'static str> = Client::new();
    let id = client.begin_call("caller").unwrap();
    let _ = client.cancel_call(id);

    let mut reader = CodecReader { reader: ByteReader::new(written) };
    // the late response is discarded, and the reader can keep going
    assert!(matches!(
        read_response_once(&mut client, &mut reader).unwrap(),
        ReaderEvent::Dropped
    ));
    assert!(matches!(
        read_response_once(&mut client, &mut reader).unwrap(),
        ReaderEvent::Closed
    ));
}

#[test]
fn header_without_body_is_io_error() {
    // a lone response header frame, then end of stream
    let mut w = ByteWriter::new();
    let payload = toy_rpc::message::marshal_response_header(
        &ResponseHeader { id: 0, is_error: false },
    );
    w.write_frame(toy_rpc::frame::Frame::new(0, 0, toy_rpc::frame::PayloadType::Header, payload))
        .unwrap();

    let mut client: Client<Connected, &'static str> = Client::new();
    client.begin_call("caller").unwrap();
    let mut reader = CodecReader { reader: ByteReader::new(w.into_vec()) };
    let r = read_response_once(&mut client, &mut reader);
    assert!(matches!(r, Err(Error::IoError(_))));
}

struct AddOne {}

impl HandleService for AddOne {
    fn call(&self, method: &str, body: &[u8]) -> Result<Vec<u8>, RpcError> {
        if method == "add_one" {
            let x = unmarshal_i32(body).map_err(|_| RpcError::InvalidParams)?;
            Ok(marshal_i32(x.wrapping_add(1)))
        } else {
            Err(RpcError::MethodNotFound)
        }
    }
}

#[test]
fn dispatch_splits_at_rightmost_dot() {
    let server: Server<AddOne> = Server::builder().register("math.basic", AddOne {}).build();
    // the rightmost dot separates the method, so the service is "math.basic"
    let r = server.dispatch("math.basic.add_one", &marshal_i32(41)).unwrap();
    assert_eq!(unmarshal_i32(&r).unwrap(), 42);
    // unknown method on a known service comes from the handler
    assert!(matches!(
        server.dispatch("math.basic.sub_one", &marshal_i32(1)),
        Err(RpcError::MethodNotFound)
    ));
    // a body the handler cannot decode
    assert!(matches!(
        server.dispatch("math.basic.add_one", &[1, 2]),
        Err(RpcError::InvalidParams)
    ));
}

#[test]
fn missing_body_gets_internal_error() {
    // a lone header frame, then end of stream: the server answers with an
    // internal error for that id and reports the truncated stream
    let header = RequestHeader { id: 4, service_method: String::from("Echo.echo") };
    let mut w = ByteWriter::new();
    let payload = toy_rpc::message::marshal_request_header(&header);
    w.write_frame(toy_rpc::frame::Frame::new(4, 0, toy_rpc::frame::PayloadType::Header, payload))
        .unwrap();
    let incoming = w.into_vec();

    let server: Server<EchoService> =
        Server::builder().register("Echo", EchoService {}).build();
    let mut codec = Codec::from_reader_writer(ByteReader::new(incoming), ByteWriter::new());
    let result = server.serve_codec(&mut codec);
    assert!(matches!(result, Err(Error::NoneError)));

    let responses = read_all_responses(codec.writer.writer.into_vec());
    assert_eq!(responses.len(), 1);
    assert_eq!(responses[0].0.id, 4);
    assert!(responses[0].0.is_error);
    assert!(matches!(unmarshal_rpc_error(&responses[0].1).unwrap(), RpcError::InternalError));
}

#[test]
fn exhausted_ids_reject_with_internal() {
    let mut client: Client<Connected, u32> = Client::new();
    for i in 0..65536u32 {
        client.begin_call(i).unwrap();
    }
    // 2^16 calls are outstanding: the next id is still in flight
    assert!(matches!(client.begin_call(70000), Err(Error::Internal(_))));
}

#[test]
fn request_wire_size() {
    // wire size of a header frame: magic + fixed frame header + serialized request header
    let header = RequestHeader { id: 9, service_method: String::from("Svc.m") };
    let payload = toy_rpc::message::marshal_request_header(&header);
    let expected = 1 + toy_rpc::frame::HEADER_LEN + payload.len();
    let mut w = ByteWriter::new();
    w.write_frame(toy_rpc::frame::Frame::new(9, 0, toy_rpc::frame::PayloadType::Header, payload))
        .unwrap();
    assert_eq!(w.into_vec().len(), expected);
}

#[test]
fn ws_messages_classify() {
    let r = read_payload_item(Some(Ok(WsMessage::Binary(vec![1, 2]))));
    assert_eq!(r.unwrap().unwrap(), vec![1, 2]);
    assert!(read_payload_item(Some(Ok(WsMessage::Close))).is_none());
    assert!(read_payload_item(None).is_none());
    assert!(matches!(
        read_payload_item(Some(Ok(WsMessage::Other))),
        Some(Err(Error::TransportError(_)))
    ));
    assert!(matches!(
        read_payload_item(Some(Err(String::from("socket reset")))),
        Some(Err(Error::IoError(_)))
    ));
    assert!(matches!(write_payload_message(vec![9]), WsMessage::Binary(b) if b == vec![9]));
}
