//! Tests of the frame layer and the value encodings.

use toy_rpc::error::{Error, RpcError};
use toy_rpc::frame::{
    ByteReader, ByteWriter, Frame, FrameHeader, FrameRead, FrameWrite, PayloadType, HEADER_LEN,
    MAGIC,
};
use toy_rpc::marshal::{
    marshal_bool, marshal_bytes, marshal_i32, marshal_string, marshal_u64, marshal_unit,
    unmarshal_bool, unmarshal_bytes, unmarshal_i32, unmarshal_string, unmarshal_u64,
    unmarshal_unit,
};
use toy_rpc::message::{marshal_rpc_error, unmarshal_rpc_error};

#[test]
fn err_to_string() {
    let e = Error::NoneError;

    println!("{}", e.to_message());
}

#[test]
fn frame_header_length() {
    let b = FrameHeader::default().to_vec().unwrap().len();
    let l = std::mem::size_of::<FrameHeader>();

    println!("{:?}", b);
    println!("{:?}", l);
}

#[derive(Debug, Clone, Default)]
struct ModifiedHeader {
    message_id: u16,
    frame_id: u8,
    payload_type: u8,
    payload_len: u32,
}

fn modified_header_bytes(h: &ModifiedHeader) -> Vec<u8> {
    let mut v = h.message_id.to_le_bytes().to_vec();
    v.push(h.frame_id);
    v.push(h.payload_type);
    v.extend_from_slice(&h.payload_len.to_le_bytes());
    v
}

#[test]
fn bool_length() {
    let fh = FrameHeader::default().to_vec().unwrap().len();
    let mh = modified_header_bytes(&ModifiedHeader::default()).len();

    println!("FrameHeader len: {}", fh);
    println!("ModifiedHeader len: {}", mh);
}

#[test]
fn frame_header_round_trip() {
    let h = FrameHeader::new(0x1234, 1, PayloadType::Data, 0xDEAD_BEEF);
    let bytes = h.to_vec().unwrap();
    assert_eq!(bytes.len(), HEADER_LEN);
    assert_eq!(bytes, vec![0x34, 0x12, 1, 1, 0xEF, 0xBE, 0xAD, 0xDE]);
    let back = FrameHeader::from_slice(&bytes).unwrap();
    assert_eq!(back, h);
}

#[test]
fn frame_header_truncated() {
    let r = FrameHeader::from_slice(&[1, 2, 3]);
    assert!(matches!(r, Err(Error::ParseError(_))));
}

#[test]
fn frame_round_trip() {
    let frame = Frame::new(7, 0, PayloadType::Header, vec![10, 20, 30]);
    let mut w = ByteWriter::new();
    w.write_frame(frame.clone()).unwrap();
    let bytes = w.into_vec();
    assert_eq!(bytes.len(), 1 + HEADER_LEN + 3);
    assert_eq!(bytes[0], MAGIC);

    let mut r = ByteReader::new(bytes);
    let back = r.read_frame().unwrap().unwrap();
    assert_eq!(back, frame);
    assert!(r.read_frame().is_none());
}

#[test]
fn frame_with_empty_payload_is_valid() {
    let frame = Frame::new(9, 1, PayloadType::Data, Vec::new());
    let mut w = ByteWriter::new();
    w.write_frame(frame.clone()).unwrap();
    let bytes = w.into_vec();
    assert_eq!(bytes.len(), 1 + HEADER_LEN);

    let mut r = ByteReader::new(bytes);
    let back = r.read_frame().unwrap().unwrap();
    assert_eq!(back.payload.len(), 0);
    assert_eq!(back, frame);
}

#[test]
fn bad_magic_is_transport_error() {
    let mut r = ByteReader::new(vec![0x00, 0xFF, 0xAB, 7, 9]);
    let res = r.read_frame().unwrap();
    match res {
        Err(Error::TransportError(msg)) => {
            assert!(msg.contains("Magic byte mismatch"));
        },
        other => panic!("expected a magic-mismatch transport error, got {:?}", other),
    }
}

#[test]
fn clean_eof_before_magic() {
    let mut r = ByteReader::new(Vec::new());
    assert!(r.read_frame().is_none());
}

#[test]
fn short_frame_is_io_error() {
    let mut r = ByteReader::new(vec![MAGIC, 1, 2]);
    let res = r.read_frame().unwrap();
    assert!(matches!(res, Err(Error::IoError(_))));
}

#[test]
fn unknown_payload_type_decodes_to_trailer() {
    assert_eq!(PayloadType::from_u8(0), PayloadType::Header);
    assert_eq!(PayloadType::from_u8(1), PayloadType::Data);
    assert_eq!(PayloadType::from_u8(2), PayloadType::Trailer);
    assert_eq!(PayloadType::from_u8(200), PayloadType::Trailer);
}

#[test]
fn marshal_round_trips() {
    assert_eq!(unmarshal_i32(&marshal_i32(13)).unwrap(), 13);
    assert_eq!(unmarshal_i32(&marshal_i32(-42)).unwrap(), -42);
    assert_eq!(unmarshal_i32(&marshal_i32(i32::MIN)).unwrap(), i32::MIN);
    assert_eq!(unmarshal_bool(&marshal_bool(true)).unwrap(), true);
    assert_eq!(unmarshal_bool(&marshal_bool(false)).unwrap(), false);
    assert_eq!(unmarshal_u64(&marshal_u64(u64::MAX)).unwrap(), u64::MAX);
    assert_eq!(unmarshal_bytes(&marshal_bytes(&[1, 2, 3])).unwrap(), vec![1, 2, 3]);
    unmarshal_unit(&marshal_unit()).unwrap();
    let s = unmarshal_string(&marshal_string("hello.world")).unwrap();
    assert_eq!(s, "hello.world");
    let s = unmarshal_string(&marshal_string("")).unwrap();
    assert_eq!(s, "");
    let s = unmarshal_string(&marshal_string("caf\u{e9} \u{1F600}")).unwrap();
    assert_eq!(s, "caf\u{e9} \u{1F600}");
}

#[test]
fn marshal_exact_values() {
    assert_eq!(marshal_i32(13), vec![13, 0, 0, 0]);
    assert_eq!(marshal_bool(true), vec![1]);
    assert_eq!(marshal_unit(), Vec::<u8>::new());
    assert_eq!(marshal_u64(1), vec![1, 0, 0, 0, 0, 0, 0, 0]);
    let s = marshal_string("ab");
    assert_eq!(s, vec![2, 0, 0, 0, 0, 0, 0, 0, b'a', b'b']);
}

#[test]
fn unmarshal_rejects_malformed() {
    assert!(matches!(unmarshal_i32(&[1, 2, 3]), Err(Error::ParseError(_))));
    assert!(matches!(unmarshal_bool(&[2]), Err(Error::ParseError(_))));
    assert!(matches!(unmarshal_bool(&[]), Err(Error::ParseError(_))));
    assert!(matches!(unmarshal_unit(&[0]), Err(Error::ParseError(_))));
    assert!(matches!(unmarshal_bytes(&[5, 0, 0, 0, 0, 0, 0, 0, 1]), Err(Error::ParseError(_))));
    // a length prefix that claims more than the buffer holds
    assert!(matches!(unmarshal_string(&[9, 0, 0, 0, 0, 0, 0, 0, b'a']), Err(Error::ParseError(_))));
    // invalid UTF-8 under a correct length prefix
    assert!(matches!(unmarshal_string(&[1, 0, 0, 0, 0, 0, 0, 0, 0xFF]), Err(Error::ParseError(_))));
}

#[test]
fn rpc_error_round_trips() {
    let cases = vec![
        RpcError::ParseError,
        RpcError::InvalidRequest,
        RpcError::MethodNotFound,
        RpcError::InvalidParams,
        RpcError::InternalError,
        RpcError::ServerError(String::from("disk on fire")),
    ];
    for e in cases {
        let b = marshal_rpc_error(&e);
        let back = unmarshal_rpc_error(&b).unwrap();
        assert_eq!(back, e);
    }
    assert!(matches!(unmarshal_rpc_error(&[9, 0, 0, 0]), Err(Error::ParseError(_))));
}

#[test]
fn error_messages() {
    assert_eq!(Error::NoneError.to_message(), "None error");
    assert_eq!(Error::Canceled.to_message(), "Canceled");
    assert_eq!(Error::RpcError(RpcError::MethodNotFound).to_message(), "Method not found");
    assert_eq!(
        RpcError::ServerError(String::from("oops")).to_message(),
        "Server error oops"
    );
    assert_eq!(RpcError::InvalidParams.to_message(), "Invalid parameters");
}
