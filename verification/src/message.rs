//! Typed request and response headers and the cancellation sentinel.
//!
//! A request names its target as `"<service>.<method>"`; the dot separator is
//! the rightmost `.`. A cancellation is an ordinary request whose
//! `service_method` is the token `"!CANCEL"` and whose body is the string
//! `"!CANCEL.<id>"` with the decimal id of the call to cancel.

use vstd::prelude::*;
use vstd::bytes::*;
use vstd::string::*;
use vstd::utf8::*;
use crate::error::{Error, ErrorV, RpcError, RpcErrorV};
use crate::frame::MessageId;
use crate::marshal::{
    marshal_bool, marshal_string, spec_marshal_bool, spec_marshal_string, spec_unmarshal_bool,
    spec_unmarshal_string, lemma_string_round_trip, unmarshal_bool, unmarshal_string,
};

verus! {

/// Header of a request: the message id and the `"<service>.<method>"` name.
#[derive(Debug, Clone, PartialEq, Eq)]
pub struct RequestHeader {
    pub id: MessageId,
    pub service_method: String,
}

/// Mathematical model of a `RequestHeader`.
pub struct RequestHeaderV {
    pub id: MessageId,
    pub service_method: Seq<char>,
}

impl View for RequestHeader {
    type V = RequestHeaderV;

    open spec fn view(&self) -> RequestHeaderV {
        RequestHeaderV { id: self.id, service_method: self.service_method@ }
    }
}

/// Header of a response: the id of the request it answers and whether the
/// body carries an `RpcError` instead of a reply.
#[derive(Debug, Clone, Copy, PartialEq, Eq, Structural)]
pub struct ResponseHeader {
    pub id: MessageId,
    pub is_error: bool,
}

/// Wire form of a request header: the id, then the name as a string.
pub open spec fn spec_request_header_bytes(h: RequestHeaderV) -> Seq<u8> {
    spec_u16_to_le_bytes(h.id) + spec_marshal_string(h.service_method)
}

/// The request header a buffer decodes to.
pub open spec fn spec_unmarshal_request_header(b: Seq<u8>) -> Option<RequestHeaderV> {
    if b.len() >= 2 {
        match spec_unmarshal_string(b.skip(2)) {
            Some(sm) => Some(
                RequestHeaderV {
                    id: spec_u16_from_le_bytes(b.subrange(0, 2)),
                    service_method: sm,
                },
            ),
            None => None,
        }
    } else {
        None
    }
}

pub fn marshal_request_header(h: &RequestHeader) -> (r: Vec<u8>)
    ensures
        r@ == spec_request_header_bytes(h@),
{
    let mut v = u16_to_le_bytes(h.id);
    let mut tail = marshal_string(h.service_method.as_str());
    v.append(&mut tail);
    proof {
        assert(v@ =~= spec_request_header_bytes(h@));
    }
    v
}

pub fn unmarshal_request_header(b: &[u8]) -> (r: Result<RequestHeader, Error>)
    ensures
        spec_unmarshal_request_header(b@) matches Some(v) ==> (r matches Ok(h) && h@ == v),
        spec_unmarshal_request_header(b@) is None ==> (r matches Err(e) && e@ matches
            ErrorV::ParseError(_)),
{
    if b.len() < 2 {
        return Err(Error::ParseError(String::from_str(
            "Buffer does not decode as a value of the expected type",
        )));
    }
    let id = u16_from_le_bytes(vstd::slice::slice_subrange(b, 0, 2));
    let rest = vstd::slice::slice_subrange(b, 2, b.len());
    proof {
        assert(rest@ =~= b@.skip(2));
    }
    let sm = match unmarshal_string(rest) {
        Ok(sm) => sm,
        Err(e) => { return Err(e); },
    };
    Ok(RequestHeader { id, service_method: sm })
}

/// Decoding inverts encoding for request headers.
pub proof fn lemma_request_header_round_trip(h: RequestHeaderV)
    requires
        encode_utf8(h.service_method).len() <= u64::MAX,
    ensures
        spec_unmarshal_request_header(spec_request_header_bytes(h)) matches Some(v) && v.id == h.id
            && v.service_method == h.service_method,
{
    lemma_auto_spec_u16_to_from_le_bytes();
    let b = spec_request_header_bytes(h);
    assert(b.subrange(0, 2) =~= spec_u16_to_le_bytes(h.id));
    assert(b.skip(2) =~= spec_marshal_string(h.service_method));
    lemma_string_round_trip(h.service_method);
}

/// Wire form of a response header: the id, then the error flag byte.
pub open spec fn spec_response_header_bytes(h: ResponseHeader) -> Seq<u8> {
    spec_u16_to_le_bytes(h.id) + spec_marshal_bool(h.is_error)
}

/// The response header a buffer decodes to.
pub open spec fn spec_unmarshal_response_header(b: Seq<u8>) -> Option<ResponseHeader> {
    if b.len() == 3 {
        match spec_unmarshal_bool(b.skip(2)) {
            Some(f) => Some(
                ResponseHeader { id: spec_u16_from_le_bytes(b.subrange(0, 2)), is_error: f },
            ),
            None => None,
        }
    } else {
        None
    }
}

pub fn marshal_response_header(h: &ResponseHeader) -> (r: Vec<u8>)
    ensures
        r@ == spec_response_header_bytes(*h),
{
    let mut v = u16_to_le_bytes(h.id);
    let mut tail = marshal_bool(h.is_error);
    v.append(&mut tail);
    proof {
        assert(v@ =~= spec_response_header_bytes(*h));
    }
    v
}

pub fn unmarshal_response_header(b: &[u8]) -> (r: Result<ResponseHeader, Error>)
    ensures
        spec_unmarshal_response_header(b@) matches Some(v) ==> r == Ok::<ResponseHeader, Error>(v),
        spec_unmarshal_response_header(b@) is None ==> (r matches Err(e) && e@ matches
            ErrorV::ParseError(_)),
{
    if b.len() != 3 {
        return Err(Error::ParseError(String::from_str(
            "Buffer does not decode as a value of the expected type",
        )));
    }
    let id = u16_from_le_bytes(vstd::slice::slice_subrange(b, 0, 2));
    let rest = vstd::slice::slice_subrange(b, 2, b.len());
    proof {
        assert(rest@ =~= b@.skip(2));
    }
    let is_error = match unmarshal_bool(rest) {
        Ok(f) => f,
        Err(e) => { return Err(e); },
    };
    Ok(ResponseHeader { id, is_error })
}

/// Decoding inverts encoding for response headers.
pub proof fn lemma_response_header_round_trip(h: ResponseHeader)
    ensures
        spec_unmarshal_response_header(spec_response_header_bytes(h)) == Some(h),
{
    lemma_auto_spec_u16_to_from_le_bytes();
    let b = spec_response_header_bytes(h);
    assert(b.subrange(0, 2) =~= spec_u16_to_le_bytes(h.id));
    assert(b.skip(2) =~= spec_marshal_bool(h.is_error));
}

/// Wire form of an `RpcError`: a 4-byte variant tag, then for `ServerError`
/// the message string.
pub open spec fn spec_marshal_rpc_error(e: RpcErrorV) -> Seq<u8> {
    match e {
        RpcErrorV::ParseError => spec_u32_to_le_bytes(0),
        RpcErrorV::InvalidRequest => spec_u32_to_le_bytes(1),
        RpcErrorV::MethodNotFound => spec_u32_to_le_bytes(2),
        RpcErrorV::InvalidParams => spec_u32_to_le_bytes(3),
        RpcErrorV::InternalError => spec_u32_to_le_bytes(4),
        RpcErrorV::ServerError(s) => spec_u32_to_le_bytes(5) + spec_marshal_string(s),
    }
}

/// The `RpcError` a buffer decodes to.
pub open spec fn spec_unmarshal_rpc_error(b: Seq<u8>) -> Option<RpcErrorV> {
    if b.len() < 4 {
        None
    } else {
        let tag = spec_u32_from_le_bytes(b.subrange(0, 4));
        if tag == 5 {
            match spec_unmarshal_string(b.skip(4)) {
                Some(s) => Some(RpcErrorV::ServerError(s)),
                None => None,
            }
        } else if b.len() == 4 {
            if tag == 0 {
                Some(RpcErrorV::ParseError)
            } else if tag == 1 {
                Some(RpcErrorV::InvalidRequest)
            } else if tag == 2 {
                Some(RpcErrorV::MethodNotFound)
            } else if tag == 3 {
                Some(RpcErrorV::InvalidParams)
            } else if tag == 4 {
                Some(RpcErrorV::InternalError)
            } else {
                None
            }
        } else {
            None
        }
    }
}

pub fn marshal_rpc_error(e: &RpcError) -> (r: Vec<u8>)
    ensures
        r@ == spec_marshal_rpc_error(e@),
{
    match e {
        RpcError::ParseError => u32_to_le_bytes(0),
        RpcError::InvalidRequest => u32_to_le_bytes(1),
        RpcError::MethodNotFound => u32_to_le_bytes(2),
        RpcError::InvalidParams => u32_to_le_bytes(3),
        RpcError::InternalError => u32_to_le_bytes(4),
        RpcError::ServerError(s) => {
            let mut v = u32_to_le_bytes(5);
            let mut tail = marshal_string(s.as_str());
            v.append(&mut tail);
            proof {
                assert(v@ =~= spec_marshal_rpc_error(e@));
            }
            v
        },
    }
}

pub fn unmarshal_rpc_error(b: &[u8]) -> (r: Result<RpcError, Error>)
    ensures
        spec_unmarshal_rpc_error(b@) matches Some(v) ==> (r matches Ok(e) && e@ == v),
        spec_unmarshal_rpc_error(b@) is None ==> (r matches Err(e) && e@ matches ErrorV::ParseError(
            _,
        )),
{
    if b.len() < 4 {
        return Err(Error::ParseError(String::from_str(
            "Buffer does not decode as a value of the expected type",
        )));
    }
    let tag = u32_from_le_bytes(vstd::slice::slice_subrange(b, 0, 4));
    if tag == 5 {
        let rest = vstd::slice::slice_subrange(b, 4, b.len());
        proof {
            assert(rest@ =~= b@.skip(4));
        }
        match unmarshal_string(rest) {
            Ok(s) => Ok(RpcError::ServerError(s)),
            Err(e) => Err(e),
        }
    } else if b.len() != 4 {
        Err(Error::ParseError(String::from_str(
            "Buffer does not decode as a value of the expected type",
        )))
    } else if tag == 0 {
        Ok(RpcError::ParseError)
    } else if tag == 1 {
        Ok(RpcError::InvalidRequest)
    } else if tag == 2 {
        Ok(RpcError::MethodNotFound)
    } else if tag == 3 {
        Ok(RpcError::InvalidParams)
    } else if tag == 4 {
        Ok(RpcError::InternalError)
    } else {
        Err(Error::ParseError(String::from_str(
            "Buffer does not decode as a value of the expected type",
        )))
    }
}

/// The token a cancellation request carries as its `service_method`.
pub open spec fn spec_cancellation_token() -> Seq<char> {
    "!CANCEL"@
}

/// Returns the cancellation token, `"!CANCEL"`.
pub fn cancellation_token() -> (r: &'static str)
    ensures
        r@ == spec_cancellation_token(),
{
    "!CANCEL"
}

/// The character standing for decimal digit `d`.
pub open spec fn spec_digit_char(d: nat) -> char
    recommends
        d < 10,
{
    if d == 0 {
        '0'
    } else if d == 1 {
        '1'
    } else if d == 2 {
        '2'
    } else if d == 3 {
        '3'
    } else if d == 4 {
        '4'
    } else if d == 5 {
        '5'
    } else if d == 6 {
        '6'
    } else if d == 7 {
        '7'
    } else if d == 8 {
        '8'
    } else {
        '9'
    }
}

/// The decimal digit a character stands for, if any.
pub open spec fn spec_char_digit(c: char) -> Option<nat> {
    if c == '0' {
        Some(0 as nat)
    } else if c == '1' {
        Some(1 as nat)
    } else if c == '2' {
        Some(2 as nat)
    } else if c == '3' {
        Some(3 as nat)
    } else if c == '4' {
        Some(4 as nat)
    } else if c == '5' {
        Some(5 as nat)
    } else if c == '6' {
        Some(6 as nat)
    } else if c == '7' {
        Some(7 as nat)
    } else if c == '8' {
        Some(8 as nat)
    } else if c == '9' {
        Some(9 as nat)
    } else {
        None
    }
}

/// The canonical decimal representation of `n`, most significant digit
/// first, without leading zeros.
pub open spec fn spec_decimal_chars(n: nat) -> Seq<char>
    decreases n,
{
    if n < 10 {
        seq![spec_digit_char(n)]
    } else {
        spec_decimal_chars(n / 10).push(spec_digit_char(n % 10))
    }
}

/// The value of a run of decimal digit characters; `None` if empty or if a
/// character is not a digit.
pub open spec fn spec_digits_value(s: Seq<char>) -> Option<nat>
    decreases s.len(),
{
    if s.len() == 0 {
        None
    } else if s.len() == 1 {
        spec_char_digit(s[0])
    } else {
        match (spec_digits_value(s.drop_last()), spec_char_digit(s.last())) {
            (Some(v), Some(d)) => Some(v * 10 + d),
            _ => None,
        }
    }
}

/// A failed or small digit-run prefix bounds the whole run: if the prefix
/// has no value, neither has the run, and a prefix value never exceeds the
/// run's value.
pub proof fn lemma_digits_value_prefix(s: Seq<char>, i: int)
    requires
        1 <= i <= s.len(),
    ensures
        spec_digits_value(s.subrange(0, i)) is None ==> spec_digits_value(s) is None,
        (spec_digits_value(s.subrange(0, i)) is Some && spec_digits_value(s) is Some)
            ==> spec_digits_value(s.subrange(0, i)).unwrap() <= spec_digits_value(s).unwrap(),
    decreases s.len() - i,
{
    if i == s.len() {
        assert(s.subrange(0, i) =~= s);
    } else {
        lemma_digits_value_prefix(s.drop_last(), i);
        assert(s.subrange(0, i) =~= s.drop_last().subrange(0, i));
        match (spec_digits_value(s.drop_last()), spec_char_digit(s.last())) {
            (Some(v), Some(d)) => {
                assert(v <= v * 10 + d) by (nonlinear_arith);
            },
            _ => {},
        }
    }
}

/// Reading the canonical decimal representation back gives the value.
pub proof fn lemma_decimal_chars_value(n: nat)
    ensures
        spec_digits_value(spec_decimal_chars(n)) == Some(n),
    decreases n,
{
    if n < 10 {
    } else {
        lemma_decimal_chars_value(n / 10);
        let s = spec_decimal_chars(n);
        assert(s.drop_last() =~= spec_decimal_chars(n / 10));
        assert(s.last() == spec_digit_char(n % 10));
        assert(spec_char_digit(spec_digit_char(n % 10)) == Some(n % 10));
        assert((n / 10) * 10 + n % 10 == n) by (nonlinear_arith);
    }
}

/// The canonical decimal representation is made of ASCII characters.
pub proof fn lemma_decimal_chars_ascii(n: nat)
    ensures
        is_ascii_chars(spec_decimal_chars(n)),
        1 <= spec_decimal_chars(n).len() <= n + 1,
    decreases n,
{
    if n < 10 {
    } else {
        lemma_decimal_chars_ascii(n / 10);
        let s = spec_decimal_chars(n);
        assert forall|i| 0 <= i < s.len() implies '\0' <= #[trigger] s[i] <= '\u{7f}' by {
            if i < s.len() - 1 {
                assert(s[i] == spec_decimal_chars(n / 10)[i]);
            }
        }
    }
}

fn digit_str(d: u16) -> (r: &'static str)
    requires
        d < 10,
    ensures
        r@ =~= seq![spec_digit_char(d as nat)],
{
    if d == 0 {
        let s = "0";
        proof {
            reveal_strlit("0");
        }
        s
    } else if d == 1 {
        let s = "1";
        proof {
            reveal_strlit("1");
        }
        s
    } else if d == 2 {
        let s = "2";
        proof {
            reveal_strlit("2");
        }
        s
    } else if d == 3 {
        let s = "3";
        proof {
            reveal_strlit("3");
        }
        s
    } else if d == 4 {
        let s = "4";
        proof {
            reveal_strlit("4");
        }
        s
    } else if d == 5 {
        let s = "5";
        proof {
            reveal_strlit("5");
        }
        s
    } else if d == 6 {
        let s = "6";
        proof {
            reveal_strlit("6");
        }
        s
    } else if d == 7 {
        let s = "7";
        proof {
            reveal_strlit("7");
        }
        s
    } else if d == 8 {
        let s = "8";
        proof {
            reveal_strlit("8");
        }
        s
    } else {
        let s = "9";
        proof {
            reveal_strlit("9");
        }
        s
    }
}

/// Writes `n` in decimal, most significant digit first, no leading zeros.
pub fn u16_to_decimal(n: u16) -> (s: String)
    ensures
        s@ == spec_decimal_chars(n as nat),
    decreases n,
{
    if n < 10 {
        String::from_str(digit_str(n))
    } else {
        let mut s = u16_to_decimal(n / 10);
        s.append(digit_str(n % 10));
        proof {
            assert(s@ =~= spec_decimal_chars((n / 10) as nat).push(
                spec_digit_char((n % 10) as nat),
            ));
        }
        s
    }
}

/// The full text of a cancellation body for `id`: the token, the delimiter,
/// and the decimal id.
pub open spec fn spec_cancel_string(id: MessageId) -> Seq<char> {
    spec_cancellation_token() + "."@ + spec_decimal_chars(id as nat)
}

/// The marshalled body of a cancellation request for `id`.
pub open spec fn spec_cancel_body_bytes(id: MessageId) -> Seq<u8> {
    spec_marshal_string(spec_cancel_string(id))
}

/// Builds the text `"!CANCEL.<id>"`.
pub fn cancel_string(id: MessageId) -> (s: String)
    ensures
        s@ == spec_cancel_string(id),
{
    let mut s = String::from_str(cancellation_token());
    s.append(".");
    let digits = u16_to_decimal(id);
    s.append(digits.as_str());
    s
}

/// Builds the marshalled cancellation body for `id`.
pub fn make_cancel_body(id: MessageId) -> (r: Vec<u8>)
    ensures
        r@ == spec_cancel_body_bytes(id),
{
    let s = cancel_string(id);
    marshal_string(s.as_str())
}

/// Builds the whole cancellation request: a header naming the token and the
/// body `"!CANCEL.<id>"`.
pub fn make_cancel_request(id: MessageId) -> (r: (RequestHeader, Vec<u8>))
    ensures
        r.0@.id == id,
        r.0@.service_method == spec_cancellation_token(),
        r.1@ == spec_cancel_body_bytes(id),
{
    let header = RequestHeader { id, service_method: String::from_str(cancellation_token()) };
    (header, make_cancel_body(id))
}

/// The id a cancellation body stands for: the text must start with the token
/// and the delimiter, and the rest must be decimal digits whose value fits a
/// `MessageId`.
pub open spec fn spec_parse_cancel_chars(s: Seq<char>) -> Option<MessageId> {
    if s.len() > 8 && s.subrange(0, 8) == spec_cancellation_token() + "."@ {
        match spec_digits_value(s.skip(8)) {
            Some(v) => if v <= u16::MAX {
                Some(v as u16)
            } else {
                None
            },
            None => None,
        }
    } else {
        None
    }
}

/// The id a marshalled cancellation body decodes to.
pub open spec fn spec_parse_cancel_body(b: Seq<u8>) -> Option<MessageId> {
    match spec_unmarshal_string(b) {
        Some(s) => spec_parse_cancel_chars(s),
        None => None,
    }
}

/// Reads the id out of a cancellation body; fails on anything that
/// `make_cancel_body` cannot have produced for some id, except that leading
/// zeros in the decimal id are tolerated.
pub fn parse_cancel_body(b: &[u8]) -> (r: Result<MessageId, Error>)
    ensures
        spec_parse_cancel_body(b@) matches Some(id) ==> r == Ok::<MessageId, Error>(id),
        spec_parse_cancel_body(b@) is None ==> (r matches Err(e) && e@ matches ErrorV::ParseError(
            _,
        )),
{
    let s = match unmarshal_string(b) {
        Ok(s) => s,
        Err(e) => { return Err(e); },
    };
    let text = s.as_str();
    let n = text.unicode_len();
    let prefix = "!CANCEL.";
    proof {
        reveal_strlit("!CANCEL.");
        reveal_strlit("!CANCEL");
        reveal_strlit(".");
        assert(prefix@ =~= spec_cancellation_token() + "."@);
    }
    if n <= 8 {
        return Err(Error::ParseError(String::from_str("Malformed cancellation body")));
    }
    let mut i: usize = 0;
    while i < 8
        invariant
            0 <= i <= 8,
            n == text@.len(),
            n > 8,
            prefix@ == spec_cancellation_token() + "."@,
            prefix@.len() == 8,
            spec_unmarshal_string(b@) == Some(text@),
            forall|j: int| 0 <= j < i ==> text@[j] == prefix@[j],
        decreases 8 - i,
    {
        if text.get_char(i) != prefix.get_char(i) {
            proof {
                if text@.subrange(0, 8) == spec_cancellation_token() + "."@ {
                    assert(text@.subrange(0, 8)[i as int] == text@[i as int]);
                }
            }
            return Err(Error::ParseError(String::from_str("Malformed cancellation body")));
        }
        i = i + 1;
    }
    proof {
        assert(text@.subrange(0, 8) =~= prefix@);
    }
    let ghost digits = text@.skip(8);
    let mut value: u32 = 0;
    let mut k: usize = 8;
    while k < n
        invariant
            8 <= k <= n,
            n == text@.len(),
            n > 8,
            digits == text@.skip(8),
            text@.subrange(0, 8) == spec_cancellation_token() + "."@,
            spec_unmarshal_string(b@) == Some(text@),
            value <= u16::MAX,
            k > 8 ==> spec_digits_value(digits.subrange(0, k - 8)) == Some(value as nat),
            k == 8 ==> value == 0,
        decreases n - k,
    {
        let c = text.get_char(k);
        let d: u32 = if c == '0' {
            0
        } else if c == '1' {
            1
        } else if c == '2' {
            2
        } else if c == '3' {
            3
        } else if c == '4' {
            4
        } else if c == '5' {
            5
        } else if c == '6' {
            6
        } else if c == '7' {
            7
        } else if c == '8' {
            8
        } else if c == '9' {
            9
        } else {
            proof {
                let cur = digits.subrange(0, k - 8 + 1);
                assert(cur.last() == digits[k - 8]);
                assert(spec_char_digit(digits[k - 8]) is None);
                assert(spec_digits_value(cur) is None);
                lemma_digits_value_prefix(digits, k - 8 + 1);
            }
            return Err(Error::ParseError(String::from_str("Malformed cancellation body")));
        };
        proof {
            assert(spec_char_digit(digits[k - 8]) == Some(d as nat));
        }
        let next = value * 10 + d;
        proof {
            let pre = digits.subrange(0, k - 8);
            let cur = digits.subrange(0, k - 8 + 1);
            assert(cur.drop_last() =~= pre);
            assert(cur.last() == digits[k - 8]);
            if k == 8 {
                assert(cur.len() == 1);
            }
            assert(spec_digits_value(cur) == Some((value * 10 + d) as nat));
        }
        if next > u16::MAX as u32 {
            proof {
                lemma_digits_value_prefix(digits, k - 8 + 1);
            }
            return Err(Error::ParseError(String::from_str("Malformed cancellation body")));
        }
        value = next;
        k = k + 1;
    }
    proof {
        assert(digits.subrange(0, n - 8 as int) =~= digits);
    }
    Ok(value as u16)
}

/// A cancellation body built for an id parses back to exactly that id.
pub proof fn lemma_cancel_round_trip(id: MessageId)
    ensures
        spec_parse_cancel_body(spec_cancel_body_bytes(id)) == Some(id),
{
    let s = spec_cancel_string(id);
    lemma_decimal_chars_ascii(id as nat);
    reveal_strlit("!CANCEL");
    reveal_strlit(".");
    assert(is_ascii_chars(spec_cancellation_token() + "."@)) by {
        let p = spec_cancellation_token() + "."@;
        assert forall|i| 0 <= i < p.len() implies '\0' <= #[trigger] p[i] <= '\u{7f}' by {}
    }
    vstd::utf8::is_ascii_chars_concat(
        s,
        spec_cancellation_token() + "."@,
        spec_decimal_chars(id as nat),
    );
    vstd::utf8::is_ascii_chars_encode_utf8(s);
    lemma_string_round_trip(s);
    assert(s.subrange(0, 8) =~= spec_cancellation_token() + "."@);
    assert(s.skip(8) =~= spec_decimal_chars(id as nat));
    lemma_decimal_chars_value(id as nat);
}

/// Decoding inverts encoding for `RpcError`.
pub proof fn lemma_rpc_error_round_trip(e: RpcErrorV)
    requires
        e matches RpcErrorV::ServerError(s) ==> encode_utf8(s).len() <= u64::MAX,
    ensures
        spec_unmarshal_rpc_error(spec_marshal_rpc_error(e)) == Some(e),
{
    lemma_auto_spec_u32_to_from_le_bytes();
    let b = spec_marshal_rpc_error(e);
    match e {
        RpcErrorV::ServerError(s) => {
            assert(b.subrange(0, 4) =~= spec_u32_to_le_bytes(5));
            assert(b.skip(4) =~= spec_marshal_string(s));
            lemma_string_round_trip(s);
        },
        _ => {
            assert(b.subrange(0, 4) =~= b);
        },
    }
}

} // verus!
