//! Error taxonomy of the engine.
//!
//! `RpcError` is the wire-visible enum a server sends back inside an error
//! response; `Error` is the full local taxonomy a caller observes.

use vstd::prelude::*;
use vstd::string::StringExecFns;

verus! {

/// Semantic error surfaced by the remote peer; serialized with the same
/// codec as payloads.
#[derive(Debug, Clone, PartialEq, Eq)]
pub enum RpcError {
    ParseError,
    InvalidRequest,
    MethodNotFound,
    InvalidParams,
    InternalError,
    ServerError(String),
}

/// Mathematical model of an `RpcError`.
pub enum RpcErrorV {
    ParseError,
    InvalidRequest,
    MethodNotFound,
    InvalidParams,
    InternalError,
    ServerError(Seq<char>),
}

impl View for RpcError {
    type V = RpcErrorV;

    open spec fn view(&self) -> RpcErrorV {
        match self {
            RpcError::ParseError => RpcErrorV::ParseError,
            RpcError::InvalidRequest => RpcErrorV::InvalidRequest,
            RpcError::MethodNotFound => RpcErrorV::MethodNotFound,
            RpcError::InvalidParams => RpcErrorV::InvalidParams,
            RpcError::InternalError => RpcErrorV::InternalError,
            RpcError::ServerError(s) => RpcErrorV::ServerError(s@),
        }
    }
}

/// The human-readable description of an `RpcError`.
pub open spec fn spec_rpc_error_message(e: RpcErrorV) -> Seq<char> {
    match e {
        RpcErrorV::ParseError => "Parse error"@,
        RpcErrorV::InvalidRequest => "Invalid request"@,
        RpcErrorV::MethodNotFound => "Method not found"@,
        RpcErrorV::InvalidParams => "Invalid parameters"@,
        RpcErrorV::InternalError => "Internal error"@,
        RpcErrorV::ServerError(s) => "Server error "@ + s,
    }
}

impl RpcError {
    /// Human-readable description, used where the original taxonomy was
    /// printed.
    pub fn to_message(&self) -> (r: String)
        ensures
            r@ == spec_rpc_error_message(self@),
    {
        match self {
            RpcError::ParseError => String::from_str("Parse error"),
            RpcError::InvalidRequest => String::from_str("Invalid request"),
            RpcError::MethodNotFound => String::from_str("Method not found"),
            RpcError::InvalidParams => String::from_str("Invalid parameters"),
            RpcError::InternalError => String::from_str("Internal error"),
            RpcError::ServerError(s) => String::from_str("Server error ").concat(s.as_str()),
        }
    }
}

/// Local error taxonomy.
///
/// Per-call errors carry an `RpcError`; connection-level failures carry a
/// descriptive message.
#[derive(Debug, Clone, PartialEq, Eq)]
pub enum Error {
    /// Underlying transport failure.
    IoError(String),
    /// (De)serialization failed.
    ParseError(String),
    /// Framing, magic, or length violation.
    TransportError(String),
    /// An expected item was absent.
    NoneError,
    /// Semantic error surfaced by the remote peer.
    RpcError(RpcError),
    /// The call was cancelled locally.
    Canceled,
    /// Engine invariant violation.
    Internal(String),
}

/// Mathematical model of an `Error`.
pub enum ErrorV {
    IoError(Seq<char>),
    ParseError(Seq<char>),
    TransportError(Seq<char>),
    NoneError,
    RpcError(RpcErrorV),
    Canceled,
    Internal(Seq<char>),
}

impl View for Error {
    type V = ErrorV;

    open spec fn view(&self) -> ErrorV {
        match self {
            Error::IoError(m) => ErrorV::IoError(m@),
            Error::ParseError(m) => ErrorV::ParseError(m@),
            Error::TransportError(m) => ErrorV::TransportError(m@),
            Error::NoneError => ErrorV::NoneError,
            Error::RpcError(e) => ErrorV::RpcError(e@),
            Error::Canceled => ErrorV::Canceled,
            Error::Internal(m) => ErrorV::Internal(m@),
        }
    }
}

/// The human-readable description of an `Error`.
pub open spec fn spec_error_message(e: ErrorV) -> Seq<char> {
    match e {
        ErrorV::IoError(m) => m,
        ErrorV::ParseError(m) => m,
        ErrorV::TransportError(m) => m,
        ErrorV::NoneError => "None error"@,
        ErrorV::RpcError(r) => spec_rpc_error_message(r),
        ErrorV::Canceled => "Canceled"@,
        ErrorV::Internal(m) => m,
    }
}

impl Error {
    /// Human-readable description, used where the original taxonomy was
    /// printed.
    pub fn to_message(&self) -> (r: String)
        ensures
            r@ == spec_error_message(self@),
    {
        match self {
            Error::IoError(m) => m.clone(),
            Error::ParseError(m) => m.clone(),
            Error::TransportError(m) => m.clone(),
            Error::NoneError => String::from_str("None error"),
            Error::RpcError(e) => e.to_message(),
            Error::Canceled => String::from_str("Canceled"),
            Error::Internal(m) => m.clone(),
        }
    }
}

} // verus!
