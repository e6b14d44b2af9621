//! Core of a method-oriented RPC engine: a length-delimited frame layer,
//! a fixed-width binary codec for headers and bodies, a service registry
//! with a dispatching server loop, and a client-side call multiplexer with
//! cancellation. Everything here is verified; asynchronous transports wrap
//! these building blocks from outside.

pub mod error;
pub mod frame;
pub mod marshal;
pub mod message;
pub mod codec;
pub mod server;
pub mod client;
pub mod ws;

pub use error::Error;
pub use error::RpcError;
