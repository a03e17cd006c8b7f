//! Client core for a request/response protocol spoken with a local device
//! emulation server: request envelopes, address-range pagination, frame
//! reassembly and the decisions of the client's operations.
use vstd::prelude::*;

pub mod chunk;
pub mod frames;
pub mod request;
pub mod results;
pub mod session;

pub use chunk::chunked_range;
pub use request::Request;
pub use results::{Result, ResultData};

verus! {

#[verifier::external_type_specification]
#[verifier::external_body]
pub struct ExJsonError(serde_json::Error);

/// Why an operation of the client failed.
#[derive(Debug)]
pub enum Qusb2snesError {
    /// The transport could not connect, send or receive.
    SocketError { msg: String },
    /// A message could not be encoded or decoded.
    MessageError { source: serde_json::Error },
    /// The frames received do not fit the operation in flight.
    FrameError { msg: String },
}

} // verus!
