//! The ways a request can fail, and the HTTP status each one is answered with.

use vstd::prelude::*;

verus! {

/// Why a request was turned down.
#[derive(Debug, Clone, PartialEq, Eq)]
pub enum ServiceError {
    /// The token identifier is not a decimal number that fits in 256 bits.
    InvalidTokenId,
    /// The contract address is not twenty bytes of hexadecimal.
    InvalidAddress,
    /// The read-only call against the node did not succeed; the text is
    /// the transport's own account of the failure.
    RpcFailure(String),
    /// The node answered with bytes that are not valid UTF-8.
    InvalidEncoding,
}

/// Status of a request that was malformed.
pub const STATUS_BAD_REQUEST: u16 = 400;

/// Status of a request whose call against the node failed.
pub const STATUS_EXPECTATION_FAILED: u16 = 417;

/// Status of a request whose on-chain data cannot be read as text.
pub const STATUS_INTERNAL_SERVER_ERROR: u16 = 500;

impl ServiceError {
    /// The status code that reports this error, as a number.
    pub open spec fn status(self) -> u16 {
        match self {
            ServiceError::InvalidTokenId => STATUS_BAD_REQUEST,
            ServiceError::InvalidAddress => STATUS_BAD_REQUEST,
            ServiceError::RpcFailure(_) => STATUS_EXPECTATION_FAILED,
            ServiceError::InvalidEncoding => STATUS_INTERNAL_SERVER_ERROR,
        }
    }

    /// The HTTP status code with which this error is reported to the client.
    pub fn status_code(&self) -> (code: u16)
        ensures
            code == self.status(),
    {
        match self {
            ServiceError::InvalidTokenId => STATUS_BAD_REQUEST,
            ServiceError::InvalidAddress => STATUS_BAD_REQUEST,
            ServiceError::RpcFailure(_) => STATUS_EXPECTATION_FAILED,
            ServiceError::InvalidEncoding => STATUS_INTERNAL_SERVER_ERROR,
        }
    }
}

} // verus!
