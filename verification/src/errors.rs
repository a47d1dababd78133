//! Error values of the resolution engine.

use vstd::prelude::*;

use crate::json::JsonValue;

verus! {

/// What can go wrong while resolving prices, balances or wallet reports.
///
/// Every error carries a value: the transport layer's message, the payload
/// that could not be used, or the input that was rejected.
#[derive(Debug, PartialEq, Eq)]
pub enum CryptoError {
    /// A network or transport failure reported by the caller's transport
    /// layer.  The engine never produces this on its own.
    HttpError(String),
    /// The provider was reachable but its payload held no usable value
    /// after every known extraction path was tried; carries that payload.
    ApiError(JsonValue),
    /// A malformed manifest line or other rejected input; carries it.
    InvalidInput(String),
    /// The clock moved backward relative to a cache entry's timestamp,
    /// so the entry's age is undefined.
    SystemTimeError,
    /// A computed fiat value does not fit the fixed-point range.
    ValueOverflow,
}

} // verus!
