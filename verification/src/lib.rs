//! Resolution engine for cryptocurrency prices and wallet-address balances.
//!
//! The engine is pure logic: it parses wallet manifests, keeps a time-bounded
//! price cache, extracts prices and balances from provider payloads that have
//! already been decoded into [`json::JsonValue`] trees, and aggregates
//! per-entry fiat valuations.  Network transport, clocks and rendering live
//! with the caller, which hands the engine plain values.
//!
//! All monetary amounts are fixed-point integers scaled by [`AMOUNT_SCALE`]
//! (eight decimal places).  For assets whose subunit ratio is
//! [`AMOUNT_SCALE`] — Bitcoin and its satoshi — a balance expressed as a
//! count of subunits is exactly the fixed-point balance in natural units.

use vstd::prelude::*;

pub mod balance;
pub mod cache;
pub mod errors;
pub mod json;
pub mod price;
pub mod report;
pub mod text;
pub mod wallet;

verus! {

/// Fixed-point scale of every amount: a stored value `v` denotes `v / 10^8`
/// natural units.  Also the number of subunits per natural unit of the
/// supported assets (satoshis per bitcoin).
pub const AMOUNT_SCALE: u64 = 100_000_000;

} // verus!
