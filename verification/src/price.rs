//! The price resolver: consult the cache, and on a miss extract the price
//! from the pricing provider's payload and refresh the cache.
//!
//! The provider's payload is an object keyed by asset id, each value an
//! object keyed by fiat code, each value a number.  The caller performs the
//! network round trip and hands the decoded payload to
//! [`accept_price_response`]; [`PriceCache::lookup`] says when that round
//! trip is needed at all.

use vstd::prelude::*;

use crate::cache::PriceCache;
use crate::errors::CryptoError;
use crate::json::{spec_get, JsonValue};

verus! {

/// The price `resp` holds for the pair: the number under
/// `resp[crypto][fiat]` as a fixed-point amount.  `None` when either key is
/// missing, the value is no number, or the number is negative, non-finite
/// or out of the representable range.
pub open spec fn spec_price_from_response(
    resp: JsonValue,
    crypto: Seq<char>,
    fiat: Seq<char>,
) -> Option<u64> {
    match spec_get(resp, crypto) {
        Some(per_asset) => match spec_get(per_asset, fiat) {
            Some(v) => match v.spec_as_number() {
                Some(n) => n.spec_as_amount(),
                None => None,
            },
            None => None,
        },
        None => None,
    }
}

/// Extract the price of `crypto` in `fiat` from a pricing-provider payload.
/// A payload that holds no usable number is returned inside the error.
pub fn price_from_response(resp: JsonValue, crypto: &str, fiat: &str) -> (r: Result<
    u64,
    CryptoError,
>)
    ensures
        match spec_price_from_response(resp, crypto@, fiat@) {
            Some(p) => r == Ok::<u64, CryptoError>(p),
            None => r == Err::<u64, CryptoError>(CryptoError::ApiError(resp)),
        },
{
    let price = match resp.get(crypto) {
        Some(per_asset) => match per_asset.get(fiat) {
            Some(v) => match v.as_number() {
                Some(n) => n.as_amount(),
                None => None,
            },
            None => None,
        },
        None => None,
    };
    match price {
        Some(p) => Ok(p),
        None => Err(CryptoError::ApiError(resp)),
    }
}

/// Accept the pricing provider's response for (crypto, fiat) fetched at
/// second `now`: extract the price, record it in the cache, and return it.
/// On an unusable payload the cache is left as it was and the payload comes
/// back inside the error.
pub fn accept_price_response(
    cache: &mut PriceCache,
    crypto: &str,
    fiat: &str,
    now: u64,
    resp: JsonValue,
) -> (r: Result<u64, CryptoError>)
    ensures
        final(cache).ttl() == old(cache).ttl(),
        match spec_price_from_response(resp, crypto@, fiat@) {
            Some(p) => r == Ok::<u64, CryptoError>(p) && final(cache).contents()
                == old(cache).contents().insert((crypto@, fiat@), (p, now)),
            None => r == Err::<u64, CryptoError>(CryptoError::ApiError(resp))
                && final(cache).contents() == old(cache).contents(),
        },
{
    match price_from_response(resp, crypto, fiat) {
        Ok(price) => {
            cache.store(crypto, fiat, price, now);
            Ok(price)
        },
        Err(e) => Err(e),
    }
}

} // verus!
