use coinwagon::cache::{PriceCache, CACHE_TTL_SECS};
use coinwagon::errors::CryptoError;
use coinwagon::json::{JsonNumber, JsonValue};
use coinwagon::price::{accept_price_response, price_from_response};
use coinwagon::AMOUNT_SCALE;

fn price_response(crypto: &str, fiat: &str, number: JsonNumber) -> JsonValue {
    JsonValue::Object(vec![(
        crypto.to_string(),
        JsonValue::Object(vec![(fiat.to_string(), JsonValue::Number(number))]),
    )])
}

#[test]
fn fresh_entry_is_served_before_ttl() {
    let mut cache = PriceCache::with_default_ttl();
    cache.store("bitcoin", "usd", 42 * AMOUNT_SCALE, 1_000);
    assert_eq!(
        cache.lookup("bitcoin", "usd", 1_000),
        Ok(Some((42 * AMOUNT_SCALE, 0)))
    );
    assert_eq!(
        cache.lookup("bitcoin", "usd", 1_000 + CACHE_TTL_SECS - 1),
        Ok(Some((42 * AMOUNT_SCALE, CACHE_TTL_SECS - 1)))
    );
}

#[test]
fn entry_at_ttl_age_is_treated_as_absent() {
    let mut cache = PriceCache::with_default_ttl();
    cache.store("bitcoin", "usd", 42 * AMOUNT_SCALE, 1_000);
    assert_eq!(cache.lookup("bitcoin", "usd", 1_000 + CACHE_TTL_SECS), Ok(None));
    assert_eq!(
        cache.lookup("bitcoin", "usd", 1_000 + 10 * CACHE_TTL_SECS),
        Ok(None)
    );
}

#[test]
fn the_default_ttl_is_five_minutes() {
    assert_eq!(CACHE_TTL_SECS, 300);
}

#[test]
fn a_custom_ttl_bounds_the_cache_window() {
    let mut cache = PriceCache::new(10);
    cache.store("bitcoin", "usd", 1, 100);
    assert_eq!(cache.lookup("bitcoin", "usd", 109), Ok(Some((1, 9))));
    assert_eq!(cache.lookup("bitcoin", "usd", 110), Ok(None));
}

#[test]
fn distinct_pairs_are_distinct_keys() {
    let mut cache = PriceCache::with_default_ttl();
    cache.store("bitcoin", "usd", 1, 0);
    cache.store("bitcoin", "eur", 2, 0);
    cache.store("a_b", "c", 3, 0);
    cache.store("a", "b_c", 4, 0);
    assert_eq!(cache.lookup("bitcoin", "usd", 0), Ok(Some((1, 0))));
    assert_eq!(cache.lookup("bitcoin", "eur", 0), Ok(Some((2, 0))));
    assert_eq!(cache.lookup("a_b", "c", 0), Ok(Some((3, 0))));
    assert_eq!(cache.lookup("a", "b_c", 0), Ok(Some((4, 0))));
}

#[test]
fn a_refresh_overwrites_the_entry_in_place() {
    let mut cache = PriceCache::with_default_ttl();
    cache.store("bitcoin", "usd", 5, 0);
    cache.store("bitcoin", "usd", 8, 50);
    assert_eq!(cache.lookup("bitcoin", "usd", 50), Ok(Some((8, 0))));
}

#[test]
fn missing_key_is_a_miss() {
    let cache = PriceCache::with_default_ttl();
    assert_eq!(cache.lookup("bitcoin", "usd", 5), Ok(None));
}

#[test]
fn clock_moving_backward_is_an_error() {
    let mut cache = PriceCache::with_default_ttl();
    cache.store("bitcoin", "usd", AMOUNT_SCALE, 2_000);
    assert_eq!(
        cache.lookup("bitcoin", "usd", 1_999),
        Err(CryptoError::SystemTimeError)
    );
}

#[test]
fn repeated_lookups_within_ttl_are_idempotent_and_need_no_fetch() {
    let mut cache = PriceCache::with_default_ttl();
    let mut provider_calls = 0u32;
    let mut resolve = |cache: &mut PriceCache, now: u64| -> u64 {
        match cache.lookup("bitcoin", "usd", now).unwrap() {
            Some((price, _age)) => price,
            None => {
                provider_calls += 1;
                let resp = price_response("bitcoin", "usd", JsonNumber::Int(7));
                accept_price_response(cache, "bitcoin", "usd", now, resp).unwrap()
            }
        }
    };
    let first = resolve(&mut cache, 100);
    let second = resolve(&mut cache, 150);
    let third = resolve(&mut cache, 100 + CACHE_TTL_SECS - 1);
    assert_eq!(first, 7 * AMOUNT_SCALE);
    assert_eq!(first, second);
    assert_eq!(first, third);
    assert_eq!(provider_calls, 1);
}

#[test]
fn stale_entry_triggers_refresh_that_overwrites_it() {
    let mut cache = PriceCache::with_default_ttl();
    cache.store("bitcoin", "usd", 5 * AMOUNT_SCALE, 0);
    let now = CACHE_TTL_SECS;
    assert_eq!(cache.lookup("bitcoin", "usd", now), Ok(None));
    let resp = price_response("bitcoin", "usd", JsonNumber::Int(9));
    assert_eq!(
        accept_price_response(&mut cache, "bitcoin", "usd", now, resp),
        Ok(9 * AMOUNT_SCALE)
    );
    assert_eq!(
        cache.lookup("bitcoin", "usd", now),
        Ok(Some((9 * AMOUNT_SCALE, 0)))
    );
}

#[test]
fn price_extraction_reads_nested_mapping() {
    let resp = price_response("bitcoin", "usd", JsonNumber::Fixed(12_345_678_900));
    assert_eq!(
        price_from_response(resp, "bitcoin", "usd"),
        Ok(12_345_678_900)
    );
}

#[test]
fn integer_price_is_scaled_to_fixed_point() {
    let resp = price_response("bitcoin", "eur", JsonNumber::Int(10));
    assert_eq!(price_from_response(resp, "bitcoin", "eur"), Ok(10 * AMOUNT_SCALE));
}

#[test]
fn unusable_price_payload_comes_back_inside_the_error() {
    let resp = price_response("bitcoin", "usd", JsonNumber::Invalid);
    let expected = price_response("bitcoin", "usd", JsonNumber::Invalid);
    assert_eq!(
        price_from_response(resp, "bitcoin", "usd"),
        Err(CryptoError::ApiError(expected))
    );

    let missing_fiat = price_response("bitcoin", "usd", JsonNumber::Int(3));
    let expected = price_response("bitcoin", "usd", JsonNumber::Int(3));
    assert_eq!(
        price_from_response(missing_fiat, "bitcoin", "eur"),
        Err(CryptoError::ApiError(expected))
    );

    let not_an_object = JsonValue::Text("oops".to_string());
    assert_eq!(
        price_from_response(not_an_object, "bitcoin", "usd"),
        Err(CryptoError::ApiError(JsonValue::Text("oops".to_string())))
    );
}

#[test]
fn failed_price_extraction_leaves_the_cache_unchanged() {
    let mut cache = PriceCache::with_default_ttl();
    let resp = price_response("bitcoin", "usd", JsonNumber::Invalid);
    assert!(accept_price_response(&mut cache, "bitcoin", "usd", 10, resp).is_err());
    assert_eq!(cache.lookup("bitcoin", "usd", 10), Ok(None));
}

#[test]
fn oversized_integer_price_is_rejected() {
    let resp = price_response("bitcoin", "usd", JsonNumber::Int(u64::MAX));
    assert!(matches!(
        price_from_response(resp, "bitcoin", "usd"),
        Err(CryptoError::ApiError(_))
    ));
}
