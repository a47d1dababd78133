use coinwagon::balance::{
    balance_from_fallback, balance_from_primary, balance_step, is_bitcoin, BalanceAction,
    BalanceEvent, BalanceState,
};
use coinwagon::errors::CryptoError;
use coinwagon::json::{JsonNumber, JsonValue};

const ADDR: &str = "1BoatSLRHtKNngkdXEeobR76b53LETtpyT";

fn obj(members: Vec<(&str, JsonValue)>) -> JsonValue {
    JsonValue::Object(
        members
            .into_iter()
            .map(|(k, v)| (k.to_string(), v))
            .collect(),
    )
}

fn num(n: JsonNumber) -> JsonValue {
    JsonValue::Number(n)
}

/// Path (a): `data[address].address.balance`.
fn path_a_response(balance: JsonValue) -> JsonValue {
    obj(vec![(
        "data",
        obj(vec![(ADDR, obj(vec![("address", obj(vec![("balance", balance)]))]))]),
    )])
}

/// Path (b): `data[address].balance`.
fn path_b_response(balance: JsonValue) -> JsonValue {
    obj(vec![("data", obj(vec![(ADDR, obj(vec![("balance", balance)]))]))])
}

/// Path (c): `balance` at the root.
fn path_c_response(balance: JsonValue) -> JsonValue {
    obj(vec![("balance", balance)])
}

#[test]
fn bitcoin_is_the_primary_fast_path() {
    assert!(is_bitcoin("bitcoin"));
    assert!(!is_bitcoin("Bitcoin"));
    assert!(!is_bitcoin("litecoin"));
    assert!(!is_bitcoin(""));
}

#[test]
fn primary_payload_needs_an_integer_balance() {
    let good = obj(vec![("balance", num(JsonNumber::Int(150_000_000)))]);
    assert_eq!(balance_from_primary(&good), Some(150_000_000));

    let fractional = obj(vec![("balance", num(JsonNumber::Fixed(150_000_000)))]);
    assert_eq!(balance_from_primary(&fractional), None);

    let missing = obj(vec![("final_balance", num(JsonNumber::Int(1)))]);
    assert_eq!(balance_from_primary(&missing), None);

    assert_eq!(balance_from_primary(&JsonValue::Null), None);
}

#[test]
fn fallback_extracts_path_a() {
    let resp = path_a_response(num(JsonNumber::Int(150_000_000)));
    // 150_000_000 subunits are 1.5 natural units: the same number read at
    // fixed-point scale, the division by 100_000_000 being the change of
    // unit.
    assert_eq!(balance_from_fallback(resp, ADDR), Ok(150_000_000));
}

#[test]
fn fallback_extracts_path_b() {
    let resp = path_b_response(num(JsonNumber::Int(250_000_000)));
    assert_eq!(balance_from_fallback(resp, ADDR), Ok(250_000_000));
}

#[test]
fn fallback_extracts_path_c() {
    let resp = path_c_response(num(JsonNumber::Int(50_000_000)));
    assert_eq!(balance_from_fallback(resp, ADDR), Ok(50_000_000));
}

#[test]
fn earlier_paths_win_over_later_ones() {
    let resp = obj(vec![
        (
            "data",
            obj(vec![(
                ADDR,
                obj(vec![
                    ("address", obj(vec![("balance", num(JsonNumber::Int(1)))])),
                    ("balance", num(JsonNumber::Int(2))),
                ]),
            )]),
        ),
        ("balance", num(JsonNumber::Int(3))),
    ]);
    assert_eq!(balance_from_fallback(resp, ADDR), Ok(1));
}

#[test]
fn a_non_numeric_path_is_passed_over() {
    let resp = obj(vec![
        (
            "data",
            obj(vec![(
                ADDR,
                obj(vec![
                    ("address", obj(vec![("balance", JsonValue::Text("n/a".to_string()))])),
                    ("balance", num(JsonNumber::Int(2))),
                ]),
            )]),
        ),
    ]);
    assert_eq!(balance_from_fallback(resp, ADDR), Ok(2));
}

#[test]
fn schema_exhaustion_returns_the_payload_inside_the_error() {
    let resp = obj(vec![("context", obj(vec![("code", num(JsonNumber::Int(430)))]))]);
    let expected = obj(vec![("context", obj(vec![("code", num(JsonNumber::Int(430)))]))]);
    assert_eq!(
        balance_from_fallback(resp, ADDR),
        Err(CryptoError::ApiError(expected))
    );
}

#[test]
fn negative_or_non_finite_numbers_are_errors_not_zero() {
    let resp = path_c_response(num(JsonNumber::Invalid));
    let expected = path_c_response(num(JsonNumber::Invalid));
    assert_eq!(
        balance_from_fallback(resp, ADDR),
        Err(CryptoError::ApiError(expected))
    );
}

#[test]
fn fractional_subunit_counts_are_errors() {
    // 1.5 subunits cannot be a whole count of satoshis.
    let resp = path_c_response(num(JsonNumber::Fixed(150_000_000)));
    assert!(matches!(
        balance_from_fallback(resp, ADDR),
        Err(CryptoError::ApiError(_))
    ));
}

#[test]
fn whole_valued_fixed_point_subunit_counts_are_accepted() {
    // A provider may serve 2.0 as a non-integer number: still 2 subunits.
    let resp = path_c_response(num(JsonNumber::Fixed(200_000_000)));
    assert_eq!(balance_from_fallback(resp, ADDR), Ok(2));
}

#[test]
fn resolution_starts_at_the_primary_for_bitcoin_only() {
    let (state, action) = balance_step("bitcoin", ADDR, BalanceState::Start, BalanceEvent::Begin);
    assert_eq!(state, BalanceState::AwaitPrimary);
    assert_eq!(action, BalanceAction::QueryPrimary);

    let (state, action) = balance_step("dogecoin", ADDR, BalanceState::Start, BalanceEvent::Begin);
    assert_eq!(state, BalanceState::AwaitFallback);
    assert_eq!(action, BalanceAction::QueryFallback);
}

#[test]
fn primary_failure_is_swallowed_and_falls_back() {
    // Transport failure or undecodable body.
    let (state, action) = balance_step(
        "bitcoin",
        ADDR,
        BalanceState::AwaitPrimary,
        BalanceEvent::PrimaryOutcome(None),
    );
    assert_eq!(state, BalanceState::AwaitFallback);
    assert_eq!(action, BalanceAction::QueryFallback);

    // Decodable body without a usable integer balance.
    let unusable = obj(vec![("error", JsonValue::Text("rate limited".to_string()))]);
    let (state, action) = balance_step(
        "bitcoin",
        ADDR,
        BalanceState::AwaitPrimary,
        BalanceEvent::PrimaryOutcome(Some(unusable)),
    );
    assert_eq!(state, BalanceState::AwaitFallback);
    assert_eq!(action, BalanceAction::QueryFallback);
}

#[test]
fn primary_success_ends_the_resolution() {
    let good = obj(vec![("balance", num(JsonNumber::Int(99)))]);
    let (state, action) = balance_step(
        "bitcoin",
        ADDR,
        BalanceState::AwaitPrimary,
        BalanceEvent::PrimaryOutcome(Some(good)),
    );
    assert_eq!(state, BalanceState::Done(99));
    assert_eq!(action, BalanceAction::Stop);
}

#[test]
fn fallback_transport_failure_is_terminal() {
    let (state, action) = balance_step(
        "dogecoin",
        ADDR,
        BalanceState::AwaitFallback,
        BalanceEvent::FallbackTransportError("connection refused".to_string()),
    );
    assert_eq!(
        state,
        BalanceState::Failed(CryptoError::HttpError("connection refused".to_string()))
    );
    assert_eq!(action, BalanceAction::Stop);
}

#[test]
fn fallback_outcome_decides_the_resolution() {
    let resp = path_b_response(num(JsonNumber::Int(4)));
    let (state, action) = balance_step(
        "dogecoin",
        ADDR,
        BalanceState::AwaitFallback,
        BalanceEvent::FallbackOutcome(resp),
    );
    assert_eq!(state, BalanceState::Done(4));
    assert_eq!(action, BalanceAction::Stop);

    let bad = obj(vec![]);
    let (state, action) = balance_step(
        "dogecoin",
        ADDR,
        BalanceState::AwaitFallback,
        BalanceEvent::FallbackOutcome(bad),
    );
    assert_eq!(
        state,
        BalanceState::Failed(CryptoError::ApiError(obj(vec![])))
    );
    assert_eq!(action, BalanceAction::Stop);
}
