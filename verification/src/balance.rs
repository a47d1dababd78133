//! The balance resolver: a fallback chain over two providers with
//! different, and inconsistent, response schemas.
//!
//! For Bitcoin a primary balance-by-address provider is tried first; any
//! failure there — transport, undecodable body, missing or non-integer
//! `balance` field — is swallowed and sends the resolver to the fallback
//! provider, which serves any asset.  The fallback provider's schema varies,
//! so the balance is extracted by trying a fixed, ordered list of paths and
//! taking the first that holds a number.  The caller performs the network
//! round trips; [`balance_step`] decides everything in between.

use vstd::prelude::*;

use crate::errors::CryptoError;
use crate::json::{spec_get, JsonNumber, JsonValue};
use crate::text::str_eq;

verus! {

/// Whether the asset is Bitcoin, the one asset the primary provider serves.
pub open spec fn spec_is_bitcoin(crypto: Seq<char>) -> bool {
    crypto == "bitcoin"@
}

/// Executable form of [`spec_is_bitcoin`].
pub fn is_bitcoin(crypto: &str) -> (r: bool)
    ensures
        r == spec_is_bitcoin(crypto@),
{
    str_eq(crypto, "bitcoin")
}

/// The balance the primary provider's payload holds: the value of the
/// `balance` member, when it is an integer count of subunits.
pub open spec fn spec_primary_balance(resp: JsonValue) -> Option<u64> {
    match spec_get(resp, "balance"@) {
        Some(v) => match v.spec_as_number() {
            Some(JsonNumber::Int(subunits)) => Some(subunits),
            _ => None,
        },
        None => None,
    }
}

/// Extract a subunit balance from the primary provider's payload.  `None`
/// stands for any unusable payload and sends the caller to the fallback
/// provider.
pub fn balance_from_primary(resp: &JsonValue) -> (r: Option<u64>)
    ensures
        r == spec_primary_balance(*resp),
{
    match resp.get("balance") {
        Some(v) => match v.as_number() {
            Some(JsonNumber::Int(subunits)) => Some(subunits),
            _ => None,
        },
        None => None,
    }
}

/// A member lookup carried through a possibly missing value.
pub open spec fn spec_opt_get(v: Option<JsonValue>, key: Seq<char>) -> Option<JsonValue> {
    match v {
        Some(x) => spec_get(x, key),
        None => None,
    }
}

/// Extraction path (a): `resp.data[address].address.balance`.
pub open spec fn spec_path_a(resp: JsonValue, address: Seq<char>) -> Option<JsonValue> {
    spec_opt_get(
        spec_opt_get(spec_opt_get(spec_get(resp, "data"@), address), "address"@),
        "balance"@,
    )
}

/// Extraction path (b): `resp.data[address].balance`.
pub open spec fn spec_path_b(resp: JsonValue, address: Seq<char>) -> Option<JsonValue> {
    spec_opt_get(spec_opt_get(spec_get(resp, "data"@), address), "balance"@)
}

/// Extraction path (c): `resp.balance`.
pub open spec fn spec_path_c(resp: JsonValue) -> Option<JsonValue> {
    spec_get(resp, "balance"@)
}

/// The number a value holds, when it exists and is a number.
pub open spec fn spec_num_at(v: Option<JsonValue>) -> Option<JsonNumber> {
    match v {
        Some(JsonValue::Number(n)) => Some(n),
        _ => None,
    }
}

/// The first extraction path of (a), (b), (c) that exists and holds a
/// number wins.
pub open spec fn spec_fallback_number(resp: JsonValue, address: Seq<char>) -> Option<
    JsonNumber,
> {
    if spec_num_at(spec_path_a(resp, address)) is Some {
        spec_num_at(spec_path_a(resp, address))
    } else if spec_num_at(spec_path_b(resp, address)) is Some {
        spec_num_at(spec_path_b(resp, address))
    } else {
        spec_num_at(spec_path_c(resp))
    }
}

/// The subunit balance the fallback provider's payload yields: the winning
/// path's number as a whole count of subunits.  `None` when no path holds a
/// number, or the number is negative, non-finite or no whole count.
pub open spec fn spec_fallback_balance(resp: JsonValue, address: Seq<char>) -> Option<u64> {
    match spec_fallback_number(resp, address) {
        Some(n) => n.spec_as_subunits(),
        None => None,
    }
}

/// Extract a subunit balance from the fallback provider's payload, trying
/// paths (a), (b), (c) in order.  A payload that yields no usable balance
/// is returned, whole, inside the error.
pub fn balance_from_fallback(resp: JsonValue, address: &str) -> (r: Result<u64, CryptoError>)
    ensures
        match spec_fallback_balance(resp, address@) {
            Some(subunits) => r == Ok::<u64, CryptoError>(subunits),
            None => r == Err::<u64, CryptoError>(CryptoError::ApiError(resp)),
        },
{
    let number = fallback_number(&resp, address);
    let balance = match number {
        Some(n) => n.as_subunits(),
        None => None,
    };
    match balance {
        Some(subunits) => Ok(subunits),
        None => Err(CryptoError::ApiError(resp)),
    }
}

/// Where a balance resolution stands.
#[derive(Debug, PartialEq, Eq)]
pub enum BalanceState {
    /// Nothing asked yet.
    Start,
    /// The primary provider's answer is pending.
    AwaitPrimary,
    /// The fallback provider's answer is pending.
    AwaitFallback,
    /// Terminal success: the balance, in subunits.
    Done(u64),
    /// Terminal failure: there is no further fallback.
    Failed(CryptoError),
}

/// What the caller reports to the resolver.
#[derive(Debug, PartialEq, Eq)]
pub enum BalanceEvent {
    /// Start resolving.
    Begin,
    /// The primary provider answered: its decoded payload, or `None` for a
    /// transport failure or an undecodable body.
    PrimaryOutcome(Option<JsonValue>),
    /// The fallback provider could not be reached; carries the transport
    /// layer's message.
    FallbackTransportError(String),
    /// The fallback provider answered with this decoded payload.
    FallbackOutcome(JsonValue),
}

/// What the caller must do next.
#[derive(Debug, PartialEq, Eq, Structural)]
pub enum BalanceAction {
    /// Ask the primary provider for the address's balance.
    QueryPrimary,
    /// Ask the fallback provider for the address's balance.
    QueryFallback,
    /// The state is terminal; report it.
    Stop,
}

/// Which events a state can take.
pub open spec fn spec_event_fits(state: BalanceState, event: BalanceEvent) -> bool {
    match (state, event) {
        (BalanceState::Start, BalanceEvent::Begin) => true,
        (BalanceState::AwaitPrimary, BalanceEvent::PrimaryOutcome(_)) => true,
        (BalanceState::AwaitFallback, BalanceEvent::FallbackTransportError(_)) => true,
        (BalanceState::AwaitFallback, BalanceEvent::FallbackOutcome(_)) => true,
        _ => false,
    }
}

/// The fallback chain as one transition function.
///
/// The Bitcoin fast path goes to the primary provider and any other asset
/// straight to the fallback; every primary failure is swallowed and falls
/// back; a fallback failure is terminal.
pub open spec fn spec_balance_step(
    crypto: Seq<char>,
    address: Seq<char>,
    state: BalanceState,
    event: BalanceEvent,
) -> (BalanceState, BalanceAction) {
    match (state, event) {
        (BalanceState::Start, BalanceEvent::Begin) => if spec_is_bitcoin(crypto) {
            (BalanceState::AwaitPrimary, BalanceAction::QueryPrimary)
        } else {
            (BalanceState::AwaitFallback, BalanceAction::QueryFallback)
        },
        (BalanceState::AwaitPrimary, BalanceEvent::PrimaryOutcome(outcome)) => match outcome {
            Some(resp) => match spec_primary_balance(resp) {
                Some(subunits) => (BalanceState::Done(subunits), BalanceAction::Stop),
                None => (BalanceState::AwaitFallback, BalanceAction::QueryFallback),
            },
            None => (BalanceState::AwaitFallback, BalanceAction::QueryFallback),
        },
        (BalanceState::AwaitFallback, BalanceEvent::FallbackTransportError(message)) => (
            BalanceState::Failed(CryptoError::HttpError(message)),
            BalanceAction::Stop,
        ),
        (BalanceState::AwaitFallback, BalanceEvent::FallbackOutcome(resp)) => match
            spec_fallback_balance(resp, address) {
            Some(subunits) => (BalanceState::Done(subunits), BalanceAction::Stop),
            None => (
                BalanceState::Failed(CryptoError::ApiError(resp)),
                BalanceAction::Stop,
            ),
        },
        _ => (state, BalanceAction::Stop),
    }
}

/// Drive the fallback chain one step: feed it what happened, get the next
/// state and what to do.
pub fn balance_step(crypto: &str, address: &str, state: BalanceState, event: BalanceEvent) -> (r:
    (BalanceState, BalanceAction))
    requires
        spec_event_fits(state, event),
    ensures
        r == spec_balance_step(crypto@, address@, state, event),
{
    match (state, event) {
        (BalanceState::Start, BalanceEvent::Begin) => {
            if is_bitcoin(crypto) {
                (BalanceState::AwaitPrimary, BalanceAction::QueryPrimary)
            } else {
                (BalanceState::AwaitFallback, BalanceAction::QueryFallback)
            }
        },
        (BalanceState::AwaitPrimary, BalanceEvent::PrimaryOutcome(outcome)) => match outcome {
            Some(resp) => match balance_from_primary(&resp) {
                Some(subunits) => (BalanceState::Done(subunits), BalanceAction::Stop),
                None => (BalanceState::AwaitFallback, BalanceAction::QueryFallback),
            },
            None => (BalanceState::AwaitFallback, BalanceAction::QueryFallback),
        },
        (BalanceState::AwaitFallback, BalanceEvent::FallbackTransportError(message)) => (
            BalanceState::Failed(CryptoError::HttpError(message)),
            BalanceAction::Stop,
        ),
        (BalanceState::AwaitFallback, BalanceEvent::FallbackOutcome(resp)) => {
            match balance_from_fallback(resp, address) {
                Ok(subunits) => (BalanceState::Done(subunits), BalanceAction::Stop),
                Err(e) => (BalanceState::Failed(e), BalanceAction::Stop),
            }
        },
        (other_state, _) => (other_state, BalanceAction::Stop),
    }
}

/// Law: a failed or unusable primary outcome sends the resolver to the
/// fallback provider rather than ending the resolution.
pub proof fn lemma_fallback_on_primary_failure(
    crypto: Seq<char>,
    address: Seq<char>,
    outcome: Option<JsonValue>,
)
    requires
        match outcome {
            Some(resp) => spec_primary_balance(resp) is None,
            None => true,
        },
    ensures
        spec_balance_step(
            crypto,
            address,
            BalanceState::AwaitPrimary,
            BalanceEvent::PrimaryOutcome(outcome),
        ) == (BalanceState::AwaitFallback, BalanceAction::QueryFallback),
{
}

/// Law: an asset other than Bitcoin never touches the primary provider;
/// its resolution begins at the fallback provider.
pub proof fn lemma_fallback_on_other_assets(crypto: Seq<char>, address: Seq<char>)
    requires
        !spec_is_bitcoin(crypto),
    ensures
        spec_balance_step(crypto, address, BalanceState::Start, BalanceEvent::Begin) == (
            BalanceState::AwaitFallback,
            BalanceAction::QueryFallback,
        ),
{
}

/// Law: when the winning extraction path holds an integer count of
/// subunits, the fallback payload resolves to exactly that count.
pub proof fn lemma_fallback_extracts_winning_path(
    resp: JsonValue,
    address: Seq<char>,
    subunits: u64,
)
    requires
        spec_fallback_number(resp, address) == Some(JsonNumber::Int(subunits)),
    ensures
        spec_fallback_balance(resp, address) == Some(subunits),
{
}

/// The winning path's number, executable form of [`spec_fallback_number`].
fn fallback_number(resp: &JsonValue, address: &str) -> (r: Option<JsonNumber>)
    ensures
        r == spec_fallback_number(*resp, address@),
{
    let data = resp.get("data");
    let addr_data = match data {
        Some(d) => d.get(address),
        None => None,
    };
    let path_a = match addr_data {
        Some(a) => match a.get("address") {
            Some(info) => info.get("balance"),
            None => None,
        },
        None => None,
    };
    match path_a {
        Some(JsonValue::Number(n)) => {
            return Some(*n);
        },
        _ => {},
    }
    let path_b = match addr_data {
        Some(a) => a.get("balance"),
        None => None,
    };
    match path_b {
        Some(JsonValue::Number(n)) => {
            return Some(*n);
        },
        _ => {},
    }
    match resp.get("balance") {
        Some(JsonValue::Number(n)) => Some(*n),
        _ => None,
    }
}

} // verus!
