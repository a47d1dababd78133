//! The wallet aggregator's arithmetic: one valuation row per entry and a
//! running total, in manifest order.
//!
//! A row's fiat value is `balance * unit_price / AMOUNT_SCALE` in exact
//! integer arithmetic (both factors are fixed-point amounts, so the product
//! carries the scale twice and one scale is divided out, rounding toward
//! zero).  The caller resolves balances and prices first — aborting on the
//! first failure, so a report is all-or-nothing — and hands them over in
//! manifest order.

use vstd::prelude::*;

use crate::errors::CryptoError;
use crate::wallet::WalletEntry;
use crate::AMOUNT_SCALE;

verus! {

/// One wallet entry's valuation: the asset symbol uppercased for display,
/// the balance in natural units, its fiat value, and the unit price used.
/// All amounts are fixed-point, scaled by [`AMOUNT_SCALE`].
#[derive(Debug, PartialEq, Eq)]
pub struct ValuationRow {
    pub crypto: String,
    pub balance: u64,
    pub fiat_value: u64,
    pub unit_price: u64,
}

/// A whole wallet's valuation: one row per manifest entry, in manifest
/// order, and the total of the rows' fiat values.
#[derive(Debug, PartialEq, Eq)]
pub struct WalletReport {
    pub rows: Vec<ValuationRow>,
    pub total: u64,
}

/// What `str::to_uppercase` returns for a string of these characters.
pub uninterp spec fn upper_of(s: Seq<char>) -> Seq<char>;

/// Relies on str::to_uppercase: the result is a function of the characters
/// alone.
#[verifier::external_body]
fn to_upper(s: &str) -> (r: String)
    ensures
        r@ == upper_of(s@),
{
    s.to_uppercase()
}

/// A row's fiat value, exactly: balance times unit price, one fixed-point
/// scale divided out, rounded toward zero.
pub open spec fn spec_row_value(balance: u64, price: u64) -> int {
    (balance * price) / (AMOUNT_SCALE as int)
}

/// The exact total of the first `n` rows' fiat values.
pub open spec fn spec_total(balances: Seq<u64>, prices: Seq<u64>, n: int) -> int
    decreases n,
{
    if n <= 0 {
        0
    } else {
        spec_total(balances, prices, n - 1) + spec_row_value(balances[n - 1], prices[n - 1])
    }
}

proof fn lemma_row_value_bounds(balance: u64, price: u64)
    ensures
        0 <= spec_row_value(balance, price),
{
    assert(balance * price >= 0) by (nonlinear_arith);
}

proof fn lemma_total_monotonic(balances: Seq<u64>, prices: Seq<u64>, k: int, n: int)
    requires
        0 <= k <= n,
    ensures
        spec_total(balances, prices, k) <= spec_total(balances, prices, n),
    decreases n - k,
{
    if k < n {
        lemma_total_monotonic(balances, prices, k, n - 1);
        lemma_row_value_bounds(balances[n - 1], prices[n - 1]);
    }
}

/// Build the wallet report from entries resolved in manifest order:
/// `balances[i]` and `prices[i]` belong to `entries[i]`.  Succeeds exactly
/// when the total fits the fixed-point range; every row then carries its
/// exact fiat value and the total is their exact sum.
pub fn build_report(entries: &Vec<WalletEntry>, balances: &Vec<u64>, prices: &Vec<u64>) -> (r:
    Result<WalletReport, CryptoError>)
    requires
        balances@.len() == entries@.len(),
        prices@.len() == entries@.len(),
    ensures
        ({
            let n = entries@.len() as int;
            if spec_total(balances@, prices@, n) <= u64::MAX {
                r matches Ok(report) && report.total == spec_total(balances@, prices@, n)
                    && report.rows@.len() == entries@.len() && (forall|i: int|
                    0 <= i < n ==> {
                        &&& (#[trigger] report.rows@[i]).balance == balances@[i]
                        &&& report.rows@[i].unit_price == prices@[i]
                        &&& report.rows@[i].fiat_value == spec_row_value(
                            balances@[i],
                            prices@[i],
                        )
                        &&& report.rows@[i].crypto@ == upper_of(entries@[i].crypto@)
                    })
            } else {
                r == Err::<WalletReport, CryptoError>(CryptoError::ValueOverflow)
            }
        }),
{
    let n = entries.len();
    let mut rows: Vec<ValuationRow> = Vec::new();
    let mut total: u64 = 0;
    for k in 0..n
        invariant
            n == entries@.len(),
            balances@.len() == n,
            prices@.len() == n,
            rows@.len() == k,
            total == spec_total(balances@, prices@, k as int),
            forall|i: int|
                0 <= i < k ==> {
                    &&& (#[trigger] rows@[i]).balance == balances@[i]
                    &&& rows@[i].unit_price == prices@[i]
                    &&& rows@[i].fiat_value == spec_row_value(balances@[i], prices@[i])
                    &&& rows@[i].crypto@ == upper_of(entries@[i].crypto@)
                },
    {
        let balance = balances[k];
        let price = prices[k];
        proof {
            vstd::arithmetic::mul::lemma_mul_upper_bound(
                balance as int,
                u64::MAX as int,
                price as int,
                u64::MAX as int,
            );
        }
        let product = (balance as u128) * (price as u128);
        let value_wide = product / (AMOUNT_SCALE as u128);
        proof {
            lemma_row_value_bounds(balance, price);
            assert(value_wide == spec_row_value(balance, price));
            lemma_total_monotonic(balances@, prices@, k + 1, n as int);
        }
        if value_wide > u64::MAX as u128 {
            return Err(CryptoError::ValueOverflow);
        }
        let value = value_wide as u64;
        match total.checked_add(value) {
            Some(new_total) => {
                total = new_total;
            },
            None => {
                return Err(CryptoError::ValueOverflow);
            },
        }
        rows.push(
            ValuationRow {
                crypto: to_upper(entries[k].crypto.as_str()),
                balance,
                fiat_value: value,
                unit_price: price,
            },
        );
    }
    Ok(WalletReport { rows, total })
}

/// Law: a report's total is exactly the sum of its rows' fiat values,
/// accumulated in manifest order.
pub proof fn lemma_total_is_sum_of_rows(
    report: WalletReport,
    balances: Seq<u64>,
    prices: Seq<u64>,
    n: int,
)
    requires
        0 <= n,
        report.rows@.len() == n,
        report.total == spec_total(balances, prices, n),
        forall|i: int|
            0 <= i < n ==> (#[trigger] report.rows@[i]).fiat_value == spec_row_value(
                balances[i],
                prices[i],
            ),
    ensures
        report.total == spec_rows_sum(report.rows@, n),
{
    lemma_sums_agree(report.rows@, balances, prices, n);
}

/// The sum of the first `n` rows' fiat values.
pub open spec fn spec_rows_sum(rows: Seq<ValuationRow>, n: int) -> int
    decreases n,
{
    if n <= 0 {
        0
    } else {
        spec_rows_sum(rows, n - 1) + rows[n - 1].fiat_value
    }
}

proof fn lemma_sums_agree(rows: Seq<ValuationRow>, balances: Seq<u64>, prices: Seq<u64>, n: int)
    requires
        0 <= n <= rows.len(),
        forall|i: int|
            0 <= i < n ==> (#[trigger] rows[i]).fiat_value == spec_row_value(
                balances[i],
                prices[i],
            ),
    ensures
        spec_rows_sum(rows, n) == spec_total(balances, prices, n),
    decreases n,
{
    if n > 0 {
        lemma_sums_agree(rows, balances, prices, n - 1);
    }
}

} // verus!
