//! The interest accrual calculator: how much interest an account is owed
//! over the time elapsed since its latest transaction. The amount is a pure
//! function of balance, elapsed seconds and the configured daily rate; all
//! arithmetic is checked.

use vstd::prelude::*;
use vstd::arithmetic::mul::lemma_mul_nonnegative;
use crate::model::LedgerError;

verus! {

pub const SECONDS_PER_DAY: i64 = 86400;

/// Denominator of the rate: the rate is given in basis points per day.
pub const BPS_SCALE: i64 = 10000;

/// Configuration of the accrual calculator: simple interest, in basis
/// points of the balance per full elapsed day.
#[derive(Clone, Copy, Debug, PartialEq, Eq, Structural)]
pub struct InterestConfig {
    pub daily_rate_bps: u32,
}

/// Interest owed on `balance` after `elapsed` seconds at `rate_bps` basis
/// points per day: zero while no time has passed, otherwise the balance
/// times the rate, per full day, scaled back by the basis-point denominator.
pub open spec fn interest_amount(balance: int, elapsed: int, rate_bps: int) -> int {
    if elapsed <= 0 {
        0
    } else {
        (balance * rate_bps) * (elapsed / (SECONDS_PER_DAY as int)) / (BPS_SCALE as int)
    }
}

/// Whether computing `interest_amount` leaves the representation: the
/// elapsed seconds or one of the two products does not fit.
pub open spec fn interest_overflows(balance: int, elapsed: int, rate_bps: int) -> bool {
    elapsed > 0 && {
        ||| elapsed > i64::MAX
        ||| balance * rate_bps > i64::MAX
        ||| (balance * rate_bps) * (elapsed / (SECONDS_PER_DAY as int)) > i64::MAX
    }
}

/// Compute the interest owed between `since` and `as_of`. Reports
/// `Internal` exactly when the computation leaves the representation;
/// otherwise the result is exact and never negative.
pub fn compute_interest(balance: i64, since: i64, as_of: i64, rate_bps: u32) -> (r: Result<
    i64,
    LedgerError,
>)
    requires
        balance >= 0,
    ensures
        match r {
            Ok(v) => {
                &&& v == interest_amount(balance as int, as_of - since, rate_bps as int)
                &&& v >= 0
                &&& !interest_overflows(balance as int, as_of - since, rate_bps as int)
            },
            Err(e) => {
                &&& e == LedgerError::Internal
                &&& interest_overflows(balance as int, as_of - since, rate_bps as int)
            },
        },
{
    if as_of <= since {
        return Ok(0);
    }
    let elapsed = match as_of.checked_sub(since) {
        Some(e) => e,
        None => {
            return Err(LedgerError::Internal);
        },
    };
    let days = elapsed / SECONDS_PER_DAY;
    let m1 = match balance.checked_mul(rate_bps as i64) {
        Some(v) => v,
        None => {
            proof {
                lemma_mul_nonnegative(balance as int, rate_bps as int);
            }
            return Err(LedgerError::Internal);
        },
    };
    let m2 = match m1.checked_mul(days) {
        Some(v) => v,
        None => {
            proof {
                lemma_mul_nonnegative(balance as int, rate_bps as int);
                lemma_mul_nonnegative(m1 as int, days as int);
            }
            return Err(LedgerError::Internal);
        },
    };
    proof {
        lemma_mul_nonnegative(balance as int, rate_bps as int);
        lemma_mul_nonnegative(m1 as int, days as int);
    }
    Ok(m2 / BPS_SCALE)
}

} // verus!
