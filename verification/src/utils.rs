//! Share and percentage arithmetic, and checks on what a call brings along.

use vstd::prelude::*;

use crate::types::{ContractError, PromiseResult, MIN_BALANCE_FOR_STORAGE, ONE_MILLI_NEAR};
use crate::wide::mul_div;

verus! {

/// `basis_points` hundredths of a percent of `amount`, rounded down.
pub open spec fn pct_of(basis_points: int, amount: int) -> int {
    basis_points * amount / 10_000
}

/// How many shares `amount` buys while `total_shares` shares stand for
/// `total_amount`, rounded down. The first buyer gets one share per unit.
pub open spec fn shares_for(amount: int, total_amount: int, total_shares: int) -> int {
    if total_shares == 0 {
        amount
    } else if amount == 0 || total_amount == 0 {
        0
    } else {
        total_shares * amount / total_amount
    }
}

/// What `num_shares` shares are worth while `total_shares` shares stand for
/// `total_amount`, rounded down.
pub open spec fn amount_for(num_shares: int, total_amount: int, total_shares: int) -> int {
    if total_shares == 0 || num_shares == 0 {
        0
    } else {
        num_shares * total_amount / total_shares
    }
}

/// Whether two amounts differ by less than a thousandth of a NEAR.
pub open spec fn close(requested: int, total: int) -> bool {
    total - ONE_MILLI_NEAR < requested < total + ONE_MILLI_NEAR
}

/// `apply_pct` where the result may not fit.
pub fn checked_apply_pct(basis_points: u16, amount: u128) -> (r: Option<u128>)
    ensures
        match r {
            Some(v) => v == pct_of(basis_points as int, amount as int),
            None => pct_of(basis_points as int, amount as int) > u128::MAX,
        },
        match r {
            Some(v) => v * 10_000 <= basis_points * amount < v * 10_000 + 10_000,
            None => basis_points * amount > u128::MAX * 10_000,
        },
{
    proof {
        lemma_quotient(basis_points * amount, 10_000);
    }
    mul_div(basis_points as u128, amount, 10_000)
}

/// `basis_points` hundredths of a percent of `amount`.
pub fn apply_pct(basis_points: u16, amount: u128) -> (r: u128)
    requires
        pct_of(basis_points as int, amount as int) <= u128::MAX,
    ensures
        r == pct_of(basis_points as int, amount as int),
        r * 10_000 <= basis_points * amount < r * 10_000 + 10_000,
{
    match checked_apply_pct(basis_points, amount) {
        Some(v) => v,
        None => 0,
    }
}

/// `amount` times `percentage` tenths.
pub fn apply_multiplier(amount: u128, percentage: u16) -> (r: u128)
    requires
        amount * (percentage * 10) / 100 <= u128::MAX,
    ensures
        r == amount * (percentage * 10) / 100,
{
    match mul_div(amount, percentage as u128 * 10, 100) {
        Some(v) => v,
        None => 0,
    }
}

/// `amount * numerator / denominator`, rounded down.
pub fn proportional(amount: u128, numerator: u128, denominator: u128) -> (r: u128)
    requires
        denominator > 0,
        amount * numerator / (denominator as int) <= u128::MAX,
    ensures
        r == amount * numerator / (denominator as int),
{
    match mul_div(amount, numerator, denominator) {
        Some(v) => v,
        None => 0,
    }
}

/// `shares_from_amount` where the result may not fit.
pub fn checked_shares_from_amount(amount: u128, total_amount: u128, total_shares: u128) -> (r:
    Option<u128>)
    ensures
        match r {
            Some(v) => v == shares_for(amount as int, total_amount as int, total_shares as int),
            None => shares_for(amount as int, total_amount as int, total_shares as int) > u128::MAX,
        },
        total_shares == 0 ==> r == Some(amount),
        total_shares > 0 && (amount == 0 || total_amount == 0) ==> r == Some(0u128),
        total_shares > 0 && amount > 0 && total_amount > 0 ==> match r {
            Some(v) => v * total_amount <= total_shares * amount < v * total_amount + total_amount,
            None => total_shares * amount > u128::MAX * total_amount,
        },
{
    proof {
        if total_amount > 0 {
            lemma_quotient(total_shares * amount, total_amount as int);
            lemma_quotient_above(total_shares * amount, total_amount as int, u128::MAX as int);
        }
    }
    if total_shares == 0 {
        return Some(amount);
    }
    if amount == 0 || total_amount == 0 {
        return Some(0);
    }
    mul_div(total_shares, amount, total_amount)
}

/// The number of shares that correspond to the given amount at the current
/// share price. If the amount and the shares are incorporated, the price stays.
pub fn shares_from_amount(amount: u128, total_amount: u128, total_shares: u128) -> (r: u128)
    requires
        shares_for(amount as int, total_amount as int, total_shares as int) <= u128::MAX,
    ensures
        r == shares_for(amount as int, total_amount as int, total_shares as int),
        total_shares == 0 ==> r == amount,
        total_shares > 0 && (amount == 0 || total_amount == 0) ==> r == 0,
        total_shares > 0 && amount > 0 && total_amount > 0 ==> r * total_amount <= total_shares
            * amount < r * total_amount + total_amount,
{
    match checked_shares_from_amount(amount, total_amount, total_shares) {
        Some(v) => v,
        None => 0,
    }
}

/// `amount_from_shares` where the result may not fit.
pub fn checked_amount_from_shares(num_shares: u128, total_amount: u128, total_shares: u128) -> (r:
    Option<u128>)
    ensures
        match r {
            Some(v) => v == amount_for(num_shares as int, total_amount as int, total_shares as int),
            None => amount_for(num_shares as int, total_amount as int, total_shares as int)
                > u128::MAX,
        },
        total_shares == 0 || num_shares == 0 ==> r == Some(0u128),
        total_shares > 0 ==> match r {
            Some(v) => v * total_shares <= num_shares * total_amount < v * total_shares
                + total_shares,
            None => num_shares * total_amount > u128::MAX * total_shares,
        },
{
    proof {
        if total_shares > 0 {
            lemma_quotient(num_shares * total_amount, total_shares as int);
            lemma_quotient_above(num_shares * total_amount, total_shares as int, u128::MAX as int);
            assert(0 * total_amount == 0) by (nonlinear_arith);
        }
    }
    if total_shares == 0 || num_shares == 0 {
        return Some(0);
    }
    mul_div(num_shares, total_amount, total_shares)
}

/// The amount that corresponds to the given number of shares at the current
/// share price.
pub fn amount_from_shares(num_shares: u128, total_amount: u128, total_shares: u128) -> (r: u128)
    requires
        amount_for(num_shares as int, total_amount as int, total_shares as int) <= u128::MAX,
    ensures
        r == amount_for(num_shares as int, total_amount as int, total_shares as int),
        total_shares == 0 || num_shares == 0 ==> r == 0,
        total_shares > 0 ==> r * total_shares <= num_shares * total_amount < r * total_shares
            + total_shares,
{
    match checked_amount_from_shares(num_shares, total_amount, total_shares) {
        Some(v) => v,
        None => 0,
    }
}

/// True if total-0.001N < requested < total+0.001N. Used to avoid leaving dust
/// in the accounts and to absorb the rounding of what a user typed.
pub fn is_close(requested: u128, total: u128) -> (r: bool)
    ensures
        r == close(requested as int, total as int),
        r == (total - 1_000_000_000_000_000_000_000 < requested < total
            + 1_000_000_000_000_000_000_000),
{
    if requested >= total {
        requested - total < ONE_MILLI_NEAR
    } else {
        total - requested < ONE_MILLI_NEAR
    }
}

/// Accepts a positive amount that leaves more than `MIN_BALANCE_FOR_STORAGE` in
/// an account which holds `account_balance`.
pub fn assert_min_balance(amount: u128, account_balance: u128) -> (r: Result<(), ContractError>)
    ensures
        r == (if amount == 0 {
            Err(ContractError::AmountNotPositive)
        } else if account_balance - MIN_BALANCE_FOR_STORAGE <= amount {
            Err(ContractError::BelowMinBalance)
        } else {
            Ok(())
        }),
        r is Ok <==> amount > 0 && amount + 35_000_000_000_000_000_000_000_000 < account_balance,
{
    if amount == 0 {
        return Err(ContractError::AmountNotPositive);
    }
    if account_balance >= MIN_BALANCE_FOR_STORAGE && account_balance - MIN_BALANCE_FOR_STORAGE
        > amount {
        Ok(())
    } else {
        Err(ContractError::BelowMinBalance)
    }
}

/// Accepts a call that has exactly one yocto attached.
pub fn assert_one_yocto(attached_deposit: u128) -> (r: Result<(), ContractError>)
    ensures
        r == (if attached_deposit == 1 {
            Ok(())
        } else {
            Err(ContractError::OneYoctoRequired)
        }),
{
    if attached_deposit == 1 {
        Ok(())
    } else {
        Err(ContractError::OneYoctoRequired)
    }
}

/// Whether the one promise that a callback waits for has succeeded. `results`
/// holds what the promises of the callback came to.
pub fn is_promise_success(results: &Vec<PromiseResult>) -> (r: Result<bool, ContractError>)
    ensures
        r == (if results@.len() == 1 {
            Ok(results@[0] is Successful)
        } else {
            Err(ContractError::NotOneResult)
        }),
{
    if results.len() != 1 {
        return Err(ContractError::NotOneResult);
    }
    match &results[0] {
        PromiseResult::Successful(_) => Ok(true),
        _ => Ok(false),
    }
}

/// The formulas for a purchase: shares bought with `amount` are never worth more
/// than `amount`, and taking both in never lowers the price of a share. If the
/// division is exact, the price stays the same.
pub proof fn law_shares_keep_price(amount: nat, total_amount: nat, total_shares: nat)
    requires
        total_shares > 0,
        total_amount > 0,
    ensures
        ({
            let bought = shares_for(amount as int, total_amount as int, total_shares as int);
            &&& (total_amount + amount) * total_shares >= total_amount * (total_shares + bought)
            &&& (total_shares * amount) % total_amount == 0 ==> (total_amount + amount)
                * total_shares == total_amount * (total_shares + bought)
            &&& amount_for(bought, total_amount as int, total_shares as int) <= amount
        }),
{
    let bought = shares_for(amount as int, total_amount as int, total_shares as int);
    let product = (total_shares * amount) as int;
    if amount == 0 {
        assert(total_amount * (total_shares + 0) == (total_amount + 0) * total_shares)
            by (nonlinear_arith);
        assert((total_shares * 0) as int == 0) by (nonlinear_arith);
    } else {
        vstd::arithmetic::div_mod::lemma_fundamental_div_mod(product, total_amount as int);
        let left = product % (total_amount as int);
        assert((total_amount + amount) * total_shares == total_amount * (total_shares + bought)
            + left) by (nonlinear_arith)
            requires
                product == total_shares * amount,
                product == total_amount * bought + left,
        ;
        if bought != 0 {
            assert(bought * total_amount <= amount * total_shares) by (nonlinear_arith)
                requires
                    product == total_shares * amount,
                    product == total_amount * bought + left,
                    left >= 0,
            ;
            lemma_quotient_at_most(bought * total_amount, total_shares as int, amount as int);
        }
    }
}

/// A quotient is at most `k` if the dividend is at most `k` times the divisor.
pub proof fn lemma_quotient_at_most(n: int, d: int, k: int)
    requires
        d > 0,
        n <= k * d,
    ensures
        n / d <= k,
{
    vstd::arithmetic::div_mod::lemma_fundamental_div_mod(n, d);
    assert(n / d <= k) by (nonlinear_arith)
        requires
            d > 0,
            n <= k * d,
            n == d * (n / d) + n % d,
            0 <= n % d < d,
    ;
}

/// A quotient is at least `k` if the dividend is at least `k` times the divisor.
pub proof fn lemma_quotient_at_least(n: int, d: int, k: int)
    requires
        d > 0,
        n >= k * d,
    ensures
        n / d >= k,
{
    vstd::arithmetic::div_mod::lemma_fundamental_div_mod(n, d);
    assert(n / d >= k) by (nonlinear_arith)
        requires
            d > 0,
            n >= k * d,
            n == d * (n / d) + n % d,
            0 <= n % d < d,
    ;
}

/// If a quotient is above `k`, the dividend is more than `k` times the divisor.
pub proof fn lemma_quotient_above(n: int, d: int, k: int)
    requires
        d > 0,
    ensures
        n / d > k ==> n > k * d,
{
    if n <= k * d {
        lemma_quotient_at_most(n, d, k);
    }
}

/// A quotient times its divisor lies within one divisor below the dividend.
pub proof fn lemma_quotient(n: int, d: int)
    requires
        d > 0,
    ensures
        n / d * d <= n < n / d * d + d,
{
    vstd::arithmetic::div_mod::lemma_fundamental_div_mod(n, d);
    assert(d * (n / d) == n / d * d) by (nonlinear_arith);
}

} // verus!
