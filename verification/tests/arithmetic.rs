use metapool::types::{
    ContractError, PromiseResult, RewardFeeFraction, MIN_BALANCE_FOR_STORAGE, ONE_MILLI_NEAR,
    ONE_NEAR,
};
use metapool::utils::{
    amount_from_shares, apply_multiplier, apply_pct, assert_min_balance, assert_one_yocto,
    checked_amount_from_shares, checked_apply_pct, checked_shares_from_amount, is_close,
    is_promise_success, proportional, shares_from_amount,
};
use metapool::wide::{mul_div, mul_div_up, wide_mul};

#[test]
fn wide_products_keep_both_halves() {
    assert_eq!(wide_mul(0, u128::MAX), (0, 0));
    assert_eq!(wide_mul(3, 5), (0, 15));
    assert_eq!(wide_mul(1 << 127, 2), (1, 0));
    assert_eq!(wide_mul(u128::MAX, u128::MAX), (u128::MAX - 1, 1));
}

#[test]
fn mul_div_rounds_down() {
    assert_eq!(mul_div(10, 3, 4), Some(7));
    assert_eq!(mul_div(u128::MAX, u128::MAX, u128::MAX), Some(u128::MAX));
    assert_eq!(mul_div(u128::MAX, 2, 1), None);
    assert_eq!(mul_div(u128::MAX, 3, 4), Some(255211775190703847597530955573826158591));
}

#[test]
fn mul_div_up_rounds_up() {
    assert_eq!(mul_div_up(10, 3, 4), Some(8));
    assert_eq!(mul_div_up(10, 2, 4), Some(5));
    assert_eq!(mul_div_up(0, 2, 4), Some(0));
    assert_eq!(mul_div_up(u128::MAX, u128::MAX, u128::MAX), Some(u128::MAX));
    assert_eq!(mul_div_up(u128::MAX, 2, 1), None);
}

#[test]
fn apply_pct_takes_basis_points() {
    assert_eq!(apply_pct(25, 10_000), 25);
    assert_eq!(apply_pct(180, 1_000_000), 18_000);
    assert_eq!(apply_pct(1, 9_999), 0);
    assert_eq!(apply_pct(0, u128::MAX), 0);
    assert_eq!(apply_pct(10_000, u128::MAX), u128::MAX);
    assert_eq!(checked_apply_pct(10_001, u128::MAX), None);
}

#[test]
fn apply_multiplier_takes_tenths() {
    assert_eq!(apply_multiplier(7, 50), 35);
    assert_eq!(apply_multiplier(7, 5), 3);
    assert_eq!(apply_multiplier(ONE_NEAR, 200), 20 * ONE_NEAR);
}

#[test]
fn proportional_rounds_down() {
    assert_eq!(proportional(10, 3, 4), 7);
    assert_eq!(proportional(u128::MAX, u128::MAX, u128::MAX), u128::MAX);
    assert_eq!(proportional(0, 3, 4), 0);
}

#[test]
fn first_buyer_gets_one_share_per_unit() {
    assert_eq!(shares_from_amount(100, 0, 0), 100);
    assert_eq!(shares_from_amount(100, 50, 0), 100);
}

#[test]
fn shares_follow_the_price() {
    assert_eq!(shares_from_amount(10, 120, 100), 8);
    assert_eq!(shares_from_amount(12, 120, 100), 10);
    assert_eq!(shares_from_amount(0, 120, 100), 0);
    assert_eq!(shares_from_amount(10, 0, 100), 0);
    assert_eq!(checked_shares_from_amount(u128::MAX, 1, 2), None);
}

#[test]
fn amounts_follow_the_price() {
    assert_eq!(amount_from_shares(8, 120, 100), 9);
    assert_eq!(amount_from_shares(10, 120, 100), 12);
    assert_eq!(amount_from_shares(0, 120, 100), 0);
    assert_eq!(amount_from_shares(10, 120, 0), 0);
    assert_eq!(checked_amount_from_shares(u128::MAX, 2, 1), None);
}

#[test]
fn incorporated_shares_keep_the_price() {
    let (total_amount, total_shares): (u128, u128) = (120, 100);
    let bought = shares_from_amount(60, total_amount, total_shares);
    assert_eq!(bought, 50);
    assert_eq!(
        (total_amount + 60) * total_shares,
        total_amount * (total_shares + bought)
    );
}

#[test]
fn a_rounded_total_is_close() {
    // shown as 100 N, and meant as all
    let total: u128 = 99_999_995_234_233_549_922_000_000;
    assert!(is_close(100 * ONE_NEAR, total));
    assert!(!is_close(101 * ONE_NEAR, total));
}

#[test]
fn close_is_less_than_a_thousandth_away() {
    let total: u128 = 5 * ONE_NEAR;
    assert!(!is_close(total - ONE_MILLI_NEAR, total));
    assert!(is_close(total - ONE_MILLI_NEAR + 1, total));
    assert!(is_close(total, total));
    assert!(is_close(total + ONE_MILLI_NEAR - 1, total));
    assert!(!is_close(total + ONE_MILLI_NEAR, total));
    assert!(is_close(0, 0));
    assert!(is_close(0, 1));
    assert!(is_close(u128::MAX, u128::MAX));
}

#[test]
fn min_balance_stays_in_the_account() {
    let enough: u128 = MIN_BALANCE_FOR_STORAGE + ONE_NEAR + 1;
    assert_eq!(assert_min_balance(0, enough), Err(ContractError::AmountNotPositive));
    assert_eq!(assert_min_balance(ONE_NEAR, enough), Ok(()));
    assert_eq!(assert_min_balance(ONE_NEAR, enough - 1), Err(ContractError::BelowMinBalance));
    assert_eq!(assert_min_balance(1, 0), Err(ContractError::BelowMinBalance));
}

#[test]
fn exactly_one_yocto_is_required() {
    assert_eq!(assert_one_yocto(1), Ok(()));
    assert_eq!(assert_one_yocto(0), Err(ContractError::OneYoctoRequired));
    assert_eq!(assert_one_yocto(2), Err(ContractError::OneYoctoRequired));
}

#[test]
fn promise_success_needs_one_result() {
    assert_eq!(is_promise_success(&vec![PromiseResult::Successful(vec![])]), Ok(true));
    assert_eq!(is_promise_success(&vec![PromiseResult::Failed]), Ok(false));
    assert_eq!(is_promise_success(&vec![PromiseResult::NotReady]), Ok(false));
    assert_eq!(is_promise_success(&vec![]), Err(ContractError::NotOneResult));
    assert_eq!(
        is_promise_success(&vec![PromiseResult::Failed, PromiseResult::Failed]),
        Err(ContractError::NotOneResult)
    );
}

#[test]
fn reward_fee_fraction_is_checked() {
    let fraction = |numerator: u32, denominator: u32| RewardFeeFraction { numerator, denominator };
    assert_eq!(fraction(1, 10).assert_valid(), Ok(()));
    assert_eq!(fraction(10, 10).assert_valid(), Ok(()));
    assert_eq!(fraction(0, 0).assert_valid(), Err(ContractError::ZeroDenominator));
    assert_eq!(fraction(11, 10).assert_valid(), Err(ContractError::FeeAboveOne));
}

#[test]
fn reward_fee_fraction_multiplies() {
    let fee = RewardFeeFraction { numerator: 1, denominator: 3 };
    assert_eq!(fee.multiply(100), 33);
    assert_eq!(fee.multiply(u128::MAX), u128::MAX / 3);
}
