//! The part of the rewards that is kept as a fee.

use vstd::prelude::*;

use crate::ledger::lemma_quotient_nonnegative;
use crate::types::{ContractError, RewardFeeFraction};
use crate::utils::{lemma_quotient, lemma_quotient_at_most};
use crate::wide::mul_div;

verus! {

impl RewardFeeFraction {
    /// A fraction between nothing and everything.
    pub open spec fn valid(self) -> bool {
        self.denominator > 0 && self.numerator <= self.denominator
    }

    /// The fraction of an amount, rounded down.
    pub open spec fn of(self, value: int) -> int {
        self.numerator * value / (self.denominator as int)
    }

    /// Accepts a fraction between nothing and everything.
    pub fn assert_valid(&self) -> (r: Result<(), ContractError>)
        ensures
            r == (if self.denominator == 0 {
                Err(ContractError::ZeroDenominator)
            } else if self.numerator > self.denominator {
                Err(ContractError::FeeAboveOne)
            } else {
                Ok(())
            }),
            r is Ok <==> self.valid(),
    {
        if self.denominator == 0 {
            return Err(ContractError::ZeroDenominator);
        }
        if self.numerator > self.denominator {
            return Err(ContractError::FeeAboveOne);
        }
        Ok(())
    }

    /// The fraction of an amount, rounded down.
    pub fn multiply(&self, value: u128) -> (r: u128)
        requires
            self.denominator > 0,
            self.of(value as int) <= u128::MAX,
        ensures
            r == self.of(value as int),
            r * self.denominator <= self.numerator * value < r * self.denominator
                + self.denominator,
    {
        proof {
            lemma_quotient(self.numerator * value, self.denominator as int);
        }
        match mul_div(self.numerator as u128, value, self.denominator as u128) {
            Some(v) => v,
            None => 0,
        }
    }
}

/// A valid fraction of an amount is at most the amount.
pub proof fn lemma_fraction_at_most_all(fraction: RewardFeeFraction, value: int)
    requires
        fraction.valid(),
        value >= 0,
    ensures
        0 <= fraction.of(value) <= value,
{
    assert(0 <= fraction.numerator * value <= value * fraction.denominator) by (nonlinear_arith)
        requires
            0 <= fraction.numerator <= fraction.denominator,
            value >= 0,
    ;
    lemma_quotient_at_most(fraction.numerator * value, fraction.denominator as int, value);
    lemma_quotient_nonnegative(fraction.numerator * value, fraction.denominator as int);
}

} // verus!
