//! Fixed-point arithmetic on balances: crediting, interest and tax.
//!
//! A rate counts parts per [`RATE_SCALE`]. A product of a balance and a rate
//! is rounded down to a whole unit, and a balance never grows past the
//! largest representable amount: it stays there instead. What a tax leaves
//! is the balance less the tax, so that no unit is lost between the two.
use vstd::prelude::*;
use crate::primitives::{Balance, Rate, RATE_SCALE};

verus! {

/// The balance after `amount` is added to `balance`, capped at the largest
/// representable amount.
pub open spec fn credited(balance: Balance, amount: Balance) -> Balance {
    if balance + amount > Balance::MAX {
        Balance::MAX
    } else {
        (balance + amount) as Balance
    }
}

/// The share `rate` of `balance`, rounded down.
pub open spec fn share_of(balance: Balance, rate: Rate) -> int {
    (balance * rate) / (RATE_SCALE as int)
}

/// The balance after interest at `rate`: `balance * (1 + rate)`, rounded
/// down and capped at the largest representable amount.
pub open spec fn with_interest(balance: Balance, rate: Rate) -> Balance {
    if balance + share_of(balance, rate) > Balance::MAX {
        Balance::MAX
    } else {
        (balance + share_of(balance, rate)) as Balance
    }
}

/// The interest that an account holding `balance` is paid at `rate`: the
/// difference between its new and its old balance.
pub open spec fn interest_on(balance: Balance, rate: Rate) -> Balance {
    (with_interest(balance, rate) - balance) as Balance
}

/// The tax that an account holding `balance` owes at `rate`:
/// `balance * rate`, rounded down.
pub open spec fn tax_on(balance: Balance, rate: Rate) -> Balance {
    share_of(balance, rate) as Balance
}

/// The balance that the tax at `rate` leaves: what was there, less the tax.
pub open spec fn after_tax(balance: Balance, rate: Rate) -> Balance {
    (balance - tax_on(balance, rate)) as Balance
}

/// The share of a balance at a rate between nothing and the whole lies
/// between nothing and the balance.
pub proof fn lemma_share_bounds(balance: Balance, rate: Rate)
    requires
        0 <= balance,
        0 <= rate,
    ensures
        0 <= share_of(balance, rate),
        rate <= RATE_SCALE ==> share_of(balance, rate) <= balance,
        share_of(balance, rate) * RATE_SCALE <= balance * rate < (share_of(balance, rate) + 1)
            * RATE_SCALE,
{
    let product: int = balance * rate;
    let scale: int = RATE_SCALE as int;
    assert(0 <= product) by (nonlinear_arith)
        requires
            product == balance * rate,
            0 <= balance,
            0 <= rate,
    ;
    vstd::arithmetic::div_mod::lemma_fundamental_div_mod(product, scale);
    vstd::arithmetic::div_mod::lemma_mod_bound(product, scale);
    if rate <= RATE_SCALE {
        assert(product <= balance * scale) by (nonlinear_arith)
            requires
                product == balance * rate,
                0 <= balance,
                rate <= scale,
        ;
    }
}

/// Interest is growth by the rate: the balance and its share at `rate` make
/// `balance * (1 + rate)`, rounded down. The balance never shrinks.
pub proof fn lemma_interest_is_growth(balance: Balance, rate: Rate)
    requires
        0 <= balance,
        0 <= rate,
    ensures
        balance + share_of(balance, rate) == (balance * (RATE_SCALE + rate)) / (RATE_SCALE as int),
        balance <= with_interest(balance, rate),
        interest_on(balance, rate) >= 0,
{
    lemma_share_bounds(balance, rate);
    let scale: int = RATE_SCALE as int;
    assert(balance * (scale + rate) == balance * rate + balance * scale) by (nonlinear_arith);
}

/// The tax splits the balance: the tax and what it leaves make the balance,
/// and what it leaves is `balance * (1 - rate)`, rounded up.
pub proof fn lemma_tax_splits_balance(balance: Balance, rate: Rate)
    requires
        0 <= balance,
        0 <= rate <= RATE_SCALE,
    ensures
        tax_on(balance, rate) + after_tax(balance, rate) == balance,
        0 <= tax_on(balance, rate) <= balance,
        0 <= after_tax(balance, rate) <= balance,
        balance * (RATE_SCALE - rate) <= after_tax(balance, rate) * RATE_SCALE < balance * (
        RATE_SCALE - rate) + RATE_SCALE,
{
    lemma_share_bounds(balance, rate);
    let scale: int = RATE_SCALE as int;
    assert(balance * (scale - rate) == balance * scale - balance * rate) by (nonlinear_arith);
}

/// Adds `amount` to `balance`, stopping at the largest representable amount.
pub fn credit(balance: Balance, amount: Balance) -> (sum: Balance)
    requires
        0 <= balance,
        0 <= amount,
    ensures
        sum == credited(balance, amount),
        balance <= sum,
        amount <= sum,
{
    if balance > Balance::MAX - amount {
        Balance::MAX
    } else {
        balance + amount
    }
}

/// Pays interest at `rate` on `balance` and returns the new balance: the old
/// one grown by the rate, rounded down, or the largest representable amount
/// where the product would pass it.
pub fn accrue(balance: Balance, rate: Rate) -> (grown: Balance)
    requires
        0 <= balance,
        0 <= rate,
    ensures
        grown == with_interest(balance, rate),
        balance <= grown,
{
    proof {
        lemma_share_bounds(balance, rate);
        assert(balance * rate <= 0x7fff_ffff_ffff_ffff * 0x7fff_ffff_ffff_ffff)
            by (nonlinear_arith)
            requires
                0 <= balance <= 0x7fff_ffff_ffff_ffff,
                0 <= rate <= 0x7fff_ffff_ffff_ffff,
        ;
    }
    let product: i128 = (balance as i128) * (rate as i128);
    let grown: i128 = (balance as i128) + product / (RATE_SCALE as i128);
    if grown > Balance::MAX as i128 {
        Balance::MAX
    } else {
        grown as Balance
    }
}

/// Computes the tax at `rate` on `balance`: the product, rounded down. The
/// tax never exceeds the balance.
pub fn levy(balance: Balance, rate: Rate) -> (tax: Balance)
    requires
        0 <= balance,
        0 <= rate <= RATE_SCALE,
    ensures
        tax == tax_on(balance, rate),
        0 <= tax <= balance,
{
    proof {
        lemma_share_bounds(balance, rate);
        assert(balance * rate <= 0x7fff_ffff_ffff_ffff * 1_000_000) by (nonlinear_arith)
            requires
                0 <= balance <= 0x7fff_ffff_ffff_ffff,
                0 <= rate <= 1_000_000,
        ;
    }
    let product: i128 = (balance as i128) * (rate as i128);
    (product / (RATE_SCALE as i128)) as Balance
}

} // verus!
