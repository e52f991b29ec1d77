use vstd::prelude::*;

use crate::error::ContractError;

verus! {

/// The community share of a payment: the configured whole-percent cut,
/// rounded down.
pub open spec fn community_fee_of(amount: u128, percent: u64) -> int {
    (amount * percent) / 100
}

/// Relies on `cosmwasm_std`: `Uint128 * Decimal` multiplies through a
/// 256-bit intermediate and truncates, so with `Decimal::percent(percent)`
/// the result is `amount * percent / 100` rounded down; it cannot overflow
/// while `percent <= 100` keeps the result at or below `amount`.
#[verifier::external_body]
fn mul_percent_floor(amount: u128, percent: u64) -> (r: u128)
    requires
        percent <= 100,
    ensures
        r == community_fee_of(amount, percent),
{
    (cosmwasm_std::Uint128::new(amount) * cosmwasm_std::Decimal::percent(percent)).u128()
}

pub proof fn lemma_fee_at_most_amount(amount: u128, percent: u64)
    requires
        percent <= 100,
    ensures
        0 <= community_fee_of(amount, percent) <= amount,
{
    assert(amount * percent <= amount * 100) by (nonlinear_arith)
        requires
            percent <= 100,
            0 <= amount,
    ;
    assert((amount * percent) / 100 <= (amount * 100) / 100) by (nonlinear_arith)
        requires
            amount * percent <= amount * 100,
    ;
    assert((amount * 100) / 100 == amount) by (nonlinear_arith);
    assert((amount * percent) / 100 >= 0) by (nonlinear_arith)
        requires
            0 <= amount,
            0 <= percent,
    ;
}

/// Split a payment into the community share and the provider share. The two
/// shares always recompose the payment exactly; the underflow check is kept
/// explicit even though it cannot fire while the fee percentage is at most
/// 100.
pub fn split_payment(amount: u128, percent: u64) -> (r: Result<(u128, u128), ContractError>)
    requires
        percent <= 100,
    ensures
        r is Ok,
        r matches Ok(shares) ==> {
            &&& shares.0 == community_fee_of(amount, percent)
            &&& shares.1 == amount - community_fee_of(amount, percent)
            &&& shares.0 + shares.1 == amount
            &&& shares.0 <= amount
        },
{
    let fee = mul_percent_floor(amount, percent);
    proof {
        lemma_fee_at_most_amount(amount, percent);
    }
    if fee <= amount {
        Ok((fee, amount - fee))
    } else {
        Err(ContractError::ArithmeticError)
    }
}

} // verus!
