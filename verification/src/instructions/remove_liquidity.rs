use vstd::prelude::*;

use crate::error::ErrorCode;
use crate::math::{payout_amount, withdrawal_payout};
use crate::state::Pool;

verus! {

/// The two payouts that burning `lp_amount` of `lp_supply` LP tokens earns from `pool`,
/// or the error that refuses the withdrawal.
pub open spec fn quote_outcome(pool: Pool, lp_supply: u64, lp_amount: u64) -> Result<(u64, u64), ErrorCode> {
    if lp_amount == 0 {
        Err(ErrorCode::ZeroWithdrawal)
    } else {
        let pay_a = withdrawal_payout(lp_amount as int, pool.reserve_a as int, lp_supply as int);
        let pay_b = withdrawal_payout(lp_amount as int, pool.reserve_b as int, lp_supply as int);
        if pay_a > u64::MAX || pay_b > u64::MAX {
            Err(ErrorCode::Overflow)
        } else {
            Ok((pay_a as u64, pay_b as u64))
        }
    }
}

/// The withdrawal can be priced: it divides by the LP supply.
pub open spec fn can_quote(lp_supply: u64, lp_amount: u64) -> bool {
    lp_amount > 0 ==> lp_supply > 0
}

/// The whole instruction, given that its token transfers and its burn go through: the
/// result, and the pool as it leaves it.
pub open spec fn outcome(pool: Pool, lp_supply: u64, lp_amount: u64) -> (Result<(u64, u64), ErrorCode>, Pool) {
    match quote_outcome(pool, lp_supply, lp_amount) {
        Err(e) => (Err(e), pool),
        Ok(payouts) => {
            let (r, p) = pool.withdraw_effect(payouts.0, payouts.1);
            match r {
                Ok(_) => (Ok(payouts), p),
                Err(e) => (Err(e), p),
            }
        },
    }
}

/// Prices a withdrawal before any token moves: refuses an empty one, computes the
/// pro-rata share of each reserve, and refuses a share beyond `u64`.
pub fn quote(pool: &Pool, lp_supply: u64, lp_amount: u64) -> (res: Result<(u64, u64), ErrorCode>)
    requires
        can_quote(lp_supply, lp_amount),
    ensures
        res == quote_outcome(*pool, lp_supply, lp_amount),
{
    if lp_amount == 0 {
        return Err(ErrorCode::ZeroWithdrawal);
    }
    let token_a_payout = payout_amount(lp_amount, pool.reserve_a, lp_supply);
    let token_b_payout = payout_amount(lp_amount, pool.reserve_b, lp_supply);
    match (token_a_payout, token_b_payout) {
        (Some(pay_a), Some(pay_b)) => Ok((pay_a, pay_b)),
        _ => Err(ErrorCode::Overflow),
    }
}

/// Removes liquidity: quotes the withdrawal, then debits it from the cached reserves,
/// and returns the two payouts to transfer to the holder.
pub fn handler(pool: &mut Pool, lp_supply: u64, lp_amount: u64) -> (res: Result<(u64, u64), ErrorCode>)
    requires
        can_quote(lp_supply, lp_amount),
    ensures
        (res, *final(pool)) == outcome(*old(pool), lp_supply, lp_amount),
        res is Err ==> *final(pool) == *old(pool),
{
    let (token_a_payout, token_b_payout) = match quote(pool, lp_supply, lp_amount) {
        Ok(payouts) => payouts,
        Err(e) => return Err(e),
    };
    match pool.withdraw(token_a_payout, token_b_payout) {
        Ok(()) => Ok((token_a_payout, token_b_payout)),
        Err(e) => Err(e),
    }
}

} // verus!
