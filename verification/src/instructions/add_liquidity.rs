use vstd::prelude::*;

use crate::error::ErrorCode;
use crate::math::{lp_amount, lp_for_deposit};
use crate::state::Pool;

verus! {

/// The LP tokens that depositing `a_amount` and `b_amount` into `pool` mints, when
/// `lp_supply` LP tokens exist, or the error that refuses the deposit.
pub open spec fn quote_outcome(
    pool: Pool,
    lp_supply: u64,
    a_amount: u64,
    b_amount: u64,
    min_lp_out: u64,
) -> Result<u64, ErrorCode> {
    if a_amount == 0 || b_amount == 0 {
        Err(ErrorCode::ZeroDeposit)
    } else {
        let lp = lp_for_deposit(
            a_amount as int,
            b_amount as int,
            lp_supply as int,
            pool.reserve_a as int,
            pool.reserve_b as int,
        );
        if lp > u64::MAX {
            Err(ErrorCode::Overflow)
        } else if lp < min_lp_out {
            Err(ErrorCode::SlippageExceeded)
        } else if lp == 0 {
            Err(ErrorCode::LPDust)
        } else {
            Ok(lp as u64)
        }
    }
}

/// The deposit can be priced: once LP tokens exist, it divides by both reserves.
pub open spec fn can_quote(pool: Pool, lp_supply: u64, a_amount: u64, b_amount: u64) -> bool {
    (a_amount > 0 && b_amount > 0 && lp_supply > 0) ==> (pool.reserve_a > 0 && pool.reserve_b > 0)
}

/// The whole instruction, given that its token transfers go through: the result, and the
/// pool as it leaves it.
pub open spec fn outcome(
    pool: Pool,
    lp_supply: u64,
    a_amount: u64,
    b_amount: u64,
    min_lp_out: u64,
) -> (Result<u64, ErrorCode>, Pool) {
    match quote_outcome(pool, lp_supply, a_amount, b_amount, min_lp_out) {
        Err(e) => (Err(e), pool),
        Ok(lp) => {
            let (r, p) = pool.deposit_effect(a_amount, b_amount);
            match r {
                Ok(_) => (Ok(lp), p),
                Err(e) => (Err(e), p),
            }
        },
    }
}

/// Prices a deposit before any token moves: refuses an empty side, computes the LP
/// tokens to mint, refuses an amount beyond `u64`, and holds it to the caller's floor and
/// to being more than dust.
pub fn quote(pool: &Pool, lp_supply: u64, a_amount: u64, b_amount: u64, min_lp_out: u64) -> (res:
    Result<u64, ErrorCode>)
    requires
        can_quote(*pool, lp_supply, a_amount, b_amount),
    ensures
        res == quote_outcome(*pool, lp_supply, a_amount, b_amount, min_lp_out),
{
    if a_amount == 0 {
        return Err(ErrorCode::ZeroDeposit);
    }
    if b_amount == 0 {
        return Err(ErrorCode::ZeroDeposit);
    }
    let lp_to_mint = match lp_amount(a_amount, b_amount, lp_supply, pool.reserve_a, pool.reserve_b) {
        Some(lp) => lp,
        None => return Err(ErrorCode::Overflow),
    };
    if lp_to_mint < min_lp_out {
        return Err(ErrorCode::SlippageExceeded);
    }
    if lp_to_mint == 0 {
        return Err(ErrorCode::LPDust);
    }
    Ok(lp_to_mint)
}

/// Adds liquidity: quotes the deposit, then credits it to the cached reserves, and
/// returns the LP tokens to mint to the depositor.
pub fn handler(pool: &mut Pool, lp_supply: u64, a_amount: u64, b_amount: u64, min_lp_out: u64) -> (res:
    Result<u64, ErrorCode>)
    requires
        can_quote(*old(pool), lp_supply, a_amount, b_amount),
    ensures
        (res, *final(pool)) == outcome(*old(pool), lp_supply, a_amount, b_amount, min_lp_out),
        res is Err ==> *final(pool) == *old(pool),
{
    let lp_to_mint = match quote(pool, lp_supply, a_amount, b_amount, min_lp_out) {
        Ok(lp) => lp,
        Err(e) => return Err(e),
    };
    match pool.deposit(a_amount, b_amount) {
        Ok(()) => Ok(lp_to_mint),
        Err(e) => Err(e),
    }
}

} // verus!
