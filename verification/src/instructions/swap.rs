use vstd::prelude::*;

use crate::error::ErrorCode;
use crate::math::{effective_input, swap_output, swap_output_amount, BPS_DENOMINATOR};
use crate::state::Pool;

verus! {

/// The output that swapping `in_amount` of one token for the other pays, priced on the
/// cached reserves, or the error that refuses the swap.
pub open spec fn quote_outcome(pool: Pool, a_to_b: bool, in_amount: u64, min_out: u64) -> Result<
    u64,
    ErrorCode,
> {
    if in_amount == 0 {
        Err(ErrorCode::ZeroDeposit)
    } else {
        let out = swap_output(
            pool.reserve_in(a_to_b) as int,
            pool.reserve_out(a_to_b) as int,
            in_amount as int,
            pool.fee_bps as int,
        );
        if out == 0 {
            Err(ErrorCode::LPDust)
        } else if out < min_out {
            Err(ErrorCode::SlippageExceeded)
        } else {
            Ok(out as u64)
        }
    }
}

/// The swap can be priced: the fee is at most a whole, and the price's denominator, the
/// input reserve plus the discounted input, is not zero.
pub open spec fn can_quote(pool: Pool, a_to_b: bool, in_amount: u64) -> bool {
    in_amount > 0 ==> {
        &&& pool.fee_bps <= BPS_DENOMINATOR
        &&& pool.reserve_in(a_to_b) + effective_input(in_amount as int, pool.fee_bps as int) > 0
    }
}

/// The whole instruction, given that its token transfers go through: the result, and the
/// pool as it leaves it.
pub open spec fn outcome(pool: Pool, a_to_b: bool, in_amount: u64, min_out: u64) -> (Result<
    u64,
    ErrorCode,
>, Pool) {
    match quote_outcome(pool, a_to_b, in_amount, min_out) {
        Err(e) => (Err(e), pool),
        Ok(out) => {
            let (r, p) = pool.swap_effect(a_to_b, in_amount, out);
            match r {
                Ok(_) => (Ok(out), p),
                Err(e) => (Err(e), p),
            }
        },
    }
}

/// Prices a swap before any token moves: refuses an empty input, computes the output on
/// the fee-discounted input, and holds it to being more than dust and to the caller's
/// floor. The output is always less than or equal to the output reserve.
pub fn quote(pool: &Pool, a_to_b: bool, in_amount: u64, min_out: u64) -> (res: Result<u64, ErrorCode>)
    requires
        can_quote(*pool, a_to_b, in_amount),
    ensures
        res == quote_outcome(*pool, a_to_b, in_amount, min_out),
        res matches Ok(out) ==> out <= pool.reserve_out(a_to_b),
{
    if in_amount == 0 {
        return Err(ErrorCode::ZeroDeposit);
    }
    let (reserve_in, reserve_out) = if a_to_b {
        (pool.reserve_a, pool.reserve_b)
    } else {
        (pool.reserve_b, pool.reserve_a)
    };
    let out = swap_output_amount(reserve_in, reserve_out, in_amount, pool.fee_bps);
    if out == 0 {
        return Err(ErrorCode::LPDust);
    }
    let out = out as u64;
    if out < min_out {
        return Err(ErrorCode::SlippageExceeded);
    }
    Ok(out)
}

/// Swaps: quotes the swap, then books its input and output to the cached reserves, and
/// returns the output to pay the trader.
pub fn handler(pool: &mut Pool, a_to_b: bool, in_amount: u64, min_out: u64) -> (res: Result<u64, ErrorCode>)
    requires
        can_quote(*old(pool), a_to_b, in_amount),
    ensures
        (res, *final(pool)) == outcome(*old(pool), a_to_b, in_amount, min_out),
        res is Err ==> *final(pool) == *old(pool),
{
    let out = match quote(pool, a_to_b, in_amount, min_out) {
        Ok(out) => out,
        Err(e) => return Err(e),
    };
    match pool.settle_swap(a_to_b, in_amount, out) {
        Ok(()) => Ok(out),
        Err(e) => Err(e),
    }
}

} // verus!
