//! A constant-product automated market maker: the pool state, the arithmetic of its
//! four instructions, and the laws that this arithmetic keeps.
//!
//! Each instruction is split at its token transfers. A quote decides, from the pool's
//! cached reserves alone, whether the instruction goes ahead and which amounts move; the
//! caller then moves the tokens, and a settlement books the amounts to the cached
//! reserves with checked arithmetic. The functions below run both steps in one call, for
//! the case where the transfers go through.
pub mod error;
pub mod instructions;
pub mod laws;
pub mod math;
pub mod outcomes;
pub mod state;

use vstd::prelude::*;

use crate::error::ErrorCode;
use crate::state::Pool;

verus! {

/// Creates a pool over the two mints, with its vaults, its LP mint, its fee in basis
/// points and the bump of its address.
pub fn initialize(
    token_mint_a: [u8; 32],
    token_mint_b: [u8; 32],
    token_vault_a: [u8; 32],
    token_vault_b: [u8; 32],
    lp_mint: [u8; 32],
    fee_bps: u16,
    bump: u8,
) -> (res: Result<Pool, ErrorCode>)
    ensures
        fee_bps > math::BPS_DENOMINATOR ==> res == Err::<Pool, ErrorCode>(ErrorCode::HighBPS),
        fee_bps <= math::BPS_DENOMINATOR ==> res == Ok::<Pool, ErrorCode>(
            (Pool {
                token_mint_a,
                token_mint_b,
                token_vault_a,
                token_vault_b,
                lp_mint,
                reserve_a: 0,
                reserve_b: 0,
                fee_bps,
                bump,
            }),
        ),
{
    instructions::initialize::handler(
        token_mint_a,
        token_mint_b,
        token_vault_a,
        token_vault_b,
        lp_mint,
        fee_bps,
        bump,
    )
}

/// Deposits both tokens into the pool, when `lp_supply` LP tokens exist, and returns the
/// LP tokens to mint to the depositor.
pub fn add_liquidity(pool: &mut Pool, lp_supply: u64, a_amount: u64, b_amount: u64, min_lp_out: u64) -> (res:
    Result<u64, ErrorCode>)
    requires
        instructions::add_liquidity::can_quote(*old(pool), lp_supply, a_amount, b_amount),
    ensures
        (res, *final(pool)) == instructions::add_liquidity::outcome(
            *old(pool),
            lp_supply,
            a_amount,
            b_amount,
            min_lp_out,
        ),
        res is Err ==> *final(pool) == *old(pool),
{
    instructions::add_liquidity::handler(pool, lp_supply, a_amount, b_amount, min_lp_out)
}

/// Swaps `in_amount` of token A for token B (or of B for A), and returns the output to
/// pay the trader.
pub fn swap(pool: &mut Pool, a_to_b: bool, in_amount: u64, min_out: u64) -> (res: Result<u64, ErrorCode>)
    requires
        instructions::swap::can_quote(*old(pool), a_to_b, in_amount),
    ensures
        (res, *final(pool)) == instructions::swap::outcome(*old(pool), a_to_b, in_amount, min_out),
        res is Err ==> *final(pool) == *old(pool),
{
    instructions::swap::handler(pool, a_to_b, in_amount, min_out)
}

/// Burns `lp_amount` of the `lp_supply` LP tokens, and returns the two payouts.
pub fn remove_liquidity(pool: &mut Pool, lp_supply: u64, lp_amount: u64) -> (res: Result<
    (u64, u64),
    ErrorCode,
>)
    requires
        instructions::remove_liquidity::can_quote(lp_supply, lp_amount),
    ensures
        (res, *final(pool)) == instructions::remove_liquidity::outcome(*old(pool), lp_supply, lp_amount),
        res is Err ==> *final(pool) == *old(pool),
{
    instructions::remove_liquidity::handler(pool, lp_supply, lp_amount)
}

} // verus!
