use vstd::prelude::*;

use crate::error::ErrorCode;
use crate::math::BPS_DENOMINATOR;
use crate::state::Pool;

verus! {

/// Creates the pool's state: it records its mints, vaults and LP mint, starts with empty
/// reserves, and keeps the fee, which may not exceed 10 000 basis points.
pub fn handler(
    token_mint_a: [u8; 32],
    token_mint_b: [u8; 32],
    token_vault_a: [u8; 32],
    token_vault_b: [u8; 32],
    lp_mint: [u8; 32],
    fee_bps: u16,
    bump: u8,
) -> (res: Result<Pool, ErrorCode>)
    ensures
        fee_bps > BPS_DENOMINATOR ==> res == Err::<Pool, ErrorCode>(ErrorCode::HighBPS),
        fee_bps <= BPS_DENOMINATOR ==> res == Ok::<Pool, ErrorCode>(
            (Pool {
                token_mint_a,
                token_mint_b,
                token_vault_a,
                token_vault_b,
                lp_mint,
                reserve_a: 0,
                reserve_b: 0,
                fee_bps,
                bump,
            }),
        ),
        res matches Ok(pool) ==> pool.consistent(0),
{
    if fee_bps > BPS_DENOMINATOR {
        return Err(ErrorCode::HighBPS);
    }
    Ok(Pool {
        token_mint_a,
        token_mint_b,
        token_vault_a,
        token_vault_b,
        lp_mint,
        reserve_a: 0,
        reserve_b: 0,
        fee_bps,
        bump,
    })
}

} // verus!
