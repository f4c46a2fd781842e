use vstd::prelude::*;

use crate::error::ErrorCode;

verus! {

/// The pool account: the two token mints it trades, its two vaults, its LP mint
/// (each an address of 32 bytes), the reserves it tracks itself, its fee in basis
/// points and the bump of its address.
#[derive(Debug, Clone, Copy)]
pub struct Pool {
    pub token_mint_a: [u8; 32],
    pub token_mint_b: [u8; 32],
    pub token_vault_a: [u8; 32],
    pub token_vault_b: [u8; 32],
    pub lp_mint: [u8; 32],
    pub reserve_a: u64,
    pub reserve_b: u64,
    pub fee_bps: u16,
    pub bump: u8,
}

impl Pool {
    /// The pool agrees with the LP supply `lp_supply`: no LP token exists exactly when both
    /// reserves are empty.
    pub open spec fn consistent(self, lp_supply: int) -> bool {
        &&& (lp_supply == 0) == (self.reserve_a == 0)
        &&& (lp_supply == 0) == (self.reserve_b == 0)
    }

    /// The reserve that a swap in the given direction takes its input into.
    pub open spec fn reserve_in(self, a_to_b: bool) -> u64 {
        if a_to_b {
            self.reserve_a
        } else {
            self.reserve_b
        }
    }

    /// The reserve that a swap in the given direction pays its output from.
    pub open spec fn reserve_out(self, a_to_b: bool) -> u64 {
        if a_to_b {
            self.reserve_b
        } else {
            self.reserve_a
        }
    }

    /// This pool with the given reserves, and all else kept.
    pub open spec fn with_reserves(self, reserve_a: int, reserve_b: int) -> Pool {
        Pool { reserve_a: reserve_a as u64, reserve_b: reserve_b as u64, ..self }
    }

    /// This pool with the given reserves on the input and output side of a swap.
    pub open spec fn with_swap_reserves(self, a_to_b: bool, reserve_in: int, reserve_out: int) -> Pool {
        if a_to_b {
            self.with_reserves(reserve_in, reserve_out)
        } else {
            self.with_reserves(reserve_out, reserve_in)
        }
    }

    /// What crediting a deposit to the reserves gives: the outcome, and the pool after it.
    /// A deposit that would take either reserve past `u64::MAX` is refused and changes
    /// nothing.
    pub open spec fn deposit_effect(self, a_amount: u64, b_amount: u64) -> (Result<(), ErrorCode>, Pool) {
        if self.reserve_a + a_amount > u64::MAX || self.reserve_b + b_amount > u64::MAX {
            (Err(ErrorCode::Overflow), self)
        } else {
            (Ok(()), self.with_reserves(self.reserve_a + a_amount, self.reserve_b + b_amount))
        }
    }

    /// What debiting a withdrawal from the reserves gives: the outcome, and the pool after
    /// it. A withdrawal of more than either reserve is refused and changes nothing.
    pub open spec fn withdraw_effect(self, a_amount: u64, b_amount: u64) -> (Result<(), ErrorCode>, Pool) {
        if self.reserve_a < a_amount || self.reserve_b < b_amount {
            (Err(ErrorCode::Overflow), self)
        } else {
            (Ok(()), self.with_reserves(self.reserve_a - a_amount, self.reserve_b - b_amount))
        }
    }

    /// What booking a swap to the reserves gives: the input is credited and the output
    /// debited. A swap that would take the input reserve past `u64::MAX`, or pay out more
    /// than the output reserve, is refused and changes nothing.
    pub open spec fn swap_effect(self, a_to_b: bool, amount_in: u64, amount_out: u64) -> (Result<(), ErrorCode>, Pool) {
        let r_in = self.reserve_in(a_to_b);
        let r_out = self.reserve_out(a_to_b);
        if r_in + amount_in > u64::MAX || r_out < amount_out {
            (Err(ErrorCode::Overflow), self)
        } else {
            (Ok(()), self.with_swap_reserves(a_to_b, r_in + amount_in, r_out - amount_out))
        }
    }

    /// Credits a deposit to the cached reserves, with checked additions; both are checked
    /// before either reserve is written.
    pub fn deposit(&mut self, a_amount: u64, b_amount: u64) -> (res: Result<(), ErrorCode>)
        ensures
            (res, *final(self)) == old(self).deposit_effect(a_amount, b_amount),
    {
        let new_a = match self.reserve_a.checked_add(a_amount) {
            Some(v) => v,
            None => return Err(ErrorCode::Overflow),
        };
        let new_b = match self.reserve_b.checked_add(b_amount) {
            Some(v) => v,
            None => return Err(ErrorCode::Overflow),
        };
        self.reserve_a = new_a;
        self.reserve_b = new_b;
        Ok(())
    }

    /// Debits a withdrawal from the cached reserves, with checked subtractions; both are
    /// checked before either reserve is written.
    pub fn withdraw(&mut self, a_amount: u64, b_amount: u64) -> (res: Result<(), ErrorCode>)
        ensures
            (res, *final(self)) == old(self).withdraw_effect(a_amount, b_amount),
    {
        let new_a = match self.reserve_a.checked_sub(a_amount) {
            Some(v) => v,
            None => return Err(ErrorCode::Overflow),
        };
        let new_b = match self.reserve_b.checked_sub(b_amount) {
            Some(v) => v,
            None => return Err(ErrorCode::Overflow),
        };
        self.reserve_a = new_a;
        self.reserve_b = new_b;
        Ok(())
    }

    /// Books a swap to the cached reserves: credits the input side and debits the output
    /// side, with checked arithmetic; both are checked before either reserve is written.
    pub fn settle_swap(&mut self, a_to_b: bool, amount_in: u64, amount_out: u64) -> (res: Result<(), ErrorCode>)
        ensures
            (res, *final(self)) == old(self).swap_effect(a_to_b, amount_in, amount_out),
    {
        let (reserve_in, reserve_out) = if a_to_b {
            (self.reserve_a, self.reserve_b)
        } else {
            (self.reserve_b, self.reserve_a)
        };
        let new_in = match reserve_in.checked_add(amount_in) {
            Some(v) => v,
            None => return Err(ErrorCode::Overflow),
        };
        let new_out = match reserve_out.checked_sub(amount_out) {
            Some(v) => v,
            None => return Err(ErrorCode::Overflow),
        };
        if a_to_b {
            self.reserve_a = new_in;
            self.reserve_b = new_out;
        } else {
            self.reserve_b = new_in;
            self.reserve_a = new_out;
        }
        Ok(())
    }
}

} // verus!
