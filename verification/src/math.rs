use vstd::prelude::*;

verus! {

/// `r` is the integer square root of `n`, rounded down.
pub open spec fn is_floor_sqrt(r: int, n: int) -> bool {
    0 <= r && r * r <= n && n < (r + 1) * (r + 1)
}

/// The integer square root of `n`, rounded down.
pub open spec fn floor_sqrt(n: nat) -> nat {
    choose|r: nat| #[trigger] is_floor_sqrt(r as int, n as int)
}

/// Every natural number has an integer square root.
pub proof fn lemma_floor_sqrt_exists(n: nat)
    ensures
        exists|r: nat| #[trigger] is_floor_sqrt(r as int, n as int),
    decreases n,
{
    if n == 0 {
        assert(is_floor_sqrt(0, 0));
    } else {
        lemma_floor_sqrt_exists((n - 1) as nat);
        let r = choose|r: nat| #[trigger] is_floor_sqrt(r as int, (n - 1) as int);
        if (r + 1) * (r + 1) <= n {
            assert(n < (r + 2) * (r + 2)) by (nonlinear_arith)
                requires
                    n - 1 < (r + 1) * (r + 1),
            ;
            assert(is_floor_sqrt(r + 1int, n as int));
        } else {
            assert(is_floor_sqrt(r as int, n as int));
        }
    }
}

/// The integer square root is unique.
pub proof fn lemma_floor_sqrt_unique(r1: int, r2: int, n: int)
    requires
        is_floor_sqrt(r1, n),
        is_floor_sqrt(r2, n),
    ensures
        r1 == r2,
{
    if r1 < r2 {
        assert((r1 + 1) * (r1 + 1) <= r2 * r2) by (nonlinear_arith)
            requires
                0 <= r1 + 1 <= r2,
        ;
    } else if r2 < r1 {
        assert((r2 + 1) * (r2 + 1) <= r1 * r1) by (nonlinear_arith)
            requires
                0 <= r2 + 1 <= r1,
        ;
    }
}

/// `floor_sqrt` is characterized by `is_floor_sqrt`.
pub proof fn lemma_floor_sqrt(n: nat)
    ensures
        is_floor_sqrt(floor_sqrt(n) as int, n as int),
        forall|r: int| is_floor_sqrt(r, n as int) ==> r == floor_sqrt(n),
{
    lemma_floor_sqrt_exists(n);
    assert forall|r: int| is_floor_sqrt(r, n as int) implies r == floor_sqrt(n) by {
        lemma_floor_sqrt_unique(r, floor_sqrt(n) as int, n as int);
    }
}

/// The integer square root of `n`, rounded down, by bisection.
pub fn isqrt(n: u128) -> (r: u128)
    ensures
        r == floor_sqrt(n as nat),
        r <= u64::MAX,
{
    let mut lo: u128 = 0;
    let mut hi: u128 = 0x1_0000_0000_0000_0000;
    assert(n < hi * hi);
    while hi - lo > 1
        invariant
            lo < hi <= 0x1_0000_0000_0000_0000,
            lo * lo <= n,
            n < hi * hi,
        decreases hi - lo,
    {
        let mid = lo + (hi - lo) / 2;
        assert(mid * mid <= 0xffff_ffff_ffff_ffff * 0xffff_ffff_ffff_ffffu128) by (nonlinear_arith)
            requires
                mid <= 0xffff_ffff_ffff_ffffu128,
        ;
        if mid * mid <= n {
            lo = mid;
        } else {
            hi = mid;
        }
    }
    proof {
        assert(is_floor_sqrt(lo as int, n as int));
        lemma_floor_sqrt(n as nat);
    }
    lo
}

/// The number of basis points in a whole: a fee of `BPS_DENOMINATOR` takes the entire input.
pub const BPS_DENOMINATOR: u16 = 10_000;

/// The lesser of two integers.
pub open spec fn lesser(x: int, y: int) -> int {
    if x <= y {
        x
    } else {
        y
    }
}

/// The part of a swap input that the pricing counts, after the fee is taken.
pub open spec fn effective_input(amount_in: int, fee_bps: int) -> int {
    amount_in * (BPS_DENOMINATOR - fee_bps) / (BPS_DENOMINATOR as int)
}

/// The constant-product output for `amount_in`: `reserve_out * e / (reserve_in + e)`,
/// rounded down, where `e` is the fee-discounted input.
pub open spec fn swap_output(reserve_in: int, reserve_out: int, amount_in: int, fee_bps: int) -> int {
    let e = effective_input(amount_in, fee_bps);
    reserve_out * e / (reserve_in + e)
}

/// The LP tokens that a deposit of `a` and `b` earns: the geometric mean of the deposit
/// when no LP token exists yet, else the lesser of its two pro-rata shares of the supply.
pub open spec fn lp_for_deposit(a: int, b: int, supply: int, reserve_a: int, reserve_b: int) -> int {
    if supply == 0 {
        floor_sqrt((a * b) as nat) as int
    } else {
        lesser(a * supply / reserve_a, b * supply / reserve_b)
    }
}

/// The tokens that burning `lp` of `supply` LP tokens pays out of `reserve`: the pro-rata
/// share, rounded down.
pub open spec fn withdrawal_payout(lp: int, reserve: int, supply: int) -> int {
    lp * reserve / supply
}

/// The LP tokens that a deposit earns are never negative, and those of a first deposit
/// fit in a `u64`.
pub proof fn lemma_lp_for_deposit_bounds(a: u64, b: u64, supply: u64, reserve_a: u64, reserve_b: u64)
    requires
        supply > 0 ==> reserve_a > 0 && reserve_b > 0,
    ensures
        0 <= lp_for_deposit(a as int, b as int, supply as int, reserve_a as int, reserve_b as int),
        supply == 0 ==> lp_for_deposit(a as int, b as int, supply as int, reserve_a as int, reserve_b as int)
            <= u64::MAX,
{
    if supply == 0 {
        lemma_u64_product_fits(a, b);
        let n = (a * b) as nat;
        lemma_floor_sqrt(n);
        let r = floor_sqrt(n) as int;
        if r > u64::MAX {
            assert(r * r > u64::MAX * u64::MAX) by (nonlinear_arith)
                requires
                    r > u64::MAX,
            ;
        }
    } else {
        assert(a * supply >= 0 && b * supply >= 0) by (nonlinear_arith)
            requires
                a >= 0,
                b >= 0,
                supply >= 0,
        ;
    }
}

/// A product of two `u64` values fits in a `u128`.
pub proof fn lemma_u64_product_fits(x: u64, y: u64)
    ensures
        0 <= x * y <= u64::MAX * u64::MAX,
        u64::MAX * u64::MAX < u128::MAX,
{
    assert(0 <= x * y <= u64::MAX * u64::MAX) by (nonlinear_arith)
        requires
            0 <= x <= u64::MAX,
            0 <= y <= u64::MAX,
    ;
}

/// A `u128` as a `u64`, or `None` where it does not fit.
fn narrow_to_u64(x: u128) -> (r: Option<u64>)
    ensures
        r == (if x <= u64::MAX {
            Some(x as u64)
        } else {
            None::<u64>
        }),
{
    if x <= u64::MAX as u128 {
        Some(x as u64)
    } else {
        None
    }
}

/// The fee-discounted input of a swap.
pub fn effective_input_amount(amount_in: u64, fee_bps: u16) -> (e: u128)
    requires
        fee_bps <= BPS_DENOMINATOR,
    ensures
        e == effective_input(amount_in as int, fee_bps as int),
        e <= amount_in,
{
    let keep: u16 = BPS_DENOMINATOR - fee_bps;
    assert(amount_in * keep <= amount_in * 10000) by (nonlinear_arith)
        requires
            keep <= 10000,
    ;
    let e = amount_in as u128 * keep as u128 / BPS_DENOMINATOR as u128;
    assert(e <= amount_in) by (nonlinear_arith)
        requires
            e == amount_in * keep / 10000,
            keep <= 10000,
            amount_in >= 0,
    ;
    e
}

/// The output of a swap of `amount_in` against the two reserves.
pub fn swap_output_amount(reserve_in: u64, reserve_out: u64, amount_in: u64, fee_bps: u16) -> (out: u128)
    requires
        fee_bps <= BPS_DENOMINATOR,
        reserve_in + effective_input(amount_in as int, fee_bps as int) > 0,
    ensures
        out == swap_output(reserve_in as int, reserve_out as int, amount_in as int, fee_bps as int),
        out <= reserve_out,
{
    let e = effective_input_amount(amount_in, fee_bps);
    proof {
        lemma_u64_product_fits(reserve_out, e as u64);
    }
    let out = reserve_out as u128 * e / (reserve_in as u128 + e);
    assert(out <= reserve_out) by (nonlinear_arith)
        requires
            out == reserve_out * e / (reserve_in + e),
            reserve_in + e > 0,
            reserve_in >= 0,
            e >= 0,
            reserve_out >= 0,
    ;
    out
}

/// The LP tokens that a deposit of `a_amount` and `b_amount` earns, or `None` where they
/// exceed the range of `u64`.
pub fn lp_amount(a_amount: u64, b_amount: u64, supply: u64, reserve_a: u64, reserve_b: u64) -> (lp: Option<u64>)
    requires
        supply > 0 ==> reserve_a > 0 && reserve_b > 0,
    ensures
        ({
            let m = lp_for_deposit(a_amount as int, b_amount as int, supply as int, reserve_a as int, reserve_b as int);
            lp == (if m <= u64::MAX {
                Some(m as u64)
            } else {
                None::<u64>
            })
        }),
{
    proof {
        lemma_lp_for_deposit_bounds(a_amount, b_amount, supply, reserve_a, reserve_b);
    }
    if supply == 0 {
        proof {
            lemma_u64_product_fits(a_amount, b_amount);
        }
        let r = isqrt(a_amount as u128 * b_amount as u128);
        Some(r as u64)
    } else {
        proof {
            lemma_u64_product_fits(a_amount, supply);
            lemma_u64_product_fits(b_amount, supply);
        }
        let share_a = a_amount as u128 * supply as u128 / reserve_a as u128;
        let share_b = b_amount as u128 * supply as u128 / reserve_b as u128;
        let smaller = if share_a <= share_b {
            share_a
        } else {
            share_b
        };
        narrow_to_u64(smaller)
    }
}

/// The tokens that burning `lp` of `supply` LP tokens pays out of `reserve`, or `None`
/// where they exceed the range of `u64`.
pub fn payout_amount(lp: u64, reserve: u64, supply: u64) -> (p: Option<u64>)
    requires
        supply > 0,
    ensures
        ({
            let w = withdrawal_payout(lp as int, reserve as int, supply as int);
            p == (if w <= u64::MAX {
                Some(w as u64)
            } else {
                None::<u64>
            })
        }),
{
    proof {
        lemma_u64_product_fits(lp, reserve);
    }
    narrow_to_u64(lp as u128 * reserve as u128 / supply as u128)
}

} // verus!
