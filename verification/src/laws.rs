//! The laws that the pool's arithmetic keeps, across its instructions.
use vstd::prelude::*;

use crate::instructions::{add_liquidity, remove_liquidity, swap};
use crate::math::{
    effective_input, is_floor_sqrt, lemma_floor_sqrt, lemma_lp_for_deposit_bounds, lesser,
    lp_for_deposit, swap_output, withdrawal_payout, BPS_DENOMINATOR,
};
use crate::state::Pool;

verus! {

/// Floor division by a positive number undershoots by less than the divisor.
proof fn lemma_floor_div(n: int, d: int)
    requires
        n >= 0,
        d > 0,
    ensures
        (n / d) * d <= n,
        n < (n / d + 1) * d,
        n / d >= 0,
{
    assert((n / d) * d <= n && n < (n / d + 1) * d && n / d >= 0) by (nonlinear_arith)
        requires
            n >= 0,
            d > 0,
    ;
}

/// The constant-product arithmetic: with `o = y * e / (x + e)` and `e <= i`, trading `i`
/// in for `o` out keeps `x * y` from shrinking, and grows it where `e < i` and both
/// reserves are non-empty.
proof fn lemma_product_after_trade(x: int, y: int, i: int, e: int)
    requires
        x >= 0,
        y >= 0,
        0 <= e <= i,
        x + e > 0,
    ensures
        0 <= y * e / (x + e) <= y,
        x > 0 && y > 0 ==> y * e / (x + e) < y,
        (x + i) * (y - y * e / (x + e)) >= x * y,
        e < i && x > 0 && y > 0 ==> (x + i) * (y - y * e / (x + e)) > x * y,
{
    let d = x + e;
    let o = y * e / d;
    assert(y * e >= 0) by (nonlinear_arith)
        requires
            y >= 0,
            e >= 0,
    ;
    lemma_floor_div(y * e, d);
    assert(o * d <= y * e);
    assert(y * e <= y * d) by (nonlinear_arith)
        requires
            y >= 0,
            e <= d,
    ;
    assert(o <= y) by (nonlinear_arith)
        requires
            o * d <= y * d,
            d > 0,
    ;
    if x > 0 && y > 0 {
        assert(y * e < y * d) by (nonlinear_arith)
            requires
                y > 0,
                e < d,
        ;
        assert(o < y) by (nonlinear_arith)
            requires
                o * d < y * d,
                d > 0,
        ;
    }
    assert((x + i) * (y - o) >= d * (y - o)) by (nonlinear_arith)
        requires
            x + i >= d,
            y - o >= 0,
    ;
    assert(d * (y - o) >= x * y) by (nonlinear_arith)
        requires
            d == x + e,
            o * d <= y * e,
    ;
    if e < i && x > 0 && y > 0 {
        assert((x + i) * (y - o) > d * (y - o)) by (nonlinear_arith)
            requires
                x + i > d,
                y - o > 0,
        ;
    }
}

/// A fee above zero discounts every non-empty input.
proof fn lemma_fee_discounts(amount_in: int, fee_bps: int)
    requires
        amount_in >= 0,
        0 <= fee_bps <= BPS_DENOMINATOR,
    ensures
        0 <= effective_input(amount_in, fee_bps) <= amount_in,
        fee_bps > 0 && amount_in > 0 ==> effective_input(amount_in, fee_bps) < amount_in,
{
    let keep = BPS_DENOMINATOR - fee_bps;
    assert(amount_in * keep >= 0 && amount_in * keep <= amount_in * 10000) by (nonlinear_arith)
        requires
            amount_in >= 0,
            0 <= keep <= 10000,
    ;
    lemma_floor_div(amount_in * keep, 10000);
    if fee_bps > 0 && amount_in > 0 {
        assert(amount_in * keep < amount_in * 10000) by (nonlinear_arith)
            requires
                amount_in > 0,
                keep < 10000,
        ;
    }
}

/// A swap never shrinks the product of the reserves, `k = reserve_a * reserve_b`; with a
/// fee above zero, on a pool whose reserves are both non-empty, it strictly grows it.
pub proof fn swap_never_shrinks_product(pool: Pool, a_to_b: bool, in_amount: u64, min_out: u64)
    requires
        swap::can_quote(pool, a_to_b, in_amount),
        swap::outcome(pool, a_to_b, in_amount, min_out).0 is Ok,
    ensures
        ({
            let after = swap::outcome(pool, a_to_b, in_amount, min_out).1;
            &&& after.reserve_a * after.reserve_b >= pool.reserve_a * pool.reserve_b
            &&& (pool.fee_bps > 0 && pool.reserve_a > 0 && pool.reserve_b > 0) ==> after.reserve_a
                * after.reserve_b > pool.reserve_a * pool.reserve_b
        }),
{
    let x = pool.reserve_in(a_to_b) as int;
    let y = pool.reserve_out(a_to_b) as int;
    let e = effective_input(in_amount as int, pool.fee_bps as int);
    lemma_fee_discounts(in_amount as int, pool.fee_bps as int);
    lemma_product_after_trade(x, y, in_amount as int, e);
    assert(x * y == y * x && (x + in_amount) * (y - y * e / (x + e)) == (y - y * e / (x + e)) * (x
        + in_amount)) by (nonlinear_arith);
}

/// A swap pays out less than its whole output reserve whenever the input reserve is not
/// empty: the pool is never drained by trading.
pub proof fn swap_never_drains(pool: Pool, a_to_b: bool, in_amount: u64, min_out: u64)
    requires
        swap::can_quote(pool, a_to_b, in_amount),
        pool.reserve_in(a_to_b) > 0,
        swap::quote_outcome(pool, a_to_b, in_amount, min_out) is Ok,
    ensures
        swap::quote_outcome(pool, a_to_b, in_amount, min_out)->Ok_0 < pool.reserve_out(a_to_b),
{
    let x = pool.reserve_in(a_to_b) as int;
    let y = pool.reserve_out(a_to_b) as int;
    let e = effective_input(in_amount as int, pool.fee_bps as int);
    lemma_fee_discounts(in_amount as int, pool.fee_bps as int);
    lemma_product_after_trade(x, y, in_amount as int, e);
}

/// A deposit into a pool that already has LP tokens never dilutes them: the LP tokens it
/// mints are no larger a share of the supply than either side of the deposit is of its
/// reserve (`lp * reserve_a <= a * supply`, `lp * reserve_b <= b * supply`).
pub proof fn deposit_never_dilutes(a_amount: u64, b_amount: u64, lp_supply: u64, reserve_a: u64, reserve_b: u64)
    requires
        lp_supply > 0,
        reserve_a > 0,
        reserve_b > 0,
    ensures
        ({
            let lp = lp_for_deposit(
                a_amount as int,
                b_amount as int,
                lp_supply as int,
                reserve_a as int,
                reserve_b as int,
            );
            &&& lp * reserve_a <= a_amount * lp_supply
            &&& lp * reserve_b <= b_amount * lp_supply
        }),
{
    let sa = a_amount * lp_supply / (reserve_a as int);
    let sb = b_amount * lp_supply / (reserve_b as int);
    assert(a_amount * lp_supply >= 0 && b_amount * lp_supply >= 0) by (nonlinear_arith)
        requires
            a_amount >= 0,
            b_amount >= 0,
            lp_supply >= 0,
    ;
    lemma_floor_div(a_amount * lp_supply, reserve_a as int);
    lemma_floor_div(b_amount * lp_supply, reserve_b as int);
    let lp = lesser(sa, sb);
    assert(lp * reserve_a <= sa * reserve_a) by (nonlinear_arith)
        requires
            lp <= sa,
            reserve_a > 0,
    ;
    assert(lp * reserve_b <= sb * reserve_b) by (nonlinear_arith)
        requires
            lp <= sb,
            reserve_b > 0,
    ;
}

/// The first deposit mints the integer geometric mean of its two sides:
/// `lp * lp <= a * b < (lp + 1) * (lp + 1)`, and at least one LP token.
pub proof fn first_deposit_mints_geometric_mean(a_amount: u64, b_amount: u64, reserve_a: u64, reserve_b: u64)
    requires
        a_amount > 0,
        b_amount > 0,
    ensures
        ({
            let lp = lp_for_deposit(a_amount as int, b_amount as int, 0, reserve_a as int, reserve_b as int);
            &&& is_floor_sqrt(lp, a_amount * b_amount)
            &&& lp >= 1
        }),
{
    assert(a_amount * b_amount >= 1) by (nonlinear_arith)
        requires
            a_amount >= 1,
            b_amount >= 1,
    ;
    lemma_floor_sqrt((a_amount * b_amount) as nat);
}

/// A withdrawal of at most the whole LP supply pays out at most the reserve; of less than
/// the whole supply, less than a non-empty reserve; of the whole supply, exactly the reserve.
pub proof fn withdrawal_within_reserve(lp_amount: u64, reserve: u64, lp_supply: u64)
    requires
        0 < lp_amount <= lp_supply,
    ensures
        0 <= withdrawal_payout(lp_amount as int, reserve as int, lp_supply as int) <= reserve,
        lp_amount < lp_supply && reserve > 0 ==> withdrawal_payout(
            lp_amount as int,
            reserve as int,
            lp_supply as int,
        ) < reserve,
        lp_amount == lp_supply ==> withdrawal_payout(lp_amount as int, reserve as int, lp_supply as int)
            == reserve,
{
    let n = lp_amount * reserve;
    assert(0 <= n <= lp_supply * reserve) by (nonlinear_arith)
        requires
            n == lp_amount * reserve,
            0 <= lp_amount <= lp_supply,
            reserve >= 0,
    ;
    lemma_floor_div(n, lp_supply as int);
    let q = n / (lp_supply as int);
    assert(q <= reserve) by (nonlinear_arith)
        requires
            q * lp_supply <= lp_supply * reserve,
            lp_supply > 0,
    ;
    if lp_amount < lp_supply && reserve > 0 {
        assert(n < lp_supply * reserve) by (nonlinear_arith)
            requires
                lp_amount < lp_supply,
                reserve > 0,
                n == lp_amount * reserve,
        ;
        assert(q < reserve) by (nonlinear_arith)
            requires
                q * lp_supply < lp_supply * reserve,
                lp_supply > 0,
        ;
    }
    if lp_amount == lp_supply {
        assert(n == reserve * lp_supply) by (nonlinear_arith)
            requires
                n == lp_amount * reserve,
                lp_amount == lp_supply,
        ;
        assert(q == reserve) by (nonlinear_arith)
            requires
                q * lp_supply <= n,
                n < (q + 1) * lp_supply,
                n == reserve * lp_supply,
                lp_supply > 0,
        ;
    }
}

/// On a pool consistent with its LP supply, a deposit is always priced without dividing
/// by an empty reserve.
pub proof fn consistent_pool_prices_deposits(pool: Pool, lp_supply: u64, a_amount: u64, b_amount: u64)
    requires
        pool.consistent(lp_supply as int),
    ensures
        add_liquidity::can_quote(pool, lp_supply, a_amount, b_amount),
{
}

/// A deposit that succeeds keeps the pool consistent with the LP supply grown by the
/// LP tokens it mints.
pub proof fn deposit_keeps_consistency(pool: Pool, lp_supply: u64, a_amount: u64, b_amount: u64, min_lp_out: u64)
    requires
        pool.consistent(lp_supply as int),
    ensures
        ({
            let (minted, after) = add_liquidity::outcome(pool, lp_supply, a_amount, b_amount, min_lp_out);
            minted is Ok ==> after.consistent(lp_supply + minted->Ok_0)
        }),
{
    lemma_lp_for_deposit_bounds(a_amount, b_amount, lp_supply, pool.reserve_a, pool.reserve_b);
    if add_liquidity::quote_outcome(pool, lp_supply, a_amount, b_amount, min_lp_out) is Ok {
        assert(add_liquidity::quote_outcome(pool, lp_supply, a_amount, b_amount, min_lp_out)->Ok_0 > 0);
    }
}

/// A swap that succeeds keeps the pool consistent with the (unchanged) LP supply: it
/// never empties a reserve, and never fills an empty pool.
pub proof fn swap_keeps_consistency(pool: Pool, lp_supply: u64, a_to_b: bool, in_amount: u64, min_out: u64)
    requires
        pool.consistent(lp_supply as int),
        swap::can_quote(pool, a_to_b, in_amount),
    ensures
        swap::outcome(pool, a_to_b, in_amount, min_out).0 is Ok ==> swap::outcome(
            pool,
            a_to_b,
            in_amount,
            min_out,
        ).1.consistent(lp_supply as int),
{
    if swap::outcome(pool, a_to_b, in_amount, min_out).0 is Ok {
        let x = pool.reserve_in(a_to_b) as int;
        let y = pool.reserve_out(a_to_b) as int;
        let e = effective_input(in_amount as int, pool.fee_bps as int);
        lemma_fee_discounts(in_amount as int, pool.fee_bps as int);
        lemma_product_after_trade(x, y, in_amount as int, e);
        if lp_supply == 0 {
            assert(y * e == 0) by (nonlinear_arith)
                requires
                    y == 0,
            ;
            assert(swap_output(x, y, in_amount as int, pool.fee_bps as int) == 0);
        }
    }
}

/// A withdrawal of at most the whole LP supply that succeeds keeps the pool consistent
/// with the LP supply shrunk by the LP tokens it burns.
pub proof fn withdrawal_keeps_consistency(pool: Pool, lp_supply: u64, lp_amount: u64)
    requires
        pool.consistent(lp_supply as int),
        lp_amount <= lp_supply,
        remove_liquidity::can_quote(lp_supply, lp_amount),
    ensures
        remove_liquidity::outcome(pool, lp_supply, lp_amount).0 is Ok ==> remove_liquidity::outcome(
            pool,
            lp_supply,
            lp_amount,
        ).1.consistent(lp_supply - lp_amount),
{
    if lp_amount > 0 {
        withdrawal_within_reserve(lp_amount, pool.reserve_a, lp_supply);
        withdrawal_within_reserve(lp_amount, pool.reserve_b, lp_supply);
    }
}

/// Depositing and at once withdrawing the LP tokens minted never returns more than was
/// deposited; from an empty pool it returns the deposit exactly.
pub proof fn round_trip_returns_at_most_deposit(
    pool: Pool,
    lp_supply: u64,
    a_amount: u64,
    b_amount: u64,
    min_lp_out: u64,
)
    requires
        pool.consistent(lp_supply as int),
    ensures
        ({
            let (minted, after) = add_liquidity::outcome(pool, lp_supply, a_amount, b_amount, min_lp_out);
            minted is Ok && lp_supply + minted->Ok_0 <= u64::MAX ==> {
                let lp = minted->Ok_0;
                let supply_after = (lp_supply + lp) as u64;
                let paid = remove_liquidity::quote_outcome(after, supply_after, lp);
                &&& remove_liquidity::can_quote(supply_after, lp)
                &&& paid is Ok
                &&& paid->Ok_0.0 <= a_amount
                &&& paid->Ok_0.1 <= b_amount
                &&& lp_supply == 0 ==> paid->Ok_0.0 == a_amount && paid->Ok_0.1 == b_amount
            }
        }),
{
    let res = add_liquidity::outcome(pool, lp_supply, a_amount, b_amount, min_lp_out);
    lemma_lp_for_deposit_bounds(a_amount, b_amount, lp_supply, pool.reserve_a, pool.reserve_b);
    if res.0 is Ok && lp_supply + res.0->Ok_0 <= u64::MAX {
        let lp = res.0->Ok_0;
        let after = res.1;
        assert(after.reserve_a == pool.reserve_a + a_amount);
        assert(after.reserve_b == pool.reserve_b + b_amount);
        if lp_supply == 0 {
            assert(lp * a_amount / (lp as int) == a_amount && lp * b_amount / (lp as int) == b_amount)
                by (nonlinear_arith)
                requires
                    lp > 0,
            ;
        } else {
            deposit_never_dilutes(a_amount, b_amount, lp_supply, pool.reserve_a, pool.reserve_b);
            round_trip_side(lp as int, pool.reserve_a as int, a_amount as int, lp_supply as int);
            round_trip_side(lp as int, pool.reserve_b as int, b_amount as int, lp_supply as int);
        }
    }
}

/// One side of a round trip: from `lp * r <= x * s`, the share `lp` of `s + lp` of the
/// reserve `r + x` is at most `x`.
proof fn round_trip_side(lp: int, r: int, x: int, s: int)
    requires
        lp > 0,
        r >= 0,
        x >= 0,
        s > 0,
        lp * r <= x * s,
    ensures
        lp * (r + x) / (s + lp) <= x,
        lp * (r + x) >= 0,
{
    assert(lp * (r + x) <= x * (s + lp) && lp * (r + x) >= 0) by (nonlinear_arith)
        requires
            lp * r <= x * s,
            lp > 0,
            r >= 0,
            x >= 0,
    ;
    lemma_floor_div(lp * (r + x), s + lp);
    assert(lp * (r + x) / (s + lp) <= x) by (nonlinear_arith)
        requires
            (lp * (r + x) / (s + lp)) * (s + lp) <= x * (s + lp),
            s + lp > 0,
    ;
}

/// Floor division respects the order of the fractions: `a / b <= c / d` where
/// `a * d <= c * b`.
proof fn lemma_floor_div_ordered(a: int, b: int, c: int, d: int)
    requires
        a >= 0,
        c >= 0,
        b > 0,
        d > 0,
        a * d <= c * b,
    ensures
        a / b <= c / d,
{
    lemma_floor_div(a, b);
    lemma_floor_div(c, d);
    let q = a / b;
    assert(q * b * d <= c * b) by (nonlinear_arith)
        requires
            q * b <= a,
            a * d <= c * b,
            d > 0,
    ;
    assert(q * d <= c) by (nonlinear_arith)
        requires
            q * b * d <= c * b,
            b > 0,
    ;
    assert(q <= c / d) by (nonlinear_arith)
        requires
            q * d <= c,
            c < (c / d + 1) * d,
            d > 0,
    ;
}

/// The constant-product output grows with the (discounted) input: `y * e / (x + e)` is
/// monotone in `e`.
proof fn lemma_output_monotone(x: int, y: int, e1: int, e2: int)
    requires
        x >= 0,
        y >= 0,
        0 <= e1 <= e2,
        x + e1 > 0,
    ensures
        y * e1 / (x + e1) <= y * e2 / (x + e2),
{
    assert(y * e1 >= 0 && y * e2 >= 0) by (nonlinear_arith)
        requires
            y >= 0,
            e1 >= 0,
            e2 >= 0,
    ;
    assert((y * e1) * (x + e2) <= (y * e2) * (x + e1)) by (nonlinear_arith)
        requires
            x >= 0,
            y >= 0,
            0 <= e1 <= e2,
    ;
    lemma_floor_div_ordered(y * e1, x + e1, y * e2, x + e2);
}

/// A larger swap input never pays out less.
pub proof fn swap_output_grows_with_input(pool: Pool, a_to_b: bool, smaller: u64, larger: u64)
    requires
        smaller <= larger,
        pool.fee_bps <= BPS_DENOMINATOR,
        pool.reserve_in(a_to_b) + effective_input(smaller as int, pool.fee_bps as int) > 0,
    ensures
        swap_output(pool.reserve_in(a_to_b) as int, pool.reserve_out(a_to_b) as int, smaller as int, pool.fee_bps as int)
            <= swap_output(pool.reserve_in(a_to_b) as int, pool.reserve_out(a_to_b) as int, larger as int, pool.fee_bps as int),
{
    let f = pool.fee_bps as int;
    let keep = BPS_DENOMINATOR - f;
    lemma_fee_discounts(smaller as int, f);
    lemma_fee_discounts(larger as int, f);
    assert(smaller * keep <= larger * keep && smaller * keep >= 0) by (nonlinear_arith)
        requires
            smaller <= larger,
            0 <= smaller,
            keep >= 0,
    ;
    lemma_floor_div_ordered(smaller * keep, 10000, larger * keep, 10000);
    lemma_output_monotone(
        pool.reserve_in(a_to_b) as int,
        pool.reserve_out(a_to_b) as int,
        effective_input(smaller as int, f),
        effective_input(larger as int, f),
    );
}

/// Swapping tokens in and at once swapping the output back never returns more than the
/// first input.
pub proof fn swap_round_trip_returns_at_most_input(
    pool: Pool,
    a_to_b: bool,
    in_amount: u64,
    min_out: u64,
    min_back: u64,
)
    requires
        swap::can_quote(pool, a_to_b, in_amount),
        swap::outcome(pool, a_to_b, in_amount, min_out).0 is Ok,
        swap::can_quote(
            swap::outcome(pool, a_to_b, in_amount, min_out).1,
            !a_to_b,
            swap::outcome(pool, a_to_b, in_amount, min_out).0->Ok_0,
        ),
    ensures
        ({
            let (paid, after) = swap::outcome(pool, a_to_b, in_amount, min_out);
            let back = swap::quote_outcome(after, !a_to_b, paid->Ok_0, min_back);
            back is Ok ==> back->Ok_0 <= in_amount
        }),
{
    let (paid, after) = swap::outcome(pool, a_to_b, in_amount, min_out);
    let out = paid->Ok_0 as int;
    let x = pool.reserve_in(a_to_b) as int;
    let y = pool.reserve_out(a_to_b) as int;
    let f = pool.fee_bps as int;
    let e = effective_input(in_amount as int, f);
    let i = in_amount as int;
    lemma_fee_discounts(in_amount as int, f);
    lemma_product_after_trade(x, y, i, e);
    assert(out == y * e / (x + e));
    lemma_floor_div(y * e, x + e);
    // The first trade pays no more than its input is worth at the new price.
    assert(out * (x + i) <= y * i) by (nonlinear_arith)
        requires
            out * (x + e) <= y * e,
            0 <= out <= y,
            0 <= e <= i,
            x >= 0,
    ;
    assert(after.reserve_in(!a_to_b) == y - out);
    assert(after.reserve_out(!a_to_b) == x + i);
    let back = swap::quote_outcome(after, !a_to_b, out as u64, min_back);
    if back is Ok {
        let e2 = effective_input(out, f);
        lemma_fee_discounts(out, f);
        let d = y - out + e2;
        assert(d > 0);
        let n = (x + i) * e2;
        assert(n >= 0) by (nonlinear_arith)
            requires
                x + i >= 0,
                e2 >= 0,
                n == (x + i) * e2,
        ;
        assert(n <= i * d) by (nonlinear_arith)
            requires
                n == (x + i) * e2,
                d == y - out + e2,
                out * (x + i) <= y * i,
                0 <= e2 <= out,
                x >= 0,
                i >= 0,
        ;
        lemma_floor_div(n, d);
        assert(n / d <= i) by (nonlinear_arith)
            requires
                (n / d) * d <= n,
                n <= i * d,
                d > 0,
        ;
    }
}

/// A deposit that succeeds, into a pool with LP tokens, never lowers what each LP token is
/// backed by: `reserve_after * supply >= reserve_before * supply_after` on both sides.
pub proof fn deposit_keeps_backing(pool: Pool, lp_supply: u64, a_amount: u64, b_amount: u64, min_lp_out: u64)
    requires
        lp_supply > 0,
        pool.reserve_a > 0,
        pool.reserve_b > 0,
    ensures
        ({
            let (minted, after) = add_liquidity::outcome(pool, lp_supply, a_amount, b_amount, min_lp_out);
            minted is Ok ==> {
                &&& after.reserve_a * lp_supply >= pool.reserve_a * (lp_supply + minted->Ok_0)
                &&& after.reserve_b * lp_supply >= pool.reserve_b * (lp_supply + minted->Ok_0)
            }
        }),
{
    let (minted, after) = add_liquidity::outcome(pool, lp_supply, a_amount, b_amount, min_lp_out);
    if minted is Ok {
        let lp = minted->Ok_0 as int;
        deposit_never_dilutes(a_amount, b_amount, lp_supply, pool.reserve_a, pool.reserve_b);
        let s = lp_supply as int;
        let ra = pool.reserve_a as int;
        let rb = pool.reserve_b as int;
        assert((ra + a_amount) * s >= ra * (s + lp)) by (nonlinear_arith)
            requires
                lp * ra <= a_amount * s,
        ;
        assert((rb + b_amount) * s >= rb * (s + lp)) by (nonlinear_arith)
            requires
                lp * rb <= b_amount * s,
        ;
    }
}

/// A withdrawal that succeeds never lowers what each remaining LP token is backed by:
/// `reserve_after * supply >= reserve_before * supply_after` on both sides.
pub proof fn withdrawal_keeps_backing(pool: Pool, lp_supply: u64, lp_amount: u64)
    requires
        remove_liquidity::can_quote(lp_supply, lp_amount),
    ensures
        ({
            let (paid, after) = remove_liquidity::outcome(pool, lp_supply, lp_amount);
            paid is Ok ==> {
                &&& after.reserve_a * lp_supply >= pool.reserve_a * (lp_supply - lp_amount)
                &&& after.reserve_b * lp_supply >= pool.reserve_b * (lp_supply - lp_amount)
            }
        }),
{
    let (paid, after) = remove_liquidity::outcome(pool, lp_supply, lp_amount);
    if paid is Ok {
        let s = lp_supply as int;
        let l = lp_amount as int;
        let ra = pool.reserve_a as int;
        let rb = pool.reserve_b as int;
        assert(l * ra >= 0 && l * rb >= 0) by (nonlinear_arith)
            requires
                l >= 0,
                ra >= 0,
                rb >= 0,
        ;
        lemma_floor_div(l * ra, s);
        lemma_floor_div(l * rb, s);
        let pa = paid->Ok_0.0 as int;
        let pb = paid->Ok_0.1 as int;
        assert(pa == l * ra / s && pb == l * rb / s);
        assert((ra - pa) * s >= ra * (s - l)) by (nonlinear_arith)
            requires
                pa * s <= l * ra,
        ;
        assert((rb - pb) * s >= rb * (s - l)) by (nonlinear_arith)
            requires
                pb * s <= l * rb,
        ;
    }
}

/// Swapping B for A on a pool prices and books exactly as swapping A for B on the same
/// pool with its two reserves exchanged.
pub proof fn swap_directions_mirror(pool: Pool, mirrored: Pool, in_amount: u64, min_out: u64)
    requires
        mirrored == pool.with_reserves(pool.reserve_b as int, pool.reserve_a as int),
    ensures
        swap::can_quote(pool, false, in_amount) == swap::can_quote(mirrored, true, in_amount),
        swap::outcome(pool, false, in_amount, min_out).0 == swap::outcome(mirrored, true, in_amount, min_out).0,
        swap::outcome(pool, false, in_amount, min_out).1.reserve_a == swap::outcome(
            mirrored,
            true,
            in_amount,
            min_out,
        ).1.reserve_b,
        swap::outcome(pool, false, in_amount, min_out).1.reserve_b == swap::outcome(
            mirrored,
            true,
            in_amount,
            min_out,
        ).1.reserve_a,
{
}

/// A swap is priced and booked from the pool's cached reserves and fee alone: two pools
/// that agree on these (whatever their vaults hold) give the same result and end with the
/// same reserves.
pub proof fn swap_depends_only_on_cached_reserves(pool: Pool, other: Pool, a_to_b: bool, in_amount: u64, min_out: u64)
    requires
        pool.reserve_a == other.reserve_a,
        pool.reserve_b == other.reserve_b,
        pool.fee_bps == other.fee_bps,
    ensures
        swap::can_quote(pool, a_to_b, in_amount) == swap::can_quote(other, a_to_b, in_amount),
        swap::outcome(pool, a_to_b, in_amount, min_out).0 == swap::outcome(other, a_to_b, in_amount, min_out).0,
        swap::outcome(pool, a_to_b, in_amount, min_out).1.reserve_a == swap::outcome(
            other,
            a_to_b,
            in_amount,
            min_out,
        ).1.reserve_a,
        swap::outcome(pool, a_to_b, in_amount, min_out).1.reserve_b == swap::outcome(
            other,
            a_to_b,
            in_amount,
            min_out,
        ).1.reserve_b,
{
}

} // verus!
