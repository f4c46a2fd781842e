//! What each computation of the pool returns, pinned down in plain arithmetic on its
//! inputs: every refusal with the inputs that cause it, and every amount by the
//! inequalities that make it the rounded-down value the instruction promises.
use vstd::prelude::*;

use crate::error::ErrorCode;
use crate::instructions::{add_liquidity, remove_liquidity, swap};
use crate::math::{
    effective_input, floor_sqrt, lemma_floor_sqrt, lp_for_deposit, swap_output, withdrawal_payout,
};
use crate::state::Pool;

verus! {

/// Floor division: `q = n / d` satisfies `q * d <= n < (q + 1) * d`.
proof fn lemma_floor_bounds(n: int, d: int)
    requires
        n >= 0,
        d > 0,
    ensures
        (n / d) * d <= n,
        n < (n / d + 1) * d,
{
    assert((n / d) * d <= n && n < (n / d + 1) * d) by (nonlinear_arith)
        requires
            n >= 0,
            d > 0,
    ;
}

/// Any `m` with `m * d <= n` is at most `n / d`.
proof fn lemma_at_most_quotient(n: int, d: int, m: int)
    requires
        n >= 0,
        d > 0,
        m * d <= n,
    ensures
        m <= n / d,
{
    lemma_floor_bounds(n, d);
    let q = n / d;
    assert(m <= q) by (nonlinear_arith)
        requires
            m * d <= n,
            n < (q + 1) * d,
            d > 0,
    ;
}

/// Any `m` with `n < (m + 1) * d` is at least `n / d`.
proof fn lemma_at_least_quotient(n: int, d: int, m: int)
    requires
        n >= 0,
        d > 0,
        n < (m + 1) * d,
    ensures
        n / d <= m,
{
    lemma_floor_bounds(n, d);
    let q = n / d;
    assert(q <= m) by (nonlinear_arith)
        requires
            q * d <= n,
            n < (m + 1) * d,
            d > 0,
    ;
}

/// The quotient is the only `q` with `q * d <= n < (q + 1) * d`.
proof fn lemma_quotient_is(n: int, d: int, q: int)
    requires
        n >= 0,
        d > 0,
        q * d <= n,
        n < (q + 1) * d,
    ensures
        n / d == q,
{
    lemma_at_most_quotient(n, d, q);
    lemma_at_least_quotient(n, d, q);
}

/// The integer square root is the `r >= 0` with `r * r <= n < (r + 1) * (r + 1)`.
pub proof fn floor_sqrt_law(n: nat)
    ensures
        floor_sqrt(n) * floor_sqrt(n) <= n,
        n < (floor_sqrt(n) + 1) * (floor_sqrt(n) + 1),
{
    lemma_floor_sqrt(n);
}

/// The fee-discounted input `e` of `amount_in` at `fee_bps` basis points is
/// `amount_in * (10_000 - fee_bps) / 10_000` rounded down:
/// `e * 10_000 <= amount_in * (10_000 - fee_bps) < (e + 1) * 10_000`.
pub proof fn effective_input_law(amount_in: int, fee_bps: int)
    requires
        amount_in >= 0,
        0 <= fee_bps <= 10_000,
    ensures
        effective_input(amount_in, fee_bps) * 10_000 <= amount_in * (10_000 - fee_bps),
        amount_in * (10_000 - fee_bps) < (effective_input(amount_in, fee_bps) + 1) * 10_000,
{
    assert(amount_in * (10_000 - fee_bps) >= 0) by (nonlinear_arith)
        requires
            amount_in >= 0,
            fee_bps <= 10_000,
    ;
    lemma_floor_bounds(amount_in * (10_000 - fee_bps), 10_000);
}

/// The swap output `o` for a discounted input `e` is `reserve_out * e / (reserve_in + e)`
/// rounded down: `o * (reserve_in + e) <= reserve_out * e < (o + 1) * (reserve_in + e)`.
pub proof fn swap_output_law(reserve_in: int, reserve_out: int, amount_in: int, fee_bps: int)
    requires
        reserve_in >= 0,
        reserve_out >= 0,
        amount_in >= 0,
        0 <= fee_bps <= 10_000,
        reserve_in + effective_input(amount_in, fee_bps) > 0,
    ensures
        ({
            let e = effective_input(amount_in, fee_bps);
            let o = swap_output(reserve_in, reserve_out, amount_in, fee_bps);
            &&& o * (reserve_in + e) <= reserve_out * e
            &&& reserve_out * e < (o + 1) * (reserve_in + e)
        }),
{
    effective_input_law(amount_in, fee_bps);
    let e = effective_input(amount_in, fee_bps);
    assert(e >= 0) by (nonlinear_arith)
        requires
            e * 10_000 <= amount_in * (10_000 - fee_bps),
            amount_in * (10_000 - fee_bps) < (e + 1) * 10_000,
            amount_in * (10_000 - fee_bps) >= 0,
    ;
    assert(reserve_out * e >= 0) by (nonlinear_arith)
        requires
            reserve_out >= 0,
            e >= 0,
    ;
    lemma_floor_bounds(reserve_out * e, reserve_in + e);
}

/// The LP tokens `m` that a deposit earns: with no LP supply the integer square root of
/// `a * b`; else the largest `m` with `m * reserve_a <= a * supply` and
/// `m * reserve_b <= b * supply`.
pub proof fn lp_for_deposit_law(a: int, b: int, supply: int, reserve_a: int, reserve_b: int)
    requires
        a >= 0,
        b >= 0,
        supply >= 0,
        supply > 0 ==> reserve_a > 0 && reserve_b > 0,
    ensures
        ({
            let m = lp_for_deposit(a, b, supply, reserve_a, reserve_b);
            &&& m >= 0
            &&& supply == 0 ==> m * m <= a * b && a * b < (m + 1) * (m + 1)
            &&& supply > 0 ==> {
                &&& m * reserve_a <= a * supply
                &&& m * reserve_b <= b * supply
                &&& (m + 1) * reserve_a > a * supply || (m + 1) * reserve_b > b * supply
            }
        }),
{
    assert(a * b >= 0 && a * supply >= 0 && b * supply >= 0) by (nonlinear_arith)
        requires
            a >= 0,
            b >= 0,
            supply >= 0,
    ;
    if supply == 0 {
        lemma_floor_sqrt((a * b) as nat);
    } else {
        lemma_floor_bounds(a * supply, reserve_a);
        lemma_floor_bounds(b * supply, reserve_b);
        let sa = a * supply / reserve_a;
        let sb = b * supply / reserve_b;
        assert(sa >= 0 && sb >= 0) by (nonlinear_arith)
            requires
                sa * reserve_a <= a * supply,
                a * supply < (sa + 1) * reserve_a,
                sb * reserve_b <= b * supply,
                b * supply < (sb + 1) * reserve_b,
                a * supply >= 0,
                b * supply >= 0,
                reserve_a > 0,
                reserve_b > 0,
        ;
        if sa <= sb {
            assert(sa * reserve_b <= b * supply) by (nonlinear_arith)
                requires
                    sa <= sb,
                    sb * reserve_b <= b * supply,
                    reserve_b > 0,
            ;
        } else {
            assert(sb * reserve_a <= a * supply) by (nonlinear_arith)
                requires
                    sb < sa,
                    sa * reserve_a <= a * supply,
                    reserve_a > 0,
            ;
        }
    }
}

/// The payout `p` of burning `lp` of `supply` LP tokens is the share of `reserve`
/// rounded down: `p * supply <= lp * reserve < (p + 1) * supply`.
pub proof fn withdrawal_payout_law(lp: int, reserve: int, supply: int)
    requires
        lp >= 0,
        reserve >= 0,
        supply > 0,
    ensures
        withdrawal_payout(lp, reserve, supply) * supply <= lp * reserve,
        lp * reserve < (withdrawal_payout(lp, reserve, supply) + 1) * supply,
{
    assert(lp * reserve >= 0) by (nonlinear_arith)
        requires
            lp >= 0,
            reserve >= 0,
    ;
    lemma_floor_bounds(lp * reserve, supply);
}

/// A deposit with an empty side is refused with `ZeroDeposit`.
pub proof fn deposit_refuses_empty_side(pool: Pool, lp_supply: u64, a_amount: u64, b_amount: u64, min_lp_out: u64)
    requires
        a_amount == 0 || b_amount == 0,
    ensures
        add_liquidity::quote_outcome(pool, lp_supply, a_amount, b_amount, min_lp_out) == Err::<u64, ErrorCode>(
            ErrorCode::ZeroDeposit,
        ),
{
}

/// A deposit with both sides non-empty is decided by the LP tokens `m` it earns (the
/// integer square root of `a * b` with no LP supply, else the largest `m` with
/// `m * reserve_a <= a * supply` and `m * reserve_b <= b * supply`): it is refused with
/// `Overflow` if `m` exceeds `u64`, then with `SlippageExceeded` if `m` is below the
/// caller's floor, then with `LPDust` if `m` is zero; otherwise it mints exactly `m`.
pub proof fn deposit_quote_law(
    pool: Pool,
    lp_supply: u64,
    a_amount: u64,
    b_amount: u64,
    min_lp_out: u64,
    m: int,
)
    requires
        a_amount > 0,
        b_amount > 0,
        m >= 0,
        lp_supply == 0 ==> m * m <= a_amount * b_amount && a_amount * b_amount < (m + 1) * (m + 1),
        lp_supply > 0 ==> {
            &&& pool.reserve_a > 0
            &&& pool.reserve_b > 0
            &&& m * pool.reserve_a <= a_amount * lp_supply
            &&& m * pool.reserve_b <= b_amount * lp_supply
            &&& (m + 1) * pool.reserve_a > a_amount * lp_supply || (m + 1) * pool.reserve_b > b_amount
                * lp_supply
        },
    ensures
        add_liquidity::quote_outcome(pool, lp_supply, a_amount, b_amount, min_lp_out) == (if m > u64::MAX {
            Err(ErrorCode::Overflow)
        } else if m < min_lp_out {
            Err(ErrorCode::SlippageExceeded)
        } else if m == 0 {
            Err(ErrorCode::LPDust)
        } else {
            Ok(m as u64)
        }),
{
    let a = a_amount as int;
    let b = b_amount as int;
    let s = lp_supply as int;
    let ra = pool.reserve_a as int;
    let rb = pool.reserve_b as int;
    lp_for_deposit_law(a, b, s, ra, rb);
    let lp = lp_for_deposit(a, b, s, ra, rb);
    if s == 0 {
        lemma_floor_sqrt((a * b) as nat);
        assert(crate::math::is_floor_sqrt(m, a * b));
        assert(m == lp);
    } else {
        assert(a * s >= 0 && b * s >= 0) by (nonlinear_arith)
            requires
                a >= 0,
                b >= 0,
                s >= 0,
        ;
        lemma_at_most_quotient(a * s, ra, m);
        lemma_at_most_quotient(b * s, rb, m);
        if (m + 1) * ra > a * s {
            lemma_at_least_quotient(a * s, ra, m);
        } else {
            lemma_at_least_quotient(b * s, rb, m);
        }
        assert(m == lp);
    }
}

/// A deposit that is accepted mints at least the caller's floor and at least one LP token,
/// and never more than it earns: at most the integer square root of `a * b` with no LP
/// supply, else no larger a share of the supply than either side is of its reserve.
pub proof fn deposit_quote_guarantees(pool: Pool, lp_supply: u64, a_amount: u64, b_amount: u64, min_lp_out: u64)
    requires
        add_liquidity::can_quote(pool, lp_supply, a_amount, b_amount),
    ensures
        add_liquidity::quote_outcome(pool, lp_supply, a_amount, b_amount, min_lp_out) is Ok ==> {
            let lp = add_liquidity::quote_outcome(pool, lp_supply, a_amount, b_amount, min_lp_out)->Ok_0;
            &&& a_amount > 0 && b_amount > 0
            &&& lp >= min_lp_out
            &&& lp >= 1
            &&& lp_supply == 0 ==> lp * lp <= a_amount * b_amount
            &&& lp_supply > 0 ==> lp * pool.reserve_a <= a_amount * lp_supply && lp * pool.reserve_b
                <= b_amount * lp_supply
        },
{
    if a_amount > 0 && b_amount > 0 {
        lp_for_deposit_law(
            a_amount as int,
            b_amount as int,
            lp_supply as int,
            pool.reserve_a as int,
            pool.reserve_b as int,
        );
    }
}

/// A swap of zero tokens is refused with `ZeroDeposit`.
pub proof fn swap_refuses_empty_input(pool: Pool, a_to_b: bool, min_out: u64)
    ensures
        swap::quote_outcome(pool, a_to_b, 0, min_out) == Err::<u64, ErrorCode>(ErrorCode::ZeroDeposit),
{
}

/// A swap of a non-empty input is decided by its output `o`: with `e` the input rounded
/// down after the fee (`e * 10_000 <= in * (10_000 - fee_bps) < (e + 1) * 10_000`) and
/// `x`, `y` the reserves the input goes into and the output comes from, `o` is
/// `y * e / (x + e)` rounded down. It is refused with `LPDust` if `o` is zero, then with
/// `SlippageExceeded` if `o` is below the caller's floor; otherwise it pays exactly `o`,
/// which never exceeds `y`.
pub proof fn swap_quote_law(pool: Pool, a_to_b: bool, in_amount: u64, min_out: u64, e: int, o: int)
    requires
        in_amount > 0,
        pool.fee_bps <= 10_000,
        e * 10_000 <= in_amount * (10_000 - pool.fee_bps),
        in_amount * (10_000 - pool.fee_bps) < (e + 1) * 10_000,
        ({
            let x = (if a_to_b { pool.reserve_a } else { pool.reserve_b }) as int;
            let y = (if a_to_b { pool.reserve_b } else { pool.reserve_a }) as int;
            &&& x + e > 0
            &&& o * (x + e) <= y * e
            &&& y * e < (o + 1) * (x + e)
        }),
    ensures
        0 <= o <= (if a_to_b { pool.reserve_b } else { pool.reserve_a }),
        swap::quote_outcome(pool, a_to_b, in_amount, min_out) == (if o == 0 {
            Err(ErrorCode::LPDust)
        } else if o < min_out {
            Err(ErrorCode::SlippageExceeded)
        } else {
            Ok(o as u64)
        }),
{
    let x = (if a_to_b { pool.reserve_a } else { pool.reserve_b }) as int;
    let y = (if a_to_b { pool.reserve_b } else { pool.reserve_a }) as int;
    let f = pool.fee_bps as int;
    let n = in_amount * (10_000 - f);
    assert(n >= 0) by (nonlinear_arith)
        requires
            n == in_amount * (10_000 - f),
            f <= 10_000,
            in_amount >= 0,
    ;
    lemma_quotient_is(n, 10_000, e);
    assert(e == effective_input(in_amount as int, f));
    assert(e >= 0) by (nonlinear_arith)
        requires
            n < (e + 1) * 10_000,
            n >= 0,
    ;
    assert(0 <= y * e <= y * (x + e)) by (nonlinear_arith)
        requires
            y >= 0,
            e >= 0,
            x >= 0,
    ;
    lemma_quotient_is(y * e, x + e, o);
    assert(0 <= o <= y) by (nonlinear_arith)
        requires
            o * (x + e) <= y * (x + e),
            y * e < (o + 1) * (x + e),
            y * e >= 0,
            x + e > 0,
    ;
    assert(o == swap_output(x, y, in_amount as int, f));
}

/// A swap that is accepted pays at least the caller's floor and at least one token,
/// never more than the output reserve, and never more than the input is worth at the
/// price the trade ends at: `out * (x + in) <= y * in`.
pub proof fn swap_quote_guarantees(pool: Pool, a_to_b: bool, in_amount: u64, min_out: u64)
    requires
        swap::can_quote(pool, a_to_b, in_amount),
    ensures
        swap::quote_outcome(pool, a_to_b, in_amount, min_out) is Ok ==> {
            let out = swap::quote_outcome(pool, a_to_b, in_amount, min_out)->Ok_0;
            let x = (if a_to_b { pool.reserve_a } else { pool.reserve_b }) as int;
            let y = (if a_to_b { pool.reserve_b } else { pool.reserve_a }) as int;
            &&& in_amount > 0
            &&& out >= min_out
            &&& out >= 1
            &&& out <= y
            &&& out * (x + in_amount) <= y * in_amount
        },
{
    if in_amount > 0 {
        let x = (if a_to_b { pool.reserve_a } else { pool.reserve_b }) as int;
        let y = (if a_to_b { pool.reserve_b } else { pool.reserve_a }) as int;
        let f = pool.fee_bps as int;
        let i = in_amount as int;
        effective_input_law(i, f);
        swap_output_law(x, y, i, f);
        let e = effective_input(i, f);
        let o = swap_output(x, y, i, f);
        assert(e >= 0 && e <= i) by (nonlinear_arith)
            requires
                e * 10_000 <= i * (10_000 - f),
                i * (10_000 - f) < (e + 1) * 10_000,
                0 <= f <= 10_000,
                i >= 0,
        ;
        assert(0 <= y * e <= y * (x + e)) by (nonlinear_arith)
            requires
                y >= 0,
                e >= 0,
                x >= 0,
        ;
        assert(0 <= o <= y) by (nonlinear_arith)
            requires
                o * (x + e) <= y * (x + e),
                y * e < (o + 1) * (x + e),
                y * e >= 0,
                x + e > 0,
        ;
        assert(o * (x + i) <= y * i) by (nonlinear_arith)
            requires
                o * (x + e) <= y * e,
                0 <= o <= y,
                0 <= e <= i,
                x >= 0,
        ;
    }
}

/// A withdrawal of zero LP tokens is refused with `ZeroWithdrawal`.
pub proof fn withdrawal_refuses_zero(pool: Pool, lp_supply: u64)
    ensures
        remove_liquidity::quote_outcome(pool, lp_supply, 0) == Err::<(u64, u64), ErrorCode>(
            ErrorCode::ZeroWithdrawal,
        ),
{
}

/// A withdrawal of `lp > 0` LP tokens pays each reserve's share rounded down
/// (`pa * supply <= lp * reserve_a < (pa + 1) * supply`, and so for `pb`), and is refused
/// with `Overflow` if a share exceeds `u64`.
pub proof fn withdrawal_quote_law(pool: Pool, lp_supply: u64, lp_amount: u64, pa: int, pb: int)
    requires
        lp_amount > 0,
        lp_supply > 0,
        pa * lp_supply <= lp_amount * pool.reserve_a,
        lp_amount * pool.reserve_a < (pa + 1) * lp_supply,
        pb * lp_supply <= lp_amount * pool.reserve_b,
        lp_amount * pool.reserve_b < (pb + 1) * lp_supply,
    ensures
        remove_liquidity::quote_outcome(pool, lp_supply, lp_amount) == (if pa > u64::MAX || pb > u64::MAX {
            Err(ErrorCode::Overflow)
        } else {
            Ok((pa as u64, pb as u64))
        }),
{
    assert(lp_amount * pool.reserve_a >= 0 && lp_amount * pool.reserve_b >= 0) by (nonlinear_arith)
        requires
            lp_amount >= 0,
            pool.reserve_a >= 0,
            pool.reserve_b >= 0,
    ;
    lemma_quotient_is(lp_amount * pool.reserve_a, lp_supply as int, pa);
    lemma_quotient_is(lp_amount * pool.reserve_b, lp_supply as int, pb);
}

/// A withdrawal that is accepted burns a non-zero amount, and pays no more than the
/// burned share of each reserve; of at most the whole supply, no more than the reserve.
pub proof fn withdrawal_quote_guarantees(pool: Pool, lp_supply: u64, lp_amount: u64)
    requires
        remove_liquidity::can_quote(lp_supply, lp_amount),
    ensures
        remove_liquidity::quote_outcome(pool, lp_supply, lp_amount) is Ok ==> {
            let (pa, pb) = remove_liquidity::quote_outcome(pool, lp_supply, lp_amount)->Ok_0;
            &&& lp_amount > 0
            &&& pa * lp_supply <= lp_amount * pool.reserve_a
            &&& pb * lp_supply <= lp_amount * pool.reserve_b
            &&& lp_amount <= lp_supply ==> pa <= pool.reserve_a && pb <= pool.reserve_b
        },
{
    if lp_amount > 0 {
        withdrawal_payout_law(lp_amount as int, pool.reserve_a as int, lp_supply as int);
        withdrawal_payout_law(lp_amount as int, pool.reserve_b as int, lp_supply as int);
        let pa = withdrawal_payout(lp_amount as int, pool.reserve_a as int, lp_supply as int);
        let pb = withdrawal_payout(lp_amount as int, pool.reserve_b as int, lp_supply as int);
        if lp_amount <= lp_supply {
            assert(pa <= pool.reserve_a) by (nonlinear_arith)
                requires
                    pa * lp_supply <= lp_amount * pool.reserve_a,
                    lp_amount <= lp_supply,
                    pool.reserve_a >= 0,
                    lp_supply > 0,
            ;
            assert(pb <= pool.reserve_b) by (nonlinear_arith)
                requires
                    pb * lp_supply <= lp_amount * pool.reserve_b,
                    lp_amount <= lp_supply,
                    pool.reserve_b >= 0,
                    lp_supply > 0,
            ;
        }
    }
}

/// Crediting a deposit adds it to both reserves and keeps every other field; if either
/// sum exceeds `u64`, it is refused with `Overflow` and the pool is unchanged.
pub proof fn deposit_effect_law(pool: Pool, a_amount: u64, b_amount: u64)
    ensures
        (pool.reserve_a + a_amount <= u64::MAX && pool.reserve_b + b_amount <= u64::MAX) ==> pool.deposit_effect(
            a_amount,
            b_amount,
        ) == (
            Ok::<(), ErrorCode>(()),
            (Pool {
                reserve_a: (pool.reserve_a + a_amount) as u64,
                reserve_b: (pool.reserve_b + b_amount) as u64,
                ..pool
            }),
        ),
        (pool.reserve_a + a_amount > u64::MAX || pool.reserve_b + b_amount > u64::MAX) ==> pool.deposit_effect(
            a_amount,
            b_amount,
        ) == (Err::<(), ErrorCode>(ErrorCode::Overflow), pool),
{
}

/// Debiting a withdrawal takes it from both reserves and keeps every other field; if it
/// exceeds either reserve, it is refused with `Overflow` and the pool is unchanged.
pub proof fn withdraw_effect_law(pool: Pool, a_amount: u64, b_amount: u64)
    ensures
        (a_amount <= pool.reserve_a && b_amount <= pool.reserve_b) ==> pool.withdraw_effect(a_amount, b_amount)
            == (
            Ok::<(), ErrorCode>(()),
            (Pool {
                reserve_a: (pool.reserve_a - a_amount) as u64,
                reserve_b: (pool.reserve_b - b_amount) as u64,
                ..pool
            }),
        ),
        (a_amount > pool.reserve_a || b_amount > pool.reserve_b) ==> pool.withdraw_effect(a_amount, b_amount)
            == (Err::<(), ErrorCode>(ErrorCode::Overflow), pool),
{
}

/// Booking a swap from A to B adds the input to `reserve_a` and takes the output from
/// `reserve_b` (from B to A, the other way round), keeping every other field; if the sum
/// exceeds `u64` or the output exceeds its reserve, it is refused with `Overflow` and the
/// pool is unchanged.
pub proof fn swap_effect_law(pool: Pool, a_to_b: bool, amount_in: u64, amount_out: u64)
    ensures
        (a_to_b && pool.reserve_a + amount_in <= u64::MAX && amount_out <= pool.reserve_b) ==> pool.swap_effect(
            a_to_b,
            amount_in,
            amount_out,
        ) == (
            Ok::<(), ErrorCode>(()),
            (Pool {
                reserve_a: (pool.reserve_a + amount_in) as u64,
                reserve_b: (pool.reserve_b - amount_out) as u64,
                ..pool
            }),
        ),
        (!a_to_b && pool.reserve_b + amount_in <= u64::MAX && amount_out <= pool.reserve_a) ==> pool.swap_effect(
            a_to_b,
            amount_in,
            amount_out,
        ) == (
            Ok::<(), ErrorCode>(()),
            (Pool {
                reserve_a: (pool.reserve_a - amount_out) as u64,
                reserve_b: (pool.reserve_b + amount_in) as u64,
                ..pool
            }),
        ),
        (a_to_b && (pool.reserve_a + amount_in > u64::MAX || amount_out > pool.reserve_b)) ==> pool.swap_effect(
            a_to_b,
            amount_in,
            amount_out,
        ) == (Err::<(), ErrorCode>(ErrorCode::Overflow), pool),
        (!a_to_b && (pool.reserve_b + amount_in > u64::MAX || amount_out > pool.reserve_a)) ==> pool.swap_effect(
            a_to_b,
            amount_in,
            amount_out,
        ) == (Err::<(), ErrorCode>(ErrorCode::Overflow), pool),
{
}

/// The whole deposit: refused as its quote refuses it, or with `Overflow` where a reserve
/// would exceed `u64`, leaving the pool unchanged either way; otherwise it mints the
/// quoted LP tokens and adds the deposit to both reserves.
pub proof fn deposit_outcome_law(pool: Pool, lp_supply: u64, a_amount: u64, b_amount: u64, min_lp_out: u64)
    ensures
        ({
            let q = add_liquidity::quote_outcome(pool, lp_supply, a_amount, b_amount, min_lp_out);
            let fits = pool.reserve_a + a_amount <= u64::MAX && pool.reserve_b + b_amount <= u64::MAX;
            &&& q is Err ==> add_liquidity::outcome(pool, lp_supply, a_amount, b_amount, min_lp_out) == (
                Err::<u64, ErrorCode>(q->Err_0),
                pool,
            )
            &&& (q is Ok && !fits) ==> add_liquidity::outcome(pool, lp_supply, a_amount, b_amount, min_lp_out)
                == (Err::<u64, ErrorCode>(ErrorCode::Overflow), pool)
            &&& (q is Ok && fits) ==> add_liquidity::outcome(pool, lp_supply, a_amount, b_amount, min_lp_out)
                == (
                Ok::<u64, ErrorCode>(q->Ok_0),
                (Pool {
                    reserve_a: (pool.reserve_a + a_amount) as u64,
                    reserve_b: (pool.reserve_b + b_amount) as u64,
                    ..pool
                }),
            )
        }),
{
}

/// The whole swap: refused as its quote refuses it, or with `Overflow` where the input
/// reserve would exceed `u64` or the output exceed its reserve, leaving the pool unchanged
/// either way; otherwise it pays the quoted output, adding the input to one reserve and
/// taking the output from the other.
pub proof fn swap_outcome_law(pool: Pool, a_to_b: bool, in_amount: u64, min_out: u64)
    ensures
        ({
            let q = swap::quote_outcome(pool, a_to_b, in_amount, min_out);
            let r_in = (if a_to_b { pool.reserve_a } else { pool.reserve_b }) as int;
            let r_out = (if a_to_b { pool.reserve_b } else { pool.reserve_a }) as int;
            &&& q is Err ==> swap::outcome(pool, a_to_b, in_amount, min_out) == (Err::<u64, ErrorCode>(q->Err_0), pool)
            &&& (q is Ok && (r_in + in_amount > u64::MAX || q->Ok_0 > r_out)) ==> swap::outcome(
                pool,
                a_to_b,
                in_amount,
                min_out,
            ) == (Err::<u64, ErrorCode>(ErrorCode::Overflow), pool)
            &&& (q is Ok && r_in + in_amount <= u64::MAX && q->Ok_0 <= r_out) ==> {
                let (res, after) = swap::outcome(pool, a_to_b, in_amount, min_out);
                &&& res == Ok::<u64, ErrorCode>(q->Ok_0)
                &&& after == (Pool {
                    reserve_a: (if a_to_b { r_in + in_amount } else { r_out - q->Ok_0 }) as u64,
                    reserve_b: (if a_to_b { r_out - q->Ok_0 } else { r_in + in_amount }) as u64,
                    ..pool
                })
            }
        }),
{
}

/// The whole withdrawal: refused as its quote refuses it, or with `Overflow` where a
/// payout exceeds its reserve, leaving the pool unchanged either way; otherwise it pays the
/// quoted amounts and takes them from the reserves.
pub proof fn withdrawal_outcome_law(pool: Pool, lp_supply: u64, lp_amount: u64)
    ensures
        ({
            let q = remove_liquidity::quote_outcome(pool, lp_supply, lp_amount);
            &&& q is Err ==> remove_liquidity::outcome(pool, lp_supply, lp_amount) == (
                Err::<(u64, u64), ErrorCode>(q->Err_0),
                pool,
            )
            &&& (q is Ok && (q->Ok_0.0 > pool.reserve_a || q->Ok_0.1 > pool.reserve_b)) ==> remove_liquidity::outcome(
                pool,
                lp_supply,
                lp_amount,
            ) == (Err::<(u64, u64), ErrorCode>(ErrorCode::Overflow), pool)
            &&& (q is Ok && q->Ok_0.0 <= pool.reserve_a && q->Ok_0.1 <= pool.reserve_b) ==> remove_liquidity::outcome(
                pool,
                lp_supply,
                lp_amount,
            ) == (
                Ok::<(u64, u64), ErrorCode>(q->Ok_0),
                (Pool {
                    reserve_a: (pool.reserve_a - q->Ok_0.0) as u64,
                    reserve_b: (pool.reserve_b - q->Ok_0.1) as u64,
                    ..pool
                }),
            )
        }),
{
}

} // verus!
