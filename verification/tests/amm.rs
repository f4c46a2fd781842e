use dex::error::ErrorCode;
use dex::instructions::{add_liquidity, remove_liquidity, swap};
use dex::math::{effective_input_amount, isqrt, lp_amount, payout_amount, swap_output_amount};
use dex::state::Pool;

fn pool(reserve_a: u64, reserve_b: u64, fee_bps: u16) -> Pool {
    Pool {
        token_mint_a: [1; 32],
        token_mint_b: [2; 32],
        token_vault_a: [3; 32],
        token_vault_b: [4; 32],
        lp_mint: [5; 32],
        reserve_a,
        reserve_b,
        fee_bps,
        bump: 250,
    }
}

#[test]
fn isqrt_rounds_down() {
    assert_eq!(isqrt(0), 0);
    assert_eq!(isqrt(1), 1);
    assert_eq!(isqrt(3), 1);
    assert_eq!(isqrt(4), 2);
    assert_eq!(isqrt(24), 4);
    assert_eq!(isqrt(25), 5);
    assert_eq!(isqrt(25_000_000), 5000);
    assert_eq!(isqrt(u128::MAX), u64::MAX as u128);
    assert_eq!(isqrt((u64::MAX as u128) * (u64::MAX as u128)), u64::MAX as u128);
}

#[test]
fn effective_input_takes_the_fee() {
    assert_eq!(effective_input_amount(100, 30), 99);
    assert_eq!(effective_input_amount(10_000, 30), 9_970);
    assert_eq!(effective_input_amount(1, 30), 0);
    assert_eq!(effective_input_amount(100, 0), 100);
    assert_eq!(effective_input_amount(100, 10_000), 0);
    assert_eq!(effective_input_amount(u64::MAX, 0), u64::MAX as u128);
}

#[test]
fn swap_output_is_constant_product() {
    assert_eq!(swap_output_amount(5000, 5000, 100, 30), 97);
    assert_eq!(swap_output_amount(5000, 5000, 100, 0), 98);
    assert_eq!(swap_output_amount(1000, 2000, 1000, 0), 1000);
    assert_eq!(swap_output_amount(0, 7, 5, 0), 7);
}

#[test]
fn lp_amount_first_and_later_deposits() {
    assert_eq!(lp_amount(5000, 5000, 0, 0, 0), Some(5000));
    assert_eq!(lp_amount(2, 8, 0, 0, 0), Some(4));
    assert_eq!(lp_amount(3, 5, 0, 0, 0), Some(3));
    assert_eq!(lp_amount(u64::MAX, u64::MAX, 0, 0, 0), Some(u64::MAX));
    // Off-ratio: the lesser share counts.
    assert_eq!(lp_amount(100, 400, 1000, 1000, 2000), Some(100));
    assert_eq!(lp_amount(300, 100, 1000, 1000, 2000), Some(50));
    // A share beyond 64 bits is not representable.
    assert_eq!(lp_amount(1 << 40, 1 << 40, 1 << 40, 1, 1), None);
    assert_eq!(lp_amount(1 << 20, 1 << 20, 1 << 20, 1, 1), Some(1 << 40));
}

#[test]
fn payout_amount_is_pro_rata() {
    assert_eq!(payout_amount(1, 10, 3), Some(3));
    assert_eq!(payout_amount(3, 10, 3), Some(10));
    assert_eq!(payout_amount(2500, 5100, 5000), Some(2550));
    assert_eq!(payout_amount(1 << 40, 1 << 40, 1), None);
}

#[test]
fn deposit_refuses_an_empty_side() {
    let p = pool(0, 0, 30);
    assert_eq!(add_liquidity::quote(&p, 0, 0, 5, 0), Err(ErrorCode::ZeroDeposit));
    assert_eq!(add_liquidity::quote(&p, 0, 5, 0, 0), Err(ErrorCode::ZeroDeposit));
}

#[test]
fn deposit_holds_the_floor_before_the_dust_check() {
    let mut p = pool(1000, 1000, 30);
    // 1 * 10 / 1000 rounds to zero: the floor of 1 is missed first.
    assert_eq!(add_liquidity::quote(&p, 10, 1, 1, 1), Err(ErrorCode::SlippageExceeded));
    assert_eq!(add_liquidity::quote(&p, 10, 1, 1, 0), Err(ErrorCode::LPDust));
    let before = p;
    assert_eq!(add_liquidity::handler(&mut p, 10, 1, 1, 0), Err(ErrorCode::LPDust));
    assert_eq!(p.reserve_a, before.reserve_a);
    assert_eq!(p.reserve_b, before.reserve_b);
}

#[test]
fn deposit_mints_the_lesser_share() {
    let mut p = pool(1000, 2000, 30);
    assert_eq!(add_liquidity::handler(&mut p, 1000, 300, 100, 50), Ok(50));
    assert_eq!(p.reserve_a, 1300);
    assert_eq!(p.reserve_b, 2100);
    assert_eq!(add_liquidity::handler(&mut p, 1050, 300, 100, 51), Err(ErrorCode::SlippageExceeded));
}

#[test]
fn deposit_overflow_is_reported() {
    let mut p = pool(u64::MAX - 1, 10, 30);
    assert_eq!(p.deposit(5, 5), Err(ErrorCode::Overflow));
    assert_eq!(p.reserve_a, u64::MAX - 1);
    assert_eq!(p.reserve_b, 10);
    let mut q = pool(10, u64::MAX - 1, 30);
    assert_eq!(q.deposit(5, 5), Err(ErrorCode::Overflow));
    assert_eq!(q.reserve_a, 10);
    assert_eq!(q.reserve_b, u64::MAX - 1);
    let mut r = pool(10, 10, 30);
    assert_eq!(r.deposit(5, 6), Ok(()));
    assert_eq!((r.reserve_a, r.reserve_b), (15, 16));
}

#[test]
fn swap_refusals() {
    let p = pool(5000, 5000, 30);
    assert_eq!(swap::quote(&p, true, 0, 0), Err(ErrorCode::ZeroDeposit));
    // One token in is worth nothing after the fee.
    assert_eq!(swap::quote(&p, true, 1, 0), Err(ErrorCode::LPDust));
    assert_eq!(swap::quote(&p, true, 100, 98), Err(ErrorCode::SlippageExceeded));
    assert_eq!(swap::quote(&p, true, 100, 97), Ok(97));
    // An empty pool has nothing to pay out.
    let empty = pool(0, 0, 30);
    assert_eq!(swap::quote(&empty, false, 100, 0), Err(ErrorCode::LPDust));
}

#[test]
fn swap_b_to_a_mirrors() {
    let mut p = pool(4000, 5000, 30);
    assert_eq!(swap::handler(&mut p, false, 100, 1), Ok(77));
    assert_eq!(p.reserve_b, 5100);
    assert_eq!(p.reserve_a, 3923);
}

#[test]
fn swap_overflow_is_reported() {
    let mut p = pool(u64::MAX - 10, 1_000_000, 0);
    assert_eq!(swap::quote(&p, true, 100, 0), Err(ErrorCode::LPDust));
    assert_eq!(p.settle_swap(true, 100, 0), Err(ErrorCode::Overflow));
    assert_eq!(p.reserve_a, u64::MAX - 10);
    let mut q = pool(10, 10, 0);
    assert_eq!(q.settle_swap(true, 5, 11), Err(ErrorCode::Overflow));
    assert_eq!((q.reserve_a, q.reserve_b), (10, 10));
    assert_eq!(q.settle_swap(false, 5, 10), Ok(()));
    assert_eq!((q.reserve_a, q.reserve_b), (0, 15));
}

#[test]
fn swap_grows_the_product() {
    let mut p = pool(5000, 5000, 30);
    let k_before = p.reserve_a as u128 * p.reserve_b as u128;
    assert!(swap::handler(&mut p, true, 100, 1).is_ok());
    let k_after = p.reserve_a as u128 * p.reserve_b as u128;
    assert!(k_after > k_before);
    assert_eq!(k_after, 5100 * 4903);
}

#[test]
fn withdrawal_refusals_and_payouts() {
    let p = pool(5100, 4903, 30);
    assert_eq!(remove_liquidity::quote(&p, 5000, 0), Err(ErrorCode::ZeroWithdrawal));
    assert_eq!(remove_liquidity::quote(&p, 5000, 2500), Ok((2550, 2451)));
    let mut q = p;
    assert_eq!(remove_liquidity::handler(&mut q, 5000, 5000), Ok((5100, 4903)));
    assert_eq!((q.reserve_a, q.reserve_b), (0, 0));
}

#[test]
fn withdrawal_of_more_than_the_reserve_is_reported() {
    let mut p = pool(10, 10, 30);
    // Ten LP tokens out of a supply of five would pay twice the reserves.
    assert_eq!(remove_liquidity::quote(&p, 5, 10), Ok((20, 20)));
    assert_eq!(remove_liquidity::handler(&mut p, 5, 10), Err(ErrorCode::Overflow));
    assert_eq!((p.reserve_a, p.reserve_b), (10, 10));
    // A share beyond 64 bits is refused before any reserve is touched.
    let mut big = pool(1 << 40, 1, 30);
    assert_eq!(remove_liquidity::quote(&big, 1, 1 << 40), Err(ErrorCode::Overflow));
    assert_eq!(remove_liquidity::handler(&mut big, 1, 1 << 40), Err(ErrorCode::Overflow));
    assert_eq!((big.reserve_a, big.reserve_b), (1 << 40, 1));
    let mut q = pool(20, 10, 30);
    assert_eq!(q.withdraw(20, 11), Err(ErrorCode::Overflow));
    assert_eq!((q.reserve_a, q.reserve_b), (20, 10));
}

#[test]
fn round_trip_returns_no_more_than_deposited() {
    // From an empty pool the deposit comes back whole.
    let mut p = pool(0, 0, 30);
    let lp = add_liquidity::handler(&mut p, 0, 3, 5, 0).unwrap();
    assert_eq!(lp, 3);
    assert_eq!(remove_liquidity::handler(&mut p, lp, lp), Ok((3, 5)));
    // Into a pool that has LP tokens, an off-ratio deposit comes back short.
    let mut q = pool(1000, 2000, 30);
    let lp = add_liquidity::handler(&mut q, 1000, 300, 100, 0).unwrap();
    assert_eq!(lp, 50);
    let (a, b) = remove_liquidity::handler(&mut q, 1050, lp).unwrap();
    assert!(a <= 300 && b <= 100);
    assert_eq!((a, b), (61, 100));
}

#[test]
fn deposit_does_not_dilute() {
    let (s, ra, rb) = (1000u64, 1000u64, 2000u64);
    let (a, b) = (300u64, 100u64);
    let lp = lp_amount(a, b, s, ra, rb).unwrap();
    assert!(lp as u128 * ra as u128 <= a as u128 * s as u128);
    assert!(lp as u128 * rb as u128 <= b as u128 * s as u128);
}

#[test]
fn deposit_of_an_unrepresentable_share_is_refused() {
    let mut p = pool(1, 1, 30);
    assert_eq!(add_liquidity::quote(&p, 1 << 40, 1 << 40, 1 << 40, 0), Err(ErrorCode::Overflow));
    assert_eq!(add_liquidity::handler(&mut p, 1 << 40, 1 << 40, 1 << 40, 0), Err(ErrorCode::Overflow));
    assert_eq!((p.reserve_a, p.reserve_b), (1, 1));
}

#[test]
fn failed_deposit_changes_nothing() {
    let mut p = pool(10, u64::MAX - 1, 30);
    let before = p;
    assert_eq!(add_liquidity::handler(&mut p, u64::MAX - 1, 5, 5, 0), Err(ErrorCode::Overflow));
    assert_eq!((p.reserve_a, p.reserve_b), (before.reserve_a, before.reserve_b));
}

#[test]
fn larger_input_never_pays_less() {
    let mut last = 0;
    for n in [1u64, 50, 100, 101, 1000, 5000, 100_000] {
        let out = swap_output_amount(5000, 5000, n, 30);
        assert!(out >= last);
        last = out;
    }
}

#[test]
fn swap_round_trip_returns_no_more_than_input() {
    let mut p = pool(5000, 5000, 30);
    let out = swap::handler(&mut p, true, 100, 1).unwrap();
    assert_eq!(out, 97);
    let back = swap::handler(&mut p, false, out, 1).unwrap();
    assert!(back <= 100);
    assert_eq!(back, 97);
}

#[test]
fn withdrawal_keeps_backing_per_lp_token() {
    let mut p = pool(5100, 4903, 30);
    let (s, lp) = (5000u128, 1234u128);
    assert!(remove_liquidity::handler(&mut p, 5000, 1234).is_ok());
    assert!(p.reserve_a as u128 * s >= 5100 * (s - lp));
    assert!(p.reserve_b as u128 * s >= 4903 * (s - lp));
}

#[test]
fn swap_directions_mirror() {
    let mut p = pool(4000, 5000, 30);
    let mut q = pool(5000, 4000, 30);
    assert_eq!(swap::handler(&mut p, false, 100, 1), swap::handler(&mut q, true, 100, 1));
    assert_eq!((p.reserve_a, p.reserve_b), (q.reserve_b, q.reserve_a));
}

#[test]
fn swap_ignores_everything_but_cached_reserves() {
    let mut p = pool(4000, 5000, 30);
    let mut q = p;
    q.token_vault_a = [7; 32];
    q.lp_mint = [8; 32];
    q.bump = 1;
    assert_eq!(swap::handler(&mut p, true, 321, 0), swap::handler(&mut q, true, 321, 0));
    assert_eq!((p.reserve_a, p.reserve_b), (q.reserve_a, q.reserve_b));
}
