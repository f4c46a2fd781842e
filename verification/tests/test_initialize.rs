use dex::error::ErrorCode;
use dex::initialize;

fn key(byte: u8) -> [u8; 32] {
    [byte; 32]
}

#[test]
fn test_initialize() {
    let (mint_a, mint_b) = (key(1), key(2));
    let (mint_a, mint_b) = if mint_a < mint_b { (mint_a, mint_b) } else { (mint_b, mint_a) };
    let res = initialize(mint_a, mint_b, key(3), key(4), key(5), 30, 254);
    assert!(res.is_ok());
    let pool = res.unwrap();
    assert_eq!(pool.token_mint_a, mint_a);
    assert_eq!(pool.token_mint_b, mint_b);
    assert_eq!(pool.token_vault_a, key(3));
    assert_eq!(pool.token_vault_b, key(4));
    assert_eq!(pool.lp_mint, key(5));
    assert_eq!(pool.reserve_a, 0);
    assert_eq!(pool.reserve_b, 0);
    assert_eq!(pool.fee_bps, 30);
    assert_eq!(pool.bump, 254);
}

#[test]
fn initialize_accepts_whole_fee() {
    let pool = initialize(key(1), key(2), key(3), key(4), key(5), 10_000, 7).unwrap();
    assert_eq!(pool.fee_bps, 10_000);
}

#[test]
fn initialize_rejects_fee_above_whole() {
    let res = initialize(key(1), key(2), key(3), key(4), key(5), 10_001, 7);
    assert_eq!(res.unwrap_err(), ErrorCode::HighBPS);
}
