use dex::{add_liquidity, initialize, swap};

#[test]
fn test_swap() {
    let key = [9u8; 32];
    let mut pool = initialize([1u8; 32], [2u8; 32], key, key, key, 30, 255).unwrap_or_else(|e| panic!("{:?}", e));
    let mut lp_supply: u64 = 0;

    // The user's token accounts.
    let balance_a: u64 = 10000;
    let balance_b: u64 = 10000;
    let add_a: u64 = 5000;
    let add_b: u64 = 5000;
    let mut user_a = balance_a;
    let mut user_b = balance_b;

    let minted = match add_liquidity(&mut pool, lp_supply, add_a, add_b, 1) {
        Ok(lp) => lp,
        Err(e) => panic!("add_liquidity failed: {:?}", e),
    };
    user_a -= add_a;
    user_b -= add_b;
    lp_supply += minted;
    assert_eq!(lp_supply, 5000);

    let out = match swap(&mut pool, true, 100, 10) {
        Ok(out) => out,
        Err(e) => panic!("swap failed: {:?}", e),
    };
    user_a -= 100;
    user_b += out;

    assert_eq!(user_a, 4900);
    assert_eq!(user_b, 5097);
    assert_eq!(pool.reserve_a, 5100);
    assert_eq!(pool.reserve_b, 4903);
}
