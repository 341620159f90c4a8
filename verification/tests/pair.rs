use pair_monitor::pair::{decode_pair_created, pooled_weth, same_address, PairCreated, ONE_ETHER};
use pair_monitor::pair::weth_address;
use pair_monitor::prettify::prettify_decimal;

fn word_with_address(fill: u8) -> [u8; 32] {
    let mut w = [0u8; 32];
    for i in 12..32 {
        w[i] = fill;
    }
    w
}

fn created(token0: [u8; 20], token1: [u8; 20]) -> PairCreated {
    PairCreated { token0, token1, pair: [9u8; 20] }
}

#[test]
fn decodes_tokens_and_pair() {
    let topics = vec![[0xffu8; 32], word_with_address(1), word_with_address(2)];
    let mut data = vec![0u8; 64];
    for i in 12..32 {
        data[i] = 3;
    }
    data[63] = 7;
    let c = decode_pair_created(&topics, &data);
    assert_eq!(c.token0, [1u8; 20]);
    assert_eq!(c.token1, [2u8; 20]);
    assert_eq!(c.pair, [3u8; 20]);
}

#[test]
fn compares_addresses() {
    assert!(same_address(&[4u8; 20], &[4u8; 20]));
    let mut b = [4u8; 20];
    b[19] = 5;
    assert!(!same_address(&[4u8; 20], &b));
}

#[test]
fn weth_as_token0_reports_token1_and_first_reserve() {
    let weth = weth_address();
    let p = pooled_weth(&created(weth, [2u8; 20]), 1_500_000_000_000_000_000, 5).unwrap();
    assert_eq!(p.token, [2u8; 20]);
    assert_eq!(p.reserve, 1_500_000_000_000_000_000);
    assert_eq!(p.pooled_ether, "1.500000000000000000");
    assert_eq!(prettify_decimal(p.pooled_ether), "1.50");
}

#[test]
fn weth_as_token1_reports_token0_and_second_reserve() {
    let weth = weth_address();
    let p = pooled_weth(&created([1u8; 20], weth), 0, 123_456_000_000_000_000_007).unwrap();
    assert_eq!(p.token, [1u8; 20]);
    assert_eq!(p.reserve, 123_456_000_000_000_000_007);
    assert_eq!(p.pooled_ether, "123.456000000000000007");
    assert_eq!(prettify_decimal(p.pooled_ether), "123.45");
}

#[test]
fn pairs_below_one_ether_are_skipped() {
    let weth = weth_address();
    assert!(pooled_weth(&created(weth, [2u8; 20]), ONE_ETHER - 1, u128::MAX).is_none());
    assert!(pooled_weth(&created([1u8; 20], weth), u128::MAX, ONE_ETHER - 1).is_none());
    let p = pooled_weth(&created(weth, [2u8; 20]), ONE_ETHER, 0).unwrap();
    assert_eq!(p.pooled_ether, "1.000000000000000000");
}

#[test]
fn neither_token_weth_uses_second_reserve() {
    let weth = weth_address();
    let p = pooled_weth(&created([1u8; 20], [2u8; 20]), 0, 2 * ONE_ETHER).unwrap();
    assert_eq!(p.token, [1u8; 20]);
    assert_eq!(p.pooled_ether, "2.000000000000000000");
}
