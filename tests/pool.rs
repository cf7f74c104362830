use digiko_swap::error::PoolError;
use digiko_swap::pool::{AccountId, Asset, Direction, Payment, SwapPool};
use digiko_swap::pricing::{compute_output, quote_price};

const DGKO: &str = "DGKO-CXVJ";
const KLV: &str = "KLV";

fn account(tag: u8) -> AccountId {
    AccountId { bytes: [tag; 32] }
}

fn pool(reserve_a: u64, reserve_b: u64) -> SwapPool {
    SwapPool::init(account(1), DGKO.to_string(), KLV.to_string(), reserve_a, reserve_b)
}

fn pay(token: &str, amount: u64) -> Payment {
    Payment { token: token.to_string(), amount }
}

fn reserves(p: &SwapPool) -> (u64, u64) {
    (p.get_reserve(Asset::A), p.get_reserve(Asset::B))
}

#[test]
fn swap_a_to_b_example() {
    let mut p = pool(1_000_000, 2_000_000);
    let trader = account(7);
    let out = p.swap(&trader, Direction::AToB, &vec![pay(DGKO, 100_000)]).unwrap();
    assert_eq!(out.event.amount_out, 181_818);
    assert_eq!(out.event.amount_in, 100_000);
    assert_eq!(out.event.token_in, DGKO);
    assert_eq!(out.event.token_out, KLV);
    assert_eq!(out.event.caller, trader);
    assert_eq!(out.transfer.to, trader);
    assert_eq!(out.transfer.token, KLV);
    assert_eq!(out.transfer.amount, 181_818);
    assert_eq!(reserves(&p), (1_100_000, 1_818_182));
}

#[test]
fn swap_b_to_a_mirrors_the_formula() {
    let mut p = pool(2_000_000, 1_000_000);
    let out = p.swap(&account(7), Direction::BToA, &vec![pay(KLV, 100_000)]).unwrap();
    assert_eq!(out.event.amount_out, 181_818);
    assert_eq!(out.transfer.token, DGKO);
    assert_eq!(reserves(&p), (1_818_182, 1_100_000));
}

#[test]
fn swap_over_half_the_reserve_is_rejected() {
    let mut p = pool(1000, 1000);
    let r = p.swap(&account(7), Direction::AToB, &vec![pay(DGKO, 2000)]);
    assert_eq!(r.unwrap_err(), PoolError::ExceedsMaxSwapSize);
    assert_eq!(reserves(&p), (1000, 1000));
}

#[test]
fn swap_at_exactly_half_is_accepted() {
    let mut p = pool(1000, 1000);
    let out = p.swap(&account(7), Direction::AToB, &vec![pay(DGKO, 1000)]).unwrap();
    assert_eq!(out.event.amount_out, 500);
    assert_eq!(reserves(&p), (2000, 500));
}

#[test]
fn swap_with_wrong_token_is_rejected() {
    let mut p = pool(1000, 1000);
    let r = p.swap(&account(7), Direction::AToB, &vec![pay(KLV, 10)]);
    assert_eq!(r.unwrap_err(), PoolError::InvalidPayment);
    assert_eq!(reserves(&p), (1000, 1000));
}

#[test]
fn swap_with_zero_amount_is_rejected() {
    let mut p = pool(1000, 1000);
    let r = p.swap(&account(7), Direction::BToA, &vec![pay(KLV, 0)]);
    assert_eq!(r.unwrap_err(), PoolError::InvalidPayment);
}

#[test]
fn swap_with_two_payments_is_rejected() {
    let mut p = pool(1000, 1000);
    let r = p.swap(&account(7), Direction::AToB, &vec![pay(DGKO, 10), pay(DGKO, 10)]);
    assert_eq!(r.unwrap_err(), PoolError::InvalidPayment);
    let r = p.swap(&account(7), Direction::AToB, &vec![]);
    assert_eq!(r.unwrap_err(), PoolError::InvalidPayment);
}

#[test]
fn swap_with_tiny_output_is_rejected() {
    let mut p = pool(1_000_000, 10);
    let r = p.swap(&account(7), Direction::AToB, &vec![pay(DGKO, 5)]);
    assert_eq!(r.unwrap_err(), PoolError::InsufficientOutput);
    assert_eq!(reserves(&p), (1_000_000, 10));
}

#[test]
fn swap_that_overflows_the_reserve_is_rejected() {
    let mut p = pool(u64::MAX - 10, u64::MAX);
    let r = p.swap(&account(7), Direction::AToB, &vec![pay(DGKO, 100)]);
    assert_eq!(r.unwrap_err(), PoolError::Overflow);
    assert_eq!(reserves(&p), (u64::MAX - 10, u64::MAX));
}

#[test]
fn swap_keeps_the_product() {
    let mut p = pool(12_345, 67_891);
    let before = 12_345u128 * 67_891u128;
    p.swap(&account(3), Direction::BToA, &vec![pay(KLV, 9_999)]).unwrap();
    let (a, b) = reserves(&p);
    assert!(a as u128 * b as u128 >= before);
    p.swap(&account(3), Direction::AToB, &vec![pay(DGKO, 777)]).unwrap();
    let (a2, b2) = reserves(&p);
    assert!(a2 as u128 * b2 as u128 >= a as u128 * b as u128);
}

#[test]
fn swap_moves_one_reserve_up_and_the_other_down() {
    let mut p = pool(5_000, 8_000);
    let out = p.swap(&account(3), Direction::AToB, &vec![pay(DGKO, 1_000)]).unwrap();
    assert_eq!(out.event.amount_out, 1_333);
    assert_eq!(reserves(&p), (6_000, 8_000 - 1_333));
}

#[test]
fn compute_output_formula() {
    assert_eq!(compute_output(100_000, 1_000_000, 2_000_000), Ok(181_818));
    assert_eq!(compute_output(0, 1_000, 1_000), Ok(0));
    assert_eq!(compute_output(5, 0, 1_000), Ok(1_000));
    assert_eq!(compute_output(0, 0, 1_000), Err(PoolError::DivideByZero));
    assert_eq!(compute_output(u64::MAX, u64::MAX, u64::MAX), Ok(u64::MAX / 2));
}

#[test]
fn compute_output_grows_with_input_and_stays_below_reserve() {
    let mut last = 0u64;
    for input in [1u64, 2, 10, 999, 1_000, 50_000, 1_000_000_000] {
        let out = compute_output(input, 1_000, 1_000).unwrap();
        assert!(out >= last);
        assert!(out < 1_000);
        last = out;
    }
}

#[test]
fn queries_repeat_without_mutation() {
    let p = pool(3_000, 7_000);
    assert_eq!(p.get_price(), p.get_price());
    assert_eq!(p.get_reserve(Asset::A), p.get_reserve(Asset::A));
    assert_eq!(p.get_reserve(Asset::B), 7_000);
    assert_eq!(compute_output(11, 3_000, 7_000), compute_output(11, 3_000, 7_000));
}

#[test]
fn price_is_scaled_and_rounded_down() {
    let p = pool(1_000_000, 2_000_000);
    assert_eq!(p.get_price(), Ok(2_000_000));
    assert_eq!(quote_price(3, 1), Ok(333_333));
    assert_eq!(quote_price(1, u64::MAX), Ok(u64::MAX as u128 * 1_000_000));
    let empty = pool(0, 5);
    assert_eq!(empty.get_price(), Err(PoolError::DivideByZero));
}

#[test]
fn non_owner_cannot_remove_liquidity() {
    let mut p = pool(1000, 1000);
    let r = p.remove_liquidity(&account(9), 10, 10);
    assert!(matches!(r, Err(PoolError::Unauthorized)));
    assert_eq!(reserves(&p), (1000, 1000));
}

#[test]
fn removing_more_than_the_reserve_is_rejected() {
    let mut p = pool(1000, 1000);
    let r = p.remove_liquidity(&account(1), 1001, 10);
    assert!(matches!(r, Err(PoolError::InsufficientReserve)));
    let r = p.remove_liquidity(&account(1), 10, 1001);
    assert!(matches!(r, Err(PoolError::InsufficientReserve)));
    assert_eq!(reserves(&p), (1000, 1000));
}

#[test]
fn owner_removes_liquidity() {
    let mut p = pool(1000, 2000);
    let (pa, pb) = p.remove_liquidity(&account(1), 300, 2000).unwrap();
    assert_eq!(reserves(&p), (700, 0));
    assert_eq!((pa.to, pa.token.as_str(), pa.amount), (account(1), DGKO, 300));
    assert_eq!((pb.to, pb.token.as_str(), pb.amount), (account(1), KLV, 2000));
}

#[test]
fn owner_adds_liquidity() {
    let mut p = pool(1000, 2000);
    p.add_liquidity(&account(1), &vec![pay(KLV, 5), pay(DGKO, 7)]).unwrap();
    assert_eq!(reserves(&p), (1007, 2005));
}

#[test]
fn add_liquidity_gates() {
    let mut p = pool(1000, 2000);
    let both = vec![pay(DGKO, 7), pay(KLV, 5)];
    assert_eq!(p.add_liquidity(&account(2), &both), Err(PoolError::Unauthorized));
    assert_eq!(p.add_liquidity(&account(1), &vec![pay(DGKO, 7)]), Err(PoolError::WrongAssetCount));
    assert_eq!(
        p.add_liquidity(&account(1), &vec![pay(DGKO, 7), pay(KLV, 5), pay(KLV, 1)]),
        Err(PoolError::WrongAssetCount)
    );
    assert_eq!(p.add_liquidity(&account(1), &vec![pay(DGKO, 7), pay(DGKO, 5)]), Err(PoolError::MissingAsset));
    assert_eq!(p.add_liquidity(&account(1), &vec![pay(DGKO, 0), pay(KLV, 5)]), Err(PoolError::MissingAsset));
    assert_eq!(p.add_liquidity(&account(1), &vec![pay(DGKO, 7), pay("XYZ", 5)]), Err(PoolError::MissingAsset));
    assert_eq!(reserves(&p), (1000, 2000));
    let mut full = pool(u64::MAX, 0);
    assert_eq!(full.add_liquidity(&account(1), &both), Err(PoolError::Overflow));
}

#[test]
fn fee_collector_is_owner_only() {
    let mut p = pool(1, 1);
    assert_eq!(p.fee_collector(), account(1));
    assert_eq!(p.owner(), account(1));
    assert_eq!(p.set_fee_collector(&account(2), account(3)), Err(PoolError::Unauthorized));
    assert_eq!(p.fee_collector(), account(1));
    assert_eq!(p.set_fee_collector(&account(1), account(3)), Ok(()));
    assert_eq!(p.fee_collector(), account(3));
    assert_eq!(p.owner(), account(1));
}

#[test]
fn account_equality_compares_every_byte() {
    let mut other = [1u8; 32];
    other[31] = 2;
    assert_ne!(account(1), AccountId { bytes: other });
    assert_eq!(account(1), AccountId { bytes: [1u8; 32] });
}

#[test]
fn pool_token_ids() {
    let p = pool(1, 1);
    assert_eq!(p.token(Asset::A), DGKO);
    assert_eq!(p.token(Asset::B), KLV);
}

#[test]
fn only_the_initializer_is_owner() {
    let p = pool(1, 1);
    assert!(p.is_owner(&account(1)));
    assert!(!p.is_owner(&account(2)));
}

#[test]
fn price_after_the_example_swap() {
    let mut p = pool(1_000_000, 2_000_000);
    p.swap(&account(7), Direction::AToB, &vec![pay(DGKO, 100_000)]).unwrap();
    assert_eq!(p.get_price(), Ok(1_652_892));
    assert_eq!(quote_price(1_100_000, 1_818_182), Ok(1_652_892));
}

#[test]
fn selling_a_lowers_the_price_and_selling_b_raises_it() {
    let mut p = pool(40_000, 90_000);
    let start = p.get_price().unwrap();
    p.swap(&account(7), Direction::AToB, &vec![pay(DGKO, 3_000)]).unwrap();
    let after_a = p.get_price().unwrap();
    assert!(after_a <= start);
    p.swap(&account(7), Direction::BToA, &vec![pay(KLV, 20_000)]).unwrap();
    let after_b = p.get_price().unwrap();
    assert!(after_b >= after_a);
}
