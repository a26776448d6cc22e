use token_swap::allow::{allow_get, allow_reset, allow_set, AllowStore};
use token_swap::fee::{fee_check, fee_get, fee_init, fee_set, FeeStore};
use token_swap::offer::TokenSwap;
use token_swap::types::{FeeInfo, SwapError, FEE_DECIMALS, FEE_SCALE};

fn fee(rate: u32, wallet: &str) -> FeeInfo {
    FeeInfo { fee_rate: rate, fee_wallet: wallet.as_bytes().to_vec() }
}

#[test]
fn fee_is_set_once_then_updated() {
    let mut store = FeeStore::new();
    assert!(!fee_check(&store));
    assert_eq!(fee_get(&store).err(), Some(SwapError::NotInitialized));
    assert_eq!(fee_set(&mut store, fee(10, "a")), Err(SwapError::NotInitialized));
    assert!(!fee_check(&store));

    assert_eq!(fee_init(&mut store, fee(25, "a")), Ok(()));
    assert!(fee_check(&store));
    assert_eq!(fee_init(&mut store, fee(30, "b")), Err(SwapError::AlreadyInitialized));
    let got = fee_get(&store).unwrap();
    assert_eq!((got.fee_rate, got.fee_wallet), (25, b"a".to_vec()));

    assert_eq!(fee_set(&mut store, fee(40, "c")), Ok(()));
    let got = fee_get(&store).unwrap();
    assert_eq!((got.fee_rate, got.fee_wallet), (40, b"c".to_vec()));
}

#[test]
fn ledger_fee_methods() {
    let mut swap = TokenSwap::new();
    assert_eq!(swap.set_fee(5, b"w".to_vec()), Err(SwapError::NotInitialized));
    assert_eq!(swap.init_fee(5, b"w".to_vec()), Ok(()));
    assert_eq!(swap.init_fee(6, b"v".to_vec()), Err(SwapError::AlreadyInitialized));
    assert_eq!(swap.set_fee(7, b"v".to_vec()), Ok(()));
    assert_eq!(fee_get(&swap.fee).unwrap().fee_rate, 7);
}

#[test]
fn allowance_is_idempotent() {
    let mut store = AllowStore::new();
    let a = b"tokA".to_vec();
    let b = b"tokB".to_vec();
    assert!(!allow_get(&store, &a));
    allow_reset(&mut store, &a);
    assert!(!allow_get(&store, &a));

    allow_set(&mut store, &a);
    allow_set(&mut store, &a);
    assert!(allow_get(&store, &a));
    assert!(!allow_get(&store, &b));
    assert_eq!(store.tokens.len(), 1);

    allow_set(&mut store, &b);
    allow_reset(&mut store, &a);
    assert!(!allow_get(&store, &a));
    assert!(allow_get(&store, &b));
    allow_reset(&mut store, &a);
    assert!(!allow_get(&store, &a));
    assert!(allow_get(&store, &b));
}

#[test]
fn fee_rounds_toward_zero() {
    let f = fee(25, "w");
    assert_eq!(FEE_SCALE, 10i128.pow(FEE_DECIMALS));
    assert_eq!(TokenSwap::calculate_fee(&f, 500), Ok(1));
    assert_eq!(TokenSwap::calculate_fee(&f, 10), Ok(0));
    assert_eq!(TokenSwap::calculate_fee(&f, 399), Ok(0));
    assert_eq!(TokenSwap::calculate_fee(&f, 400), Ok(1));
    assert_eq!(TokenSwap::calculate_fee(&f, 1_000_000), Ok(2500));
    assert_eq!(TokenSwap::calculate_fee(&f, -401), Ok(-1));
    assert_eq!(TokenSwap::calculate_fee(&f, -399), Ok(0));
    assert_eq!(TokenSwap::calculate_fee(&fee(0, "w"), i128::MAX), Ok(0));
}

#[test]
fn fee_overflow_is_reported() {
    let f = fee(u32::MAX, "w");
    assert_eq!(TokenSwap::calculate_fee(&f, i128::MAX), Err(SwapError::Overflow));
    assert_eq!(TokenSwap::calculate_fee(&f, i128::MIN), Err(SwapError::Overflow));
    assert_eq!(TokenSwap::calculate_fee(&f, 10_000), Ok(u32::MAX as i128));
}
