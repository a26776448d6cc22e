use std::collections::HashMap;

use token_swap::offer::TokenSwap;
use token_swap::types::{OfferKey, OfferStatus, Party, SwapError, Transfer};

const DEF_FEE_RATE: u32 = 25;

fn id(s: &str) -> Vec<u8> {
    s.as_bytes().to_vec()
}

/// Token balances keyed by (token, holder); the escrow is held as "swap".
struct Balances {
    map: HashMap<(Vec<u8>, Vec<u8>), i128>,
}

impl Balances {
    fn new() -> Balances {
        Balances { map: HashMap::new() }
    }

    fn holder(p: &Party) -> Vec<u8> {
        match p {
            Party::Escrow => id("swap"),
            Party::Account(a) => a.clone(),
        }
    }

    fn mint(&mut self, token: &str, to: &str, amount: i128) {
        *self.map.entry((id(token), id(to))).or_insert(0) += amount;
    }

    fn balance(&self, token: &str, of: &str) -> i128 {
        *self.map.get(&(id(token), id(of))).unwrap_or(&0)
    }

    fn apply(&mut self, ts: &[Transfer]) {
        for t in ts {
            let from = (t.token.clone(), Self::holder(&t.from));
            let to = (t.token.clone(), Self::holder(&t.to));
            assert!(t.amount >= 0);
            assert!(*self.map.get(&from).unwrap_or(&0) >= t.amount);
            *self.map.entry(from).or_insert(0) -= t.amount;
            *self.map.entry(to).or_insert(0) += t.amount;
        }
    }
}

fn key(timestamp: u64) -> OfferKey {
    OfferKey { offeror: id("offeror"), send_token: id("send"), recv_token: id("recv"), timestamp }
}

fn ready_swap() -> TokenSwap {
    let mut swap = TokenSwap::new();
    swap.init_fee(DEF_FEE_RATE, id("fee_wallet")).unwrap();
    swap.allow_token(id("send"));
    swap.allow_token(id("recv"));
    swap
}

fn create(swap: &mut TokenSwap, send: i128, recv: i128, min: i128) -> Result<Vec<Transfer>, SwapError> {
    swap.create(id("offeror"), id("send"), id("recv"), 7, send, recv, min)
}

fn accept(swap: &mut TokenSwap, amount: i128) -> Result<Vec<Transfer>, SwapError> {
    swap.accept(id("offeror"), id("send"), id("recv"), 7, id("acceptor"), amount)
}

fn update(swap: &mut TokenSwap, recv: i128, min: i128) -> Result<(), SwapError> {
    swap.update(id("offeror"), id("send"), id("recv"), 7, recv, min)
}

fn close(swap: &mut TokenSwap) -> Result<Vec<Transfer>, SwapError> {
    swap.close(id("offeror"), id("send"), id("recv"), 7)
}

fn amounts(swap: &TokenSwap) -> (i128, i128, i128, OfferStatus) {
    let o = swap.offer(&key(7)).unwrap();
    (o.send_amount, o.recv_amount, o.min_recv_amount, o.status)
}

#[test]
fn test() {
    let mut balances = Balances::new();
    balances.mint("send", "offeror", 1000);
    balances.mint("recv", "acceptor", 100);

    let mut swap = TokenSwap::new();
    swap.init_fee(DEF_FEE_RATE, id("fee_wallet")).unwrap();
    swap.allow_token(id("send"));
    swap.allow_token(id("recv"));

    let ts = swap.create(id("offeror"), id("send"), id("recv"), 0, 500, 50, 10).unwrap();
    balances.apply(&ts);
    assert_eq!(balances.balance("send", "swap"), 500);
    assert_eq!(balances.balance("send", "fee_wallet"), 1);
    assert_eq!(balances.balance("send", "offeror"), 499);

    swap.disallow_token(id("send"));
    swap.disallow_token(id("recv"));
    assert_eq!(
        swap.create(id("offeror"), id("send"), id("recv"), 1, 500, 50, 10).unwrap_err(),
        SwapError::NotAllowed
    );
}

#[test]
fn scenario_a_minimum_then_first_fill() {
    let mut balances = Balances::new();
    balances.mint("send", "offeror", 1000);
    balances.mint("recv", "acceptor", 100);
    let mut swap = ready_swap();
    balances.apply(&create(&mut swap, 500, 50, 10).unwrap());

    assert_eq!(accept(&mut swap, 9).unwrap_err(), SwapError::BelowMinimum);
    assert_eq!(amounts(&swap), (500, 50, 10, OfferStatus::Active));

    let ts = accept(&mut swap, 10).unwrap();
    assert_eq!(ts.len(), 3);
    assert_eq!(ts[0].amount, 0);
    assert_eq!(ts[0].to, Party::Account(id("fee_wallet")));
    assert_eq!(ts[0].token, id("recv"));
    assert_eq!(ts[1].amount, 10);
    assert_eq!(ts[1].to, Party::Account(id("offeror")));
    assert_eq!(ts[2].amount, 100);
    assert_eq!(ts[2].from, Party::Escrow);
    assert_eq!(ts[2].to, Party::Account(id("acceptor")));
    balances.apply(&ts);
    assert_eq!(amounts(&swap), (400, 40, 10, OfferStatus::Active));
    assert_eq!(balances.balance("send", "acceptor"), 100);
    assert_eq!(balances.balance("send", "swap"), 400);
    assert_eq!(balances.balance("recv", "offeror"), 10);
    assert_eq!(balances.balance("recv", "acceptor"), 90);
}

#[test]
fn scenario_b_update_reprices_remainder() {
    let mut swap = ready_swap();
    create(&mut swap, 500, 50, 10).unwrap();
    accept(&mut swap, 10).unwrap();
    assert_eq!(update(&mut swap, 80, 20), Ok(()));
    assert_eq!(amounts(&swap), (400, 80, 20, OfferStatus::Active));
}

#[test]
fn scenario_c_fills_until_complete() {
    let mut balances = Balances::new();
    balances.mint("send", "offeror", 1000);
    balances.mint("recv", "acceptor", 200);
    let mut swap = ready_swap();
    balances.apply(&create(&mut swap, 500, 50, 10).unwrap());
    balances.apply(&accept(&mut swap, 10).unwrap());
    update(&mut swap, 80, 20).unwrap();

    balances.apply(&accept(&mut swap, 40).unwrap());
    assert_eq!(amounts(&swap), (200, 40, 20, OfferStatus::Active));
    assert_eq!(balances.balance("send", "acceptor"), 300);

    balances.apply(&accept(&mut swap, 40).unwrap());
    assert_eq!(amounts(&swap), (0, 0, 20, OfferStatus::Complete));
    assert_eq!(balances.balance("send", "acceptor"), 500);
    assert_eq!(balances.balance("send", "swap"), 0);
    assert_eq!(balances.balance("recv", "offeror"), 90);

    assert_eq!(accept(&mut swap, 20).unwrap_err(), SwapError::OfferNotAvailable);
    assert_eq!(update(&mut swap, 10, 1).unwrap_err(), SwapError::OfferNotAvailable);
    assert_eq!(close(&mut swap).unwrap_err(), SwapError::OfferNotAvailable);
}

#[test]
fn scenario_d_close_returns_escrow() {
    let mut balances = Balances::new();
    balances.mint("send", "offeror", 1000);
    balances.mint("recv", "acceptor", 100);
    let mut swap = ready_swap();
    balances.apply(&create(&mut swap, 500, 50, 10).unwrap());
    balances.apply(&accept(&mut swap, 10).unwrap());

    let ts = close(&mut swap).unwrap();
    assert_eq!(ts.len(), 1);
    assert_eq!(ts[0].amount, 400);
    assert_eq!(ts[0].from, Party::Escrow);
    assert_eq!(ts[0].to, Party::Account(id("offeror")));
    balances.apply(&ts);
    assert_eq!(amounts(&swap).3, OfferStatus::Cancelled);
    assert_eq!(balances.balance("send", "offeror"), 899);
    assert_eq!(balances.balance("send", "swap"), 0);

    assert_eq!(close(&mut swap).unwrap_err(), SwapError::OfferNotAvailable);
}

#[test]
fn create_checks_in_order() {
    let mut swap = TokenSwap::new();
    assert_eq!(create(&mut swap, 500, 50, 10).unwrap_err(), SwapError::NotInitialized);
    swap.init_fee(DEF_FEE_RATE, id("fee_wallet")).unwrap();
    assert_eq!(create(&mut swap, 500, 50, 10).unwrap_err(), SwapError::NotAllowed);
    swap.allow_token(id("send"));
    assert_eq!(create(&mut swap, 500, 50, 10).unwrap_err(), SwapError::NotAllowed);
    swap.allow_token(id("recv"));
    assert_eq!(create(&mut swap, 0, 50, 10).unwrap_err(), SwapError::ZeroAmount);
    assert_eq!(create(&mut swap, 500, 0, 0).unwrap_err(), SwapError::ZeroAmount);
    assert_eq!(create(&mut swap, -5, 50, 10).unwrap_err(), SwapError::NegativeAmount);
    assert_eq!(create(&mut swap, 500, -50, -60).unwrap_err(), SwapError::NegativeAmount);
    assert_eq!(create(&mut swap, 500, 50, 51).unwrap_err(), SwapError::InvalidBounds);
    assert_eq!(create(&mut swap, 500, -5, 0).unwrap_err(), SwapError::InvalidBounds);
    assert_eq!(create(&mut swap, i128::MAX, 50, 10).unwrap_err(), SwapError::Overflow);
    assert!(swap.offer(&key(7)).is_none());
    assert!(create(&mut swap, 500, 50, 50).is_ok());
}

#[test]
fn duplicate_create_keeps_record() {
    let mut swap = ready_swap();
    create(&mut swap, 500, 50, 10).unwrap();
    accept(&mut swap, 10).unwrap();
    assert_eq!(create(&mut swap, 900, 90, 9).unwrap_err(), SwapError::DuplicateOffer);
    assert_eq!(amounts(&swap), (400, 40, 10, OfferStatus::Active));
    assert!(swap.create(id("offeror"), id("send"), id("recv"), 8, 900, 90, 9).is_ok());
    assert_eq!(amounts(&swap), (400, 40, 10, OfferStatus::Active));
}

#[test]
fn accept_errors() {
    let mut swap = ready_swap();
    assert_eq!(accept(&mut swap, 10).unwrap_err(), SwapError::NotFound);
    create(&mut swap, 500, 50, 10).unwrap();
    assert_eq!(accept(&mut swap, 51).unwrap_err(), SwapError::ExceedsAvailable);
    assert_eq!(accept(&mut swap, 5).unwrap_err(), SwapError::BelowMinimum);
    assert_eq!(amounts(&swap), (500, 50, 10, OfferStatus::Active));
}

#[test]
fn accept_with_nonpositive_floor() {
    let mut swap = ready_swap();
    create(&mut swap, 500, 50, -5).unwrap();
    assert_eq!(accept(&mut swap, -1).unwrap_err(), SwapError::NegativeAmount);
    let ts = accept(&mut swap, 0).unwrap();
    assert_eq!(ts[2].amount, 0);
    assert_eq!(amounts(&swap), (500, 50, -5, OfferStatus::Active));
}

#[test]
fn accept_overflow_leaves_record() {
    let mut swap = ready_swap();
    assert_eq!(
        swap.create(id("offeror"), id("send"), id("recv"), 7, i128::MAX / 10, 4, 1).unwrap_err(),
        SwapError::Overflow
    );
    assert!(swap.offer(&key(7)).is_none());
    swap.set_fee(0, id("fee_wallet")).unwrap();
    create(&mut swap, i128::MAX, 4, 1).unwrap();
    assert_eq!(accept(&mut swap, 2).unwrap_err(), SwapError::Overflow);
    assert_eq!(amounts(&swap), (i128::MAX, 4, 1, OfferStatus::Active));
    let ts = accept(&mut swap, 1).unwrap();
    assert_eq!(ts[2].amount, i128::MAX / 4);
}

#[test]
fn accept_without_fee_record() {
    let mut swap = ready_swap();
    create(&mut swap, 500, 50, 10).unwrap();
    swap.fee.info = None;
    assert_eq!(accept(&mut swap, 10).unwrap_err(), SwapError::NotInitialized);
}

#[test]
fn fill_rounds_down_on_remaining_balances() {
    let mut swap = ready_swap();
    create(&mut swap, 100, 3, 1).unwrap();
    let first = accept(&mut swap, 1).unwrap();
    assert_eq!(first[2].amount, 33);
    assert_eq!(amounts(&swap), (67, 2, 1, OfferStatus::Active));
    let second = accept(&mut swap, 1).unwrap();
    assert_eq!(second[2].amount, 33);
    let third = accept(&mut swap, 1).unwrap();
    assert_eq!(third[2].amount, 34);
    assert_eq!(amounts(&swap), (0, 0, 1, OfferStatus::Complete));
}

#[test]
fn fill_lowers_stale_floor() {
    let mut swap = ready_swap();
    create(&mut swap, 500, 50, 20).unwrap();
    accept(&mut swap, 35).unwrap();
    assert_eq!(amounts(&swap), (150, 15, 15, OfferStatus::Active));
    update(&mut swap, 100, 15).unwrap();
    assert_eq!(amounts(&swap), (150, 100, 15, OfferStatus::Active));
}

#[test]
fn conservation_over_many_fills() {
    let mut swap = ready_swap();
    create(&mut swap, 1000, 70, 3).unwrap();
    let fills = [3, 7, 11, 13, 17, 19];
    let mut released = 0;
    let mut paid = 0;
    let mut last = amounts(&swap);
    for a in fills {
        let ts = accept(&mut swap, a).unwrap();
        released += ts[2].amount;
        paid += ts[1].amount;
        let now = amounts(&swap);
        assert!(now.0 <= last.0);
        assert!(now.1 <= last.1);
        assert!(now.3 != OfferStatus::Active || now.2 <= now.1);
        last = now;
    }
    assert!(released <= 1000);
    assert_eq!(released, 1000 - last.0);
    assert_eq!(paid, 70 - last.1);
    assert_eq!(last.1, 0);
    assert_eq!(last.3, OfferStatus::Complete);
}

#[test]
fn update_errors() {
    let mut swap = ready_swap();
    assert_eq!(update(&mut swap, 0, 0).unwrap_err(), SwapError::ZeroAmount);
    assert_eq!(update(&mut swap, -3, -4).unwrap_err(), SwapError::NegativeAmount);
    assert_eq!(update(&mut swap, 10, 11).unwrap_err(), SwapError::InvalidBounds);
    assert_eq!(update(&mut swap, 10, 1).unwrap_err(), SwapError::NotFound);
    assert_eq!(update(&mut swap, -5, 0).unwrap_err(), SwapError::InvalidBounds);
    create(&mut swap, 500, 50, 10).unwrap();
    assert_eq!(update(&mut swap, 10, 11).unwrap_err(), SwapError::InvalidBounds);
    assert_eq!(update(&mut swap, -5, 0).unwrap_err(), SwapError::InvalidBounds);
    assert_eq!(update(&mut swap, -5, -6).unwrap_err(), SwapError::NegativeAmount);
    assert_eq!(amounts(&swap), (500, 50, 10, OfferStatus::Active));
}

#[test]
fn close_errors() {
    let mut swap = ready_swap();
    assert_eq!(close(&mut swap).unwrap_err(), SwapError::NotFound);
}
