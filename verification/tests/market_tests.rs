//! The exchange's lock_sell validation suite against the reservation
//! protocol.

#![allow(non_snake_case)]

use zse::errors::LockSellError as LSE;
use zse::goods::GoodKind as Gk;
use zse::goods::Good;
use zse::market::ZSE;

fn init() -> ZSE {
    ZSE::new_random()
}

fn init_lock() -> i64 {
    3
}

#[test]
fn nonPositiveQuantityToSell() {
    let mut market = init();

    let token = market.lock_sell(Gk::EUR, -100, 1, "test".to_string());
    assert_eq!(token, Err(LSE::NonPositiveQuantityToSell { negative_quantity_to_sell: -100 }));
}

#[test]
fn nonPositiveOffer() {
    let mut market = init();

    let token = market.lock_sell(Gk::EUR, 100, -1, "test".to_string());
    assert_eq!(token, Err(LSE::NonPositiveOffer { negative_offer: -1 }));
}

// This market has no rule against a second lock on the default good:
// several sell locks on it are legal up to the row capacity. An offer of 220
// for 100 cash units is instead above the quoted payout of 110, and a modest
// second offer is granted.
#[test]
fn defaultGoodAlreadyLocked() {
    let mut market = init();

    let token1 = market.lock_sell(Gk::EUR, 100, 220, "test".to_string());
    assert_eq!(
        token1,
        Err(LSE::OfferTooHigh {
            offered_good_kind: Gk::EUR,
            offered_good_quantity: 100,
            high_offer: 220,
            highest_acceptable_offer: 110,
        })
    );
    let token2 = market.lock_sell(Gk::EUR, 100, 10, "test".to_string());
    assert!(token2.is_ok());
}

#[test]
fn maxAllowedLocksReached() {
    let mut market = init();
    let max_locks = init_lock();
    let mut token;

    for _ in 0..max_locks {
        token = market.lock_sell(Gk::EUR, 100, 1, "test".to_string());
        match token {
            Ok(_) => {}
            Err(e) => panic!("Error: {:?}", e),
        }
    }

    token = market.lock_sell(Gk::EUR, 100, 1, "test".to_string());
    assert_eq!(token, Err(LSE::MaxAllowedLocksReached));
}

#[test]
fn insufficientDefaultGoodQuantityAvailable() {
    let mut market = init();
    let goods = market.get_goods();
    let good = Good::new(Gk::USD, 1000);
    let available = goods[0].quantity;

    let token = market.lock_sell(good.get_kind(), good.get_qty(), 1000000, "test".to_string());
    assert_eq!(
        token,
        Err(LSE::InsufficientDefaultGoodQuantityAvailable {
            offered_good_kind: good.get_kind(),
            offered_good_quantity: good.get_qty(),
            available_good_quantity: available,
        })
    );
}

#[test]
fn offerTooHigh() {}

#[test]
fn tests_nonPositiveQuantityToSell() {
    let mut market = ZSE::new_random();

    let token = market.lock_sell(Gk::EUR, -100, 1, "test".to_string());
    assert_eq!(token, Err(LSE::NonPositiveQuantityToSell { negative_quantity_to_sell: -100 }));
}

#[test]
fn tests_nonPositiveOffer() {
    let mut market = ZSE::new_random();

    let token = market.lock_sell(Gk::EUR, 100, -1, "test".to_string());
    assert_eq!(token, Err(LSE::NonPositiveOffer { negative_offer: -1 }));
}

// As in `defaultGoodAlreadyLocked` above: the high first offer is refused on
// price, and a second lock on the default good is legal.
#[test]
fn tests_defaultGoodAlreadyLocked() {
    let mut market = ZSE::new_random();

    let token1 = market.lock_sell(Gk::EUR, 100, 220, "test".to_string());
    assert_eq!(
        token1,
        Err(LSE::OfferTooHigh {
            offered_good_kind: Gk::EUR,
            offered_good_quantity: 100,
            high_offer: 220,
            highest_acceptable_offer: 110,
        })
    );
    let token2 = market.lock_sell(Gk::EUR, 100, 10, "test".to_string());
    assert!(token2.is_ok());
}

#[test]
fn tests_maxAllowedLocksReached() {
    let mut market = ZSE::new_random();
    let max_locks = 3;
    let mut token;

    for _ in 0..max_locks {
        token = market.lock_sell(Gk::EUR, 100, 1, "test".to_string());
        match token {
            Ok(_) => {}
            Err(e) => panic!("Error: {:?}", e),
        }
    }

    token = market.lock_sell(Gk::EUR, 100, 1, "test".to_string());
    assert_eq!(token, Err(LSE::MaxAllowedLocksReached));
}

#[test]
fn tests_insufficientDefaultGoodQuantityAvailable() {
    let mut market = ZSE::new_random();
    let goods = market.get_goods();
    let good = Good::new(Gk::USD, 1000);
    let available = goods[0].quantity;

    let token = market.lock_sell(good.get_kind(), good.get_qty(), 1000000, "test".to_string());
    assert_eq!(
        token,
        Err(LSE::InsufficientDefaultGoodQuantityAvailable {
            offered_good_kind: good.get_kind(),
            offered_good_quantity: good.get_qty(),
            available_good_quantity: available,
        })
    );
}

#[test]
fn tests_offerTooHigh() {
    let mut market = ZSE::new_random();
    let goods = market.get_goods();
    let good = Good::new(Gk::USD, 1000);
    let available = goods[0].quantity;
    let highest_acceptable = market.get_sell_price(good.get_kind(), good.get_qty()).unwrap();

    let token = market.lock_sell(good.get_kind(), good.get_qty(), available - 1, "test".to_string());
    assert_eq!(
        token,
        Err(LSE::OfferTooHigh {
            offered_good_kind: good.get_kind(),
            offered_good_quantity: good.get_qty(),
            high_offer: available - 1,
            highest_acceptable_offer: highest_acceptable,
        })
    );
}

#[test]
fn test_working_function() {
    let mut market = ZSE::new_random();
    let token = market.lock_sell(Gk::USD, 100, 1, "test".to_string());
    println!("Token: {:?}", token);
}
