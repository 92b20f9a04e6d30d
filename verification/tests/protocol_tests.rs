//! Scenario tests for the reservation protocol: price floors, lock
//! capacity, the token round trip, expiry, and conservation of the books.

use zse::errors::{BuyError, LockBuyError, SellError};
use zse::goods::Good;
use zse::goods::GoodKind as Gk;
use zse::market::{Event, EventKind, ZSE, MAXTIME};
use zse::token::Token;

// A low bid for a feasible quantity is refused with the lowest acceptable
// bid, which is exactly the quoted buy price.
#[test]
fn scenario_low_bid_reports_floor() {
    let mut market = ZSE::new_with_quantities(1000, 0, 1000, 0);
    let quoted = market.get_buy_price(Gk::USD, 500).unwrap();
    assert_eq!(quoted, 950);
    let res = market.lock_buy(Gk::USD, 500, 1, "test".to_string());
    assert_eq!(
        res,
        Err(LockBuyError::BidTooLow {
            requested_good_kind: Gk::USD,
            requested_good_quantity: 500,
            low_bid: 1,
            lowest_acceptable_bid: 950,
        })
    );
}

// A request beyond the holding is refused before any price check.
#[test]
fn scenario_insufficient_good() {
    let mut market = ZSE::new_with_quantities(1000, 0, 0, 0);
    let res = market.lock_buy(Gk::USD, 500, 100000, "test".to_string());
    assert_eq!(
        res,
        Err(LockBuyError::InsufficientGoodQuantityAvailable {
            requested_good_kind: Gk::USD,
            requested_good_quantity: 500,
            available_good_quantity: 0,
        })
    );
}

// Three buy locks on one kind fill the row; the fourth is refused and the
// books are untouched by the refusal.
#[test]
fn scenario_max_locks() {
    let mut market = ZSE::new_with_quantities(100000, 0, 100000, 0);
    for _ in 0..3 {
        let bid = market.get_buy_price(Gk::USD, 100).unwrap();
        let res = market.lock_buy(Gk::USD, 100, bid, "test".to_string());
        assert!(res.is_ok());
    }
    let before: Vec<i64> = market.get_goods().iter().map(|l| l.quantity).collect();
    let bid = market.get_buy_price(Gk::USD, 100).unwrap();
    let res = market.lock_buy(Gk::USD, 100, bid, "test".to_string());
    assert_eq!(res, Err(LockBuyError::MaxAllowedLocksReached));
    let after: Vec<i64> = market.get_goods().iter().map(|l| l.quantity).collect();
    assert_eq!(before, after);
}

// The token round trip: a token is accepted exactly once, and the books
// move by exactly the agreed price and quantity.
#[test]
fn scenario_token_round_trip() {
    let mut market = ZSE::new_with_quantities(100000, 100000, 100000, 100000);
    let bid = market.get_buy_price(Gk::USD, 100).unwrap();
    let token = market.lock_buy(Gk::USD, 100, bid, "test".to_string()).unwrap();

    let cash_before = market.get_goods()[0].quantity;
    let usd_before = market.get_goods()[1].quantity;

    let mut cash = Good::new(Gk::EUR, bid);
    let bought = market.buy(token.clone(), &mut cash).unwrap();
    assert_eq!(bought.get_kind(), Gk::USD);
    assert_eq!(bought.get_qty(), 100);
    assert_eq!(cash.get_qty(), 0);
    assert_eq!(market.get_goods()[0].quantity, cash_before + bid);
    assert_eq!(market.get_goods()[1].quantity, usd_before - 100);

    let mut more_cash = Good::new(Gk::EUR, bid);
    let second = market.buy(token.clone(), &mut more_cash);
    assert_eq!(second, Err(BuyError::ExpiredToken { expired_token: token }));
    assert_eq!(more_cash.get_qty(), bid);
}

// A reservation that ages out is reclaimed: its token is refused as
// expired even though it was never committed or cancelled.
#[test]
fn scenario_expiry() {
    let mut market = ZSE::new_with_quantities(100000, 100000, 100000, 100000);
    let bid = market.get_buy_price(Gk::USD, 100).unwrap();
    let token = market.lock_buy(Gk::USD, 100, bid, "test".to_string()).unwrap();

    let day = Event { kind: EventKind::Wait, good_kind: Gk::EUR, quantity: 0, price: 0 };
    for _ in 0..MAXTIME {
        market.on_event(day);
    }

    let mut cash = Good::new(Gk::EUR, bid);
    let res = market.buy(token.clone(), &mut cash);
    assert_eq!(res, Err(BuyError::ExpiredToken { expired_token: token }));
}

// Before expiry the reservation still commits.
#[test]
fn scenario_not_yet_expired() {
    let mut market = ZSE::new_with_quantities(100000, 100000, 100000, 100000);
    let bid = market.get_buy_price(Gk::USD, 100).unwrap();
    let token = market.lock_buy(Gk::USD, 100, bid, "test".to_string()).unwrap();

    let day = Event { kind: EventKind::Wait, good_kind: Gk::EUR, quantity: 0, price: 0 };
    for _ in 0..(MAXTIME - 1) {
        market.on_event(day);
    }

    let mut cash = Good::new(Gk::EUR, bid);
    assert!(market.buy(token, &mut cash).is_ok());
}

// A rejected lock_sell changes nothing: not the goods, not the prices, not
// the lock tables.
#[test]
fn rejection_changes_nothing() {
    let mut market = ZSE::new_with_quantities(50000, 50000, 50000, 50000);
    let goods_before: Vec<i64> = market.get_goods().iter().map(|l| l.quantity).collect();
    let buy_before: Vec<i64> = market.get_goods().iter().map(|l| l.exchange_rate_buy).collect();
    let sell_before: Vec<i64> = market.get_goods().iter().map(|l| l.exchange_rate_sell).collect();

    let r1 = market.lock_sell(Gk::USD, -7, 10, "test".to_string());
    assert!(r1.is_err());
    let r2 = market.lock_sell(Gk::USD, 7, -10, "test".to_string());
    assert!(r2.is_err());

    assert_eq!(goods_before, market.get_goods().iter().map(|l| l.quantity).collect::<Vec<i64>>());
    assert_eq!(
        buy_before,
        market.get_goods().iter().map(|l| l.exchange_rate_buy).collect::<Vec<i64>>()
    );
    assert_eq!(
        sell_before,
        market.get_goods().iter().map(|l| l.exchange_rate_sell).collect::<Vec<i64>>()
    );
    let locked: Vec<i64> = market.locked_qty.clone();
    assert_eq!(locked, vec![0, 0, 0, 0]);
}

// What the locks reserve never exceeds what is held, kind by kind.
#[test]
fn reserved_never_exceeds_held() {
    let mut market = ZSE::new_with_quantities(50000, 50000, 50000, 50000);
    let bid = market.get_buy_price(Gk::USD, 200).unwrap();
    market.lock_buy(Gk::USD, 200, bid, "test".to_string()).unwrap();
    let payout = market.get_sell_price(Gk::YEN, 50).unwrap();
    market.lock_sell(Gk::YEN, 50, payout, "test".to_string()).unwrap();
    for k in 0..4 {
        assert!(0 <= market.locked_qty[k]);
        assert!(market.locked_qty[k] <= market.goods[k].get_qty());
    }
}

// A token forged with a live registry index but the wrong credential is
// refused as unrecognized, and the books do not move.
#[test]
fn forged_credential_refused() {
    let mut market = ZSE::new_with_quantities(100000, 100000, 100000, 100000);
    let bid = market.get_buy_price(Gk::USD, 100).unwrap();
    let token = market.lock_buy(Gk::USD, 100, bid, "test".to_string()).unwrap();
    let forged = Token { id: token.id, code: "guessed".to_string() };
    let mut cash = Good::new(Gk::EUR, bid);
    let res = market.buy(forged.clone(), &mut cash);
    assert_eq!(res, Err(BuyError::UnrecognizedToken { unrecognized_token: forged }));
    assert_eq!(cash.get_qty(), bid);
    // the genuine token still commits
    assert!(market.buy(token, &mut cash).is_ok());
}

// A never-issued token is unrecognized; the wrong cash kind and short cash
// are each refused with their own error.
#[test]
fn buy_refusals() {
    let mut market = ZSE::new_with_quantities(100000, 100000, 100000, 100000);
    let forged = Token { id: 999, code: "no-such-token".to_string() };
    let mut cash = Good::new(Gk::EUR, 1000);
    let res = market.buy(forged.clone(), &mut cash);
    assert_eq!(res, Err(BuyError::UnrecognizedToken { unrecognized_token: forged }));

    let bid = market.get_buy_price(Gk::USD, 100).unwrap();
    let token = market.lock_buy(Gk::USD, 100, bid, "test".to_string()).unwrap();

    let mut wrong = Good::new(Gk::YEN, 100000);
    let res2 = market.buy(token.clone(), &mut wrong);
    assert_eq!(res2, Err(BuyError::GoodKindNotDefault { non_default_good_kind: Gk::YEN }));

    let mut small = Good::new(Gk::EUR, 0);
    let res3 = market.buy(token.clone(), &mut small);
    assert_eq!(
        res3,
        Err(BuyError::InsufficientGoodQuantity { contained_quantity: 0, pre_agreed_quantity: bid })
    );
}

// The sell side round trip with its refusals: wrong kind, short quantity,
// then a clean commit paying out exactly the agreed offer.
#[test]
fn sell_round_trip() {
    let mut market = ZSE::new_with_quantities(100000, 100000, 100000, 100000);
    let payout = market.get_sell_price(Gk::USD, 100).unwrap();
    let offer = payout / 2;
    let token = market.lock_sell(Gk::USD, 100, offer, "test".to_string()).unwrap();

    let mut wrong = Good::new(Gk::YEN, 100000);
    let res = market.sell(token.clone(), &mut wrong);
    assert_eq!(
        res,
        Err(SellError::WrongGoodKind { wrong_good_kind: Gk::YEN, pre_agreed_kind: Gk::USD })
    );

    let mut short = Good::new(Gk::USD, 5);
    let res2 = market.sell(token.clone(), &mut short);
    assert_eq!(
        res2,
        Err(SellError::InsufficientGoodQuantity {
            contained_quantity: 5,
            pre_agreed_quantity: 100,
        })
    );

    let cash_before = market.get_goods()[0].quantity;
    let usd_before = market.get_goods()[1].quantity;
    let mut goods_to_sell = Good::new(Gk::USD, 100);
    let paid = market.sell(token, &mut goods_to_sell).unwrap();
    assert_eq!(paid.get_kind(), Gk::EUR);
    assert_eq!(paid.get_qty(), offer);
    assert_eq!(goods_to_sell.get_qty(), 0);
    assert_eq!(market.get_goods()[0].quantity, cash_before - offer);
    assert_eq!(market.get_goods()[1].quantity, usd_before + 100);
}

// The exact quote formulas, one value each.
#[test]
fn quote_formulas() {
    let market = ZSE::new_with_quantities(1000, 0, 1000, 0);
    // buy: raw 2 * 100 = 200; the request asks a tenth of the holding, so
    // the discount is (200 / 100) * (10 * 100 / 1000) = 2.
    assert_eq!(market.get_buy_price(Gk::USD, 100).unwrap(), 198);
    // sell: raw 2 * 100 = 200, plus the tenth markup.
    assert_eq!(market.get_sell_price(Gk::USD, 100).unwrap(), 220);
    assert_eq!(market.get_buy_price(Gk::USD, 0).unwrap(), 0);
}

// Validation errors of the buy side of the lock protocol.
#[test]
fn lock_buy_validation() {
    let mut market = ZSE::new_with_quantities(1000, 0, 1000, 0);
    assert_eq!(
        market.lock_buy(Gk::USD, -5, 10, "test".to_string()),
        Err(LockBuyError::NonPositiveQuantityToBuy { negative_quantity_to_buy: -5 })
    );
    assert_eq!(
        market.lock_buy(Gk::USD, 5, -10, "test".to_string()),
        Err(LockBuyError::NonPositiveBid { negative_bid: -10 })
    );
}

// An internal trade triggers the rebalancing pass when one kind is scarce:
// a whole chunk of the surplus kind converts into the scarce kind at the
// canonical rates, and the pair's cooldown arms.
#[test]
fn rebalancing_fires_on_scarcity() {
    let mut market = ZSE::new_with_quantities(50000, 0, 50000, 20000);
    let bid = market.get_buy_price(Gk::USD, 10).unwrap();
    assert_eq!(bid, 20);
    let token = market.lock_buy(Gk::USD, 10, bid, "test".to_string()).unwrap();
    let mut cash = Good::new(Gk::EUR, bid);
    market.buy(token, &mut cash).unwrap();
    let goods = market.get_goods();
    // cash took the price in, then lost one chunk to the scarce kind.
    assert_eq!(goods[0].quantity, 50000 + 20 - 10000);
    assert_eq!(goods[1].quantity, 50000 - 10);
    // the scarce kind received the chunk at the canonical rate.
    assert_eq!(goods[2].quantity, 10000 * 150);
    assert_eq!(goods[3].quantity, 20000);
}

// Expiry frees capacity: once a full row has aged out, both the slots and
// the reserved quantity are released and a new lock is granted.
#[test]
fn expiry_frees_capacity() {
    let mut market = ZSE::new_with_quantities(100000, 0, 1000, 0);
    for _ in 0..3 {
        let bid = market.get_buy_price(Gk::USD, 100).unwrap();
        market.lock_buy(Gk::USD, 100, bid, "test".to_string()).unwrap();
    }
    assert_eq!(market.locked_qty[1], 300);
    let bid = market.get_buy_price(Gk::USD, 100).unwrap();
    let refused = market.lock_buy(Gk::USD, 100, bid, "test".to_string());
    assert_eq!(refused, Err(LockBuyError::MaxAllowedLocksReached));

    let day = Event { kind: EventKind::Wait, good_kind: Gk::EUR, quantity: 0, price: 0 };
    for _ in 0..MAXTIME {
        market.on_event(day);
    }
    assert_eq!(market.locked_qty[1], 0);
    let bid = market.get_buy_price(Gk::USD, 100).unwrap();
    let granted = market.lock_buy(Gk::USD, 100, bid, "test".to_string());
    assert!(granted.is_ok());
    assert_eq!(market.locked_qty[1], 100);
}

// A peer's cheaper trade pulls the buy price down defensively, a touch
// under the observed unit price; holdings are untouched.
#[test]
fn peer_event_adjusts_prices() {
    let mut market = ZSE::new_with_quantities(50000, 50000, 50000, 50000);
    let goods_before: Vec<i64> = market.get_goods().iter().map(|l| l.quantity).collect();
    let cheap_trade = Event { kind: EventKind::Bought, good_kind: Gk::USD, quantity: 100, price: 100 };
    market.on_event(cheap_trade);
    let labels = market.get_goods();
    assert_eq!(labels[1].exchange_rate_buy, 1);
    assert_eq!(goods_before, labels.iter().map(|l| l.quantity).collect::<Vec<i64>>());
}
