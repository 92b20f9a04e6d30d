//! Tests of the trading agents, the scheduler order, and the small public
//! helpers.

use zse::goods::{convert_to_eur, get_index_by_goodkind, Good};
use zse::goods::GoodKind as Gk;
use zse::rocket::{html, index, rocket};
use zse::trader::{get_index_by_market, get_max, get_name_market, metadata_values, Data, ZSE_Trader};
use zse::trader_balordo::{
    get_deadline_by_market, BestPrice, Lock, Transaction, ZSE_Trader as Dropshipper,
};
use zse::wrapper::Wrapper;

// Highest response ratio next: spread 5 over 2 days (ratio 2.5) outranks
// spread 1 over 10 days (ratio 0.1), so the first transaction is picked.
#[test]
fn hrrn_picks_highest_ratio() {
    let quantities = vec![1000, 1000, 1000, 1000];
    let mut t = Dropshipper::new_with_quantities(
        quantities.clone(),
        quantities.clone(),
        quantities.clone(),
        quantities.clone(),
    );
    t.transactions.push(Transaction {
        lock_buy: Lock { token: None, market: 0, price: 10 },
        lock_sell: Lock { token: None, market: 1, price: 15 },
        good_kind: Gk::USD,
        quantity: 10,
        deadline: 2,
        priority_spread: 5,
    });
    t.transactions.push(Transaction {
        lock_buy: Lock { token: None, market: 0, price: 10 },
        lock_sell: Lock { token: None, market: 1, price: 11 },
        good_kind: Gk::YEN,
        quantity: 10,
        deadline: 10,
        priority_spread: 1,
    });
    assert_eq!(t.best_transaction_index(), 0);
}

// With equal ratios the earlier transaction keeps its place.
#[test]
fn hrrn_keeps_first_on_tie() {
    let quantities = vec![1000, 1000, 1000, 1000];
    let mut t = Dropshipper::new_with_quantities(
        quantities.clone(),
        quantities.clone(),
        quantities.clone(),
        quantities.clone(),
    );
    t.transactions.push(Transaction {
        lock_buy: Lock { token: None, market: 0, price: 1 },
        lock_sell: Lock { token: None, market: 1, price: 3 },
        good_kind: Gk::USD,
        quantity: 10,
        deadline: 2,
        priority_spread: 2,
    });
    t.transactions.push(Transaction {
        lock_buy: Lock { token: None, market: 0, price: 1 },
        lock_sell: Lock { token: None, market: 1, price: 5 },
        good_kind: Gk::YEN,
        quantity: 10,
        deadline: 4,
        priority_spread: 4,
    });
    assert_eq!(t.best_transaction_index(), 0);
}

// A few cycles of the rotating-selector strategy leave the trader's books
// sane: four kinds, non-negative holdings.
#[test]
fn strategy_smoke() {
    let mut trader = ZSE_Trader::new();
    let mut out: Vec<Vec<i64>> = Vec::new();
    for x in 0..4 {
        trader.strategy(x, &mut out);
    }
    assert_eq!(trader.goods.len(), 4);
    for g in &trader.goods {
        assert!(g.get_qty() >= 0);
    }
    for line in &out {
        assert_eq!(line.len(), 5);
        assert_eq!(line[0], 2);
    }
}

// A few ticks of the dropshipping loop keep its invariants observable from
// outside: deadlines of pending transactions stay positive.
#[test]
fn dropship_smoke() {
    let mut trader = Dropshipper::new();
    let mut out: Vec<Vec<i64>> = Vec::new();
    for _ in 0..4 {
        trader.trade_tick(&mut out);
    }
    for t in &trader.transactions {
        assert!(t.deadline >= 1);
    }
    for line in &out {
        assert_eq!(line.len(), 5);
        assert_eq!(line[0], 1);
    }
}

// The trader starts with the whole budget in cash.
#[test]
fn trader_initial_books() {
    let mut trader = ZSE_Trader::new();
    assert_eq!(trader.get_qty_good_trader(0), 100_000);
    assert_eq!(trader.get_qty_good_trader(1), 0);
    assert_eq!(trader.get_name().as_str(), "ZSE_Trader");
    assert_eq!(trader.information.lock_buy, Data::new().lock_buy);
}

// A randomly capitalised venue honours the documented floor — every kind
// starts with at least an eighth of the capital at its canonical rate —
// and the converted holdings sum to exactly the starting capital.
#[test]
fn random_venue_capital_floor() {
    let market = zse::market::ZSE::new_random();
    let goods = market.get_goods();
    assert!(goods[0].quantity >= 12_500);
    assert!(goods[1].quantity >= 12_500 * 2);
    assert!(goods[2].quantity >= 12_500 * 150);
    assert!(goods[3].quantity >= 12_500 * 7);
    let total =
        goods[0].quantity + goods[1].quantity / 2 + goods[2].quantity / 150 + goods[3].quantity / 7;
    assert_eq!(total, 100_000);
    for k in 1..4 {
        let worth = convert_to_eur(&Good::new(goods[k].good_kind, goods[k].quantity));
        assert!(worth < 25_000);
    }
}

// A stock-entry list builds an exchange by its last entry per kind.
#[test]
fn stock_entries_build_inventory() {
    let entries = vec![(Gk::USD, 40), (Gk::YEN, 7), (Gk::USD, 55)];
    let market = zse::market::ZSE::new_file_quantities(&entries);
    let goods = market.get_goods();
    assert_eq!(goods[0].quantity, 0);
    assert_eq!(goods[1].quantity, 55);
    assert_eq!(goods[2].quantity, 7);
    assert_eq!(goods[3].quantity, 0);
}

#[test]
fn venue_name_tables() {
    assert_eq!(get_index_by_market("RCNZ"), 0);
    assert_eq!(get_index_by_market("Baku stock exchange"), 1);
    assert_eq!(get_index_by_market("BFB"), 1);
    assert_eq!(get_index_by_market("BVC"), 2);
    assert_eq!(get_name_market(0), "RCNZ");
    assert_eq!(get_name_market(1), "BFB");
    assert_eq!(get_name_market(2), "BVC");
    assert_eq!(get_deadline_by_market("RCNZ"), 15);
    assert_eq!(get_deadline_by_market("BFB"), 10);
    assert_eq!(get_deadline_by_market("BVC"), 12);
    assert_eq!(zse::trader_balordo::get_index_by_market("BVC"), 2);
}

#[test]
fn conversion_and_helpers() {
    assert_eq!(convert_to_eur(&Good::new(Gk::YEN, 300)), 2);
    assert_eq!(convert_to_eur(&Good::new(Gk::EUR, 41)), 41);
    assert_eq!(convert_to_eur(&Good::new(Gk::USD, 7)), 3);
    assert_eq!(get_index_by_goodkind(&Gk::YUAN), 3);
    assert_eq!(get_max(3, 9), 9);
    assert_eq!(get_max(9, 3), 9);
    let vals = metadata_values(&vec![
        Good::new(Gk::EUR, 10),
        Good::new(Gk::USD, 4),
        Good::new(Gk::YEN, 300),
        Good::new(Gk::YUAN, 14),
    ]);
    assert_eq!(vals, vec![10, 2, 2, 2]);
}

#[test]
fn good_split_and_merge() {
    let mut g = Good::new(Gk::USD, 100);
    let part = g.split(30).unwrap();
    assert_eq!(part.get_qty(), 30);
    assert_eq!(g.get_qty(), 70);
    assert!(g.split(-1).is_err());
    assert!(g.split(1000).is_err());
    assert!(g.merge(part).is_ok());
    assert_eq!(g.get_qty(), 100);
    let other = Good::new(Gk::YEN, 5);
    assert!(g.merge(other).is_err());
}

#[test]
fn front_end_routes() {
    assert_eq!(index(), "Hello, world!");
    assert!(html().contains("ZSE Trader"));
    let routes = rocket();
    assert_eq!(routes.len(), 2);
    assert_eq!(routes[0].0, "/");
    assert_eq!(routes[1].0, "/html");
    assert_eq!(routes[0].1, "Hello, world!");
}

#[test]
fn wrapper_starts_empty() {
    let w = Wrapper::new();
    assert_eq!(w.markets.len(), 0);
}

// The best-price cache starts at its sentinels and only takes real quotes.
#[test]
fn best_price_cache_updates() {
    let quantities = vec![10_000, 10_000, 10_000, 10_000];
    let mut t = Dropshipper::new_with_quantities(
        quantities.clone(),
        quantities.clone(),
        quantities.clone(),
        quantities.clone(),
    );
    t.update_best_prices();
    for good in 1..4 {
        let bp: BestPrice = t.best_prices[0][good];
        assert!(bp.price > 0);
        assert!(bp.price <= 2_000_000);
        assert!(bp.market < 3);
    }
}
