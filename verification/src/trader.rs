//! A trading agent that polls three exchange venues, opens buy and sell
//! reservations on the venue its selector picks, and commits them in
//! batches. Venue selection rotates between the cheapest, the dearest and
//! the remaining venue; quantities are drawn at random and clamped to what
//! is feasible.

use vstd::prelude::*;
use crate::goods::{
    Good, GoodKind, MAX_UNITS, convert_to_eur, get_goodkind_by_index, get_index_by_goodkind,
    spec_convert_to_eur, spec_kind_of_index,
};
use crate::market::{has_slot, Event, EventKind, ZSE};
use crate::outside;
use crate::token::Token;

verus! {

/// Reservations opened per commit batch.
pub const NUM_LOCK: i64 = 3;

/// Cap on the projected-balance bookkeeping values.
pub const QTY_BOUND: i64 = 16_000_000_000_000;

/// Which side of the book an operation works.
#[derive(Clone, Copy, Debug)]
pub enum Mode {
    Buy,
    Sell,
}

/// Row of the price snapshot a mode reads: buy prices first, sell prices
/// second.
pub open spec fn side_of(mode: Mode) -> int {
    if mode is Buy {
        0
    } else {
        1
    }
}

/// A reservation this trader holds on some venue, with the balances it
/// projects for when the reservation commits.
#[derive(Debug)]
pub struct Locking {
    pub token: Token,
    pub market: usize,
    pub time: i64,
    pub kind: GoodKind,
    pub qty: i64,
    pub price: i64,
    pub new_qty_euro: i64,
    pub new_qty_gk: i64,
}

/// Counters of what the trader has done so far.
#[derive(Clone, Copy, Debug)]
pub struct Data {
    pub lock_buy: i64,
    pub lock_sell: i64,
    pub buy: i64,
    pub sell: i64,
    pub wait: i64,
}

impl Data {
    pub fn new() -> (d: Data)
        ensures
            d.lock_buy == 0,
            d.lock_sell == 0,
            d.buy == 0,
            d.sell == 0,
            d.wait == 0,
    {
        Data { lock_buy: 0, lock_sell: 0, buy: 0, sell: 0, wait: 0 }
    }
}

/// A price found on some venue. `market == 3` marks a fresh search value
/// that no venue has matched yet.
#[derive(Clone, Copy, Debug)]
pub struct Value {
    pub val: i64,
    pub market: usize,
}

impl Value {
    /// Seed for a highest-price search: below every real price.
    pub fn new_max() -> (v: Value)
        ensures
            v.val == 0,
            v.market == 3,
    {
        Value { val: 0, market: 3 }
    }

    /// Seed for a lowest-price search: above every real price.
    pub fn new_min() -> (v: Value)
        ensures
            v.val == i64::MAX,
            v.market == 3,
    {
        Value { val: i64::MAX, market: 3 }
    }
}

/// Bump a counter without ever wrapping.
fn bump(x: i64) -> (r: i64)
    ensures
        x < i64::MAX ==> r == x + 1,
        x == i64::MAX ==> r == x,
{
    if x < i64::MAX {
        x + 1
    } else {
        x
    }
}

pub fn get_max(a: i64, b: i64) -> (r: i64)
    ensures
        r == (if a > b {
            a
        } else {
            b
        }),
{
    if a > b {
        a
    } else {
        b
    }
}

/// Venue handle for a venue name. The names are the fixed set the trader
/// knows; any other name is a caller error, which the precondition rules
/// out.
pub fn get_index_by_market(m: &str) -> (i: usize)
    requires
        m@ == "RCNZ"@ || m@ == "Baku stock exchange"@ || m@ == "BFB"@ || m@ == "BVC"@,
    ensures
        i < 3,
        (m@ == "RCNZ"@ && i == 0) || ((m@ == "Baku stock exchange"@ || m@ == "BFB"@) && i == 1) || (
        m@ == "BVC"@ && i == 2),
{
    proof {
        reveal_strlit("RCNZ");
        reveal_strlit("Baku stock exchange");
        reveal_strlit("BFB");
        reveal_strlit("BVC");
    }
    if outside::str_eq(m, "RCNZ") {
        0
    } else if outside::str_eq(m, "Baku stock exchange") {
        1
    } else if outside::str_eq(m, "BFB") {
        1
    } else {
        2
    }
}

/// Name of a venue handle.
pub fn get_name_market(n: usize) -> (name: String)
    requires
        n < 3,
    ensures
        n == 0 ==> name@ == "RCNZ"@,
        n == 1 ==> name@ == "BFB"@,
        n == 2 ==> name@ == "BVC"@,
{
    if n == 0 {
        let s: &str = "RCNZ";
        s.to_owned()
    } else if n == 1 {
        let s: &str = "BFB";
        s.to_owned()
    } else {
        let s: &str = "BVC";
        s.to_owned()
    }
}

/// The trader's holdings valued in cash units at the canonical rates, one
/// entry per kind: the line the plotting front-end consumes.
pub fn metadata_values(goods: &Vec<Good>) -> (r: Vec<i64>)
    requires
        goods@.len() == 4,
        forall|k: int| 0 <= k < 4 ==> (#[trigger] goods@[k]).valid(),
    ensures
        r@.len() == 4,
        forall|k: int| 0 <= k < 4 ==> #[trigger] r@[k] == spec_convert_to_eur(goods@[k]),
{
    let mut out: Vec<i64> = Vec::new();
    out.push(convert_to_eur(&goods[0]));
    out.push(convert_to_eur(&goods[1]));
    out.push(convert_to_eur(&goods[2]));
    out.push(convert_to_eur(&goods[3]));
    out
}

/// The agent: three venues, a per-venue price snapshot, its own inventory,
/// and the reservations it has open on each side.
#[allow(non_camel_case_types)]
pub struct ZSE_Trader {
    pub name: String,
    pub markets: Vec<ZSE>,
    pub prices: Vec<Vec<Vec<i64>>>,
    pub goods: Vec<Good>,
    pub token_buy: Vec<Locking>,
    pub token_sell: Vec<Locking>,
    pub information: Data,
}

impl ZSE_Trader {
    pub open spec fn locking_ok(l: Locking) -> bool {
        &&& l.market < 3
        &&& 0 <= l.qty <= MAX_UNITS
        &&& -QTY_BOUND <= l.new_qty_euro <= QTY_BOUND
        &&& -QTY_BOUND <= l.new_qty_gk <= QTY_BOUND
    }

    /// The trader invariant: three well-formed venues, a full price
    /// snapshot, a valid inventory, and sane reservation bookkeeping.
    pub open spec fn wf(self) -> bool {
        &&& self.markets@.len() == 3
        &&& forall|m: int| 0 <= m < 3 ==> (#[trigger] self.markets@[m]).wf()
        &&& self.prices@.len() == 2
        &&& forall|x: int| 0 <= x < 2 ==> (#[trigger] self.prices@[x])@.len() == 3
        &&& forall|x: int, m: int|
            0 <= x < 2 && 0 <= m < 3 ==> (#[trigger] self.prices@[x]@[m])@.len() == 4
        &&& self.goods@.len() == 4
        &&& forall|k: int|
            0 <= k < 4 ==> (#[trigger] self.goods@[k]).valid() && self.goods@[k].kind
                == spec_kind_of_index(k)
        &&& forall|i: int|
            0 <= i < self.token_buy@.len() ==> Self::locking_ok(#[trigger] self.token_buy@[i])
        &&& forall|i: int|
            0 <= i < self.token_sell@.len() ==> Self::locking_ok(#[trigger] self.token_sell@[i])
    }

    fn default() -> (t: ZSE_Trader)
        ensures
            t.markets@.len() == 3,
            forall|m: int| 0 <= m < 3 ==> (#[trigger] t.markets@[m]).wf(),
            forall|m: int|
                0 <= m < 3 ==> spec_convert_to_eur((#[trigger] t.markets@[m]).goods@[0])
                    + spec_convert_to_eur(t.markets@[m].goods@[1]) + spec_convert_to_eur(
                    t.markets@[m].goods@[2],
                ) + spec_convert_to_eur(t.markets@[m].goods@[3])
                    == crate::market::STARTING_CAPITAL,
            t.prices@.len() == 2,
            forall|x: int| 0 <= x < 2 ==> (#[trigger] t.prices@[x])@.len() == 3,
            forall|x: int, m: int|
                0 <= x < 2 && 0 <= m < 3 ==> (#[trigger] t.prices@[x]@[m])@.len() == 4,
            t.goods@.len() == 0,
            t.token_buy@.len() == 0,
            t.token_sell@.len() == 0,
            t.name@ == "ZSE_Trader"@,
    {
        let name: String = {
            let s: &str = "ZSE_Trader";
            s.to_owned()
        };
        let mut markets: Vec<ZSE> = Vec::new();
        markets.push(ZSE::new_random());
        markets.push(ZSE::new_random());
        markets.push(ZSE::new_random());
        let row: Vec<i64> = vec![0, 0, 0, 0];
        let table: Vec<Vec<i64>> = vec![row.clone(), row.clone(), row.clone()];
        let prices: Vec<Vec<Vec<i64>>> = vec![table.clone(), table.clone()];
        ZSE_Trader {
            name,
            markets,
            prices,
            goods: Vec::new(),
            token_buy: Vec::new(),
            token_sell: Vec::new(),
            information: Data::new(),
        }
    }

    /// Wire the three venues to notify one another of trade events.
    fn subscribe_all(&mut self)
        requires
            old(self).wf() || (old(self).markets@.len() == 3 && (forall|m: int|
                0 <= m < 3 ==> (#[trigger] old(self).markets@[m]).wf())),
        ensures
            final(self).markets@.len() == 3,
            forall|m: int| 0 <= m < 3 ==> (#[trigger] final(self).markets@[m]).wf(),
            forall|m: int|
                0 <= m < 3 ==> (#[trigger] final(self).markets@[m]) == (ZSE {
                    subscribers: final(self).markets@[m].subscribers,
                    ..old(self).markets@[m]
                }),
            final(self).goods@ == old(self).goods@,
            final(self).prices@ == old(self).prices@,
            final(self).token_buy@ == old(self).token_buy@,
            final(self).token_sell@ == old(self).token_sell@,
            final(self).name@ == old(self).name@,
            final(self).information == old(self).information,
    {
        self.markets[0].add_subscriber(1);
        self.markets[0].add_subscriber(2);
        self.markets[1].add_subscriber(0);
        self.markets[1].add_subscriber(2);
        self.markets[2].add_subscriber(0);
        self.markets[2].add_subscriber(1);
    }

    /// A trader over three randomly capitalised venues, holding
    /// `STARTING_CAPITAL` in cash and nothing else.
    pub fn new() -> (t: ZSE_Trader)
        ensures
            t.wf(),
            t.goods@[0].quantity == crate::market::STARTING_CAPITAL,
            t.goods@[1].quantity == 0,
            t.goods@[2].quantity == 0,
            t.goods@[3].quantity == 0,
            t.token_buy@.len() == 0,
            t.token_sell@.len() == 0,
            forall|m: int|
                0 <= m < 3 ==> spec_convert_to_eur((#[trigger] t.markets@[m]).goods@[0])
                    + spec_convert_to_eur(t.markets@[m].goods@[1]) + spec_convert_to_eur(
                    t.markets@[m].goods@[2],
                ) + spec_convert_to_eur(t.markets@[m].goods@[3])
                    == crate::market::STARTING_CAPITAL,
    {
        let mut res = Self::default();
        res.subscribe_all();
        let mut goods: Vec<Good> = Vec::new();
        goods.push(Good::new(GoodKind::EUR, crate::market::STARTING_CAPITAL));
        goods.push(Good::new(GoodKind::USD, 0));
        goods.push(Good::new(GoodKind::YEN, 0));
        goods.push(Good::new(GoodKind::YUAN, 0));
        res.goods = goods;
        res
    }

    /// A trader over three venues with chosen capital, itself holding
    /// `data` (cash-unit worth per kind, converted at the canonical rates).
    pub fn new_with_quantities(data: Vec<i64>, m1: Vec<i64>, m2: Vec<i64>, m3: Vec<i64>) -> (t:
        ZSE_Trader)
        requires
            data@.len() == 4,
            m1@.len() == 4,
            m2@.len() == 4,
            m3@.len() == 4,
            forall|i: int| 0 <= i < 4 ==> 0 <= #[trigger] data@[i] <= 20_000_000_000,
            forall|i: int| 0 <= i < 4 ==> 0 <= #[trigger] m1@[i] <= MAX_UNITS,
            forall|i: int| 0 <= i < 4 ==> 0 <= #[trigger] m2@[i] <= MAX_UNITS,
            forall|i: int| 0 <= i < 4 ==> 0 <= #[trigger] m3@[i] <= MAX_UNITS,
        ensures
            t.wf(),
            t.goods@[0].quantity == data@[0],
            t.goods@[1].quantity == data@[1] * crate::goods::RATE_USD,
            t.goods@[2].quantity == data@[2] * crate::goods::RATE_YEN,
            t.goods@[3].quantity == data@[3] * crate::goods::RATE_YUAN,
            t.token_buy@.len() == 0,
            t.token_sell@.len() == 0,
            t.markets@[0].goods_qty(0) == m1@[0] && t.markets@[0].goods_qty(1) == m1@[1]
                && t.markets@[0].goods_qty(2) == m1@[2] && t.markets@[0].goods_qty(3) == m1@[3],
            t.markets@[1].goods_qty(0) == m2@[0] && t.markets@[1].goods_qty(1) == m2@[1]
                && t.markets@[1].goods_qty(2) == m2@[2] && t.markets@[1].goods_qty(3) == m2@[3],
            t.markets@[2].goods_qty(0) == m3@[0] && t.markets@[2].goods_qty(1) == m3@[1]
                && t.markets@[2].goods_qty(2) == m3@[2] && t.markets@[2].goods_qty(3) == m3@[3],
    {
        let mut res = Self::default();
        let mut markets: Vec<ZSE> = Vec::new();
        markets.push(ZSE::new_with_quantities(m1[0], m1[2], m1[1], m1[3]));
        markets.push(ZSE::new_with_quantities(m2[0], m2[2], m2[1], m2[3]));
        markets.push(ZSE::new_with_quantities(m3[0], m3[2], m3[1], m3[3]));
        res.markets = markets;
        res.subscribe_all();
        let mut goods: Vec<Good> = Vec::new();
        goods.push(Good::new(GoodKind::EUR, data[0]));
        goods.push(Good::new(GoodKind::USD, data[1] * crate::goods::RATE_USD));
        goods.push(Good::new(GoodKind::YEN, data[2] * crate::goods::RATE_YEN));
        goods.push(Good::new(GoodKind::YUAN, data[3] * crate::goods::RATE_YUAN));
        res.goods = goods;
        res
    }

    pub fn get_name(&self) -> (r: &String)
        ensures
            r@ == self.name@,
    {
        &self.name
    }

    /// Refresh the per-venue price snapshot from the venues' listings.
    pub fn update_all_prices(&mut self)
        requires
            old(self).wf(),
        ensures
            final(self).wf(),
            final(self).markets@ == old(self).markets@,
            final(self).goods@ == old(self).goods@,
            final(self).token_buy@ == old(self).token_buy@,
            final(self).token_sell@ == old(self).token_sell@,
            final(self).information == old(self).information,
            forall|x: int, m: int, k: int|
                0 <= x < 2 && 0 <= m < 3 && 0 <= k < 4
                    ==> #[trigger] final(self).prices@[x]@[m]@[k] == (if x == 0 {
                    old(self).markets@[m].buy_rate(k)
                } else {
                    old(self).markets@[m].sell_rate(k)
                }),
            final(self).prices_synced(),
    {
        let mut m: usize = 0;
        while m < 3
            invariant
                old(self).wf(),
                m <= 3,
                *self == (ZSE_Trader { prices: self.prices, ..*old(self) }),
                self.prices@.len() == 2,
                forall|x: int| 0 <= x < 2 ==> (#[trigger] self.prices@[x])@.len() == 3,
                forall|x: int, mm: int|
                    0 <= x < 2 && 0 <= mm < 3 ==> (#[trigger] self.prices@[x]@[mm])@.len() == 4,
                forall|x: int, mm: int, k: int|
                    0 <= x < 2 && 0 <= mm < m && 0 <= k < 4 ==> #[trigger] self.prices@[x]@[mm]@[k]
                        == (if x == 0 {
                        old(self).markets@[mm].buy_rate(k)
                    } else {
                        old(self).markets@[mm].sell_rate(k)
                    }),
            decreases 3 - m,
        {
            let labels = self.markets[m].get_goods();
            let mut k: usize = 0;
            while k < 4
                invariant
                    old(self).wf(),
                    m < 3,
                    k <= 4,
                    labels@.len() == 4,
                    forall|kk: int|
                        0 <= kk < 4 ==> (#[trigger] labels@[kk]).exchange_rate_buy == old(self).markets@[m as int].buy_rate(kk) && labels@[kk].exchange_rate_sell == old(self).markets@[m as int].sell_rate(kk),
                    *self == (ZSE_Trader { prices: self.prices, ..*old(self) }),
                    self.prices@.len() == 2,
                    forall|x: int| 0 <= x < 2 ==> (#[trigger] self.prices@[x])@.len() == 3,
                    forall|x: int, mm: int|
                        0 <= x < 2 && 0 <= mm < 3 ==> (#[trigger] self.prices@[x]@[mm])@.len() == 4,
                    forall|x: int, mm: int, kk: int|
                        0 <= x < 2 && 0 <= mm < m && 0 <= kk < 4 ==> #[trigger] self.prices@[x]@[mm]@[kk]
                            == (if x == 0 {
                            old(self).markets@[mm].buy_rate(kk)
                        } else {
                            old(self).markets@[mm].sell_rate(kk)
                        }),
                    forall|x: int, kk: int|
                        0 <= x < 2 && 0 <= kk < k ==> #[trigger] self.prices@[x]@[m as int]@[kk]
                            == (if x == 0 {
                            old(self).markets@[m as int].buy_rate(kk)
                        } else {
                            old(self).markets@[m as int].sell_rate(kk)
                        }),
                decreases 4 - k,
            {
                self.prices[0][m][k] = labels[k].exchange_rate_buy;
                self.prices[1][m][k] = labels[k].exchange_rate_sell;
                k = k + 1;
            }
            m = m + 1;
        }
    }

    pub fn get_qty_good_trader(&mut self, i: usize) -> (q: i64)
        requires
            old(self).wf(),
            i < 4,
        ensures
            *final(self) == *old(self),
            q == old(self).goods@[i as int].quantity,
    {
        self.goods[i].get_qty()
    }

    /// Lowest price for `gk` across the venues (ties broken by a coin
    /// flip): the result is a price some venue quotes and no venue quotes
    /// less.
    fn find_min_price(&mut self, mode: Mode, gk: usize) -> (r: Value)
        requires
            old(self).wf(),
            gk < 4,
        ensures
            *final(self) == *old(self),
            r.market < 3,
            ({
                let x = side_of(mode);
                &&& r.val == old(self).prices@[x]@[r.market as int]@[gk as int]
                &&& old(self).venue_min_of(x, gk as int, r.market as int)
            }),
    {
        let x: usize = match mode {
            Mode::Buy => 0,
            Mode::Sell => 1,
        };
        let mut best: usize = 0;
        let mut val: i64 = self.prices[x][0][gk];
        let mut i: usize = 1;
        while i < 3
            invariant
                old(self).wf(),
                *self == *old(self),
                gk < 4,
                x < 2,
                1 <= i <= 3,
                best < 3,
                val == self.prices@[x as int]@[best as int]@[gk as int],
                forall|m: int| 0 <= m < i ==> val <= #[trigger] self.prices@[x as int]@[m]@[gk as int],
            decreases 3 - i,
        {
            let candidate: i64 = self.prices[x][i][gk];
            if val > candidate {
                val = candidate;
                best = i;
            } else if val == candidate {
                let num: i64 = outside::rand_in_range(0, 100);
                if num % 2 == 0 {
                    val = candidate;
                    best = i;
                }
            }
            i = i + 1;
        }
        proof {
            assert forall|m: int|
                0 <= m < 3 implies old(self).prices@[x as int]@[best as int]@[gk as int]
                <= #[trigger] old(self).prices@[x as int]@[m]@[gk as int] by {
                assert(val <= self.prices@[x as int]@[m]@[gk as int]);
            }
        }
        Value { val, market: best }
    }

    /// Highest price for `gk` across the venues (ties broken by a coin
    /// flip).
    fn find_max_price(&mut self, mode: Mode, gk: usize) -> (r: Value)
        requires
            old(self).wf(),
            gk < 4,
        ensures
            *final(self) == *old(self),
            r.market < 3,
            ({
                let x = side_of(mode);
                &&& r.val == old(self).prices@[x]@[r.market as int]@[gk as int]
                &&& old(self).venue_max_of(x, gk as int, r.market as int)
            }),
    {
        let x: usize = match mode {
            Mode::Buy => 0,
            Mode::Sell => 1,
        };
        let mut best: usize = 0;
        let mut val: i64 = self.prices[x][0][gk];
        let mut i: usize = 1;
        while i < 3
            invariant
                old(self).wf(),
                *self == *old(self),
                gk < 4,
                x < 2,
                1 <= i <= 3,
                best < 3,
                val == self.prices@[x as int]@[best as int]@[gk as int],
                forall|m: int| 0 <= m < i ==> val >= #[trigger] self.prices@[x as int]@[m]@[gk as int],
            decreases 3 - i,
        {
            let candidate: i64 = self.prices[x][i][gk];
            if val < candidate {
                val = candidate;
                best = i;
            } else if val == candidate {
                let num: i64 = outside::rand_in_range(0, 100);
                if num % 2 == 1 {
                    val = candidate;
                    best = i;
                }
            }
            i = i + 1;
        }
        proof {
            assert forall|m: int|
                0 <= m < 3 implies old(self).prices@[x as int]@[best as int]@[gk as int]
                >= #[trigger] old(self).prices@[x as int]@[m]@[gk as int] by {
                assert(val >= self.prices@[x as int]@[m]@[gk as int]);
            }
        }
        Value { val, market: best }
    }

    /// The venue left over once the cheapest and the dearest are excluded —
    /// used to spread exposure instead of always hammering the same venue.
    fn find_mid_price(&mut self, mode: Mode, gk: usize) -> (r: Value)
        requires
            old(self).wf(),
            gk < 4,
        ensures
            *final(self) == *old(self),
            r.market < 3,
            ({
                let x = side_of(mode);
                &&& r.val == old(self).prices@[x]@[r.market as int]@[gk as int]
                &&& exists|mn: int, mx: int|
                    #![trigger old(self).venue_min_of(x, gk as int, mn), old(self).venue_max_of(x, gk as int, mx)]
                    0 <= mn < 3 && 0 <= mx < 3 && old(self).venue_min_of(x, gk as int, mn) && old(self).venue_max_of(x, gk as int, mx) && r.market != mn && r.market != mx
            }),
    {
        let low: Value = self.find_min_price(mode, gk);
        let high: Value = self.find_max_price(mode, gk);
        let min_m: usize = low.market;
        let max_m: usize = high.market;
        let mut pick: usize = 0;
        let mut i: usize = 0;
        let mut found: bool = false;
        while i < 3
            invariant
                i <= 3,
                pick < 3,
                min_m < 3,
                max_m < 3,
                found ==> pick != min_m && pick != max_m,
                !found && i >= 1 ==> 0 == min_m || 0 == max_m,
                !found && i >= 2 ==> 1 == min_m || 1 == max_m,
                !found && i >= 3 ==> 2 == min_m || 2 == max_m,
            decreases 3 - i,
        {
            if i != min_m && i != max_m && !found {
                pick = i;
                found = true;
            }
            i = i + 1;
        }
        proof {
            if !found {
                assert(false);
            }
        }
        let x: usize = match mode {
            Mode::Buy => 0,
            Mode::Sell => 1,
        };
        proof {
            let xi = side_of(mode);
            assert(x as int == xi);
            let mn = min_m as int;
            let mx = max_m as int;
            assert(old(self).venue_min_of(xi, gk as int, mn));
            assert(old(self).venue_max_of(xi, gk as int, mx));
            assert(pick as int != mn && pick as int != mx);
            assert(exists|mn2: int, mx2: int|
                #![trigger old(self).venue_min_of(xi, gk as int, mn2), old(self).venue_max_of(xi, gk as int, mx2)]
                0 <= mn2 < 3 && 0 <= mx2 < 3 && old(self).venue_min_of(xi, gk as int, mn2) && old(self).venue_max_of(xi, gk as int, mx2) && pick as int != mn2 && pick as int != mx2);
        }
        Value { val: self.prices[x][pick][gk], market: pick }
    }

    /// The selector for this cycle: cheapest, dearest and remaining venue
    /// in rotation by cycle count.
    fn chose(&mut self, count: i64, index: usize, mode: Mode) -> (r: Value)
        requires
            old(self).wf(),
            index < 4,
            0 <= count,
        ensures
            *final(self) == *old(self),
            r.market < 3,
            ({
                let x = side_of(mode);
                &&& r.val == old(self).prices@[x]@[r.market as int]@[index as int]
                &&& (count % 3 == 0 ==> old(self).venue_min_of(x, index as int, r.market as int))
                &&& (count % 3 == 1 ==> old(self).venue_max_of(x, index as int, r.market as int))
                &&& (count % 3 == 2 ==> exists|mn: int, mx: int|
                    #![trigger old(self).venue_min_of(x, index as int, mn), old(self).venue_max_of(x, index as int, mx)]
                    0 <= mn < 3 && 0 <= mx < 3 && old(self).venue_min_of(x, index as int, mn)
                        && old(self).venue_max_of(x, index as int, mx) && r.market != mn
                        && r.market != mx)
            }),
    {
        let rem: i64 = count % 3;
        if rem == 0 {
            let r = self.find_min_price(mode, index);
            r
        } else if rem == 1 {
            let r = self.find_max_price(mode, index);
            r
        } else {
            let r = self.find_mid_price(mode, index);
            proof {
                assert(count % 3 == 2);
                assert(exists|mn: int, mx: int|
                    #![trigger old(self).venue_min_of(side_of(mode), index as int, mn), old(self).venue_max_of(side_of(mode), index as int, mx)]
                    0 <= mn < 3 && 0 <= mx < 3 && old(self).venue_min_of(
                        side_of(mode),
                        index as int,
                        mn,
                    ) && old(self).venue_max_of(side_of(mode), index as int, mx) && r.market != mn
                        && r.market != mx);
            }
            r
        }
    }

    /// The price snapshot agrees with the venues' current rates.
    pub open spec fn prices_synced(self) -> bool {
        forall|x: int, m: int, k: int|
            0 <= x < 2 && 0 <= m < 3 && 0 <= k < 4 ==> #[trigger] self.prices@[x]@[m]@[k] == (if x
                == 0 {
                self.markets@[m].buy_rate(k)
            } else {
                self.markets@[m].sell_rate(k)
            })
    }

    /// Venue `mn` quotes the lowest snapshot price for `gk` on side `x`.
    pub open spec fn venue_min_of(self, x: int, gk: int, mn: int) -> bool {
        forall|m: int| 0 <= m < 3 ==> self.prices@[x]@[mn]@[gk] <= #[trigger] self.prices@[x]@[m]@[gk]
    }

    /// Venue `mx` quotes the highest snapshot price for `gk` on side `x`.
    pub open spec fn venue_max_of(self, x: int, gk: int, mx: int) -> bool {
        forall|m: int| 0 <= m < 3 ==> self.prices@[x]@[mx]@[gk] >= #[trigger] self.prices@[x]@[m]@[gk]
    }

    /// Cash this trader can still count on once its pending reservations
    /// settle: the projection recorded by the most recently opened
    /// reservation, or the raw cash holding when none is pending.
    pub open spec fn spec_projected_cash(self) -> int {
        if self.token_buy@.len() > 0 {
            if self.token_sell@.len() > 0 {
                if self.token_buy@.last().time > self.token_sell@.last().time {
                    self.token_sell@.last().new_qty_euro as int
                } else {
                    self.token_buy@.last().new_qty_euro as int
                }
            } else {
                self.token_buy@.last().new_qty_euro as int
            }
        } else if self.token_sell@.len() > 0 {
            self.token_sell@.last().new_qty_euro as int
        } else {
            self.goods@[0].quantity as int
        }
    }

    /// Balances this trader can still count on once every reservation it
    /// already holds has settled: the projected cash and the raw holding of
    /// `kind`. `(-1, -1)` signals that `offer` exceeds the projection while
    /// reservations are pending on both sides.
    fn check_good_qty(&mut self, kind: GoodKind, offer: i64) -> (r: (i64, i64))
        requires
            old(self).wf(),
            0 <= offer,
        ensures
            *final(self) == *old(self),
            ({
                let proj = old(self).spec_projected_cash();
                let both = old(self).token_buy@.len() > 0 && old(self).token_sell@.len() > 0;
                &&& (both && offer > proj ==> r == (-1i64, -1i64))
                &&& (!(both && offer > proj) ==> r.0 == proj && r.1 == old(self).goods@[crate::goods::spec_kind_index(kind)].quantity)
            }),
            -QTY_BOUND <= r.0 <= QTY_BOUND,
            -QTY_BOUND <= r.1 <= QTY_BOUND,
    {
        let kidx: usize = get_index_by_goodkind(&kind);
        let mut final_eur: i64 = self.goods[0].get_qty();
        let mut final_gk: i64 = self.goods[kidx].get_qty();
        let nb: usize = self.token_buy.len();
        let ns: usize = self.token_sell.len();
        if nb > 0 {
            if ns > 0 {
                if self.token_buy[nb - 1].time > self.token_sell[ns - 1].time {
                    if offer > self.token_sell[ns - 1].new_qty_euro {
                        return (-1, -1);
                    }
                    final_eur = self.token_sell[ns - 1].new_qty_euro;
                } else {
                    if offer > self.token_buy[nb - 1].new_qty_euro {
                        return (-1, -1);
                    }
                    final_eur = self.token_buy[nb - 1].new_qty_euro;
                }
            } else {
                final_eur = self.token_buy[nb - 1].new_qty_euro;
            }
        } else if ns > 0 {
            final_eur = self.token_sell[ns - 1].new_qty_euro;
        }
        (final_eur, final_gk)
    }

    /// Every reservation this trader holds has aged by one step: each
    /// `time` field becomes its old value plus one (saturating), and
    /// nothing else about any reservation changes.
    fn update_time(&mut self)
        requires
            old(self).wf(),
        ensures
            final(self).wf(),
            final(self).token_buy@.len() == old(self).token_buy@.len(),
            final(self).token_sell@.len() == old(self).token_sell@.len(),
            forall|i: int|
                0 <= i < old(self).token_buy@.len() ==> #[trigger] final(self).token_buy@[i]
                    == (Locking {
                    time: (if old(self).token_buy@[i].time < i64::MAX {
                        (old(self).token_buy@[i].time + 1) as i64
                    } else {
                        old(self).token_buy@[i].time
                    }),
                    ..old(self).token_buy@[i]
                }),
            forall|i: int|
                0 <= i < old(self).token_sell@.len() ==> #[trigger] final(self).token_sell@[i]
                    == (Locking {
                    time: (if old(self).token_sell@[i].time < i64::MAX {
                        (old(self).token_sell@[i].time + 1) as i64
                    } else {
                        old(self).token_sell@[i].time
                    }),
                    ..old(self).token_sell@[i]
                }),
            *final(self) == (ZSE_Trader {
                token_buy: final(self).token_buy,
                token_sell: final(self).token_sell,
                ..*old(self)
            }),
    {
        let mut i: usize = 0;
        while i < self.token_buy.len()
            invariant
                old(self).wf(),
                self.wf(),
                i <= self.token_buy@.len(),
                self.token_buy@.len() == old(self).token_buy@.len(),
                *self == (ZSE_Trader { token_buy: self.token_buy, ..*old(self) }),
                forall|x: int|
                    0 <= x < i ==> #[trigger] self.token_buy@[x] == (Locking {
                        time: (if old(self).token_buy@[x].time < i64::MAX {
                            (old(self).token_buy@[x].time + 1) as i64
                        } else {
                            old(self).token_buy@[x].time
                        }),
                        ..old(self).token_buy@[x]
                    }),
                forall|x: int|
                    i <= x < self.token_buy@.len() ==> #[trigger] self.token_buy@[x] == old(self).token_buy@[x],
            decreases self.token_buy@.len() - i,
        {
            let t: i64 = self.token_buy[i].time;
            self.token_buy[i].time = bump(t);
            i = i + 1;
        }
        let mut j: usize = 0;
        while j < self.token_sell.len()
            invariant
                old(self).wf(),
                self.wf(),
                j <= self.token_sell@.len(),
                self.token_buy@.len() == old(self).token_buy@.len(),
                self.token_sell@.len() == old(self).token_sell@.len(),
                forall|x: int|
                    0 <= x < self.token_buy@.len() ==> #[trigger] self.token_buy@[x] == (Locking {
                        time: (if old(self).token_buy@[x].time < i64::MAX {
                            (old(self).token_buy@[x].time + 1) as i64
                        } else {
                            old(self).token_buy@[x].time
                        }),
                        ..old(self).token_buy@[x]
                    }),
                *self == (ZSE_Trader {
                    token_buy: self.token_buy,
                    token_sell: self.token_sell,
                    ..*old(self)
                }),
                forall|x: int|
                    0 <= x < j ==> #[trigger] self.token_sell@[x] == (Locking {
                        time: (if old(self).token_sell@[x].time < i64::MAX {
                            (old(self).token_sell@[x].time + 1) as i64
                        } else {
                            old(self).token_sell@[x].time
                        }),
                        ..old(self).token_sell@[x]
                    }),
                forall|x: int|
                    j <= x < self.token_sell@.len() ==> #[trigger] self.token_sell@[x] == old(self).token_sell@[x],
            decreases self.token_sell@.len() - j,
        {
            let t: i64 = self.token_sell[j].time;
            self.token_sell[j].time = bump(t);
            j = j + 1;
        }
    }

    /// Deliver a venue's queued events to the two peer venues.
    fn propagate(&mut self, origin: usize)
        requires
            old(self).wf(),
            origin < 3,
        ensures
            final(self).wf(),
            final(self).goods@ == old(self).goods@,
            final(self).token_buy@ == old(self).token_buy@,
            final(self).token_sell@ == old(self).token_sell@,
            final(self).prices@ == old(self).prices@,
            final(self).information == old(self).information,
            final(self).name@ == old(self).name@,
    {
        let evs = self.markets[origin].take_events();
        let ghost subs0 = self.markets@[origin as int].subscribers@;
        let mut i: usize = 0;
        while i < evs.len()
            invariant
                self.wf(),
                origin < 3,
                i <= evs@.len(),
                forall|x: int| 0 <= x < evs@.len() ==> (#[trigger] evs@[x]).valid(),
                self.markets@[origin as int].subscribers@ == subs0,
                self.goods@ == old(self).goods@,
                self.token_buy@ == old(self).token_buy@,
                self.token_sell@ == old(self).token_sell@,
                self.prices@ == old(self).prices@,
                self.information == old(self).information,
                self.name@ == old(self).name@,
            decreases evs@.len() - i,
        {
            let e: Event = evs[i];
            let mut s2: usize = 0;
            while s2 < self.markets[origin].subscribers.len()
                invariant
                    self.wf(),
                    origin < 3,
                    e.valid(),
                    self.markets@[origin as int].subscribers@ == subs0,
                    s2 <= self.markets@[origin as int].subscribers@.len(),
                    self.goods@ == old(self).goods@,
                    self.token_buy@ == old(self).token_buy@,
                    self.token_sell@ == old(self).token_sell@,
                    self.prices@ == old(self).prices@,
                    self.information == old(self).information,
                    self.name@ == old(self).name@,
                decreases self.markets@[origin as int].subscribers@.len() - s2,
            {
                let target: usize = self.markets[origin].subscribers[s2];
                if target < 3 && target != origin {
                    self.markets[target].on_event(e);
                }
                s2 = s2 + 1;
            }
            i = i + 1;
        }
    }

    /// Let one simulated day pass on every venue: each ages its locks.
    fn wait_one_day(&mut self)
        requires
            old(self).wf(),
        ensures
            final(self).wf(),
            final(self).goods@ == old(self).goods@,
            final(self).token_buy@ == old(self).token_buy@,
            final(self).token_sell@ == old(self).token_sell@,
            final(self).prices@ == old(self).prices@,
            final(self).information == old(self).information,
    {
        let e = Event { kind: EventKind::Wait, good_kind: GoodKind::EUR, quantity: 0, price: 0 };
        self.markets[0].on_event(e);
        self.markets[1].on_event(e);
        self.markets[2].on_event(e);
    }

    /// Try to open a buy reservation for `qty` of `gk` on venue `want`,
    /// bidding one unit above the venue's quote; record the projected
    /// balances on success.
    fn try_lock_buy(&mut self, want: usize, gk: GoodKind, qty: i64) -> (r: bool)
        requires
            old(self).wf(),
            want < 3,
        ensures
            final(self).wf(),
            ({
                let m = old(self).markets@[want as int];
                let k = crate::goods::spec_kind_index(gk);
                let offer = m.spec_min_bid(k, qty as int) + 1;
                let proj = old(self).spec_projected_cash();
                let both = old(self).token_buy@.len() > 0 && old(self).token_sell@.len() > 0;
                let granted = {
                    &&& 0 < qty <= MAX_UNITS
                    &&& m.goods_qty(k) >= qty
                    &&& offer <= old(self).goods@[0].quantity
                    &&& proj >= 0
                    &&& !(both && offer > proj)
                    &&& m.lock_buy_accepts(k, qty as int, offer)
                };
                &&& r == granted
                &&& (!r ==> final(self).goods@ == old(self).goods@ && final(self).token_buy@ == old(self).token_buy@ && final(self).token_sell@ == old(self).token_sell@ && final(self).prices@ == old(self).prices@ && final(self).information == old(self).information
                    && (forall|i: int|
                    0 <= i < 3 ==> #[trigger] final(self).markets@[i] == old(self).markets@[i]))
                &&& (r ==> {
                    &&& final(self).goods@ == old(self).goods@
                    &&& final(self).prices@ == old(self).prices@
                    &&& final(self).information == old(self).information
                    &&& final(self).token_sell@ == old(self).token_sell@
                    &&& final(self).token_buy@.len() == old(self).token_buy@.len() + 1
                    &&& (forall|i: int|
                        0 <= i < old(self).token_buy@.len() ==> #[trigger] final(self).token_buy@[i] == old(self).token_buy@[i])
                    &&& ({
                        let l = final(self).token_buy@.last();
                        &&& l.market == want
                        &&& l.time == -1
                        &&& l.kind == gk
                        &&& l.qty == qty
                        &&& l.price as int == offer
                        &&& l.new_qty_euro as int == proj - offer
                        &&& l.new_qty_gk as int == old(self).goods@[k].quantity + qty
                    })
                })
            }),
    {
        if qty <= 0 || qty > MAX_UNITS {
            return false;
        }
        let quote = self.markets[want].get_buy_price(gk, qty);
        let min_bid: i64 = match quote {
            Ok(m) => m,
            Err(_) => {
                return false;
            },
        };
        proof {
            let k = crate::goods::spec_kind_index(gk);
            let rate: int = old(self).markets@[want as int].buy_rate(k);
            assert(0 <= min_bid <= rate * qty);
            assert(rate * qty <= (crate::market::MAX_RATE as int) * (MAX_UNITS as int))
                by (nonlinear_arith)
                requires
                    1 <= rate <= crate::market::MAX_RATE as int,
                    0 < qty as int <= MAX_UNITS as int,
            ;
        }
        let offer: i64 = min_bid + 1;
        if offer > self.goods[0].get_qty() {
            return false;
        }
        let fv: (i64, i64) = self.check_good_qty(gk, offer);
        if fv.0 < 0 {
            return false;
        }
        let new_qty_euro: i64 = fv.0 - offer;
        let new_qty_gk: i64 = fv.1 + qty;
        let trader_name: String = self.name.clone();
        let res = self.markets[want].lock_buy(gk, qty, offer, trader_name);
        let token: Token = match res {
            Ok(t) => t,
            Err(_) => {
                proof {
                    assert forall|i: int| 0 <= i < 3 implies #[trigger] self.markets@[i] == old(self).markets@[i] by {}
                }
                return false;
            },
        };
        self.propagate(want);
        self.token_buy.push(
            Locking {
                token,
                market: want,
                time: -1,
                kind: gk,
                qty,
                price: offer,
                new_qty_euro,
                new_qty_gk,
            },
        );
        proof {
            assert forall|i: int| 0 <= i < self.token_buy@.len() implies Self::locking_ok(
                #[trigger] self.token_buy@[i],
            ) by {
                if i < self.token_buy@.len() - 1 {
                    assert(self.token_buy@[i] == old(self).token_buy@[i]);
                    assert(Self::locking_ok(old(self).token_buy@[i]));
                }
            }
        }
        true
    }

    /// Commit the oldest open buy reservation, if it is still young enough
    /// and the books have room; the reservation leaves the list either way.
    fn try_buy(&mut self) -> (r: bool)
        requires
            old(self).wf(),
            old(self).token_buy@.len() > 0,
        ensures
            final(self).wf(),
            final(self).token_buy@ == old(self).token_buy@.subrange(
                1,
                old(self).token_buy@.len() as int,
            ),
            final(self).token_sell@ == old(self).token_sell@,
            final(self).prices@ == old(self).prices@,
            final(self).information == old(self).information,
            ({
                let h = old(self).token_buy@[0];
                let m = old(self).markets@[h.market as int];
                let id = h.token.id as int;
                let room = m.goods_qty(0) + old(self).goods@[0].quantity <= MAX_UNITS;
                &&& r == (h.time < 10 && room && m.buy_accepts(id, h.token.code@, old(self).goods@[0]))
                &&& (!r ==> final(self).goods@ == old(self).goods@)
                &&& (r ==> {
                    let kpos = m.buy_pos(id).0;
                    let p = m.buy_agreed_price(id);
                    let q = m.buy_agreed_qty(id);
                    let gafter = old(self).goods@.update(
                        0,
                        Good {
                            kind: GoodKind::EUR,
                            quantity: (old(self).goods@[0].quantity - p) as i64,
                        },
                    );
                    let room2 = gafter[kpos].quantity + q <= MAX_UNITS;
                    final(self).goods@ == (if room2 {
                        gafter.update(
                            kpos,
                            Good {
                                kind: spec_kind_of_index(kpos),
                                quantity: (gafter[kpos].quantity + q) as i64,
                            },
                        )
                    } else {
                        gafter
                    })
                })
            }),
    {
        let ghost pre = *old(self);
        let lk: Locking = self.token_buy.remove(0);
        proof {
            assert(self.token_buy@ =~= pre.token_buy@.subrange(1, pre.token_buy@.len() as int));
        }
        let mut result: bool = false;
        if lk.time < 10 {
            let m: usize = lk.market;
            let labels = self.markets[m].get_goods();
            let room: bool = labels[0].quantity <= MAX_UNITS - self.goods[0].get_qty();
            if room {
                let buy_res = self.markets[m].buy(lk.token, &mut self.goods[0]);
                self.propagate(m);
                match buy_res {
                    Ok(g) => {
                        let kidx: usize = get_index_by_goodkind(&g.get_kind());
                        let ghost gafter = self.goods@;
                        proof {
                            let id = lk.token.id as int;
                            let mm = pre.markets@[m as int];
                            assert(mm.buy_accepts(id, lk.token.code@, pre.goods@[0]));
                            let kpos = mm.buy_pos(id).0;
                            assert(g.spec_kind() == spec_kind_of_index(kpos));
                            assert(0 <= kpos < 4) by {
                                assert(mm.buy_token_valid(id));
                                assert(has_slot(mm.lock_buy@, id));
                                let (a, b) = choose|a: int, b: int|
                                    0 <= a < mm.lock_buy@.len() && 0 <= b
                                        < mm.lock_buy@[a].slots@.len() && (
                                    #[trigger] mm.lock_buy@[a].slots@[b]).occupied
                                        && mm.lock_buy@[a].slots@[b].token_id == id;
                                assert(mm.buy_row(a)[b].occupied && mm.buy_row(a)[b].token_id
                                    == id);
                                assert(exists|k: int, j: int|
                                    0 <= k < 4 && 0 <= j < crate::market::MAXLOCK && (
                                    #[trigger] mm.buy_row(k)[j]).occupied && mm.buy_row(
                                        k,
                                    )[j].token_id == id);
                            }
                            assert(kidx as int == kpos);
                        }
                        if g.get_kind() == self.goods[kidx].get_kind() && self.goods[kidx].get_qty()
                            <= MAX_UNITS - g.get_qty() {
                            let merged = self.goods[kidx].merge(g);
                            proof {
                                assert(merged is Ok);
                                assert(self.goods@ =~= gafter.update(
                                    kidx as int,
                                    Good {
                                        kind: spec_kind_of_index(kidx as int),
                                        quantity: (gafter[kidx as int].quantity
                                            + pre.markets@[m as int].buy_agreed_qty(
                                            lk.token.id as int,
                                        )) as i64,
                                    },
                                ));
                            }
                        }
                        proof {
                            assert(gafter =~= pre.goods@.update(
                                0,
                                Good {
                                    kind: GoodKind::EUR,
                                    quantity: (pre.goods@[0].quantity
                                        - pre.markets@[m as int].buy_agreed_price(
                                        lk.token.id as int,
                                    )) as i64,
                                },
                            ));
                        }
                        result = true;
                    },
                    Err(_) => {
                        proof {
                            assert(self.goods@ =~= pre.goods@);
                        }
                        result = false;
                    },
                }
            }
        }
        result
    }

    /// Try to open a sell reservation for `qty` of `gk` on venue `want`,
    /// asking a third below the venue's quote; record the projected
    /// balances on success.
    fn try_lock_sell(&mut self, want: usize, gk: GoodKind, qty: i64) -> (r: bool)
        requires
            old(self).wf(),
            want < 3,
        ensures
            final(self).wf(),
            ({
                let m = old(self).markets@[want as int];
                let k = crate::goods::spec_kind_index(gk);
                let quote = m.spec_max_offer(k, qty as int);
                let offer = quote - (quote / 10) * 3;
                let proj = old(self).spec_projected_cash();
                let both = old(self).token_buy@.len() > 0 && old(self).token_sell@.len() > 0;
                let granted = {
                    &&& 0 < qty <= MAX_UNITS
                    &&& 0 < offer <= m.goods_qty(0)
                    &&& (forall|i: int|
                        0 <= i < old(self).token_sell@.len() ==> !((#[trigger] old(self).token_sell@[i]).kind == gk && qty > old(self).token_sell@[i].new_qty_gk))
                    &&& proj >= 0
                    &&& !(both && offer > proj)
                    &&& proj + offer <= QTY_BOUND
                    &&& m.lock_sell_accepts(k, qty as int, offer)
                };
                &&& r == granted
                &&& (!r ==> final(self).goods@ == old(self).goods@ && final(self).token_buy@ == old(self).token_buy@ && final(self).token_sell@ == old(self).token_sell@ && final(self).prices@ == old(self).prices@ && final(self).information == old(self).information
                    && (forall|i: int|
                    0 <= i < 3 ==> #[trigger] final(self).markets@[i] == old(self).markets@[i]))
                &&& (r ==> {
                    &&& final(self).goods@ == old(self).goods@
                    &&& final(self).prices@ == old(self).prices@
                    &&& final(self).information == old(self).information
                    &&& final(self).token_buy@ == old(self).token_buy@
                    &&& final(self).token_sell@.len() == old(self).token_sell@.len() + 1
                    &&& (forall|i: int|
                        0 <= i < old(self).token_sell@.len() ==> #[trigger] final(self).token_sell@[i] == old(self).token_sell@[i])
                    &&& ({
                        let l = final(self).token_sell@.last();
                        &&& l.market == want
                        &&& l.time == -1
                        &&& l.kind == gk
                        &&& l.qty == qty
                        &&& l.price as int == offer
                        &&& l.new_qty_euro as int == proj + offer
                        &&& l.new_qty_gk as int == old(self).goods@[k].quantity - qty
                    })
                })
            }),
    {
        if qty <= 0 || qty > MAX_UNITS {
            return false;
        }
        let quote = self.markets[want].get_sell_price(gk, qty);
        let min_offer: i64 = match quote {
            Ok(m) => m,
            Err(_) => {
                return false;
            },
        };
        proof {
            let k = crate::goods::spec_kind_index(gk);
            let rate: int = old(self).markets@[want as int].sell_rate(k);
            assert(min_offer == crate::market::spec_sell_quote(rate, qty as int));
            assert(0 <= min_offer <= 2 * (crate::market::MAX_RATE as int) * (MAX_UNITS as int))
                by (nonlinear_arith)
                requires
                    min_offer as int == rate * (qty as int) + rate * (qty as int) / 10,
                    1 <= rate <= crate::market::MAX_RATE as int,
                    0 < qty as int <= MAX_UNITS as int,
            ;
        }
        let offer: i64 = min_offer - (min_offer / 10) * 3;
        let market_cash: i64 = {
            let labels = self.markets[want].get_goods();
            labels[0].quantity
        };
        if offer <= 0 || offer > market_cash {
            return false;
        }
        let mut i: usize = 0;
        let n: usize = self.token_sell.len();
        while i < n
            invariant
                old(self).wf(),
                *self == *old(self),
                n == self.token_sell@.len(),
                i <= n,
                forall|x: int|
                    0 <= x < i ==> !((#[trigger] old(self).token_sell@[x]).kind == gk && qty > old(self).token_sell@[x].new_qty_gk),
            decreases n - i,
        {
            let same: bool = self.token_sell[i].kind == gk;
            if same && qty > self.token_sell[i].new_qty_gk {
                return false;
            }
            i = i + 1;
        }
        let fv: (i64, i64) = self.check_good_qty(gk, offer);
        if fv.0 < 0 {
            return false;
        }
        if fv.0 > QTY_BOUND - offer {
            return false;
        }
        let new_qty_euro: i64 = fv.0 + offer;
        let new_qty_gk: i64 = fv.1 - qty;
        let trader_name: String = self.name.clone();
        let res = self.markets[want].lock_sell(gk, qty, offer, trader_name);
        let token: Token = match res {
            Ok(t) => t,
            Err(_) => {
                proof {
                    assert forall|i2: int| 0 <= i2 < 3 implies #[trigger] self.markets@[i2] == old(self).markets@[i2] by {}
                }
                return false;
            },
        };
        self.propagate(want);
        self.token_sell.push(
            Locking {
                token,
                market: want,
                time: -1,
                kind: gk,
                qty,
                price: offer,
                new_qty_euro,
                new_qty_gk,
            },
        );
        proof {
            assert forall|i2: int| 0 <= i2 < self.token_sell@.len() implies Self::locking_ok(
                #[trigger] self.token_sell@[i2],
            ) by {
                if i2 < self.token_sell@.len() - 1 {
                    assert(self.token_sell@[i2] == old(self).token_sell@[i2]);
                    assert(Self::locking_ok(old(self).token_sell@[i2]));
                }
            }
        }
        true
    }

    /// Commit the oldest open sell reservation, if it is still young enough
    /// and the books have room; the reservation leaves the list either way.
    fn try_sell(&mut self) -> (r: bool)
        requires
            old(self).wf(),
            old(self).token_sell@.len() > 0,
        ensures
            final(self).wf(),
            final(self).token_sell@ == old(self).token_sell@.subrange(
                1,
                old(self).token_sell@.len() as int,
            ),
            final(self).token_buy@ == old(self).token_buy@,
            final(self).prices@ == old(self).prices@,
            final(self).information == old(self).information,
            ({
                let h = old(self).token_sell@[0];
                let m = old(self).markets@[h.market as int];
                let id = h.token.id as int;
                let kidx = crate::goods::spec_kind_index(h.kind);
                let cash_room = 0 <= h.price <= MAX_UNITS && old(self).goods@[0].quantity
                    <= MAX_UNITS - h.price;
                let room = m.goods_qty(kidx) + old(self).goods@[kidx].quantity <= MAX_UNITS;
                &&& r == (h.time < 10 && room && cash_room && m.sell_accepts(
                    id,
                    h.token.code@,
                    old(self).goods@[kidx],
                ))
                &&& (!r ==> final(self).goods@ == old(self).goods@)
                &&& (r ==> {
                    let p = m.sell_agreed_price(id);
                    let q = m.sell_agreed_qty(id);
                    let gafter = old(self).goods@.update(
                        kidx,
                        Good {
                            kind: h.kind,
                            quantity: (old(self).goods@[kidx].quantity - q) as i64,
                        },
                    );
                    let room3 = gafter[0].quantity + p <= MAX_UNITS;
                    final(self).goods@ == (if room3 {
                        gafter.update(
                            0,
                            Good {
                                kind: GoodKind::EUR,
                                quantity: (gafter[0].quantity + p) as i64,
                            },
                        )
                    } else {
                        gafter
                    })
                })
            }),
    {
        let ghost pre = *old(self);
        let lk: Locking = self.token_sell.remove(0);
        proof {
            assert(self.token_sell@ =~= pre.token_sell@.subrange(1, pre.token_sell@.len() as int));
        }
        let mut result: bool = false;
        if lk.time < 10 {
            let m: usize = lk.market;
            let kidx: usize = get_index_by_goodkind(&lk.kind);
            let labels = self.markets[m].get_goods();
            let room: bool = labels[kidx].quantity <= MAX_UNITS - self.goods[kidx].get_qty();
            let own_cash: i64 = self.goods[0].get_qty();
            let cash_room: bool = lk.price >= 0 && lk.price <= MAX_UNITS && own_cash <= MAX_UNITS
                - lk.price;
            if room && cash_room && lk.kind == self.goods[kidx].get_kind() {
                let sell_res = self.markets[m].sell(lk.token, &mut self.goods[kidx]);
                self.propagate(m);
                match sell_res {
                    Ok(g) => {
                        let ghost gafter = self.goods@;
                        if g.get_kind() == self.goods[0].get_kind() && self.goods[0].get_qty()
                            <= MAX_UNITS - g.get_qty() {
                            let merged = self.goods[0].merge(g);
                            proof {
                                assert(merged is Ok);
                                assert(self.goods@ =~= gafter.update(
                                    0,
                                    Good {
                                        kind: GoodKind::EUR,
                                        quantity: (gafter[0].quantity
                                            + pre.markets@[m as int].sell_agreed_price(
                                            lk.token.id as int,
                                        )) as i64,
                                    },
                                ));
                            }
                        }
                        proof {
                            assert(gafter =~= pre.goods@.update(
                                kidx as int,
                                Good {
                                    kind: lk.kind,
                                    quantity: (pre.goods@[kidx as int].quantity
                                        - pre.markets@[m as int].sell_agreed_qty(
                                        lk.token.id as int,
                                    )) as i64,
                                },
                            ));
                        }
                        result = true;
                    },
                    Err(_) => {
                        proof {
                            assert(self.goods@ =~= pre.goods@);
                        }
                        result = false;
                    },
                }
            }
        }
        result
    }

    /// A quantity to trade: random in a bounded band, clamped down to what
    /// the venue holds on the buy side and to a safe share of the trader's
    /// own holding on the sell side.
    fn generate_qty(&mut self, want: usize, gk: GoodKind, mode: Mode) -> (q: i64)
        requires
            old(self).wf(),
            want < 3,
        ensures
            *final(self) == *old(self),
            0 <= q <= MAX_UNITS,
            ({
                let k = crate::goods::spec_kind_index(gk);
                let own = old(self).goods@[k].quantity as int;
                let stock = old(self).markets@[want as int].goods_qty(k);
                &&& (mode is Sell ==> q == 0 || (5 <= q && q <= own - (own / 10) * 3))
                &&& (mode is Buy ==> q <= 199 && (q == 0 || q <= stock))
            }),
    {
        let min: i64 = 5;
        let kidx: usize = get_index_by_goodkind(&gk);
        let max: i64 = match mode {
            Mode::Buy => 200,
            Mode::Sell => {
                let own: i64 = self.goods[kidx].get_qty();
                own - (own / 10) * 3
            },
        };
        if max < min {
            return 0;
        }
        let mut qty: i64 = match mode {
            Mode::Buy => outside::rand_in_range(min, 200),
            Mode::Sell => outside::rand_in_range(min, max + 1),
        };
        if matches!(mode, Mode::Buy) {
            let labels = self.markets[want].get_goods();
            let available: i64 = labels[kidx].quantity;
            if available < qty {
                qty = available - (available / 10) * 3;
            }
        }
        if qty < 0 {
            qty = 0;
        }
        qty
    }

    /// One decision cycle: possibly open a buy reservation and batch-commit
    /// the open ones, then the same on the sell side. Each committed trade
    /// appends one valuation line (tagged `2`) to `out`. The cycle does
    /// work — and reports `true` — exactly when the buy threshold holds on
    /// the cash holding or some non-cash holding passes the sell threshold;
    /// otherwise nothing at all changes.
    pub fn strategy(&mut self, x: i64, out: &mut Vec<Vec<i64>>) -> (r: bool)
        requires
            old(self).wf(),
        ensures
            final(self).wf(),
            r == (old(self).goods@[0].quantity > 800 || old(self).goods@[1].quantity > 200 || old(self).goods@[2].quantity > 200 || old(self).goods@[3].quantity > 200),
            !r ==> *final(self) == *old(self) && final(out)@ == old(out)@,
            r ==> final(self).prices_synced(),
            final(self).information.lock_buy >= old(self).information.lock_buy,
            final(self).information.lock_sell >= old(self).information.lock_sell,
            final(self).information.buy >= old(self).information.buy,
            final(self).information.sell >= old(self).information.sell,
            final(self).information.wait >= old(self).information.wait,
            old(self).goods@[0].quantity > 800 ==> final(self).information.lock_buy > old(self).information.lock_buy || final(self).information.wait > old(self).information.wait
                || old(self).information.lock_buy == i64::MAX || old(self).information.wait
                == i64::MAX,
            final(out)@.len() >= old(out)@.len(),
            forall|i: int| 0 <= i < old(out)@.len() ==> #[trigger] final(out)@[i] == old(out)@[i],
            forall|i: int|
                old(out)@.len() <= i < final(out)@.len() ==> (#[trigger] final(out)@[i])@.len() == 5
                    && final(out)@[i]@[0] == 2,
    {
        let mut done: i64 = 0;
        if self.get_qty_good_trader(0) > 800 {
            let draw: i64 = outside::rand_in_range(0, 18);
            let index_gk_buy: usize = ((draw % 3) + 1) as usize;
            let gk_buy: GoodKind = get_goodkind_by_index(index_gk_buy);
            let cycle: i64 = get_max(x, 0);
            let want_buy: Value = self.chose(cycle, index_gk_buy, Mode::Buy);
            let qty_to_buy: i64 = self.generate_qty(want_buy.market, gk_buy, Mode::Buy);
            let mut count_lock_buy: i64 = 0;
            if want_buy.market == 2 {
                let mut i: usize = 0;
                while i < self.token_buy.len()
                    invariant
                        self.wf(),
                        i <= self.token_buy@.len(),
                        0 <= count_lock_buy <= i,
                    decreases self.token_buy@.len() - i,
                {
                    if self.token_buy[i].market == 2 && count_lock_buy < 4 {
                        count_lock_buy = count_lock_buy + 1;
                    }
                    i = i + 1;
                }
            }
            let lock: bool = if count_lock_buy < 4 {
                self.try_lock_buy(want_buy.market, gk_buy, qty_to_buy)
            } else {
                false
            };
            if lock {
                self.information.lock_buy = bump(self.information.lock_buy);
            } else {
                self.wait_one_day();
                self.information.wait = bump(self.information.wait);
            }
            self.update_time();
            self.update_all_prices();
            if self.information.lock_buy % NUM_LOCK == 2 {
                while self.token_buy.len() > 0
                    invariant
                        self.wf(),
                        self.prices_synced(),
                        self.information.lock_buy >= old(self).information.lock_buy,
                        self.information.lock_sell >= old(self).information.lock_sell,
                        self.information.buy >= old(self).information.buy,
                        self.information.sell >= old(self).information.sell,
                        self.information.wait >= old(self).information.wait,
                        old(self).goods@[0].quantity > 800 ==> self.information.lock_buy > old(self).information.lock_buy || self.information.wait > old(self).information.wait
                            || old(self).information.lock_buy == i64::MAX
                            || old(self).information.wait == i64::MAX,
                        out@.len() >= old(out)@.len(),
                        forall|i: int|
                            0 <= i < old(out)@.len() ==> #[trigger] out@[i] == old(out)@[i],
                        forall|i: int|
                            old(out)@.len() <= i < out@.len() ==> (#[trigger] out@[i])@.len() == 5
                                && out@[i]@[0] == 2,
                    decreases self.token_buy@.len(),
                {
                    if self.try_buy() {
                        self.information.buy = bump(self.information.buy);
                        let mut line: Vec<i64> = Vec::new();
                        line.push(2);
                        let vals = metadata_values(&self.goods);
                        line.push(vals[0]);
                        line.push(vals[1]);
                        line.push(vals[2]);
                        line.push(vals[3]);
                        out.push(line);
                    } else {
                        self.wait_one_day();
                        self.information.wait = bump(self.information.wait);
                    }
                    self.update_time();
                    self.update_all_prices();
                }
            }
            done = 1;
        }
        let sell_worthy: bool = self.get_qty_good_trader(1) > 200 || self.get_qty_good_trader(2)
            > 200 || self.get_qty_good_trader(3) > 200;
        if sell_worthy {
            let draw: i64 = outside::rand_in_range(0, 18);
            let index_gk_sell: usize = ((draw % 3) + 1) as usize;
            let gk_sell: GoodKind = get_goodkind_by_index(index_gk_sell);
            let cycle: i64 = get_max(x, 0);
            let want_sell: Value = self.chose(cycle, index_gk_sell, Mode::Sell);
            let qty_sell: i64 = self.generate_qty(want_sell.market, gk_sell, Mode::Sell);
            let mut count_lock_sell: i64 = 0;
            if want_sell.market == 2 {
                let mut i: usize = 0;
                while i < self.token_sell.len()
                    invariant
                        self.wf(),
                        i <= self.token_sell@.len(),
                        0 <= count_lock_sell <= i,
                    decreases self.token_sell@.len() - i,
                {
                    if self.token_sell[i].market == 2 && count_lock_sell < 4 {
                        count_lock_sell = count_lock_sell + 1;
                    }
                    i = i + 1;
                }
            }
            let lock: bool = if count_lock_sell < 4 {
                self.try_lock_sell(want_sell.market, gk_sell, qty_sell)
            } else {
                false
            };
            if lock {
                self.information.lock_sell = bump(self.information.lock_sell);
            } else {
                self.wait_one_day();
                self.information.wait = bump(self.information.wait);
            }
            self.update_time();
            self.update_all_prices();
            if self.information.lock_sell > 0 && self.information.lock_sell % (NUM_LOCK - 1) == 0 {
                while self.token_sell.len() > 0
                    invariant
                        self.wf(),
                        self.prices_synced(),
                        self.information.lock_buy >= old(self).information.lock_buy,
                        self.information.lock_sell >= old(self).information.lock_sell,
                        self.information.buy >= old(self).information.buy,
                        self.information.sell >= old(self).information.sell,
                        self.information.wait >= old(self).information.wait,
                        old(self).goods@[0].quantity > 800 ==> self.information.lock_buy > old(self).information.lock_buy || self.information.wait > old(self).information.wait
                            || old(self).information.lock_buy == i64::MAX
                            || old(self).information.wait == i64::MAX,
                        out@.len() >= old(out)@.len(),
                        forall|i: int|
                            0 <= i < old(out)@.len() ==> #[trigger] out@[i] == old(out)@[i],
                        forall|i: int|
                            old(out)@.len() <= i < out@.len() ==> (#[trigger] out@[i])@.len() == 5
                                && out@[i]@[0] == 2,
                    decreases self.token_sell@.len(),
                {
                    if self.try_sell() {
                        self.information.sell = bump(self.information.sell);
                        let mut line: Vec<i64> = Vec::new();
                        line.push(2);
                        let vals = metadata_values(&self.goods);
                        line.push(vals[0]);
                        line.push(vals[1]);
                        line.push(vals[2]);
                        line.push(vals[3]);
                        out.push(line);
                    } else {
                        self.wait_one_day();
                        self.information.wait = bump(self.information.wait);
                    }
                    self.update_time();
                    self.update_all_prices();
                }
            }
            done = 2;
        }
        done == 1 || done == 2
    }
}

} // verus!
