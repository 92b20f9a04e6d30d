//! A trading agent that runs the dropshipping strategy: it keeps a cache of
//! the best buy and sell quotes across the venues, opens paired buy/sell
//! reservations (transactions), and commits the pending transaction with
//! the highest response ratio — profit spread over remaining deadline.

use vstd::prelude::*;
use crate::goods::{
    Good, GoodKind, MAX_UNITS, convert_to_eur, get_goodkind_by_index, get_index_by_goodkind,
    spec_convert_to_eur, spec_kind_index, spec_kind_of_index,
};
use crate::market::{Event, EventKind, ZSE};
use crate::errors::{LockBuyError, LockSellError};
use crate::outside;
use crate::token::Token;
use crate::trader::metadata_values;

verus! {

/// Window size steering the open-versus-commit choice.
pub const BUFFER_SIZE: i64 = 5;

/// Largest unit price the best-price cache stores as a real quote.
pub const PRICE_CAP: i64 = 2_000_000;

/// One side of a transaction: where it is reserved, at what unit price,
/// and — once locked — under which token.
#[derive(Debug)]
pub struct Lock {
    pub token: Option<Token>,
    pub market: usize,
    pub price: i64,
}

/// Best quote seen for one (direction, kind) this run.
#[derive(Clone, Copy, Debug)]
pub struct BestPrice {
    pub price: i64,
    pub quantity: i64,
    pub market: usize,
}

/// A paired buy/sell reservation for one kind across two venues, with its
/// remaining deadline and the profit spread the scheduler ranks it by.
#[derive(Debug)]
pub struct Transaction {
    pub lock_buy: Lock,
    pub lock_sell: Lock,
    pub good_kind: GoodKind,
    pub quantity: i64,
    pub deadline: i64,
    pub priority_spread: i64,
}

/// Highest-response-ratio-next order: a transaction outranks another when
/// its spread per remaining day is strictly larger, compared exactly by
/// cross-multiplication.
pub open spec fn spec_priority_gt(s1: int, d1: int, s2: int, d2: int) -> bool {
    s1 * d2 > s2 * d1
}

/// The transaction list with every spread refreshed from its two locks.
pub open spec fn spec_respread(s: Seq<Transaction>) -> Seq<Transaction> {
    Seq::new(
        s.len(),
        |i: int|
            Transaction {
                priority_spread: (s[i].lock_sell.price - s[i].lock_buy.price) as i64,
                ..s[i]
            },
    )
}

/// The pending list one day later: every deadline decremented, the expired
/// dropped, order kept.
pub open spec fn spec_age_transactions(s: Seq<Transaction>) -> Seq<Transaction>
    decreases s.len(),
{
    if s.len() == 0 {
        Seq::empty()
    } else {
        let rest = spec_age_transactions(s.drop_last());
        if s.last().deadline > 1 {
            rest.push(Transaction { deadline: (s.last().deadline - 1) as i64, ..s.last() })
        } else {
            rest
        }
    }
}

/// A commit pass over the pending list: some transaction that no other
/// outranks is taken; when its buy side is affordable it leaves the list —
/// kept only, with a dead deadline and without its tokens, if a commit
/// failed — and when it is not affordable nothing moves.
pub open spec fn spec_commit_shape(
    pre_goods: Seq<Good>,
    pre: Seq<Transaction>,
    post: Seq<Transaction>,
) -> bool {
    exists|ti: int|
        0 <= ti < pre.len() && (forall|i: int|
            0 <= i < pre.len() ==> !spec_priority_gt(
                (#[trigger] pre[i]).priority_spread as int,
                pre[i].deadline as int,
                pre[ti].priority_spread as int,
                pre[ti].deadline as int,
            )) && ({
            let t = #[trigger] pre[ti];
            let cost = (t.lock_buy.price as int) * (t.quantity as int);
            let rest = pre.take(ti).add(pre.skip(ti + 1));
            if cost > pre_goods[0].quantity {
                post == pre
            } else {
                post == rest || post == rest.push(
                    Transaction {
                        lock_buy: Lock { token: None, market: t.lock_buy.market, price: t.lock_buy.price },
                        lock_sell: Lock {
                            token: None,
                            market: t.lock_sell.market,
                            price: t.lock_sell.price,
                        },
                        good_kind: t.good_kind,
                        quantity: t.quantity,
                        deadline: 0,
                        priority_spread: t.priority_spread,
                    },
                )
            }
        })
}

/// The candidate quantities the quote cache samples each pass.
pub open spec fn spec_is_sample(q: int) -> bool {
    q == 10 || q == 100 || q == 500 || q == 1000 || q == 10000
}

/// A buy-cache entry records a real unit quote: its venue holds more than
/// the sampled quantity, the venue's quoted price for it is positive, and
/// the stored price is that quote per unit.
pub open spec fn buy_entry_sound(markets: Seq<ZSE>, k: int, bp: BestPrice) -> bool {
    &&& bp.market < 3
    &&& spec_is_sample(bp.quantity as int)
    &&& markets[bp.market as int].goods_qty(k) > bp.quantity
    &&& ({
        let quote = markets[bp.market as int].spec_min_bid(k, bp.quantity as int);
        quote > 0 && bp.price == quote / (bp.quantity as int)
    })
}

/// A sell-cache entry records a real unit quote the venue could pay out of
/// its cash holding.
pub open spec fn sell_entry_sound(markets: Seq<ZSE>, k: int, bp: BestPrice) -> bool {
    &&& bp.market < 3
    &&& spec_is_sample(bp.quantity as int)
    &&& ({
        let quote = markets[bp.market as int].spec_max_offer(k, bp.quantity as int);
        quote >= 0 && quote <= markets[bp.market as int].goods_qty(0) && bp.price == quote / (
        bp.quantity as int)
    })
}

/// The buy cache entry `bp` answers for one (kind, venue, sample) triple:
/// when the venue holds more than the sample and quotes a positive price
/// whose unit value is representable, the entry is at least as cheap.
pub open spec fn buy_sample_covered(bp: BestPrice, markets: Seq<ZSE>, k: int, mm: int, q: int) -> bool {
    let m = markets[mm];
    let quote = m.spec_min_bid(k, q);
    (m.goods_qty(k) > q && quote > 0 && quote / q <= PRICE_CAP) ==> bp.price <= quote / q
}

/// The sell cache entry `bp` answers for one (kind, venue, sample) triple:
/// when the venue could pay the quote out of its cash and its unit value
/// is representable, the entry pays at least as much.
pub open spec fn sell_sample_covered(bp: BestPrice, markets: Seq<ZSE>, k: int, mm: int, q: int) -> bool {
    let m = markets[mm];
    let quote = m.spec_max_offer(k, q);
    (quote >= 0 && quote <= m.goods_qty(0) && quote / q <= PRICE_CAP) ==> bp.price >= quote / q
}

/// An opening pass over the pending list: what was pending is untouched and
/// anything appended is a live transaction.
pub open spec fn spec_open_shape(pre: Seq<Transaction>, post: Seq<Transaction>) -> bool {
    &&& post.len() >= pre.len()
    &&& (forall|i: int| 0 <= i < pre.len() ==> #[trigger] post[i] == pre[i])
    &&& (forall|i: int| pre.len() <= i < post.len() ==> (#[trigger] post[i]).deadline >= 1)
}

/// The two-attempt buy protocol succeeds against venue `m`: the first bid
/// (unit price times quantity) is accepted outright, or the venue refuses
/// it as too low and accepts a retry priced one unit above the reported
/// floor (when that unit price is representable).
pub open spec fn buy_protocol_accepts(m: ZSE, kind: GoodKind, qty: i64, unit_price: i64) -> bool {
    let k = spec_kind_index(kind);
    let qv = qty as int;
    let bid1 = unit_price as int * qv;
    let floor = m.spec_min_bid(k, qv);
    let is_low = qv > 0 && bid1 > 0 && m.buy_count(k) < crate::market::MAXLOCK && m.goods_qty(k)
        - m.locked(k) >= qv && bid1 < floor;
    let unit2 = floor / qv + 1;
    m.lock_buy_accepts(k, qv, bid1) || (is_low && 0 <= floor && floor / qv < PRICE_CAP
        && m.lock_buy_accepts(k, qv, unit2 * qv))
}

/// The two-attempt sell protocol succeeds against venue `m`: the first
/// offer is accepted outright, or the venue refuses it as too high and
/// accepts a retry priced one unit below the reported ceiling.
pub open spec fn sell_protocol_accepts(m: ZSE, kind: GoodKind, qty: i64, unit_price: i64) -> bool {
    let k = spec_kind_index(kind);
    let qv = qty as int;
    let offer1 = unit_price as int * qv;
    let ceiling = m.spec_max_offer(k, qv);
    let is_high = qv > 0 && offer1 > 0 && m.sell_count(k) < crate::market::MAXLOCK && m.goods_qty(0)
        - m.locked(0) >= offer1 && offer1 > ceiling;
    let unit2 = ceiling / qv - 1;
    m.lock_sell_accepts(k, qv, offer1) || (is_high && 0 <= ceiling && 0 < unit2 && unit2
        <= PRICE_CAP && m.lock_sell_accepts(k, qv, unit2 * qv))
}

/// Exact HRRN comparison on bounded values.
fn priority_gt(s1: i64, d1: i64, s2: i64, d2: i64) -> (r: bool)
    requires
        -PRICE_CAP <= s1 <= PRICE_CAP,
        -PRICE_CAP <= s2 <= PRICE_CAP,
        0 <= d1 <= 15,
        0 <= d2 <= 15,
    ensures
        r == spec_priority_gt(s1 as int, d1 as int, s2 as int, d2 as int),
{
    proof {
        assert((s1 as int) * (d2 as int) <= (PRICE_CAP as int) * 15 && (s1 as int) * (d2 as int)
            >= -(PRICE_CAP as int) * 15) by (nonlinear_arith)
            requires
                -(PRICE_CAP as int) <= s1 as int <= PRICE_CAP as int,
                0 <= d2 as int <= 15,
        ;
        assert((s2 as int) * (d1 as int) <= (PRICE_CAP as int) * 15 && (s2 as int) * (d1 as int)
            >= -(PRICE_CAP as int) * 15) by (nonlinear_arith)
            requires
                -(PRICE_CAP as int) <= s2 as int <= PRICE_CAP as int,
                0 <= d1 as int <= 15,
        ;
    }
    (s1 as i128) * (d2 as i128) > (s2 as i128) * (d1 as i128)
}

/// Venue handle for a venue name (this strategy's own copy of the table).
pub fn get_index_by_market(m: &str) -> (i: usize)
    requires
        m@ == "RCNZ"@ || m@ == "Baku stock exchange"@ || m@ == "BFB"@ || m@ == "BVC"@,
    ensures
        i < 3,
        (m@ == "RCNZ"@ && i == 0) || ((m@ == "Baku stock exchange"@ || m@ == "BFB"@) && i == 1) || (
        m@ == "BVC"@ && i == 2),
{
    if outside::str_eq(m, "RCNZ") {
        0
    } else if outside::str_eq(m, "Baku stock exchange") {
        1
    } else if outside::str_eq(m, "BFB") {
        1
    } else {
        2
    }
}

/// Reservation lifetime each venue grants, in days.
pub fn get_deadline_by_market(m: &str) -> (d: i64)
    requires
        m@ == "RCNZ"@ || m@ == "Baku stock exchange"@ || m@ == "BFB"@ || m@ == "BVC"@,
    ensures
        1 <= d <= 15,
        (m@ == "RCNZ"@ && d == 15) || ((m@ == "Baku stock exchange"@ || m@ == "BFB"@) && d == 10)
            || (m@ == "BVC"@ && d == 12),
{
    if outside::str_eq(m, "RCNZ") {
        15
    } else if outside::str_eq(m, "Baku stock exchange") {
        10
    } else if outside::str_eq(m, "BFB") {
        10
    } else {
        12
    }
}

/// Reservation lifetime by venue handle.
fn deadline_of_venue(n: usize) -> (d: i64)
    requires
        n < 3,
    ensures
        1 <= d <= 15,
        n == 0 ==> d == 15,
        n == 1 ==> d == 10,
        n == 2 ==> d == 12,
{
    if n == 0 {
        15
    } else if n == 1 {
        10
    } else {
        12
    }
}

/// The dropshipping agent.
#[allow(non_camel_case_types)]
pub struct ZSE_Trader {
    pub name: String,
    pub markets: Vec<ZSE>,
    pub best_prices: Vec<Vec<BestPrice>>,
    pub goods: Vec<Good>,
    pub transactions: Vec<Transaction>,
    pub days: i64,
}

impl ZSE_Trader {
    pub open spec fn txn_ok(t: Transaction) -> bool {
        &&& t.lock_buy.market < 3
        &&& t.lock_sell.market < 3
        &&& 0 <= t.lock_buy.price <= PRICE_CAP
        &&& 0 <= t.lock_sell.price <= PRICE_CAP
        &&& 0 < t.quantity <= 10_000
        &&& 0 <= t.deadline <= 15
        &&& -PRICE_CAP <= t.priority_spread <= PRICE_CAP
    }

    /// The agent invariant: three well-formed venues, a two-row best-price
    /// cache, a valid inventory and sane transactions.
    pub open spec fn wf(self) -> bool {
        &&& self.markets@.len() == 3
        &&& forall|m: int| 0 <= m < 3 ==> (#[trigger] self.markets@[m]).wf()
        &&& self.best_prices@.len() == 2
        &&& forall|x: int| 0 <= x < 2 ==> (#[trigger] self.best_prices@[x])@.len() == 4
        &&& forall|x: int, k: int|
            0 <= x < 2 && 0 <= k < 4 ==> (#[trigger] self.best_prices@[x]@[k]).market < 3 && 0
                <= self.best_prices@[x]@[k].quantity <= 10_000
        &&& self.goods@.len() == 4
        &&& forall|k: int|
            0 <= k < 4 ==> (#[trigger] self.goods@[k]).valid() && self.goods@[k].kind
                == spec_kind_of_index(k)
        &&& forall|i: int|
            0 <= i < self.transactions@.len() ==> Self::txn_ok(#[trigger] self.transactions@[i])
    }

    fn default() -> (t: ZSE_Trader)
        ensures
            t.markets@.len() == 3,
            forall|m: int| 0 <= m < 3 ==> (#[trigger] t.markets@[m]).wf(),
            t.best_prices@.len() == 2,
            forall|x: int| 0 <= x < 2 ==> (#[trigger] t.best_prices@[x])@.len() == 4,
            forall|x: int, k: int|
                0 <= x < 2 && 0 <= k < 4 ==> (#[trigger] t.best_prices@[x]@[k]).market < 3 && 0
                    <= t.best_prices@[x]@[k].quantity <= 10_000 && t.best_prices@[x]@[k].price == (
                if x == 0 {
                    i64::MAX
                } else {
                    i64::MIN
                }),
            t.goods@.len() == 0,
            t.transactions@.len() == 0,
            t.days == 0,
            t.name@ == "ZSE_Trader"@,
    {
        let name: String = {
            let s: &str = "ZSE_Trader";
            s.to_owned()
        };
        let mut markets: Vec<ZSE> = Vec::new();
        markets.push(ZSE::new_random());
        markets.push(ZSE::new_random());
        markets.push(ZSE::new_random());
        let hi = BestPrice { price: i64::MAX, quantity: 0, market: 0 };
        let lo = BestPrice { price: i64::MIN, quantity: 0, market: 0 };
        let row_buy: Vec<BestPrice> = vec![hi, hi, hi, hi];
        let row_sell: Vec<BestPrice> = vec![lo, lo, lo, lo];
        let best_prices: Vec<Vec<BestPrice>> = vec![row_buy, row_sell];
        ZSE_Trader {
            name,
            markets,
            best_prices,
            goods: Vec::new(),
            transactions: Vec::new(),
            days: 0,
        }
    }

    fn subscribe_all(&mut self)
        requires
            old(self).markets@.len() == 3,
            forall|m: int| 0 <= m < 3 ==> (#[trigger] old(self).markets@[m]).wf(),
        ensures
            final(self).markets@.len() == 3,
            forall|m: int| 0 <= m < 3 ==> (#[trigger] final(self).markets@[m]).wf(),
            forall|m: int|
                0 <= m < 3 ==> (#[trigger] final(self).markets@[m]) == (ZSE {
                    subscribers: final(self).markets@[m].subscribers,
                    ..old(self).markets@[m]
                }),
            *final(self) == (ZSE_Trader { markets: final(self).markets, ..*old(self) }),
    {
        self.markets[0].add_subscriber(1);
        self.markets[0].add_subscriber(2);
        self.markets[1].add_subscriber(0);
        self.markets[1].add_subscriber(2);
        self.markets[2].add_subscriber(0);
        self.markets[2].add_subscriber(1);
    }

    /// A dropshipping trader over three randomly capitalised venues,
    /// itself starting with a random split of the starting budget: the
    /// converted holdings sum to the whole budget.
    pub fn new() -> (t: ZSE_Trader)
        ensures
            t.wf(),
            t.transactions@.len() == 0,
            spec_convert_to_eur(t.goods@[0]) + spec_convert_to_eur(t.goods@[1])
                + spec_convert_to_eur(t.goods@[2]) + spec_convert_to_eur(t.goods@[3])
                == crate::market::STARTING_CAPITAL,
    {
        let mut res = Self::default();
        res.subscribe_all();
        let budget: i64 = crate::market::STARTING_CAPITAL;
        let lo: i64 = budget / 8;
        let hi: i64 = budget / 4;
        let w_usd: i64 = outside::rand_in_range(lo, hi);
        let w_yen: i64 = outside::rand_in_range(lo, hi);
        let w_yuan: i64 = outside::rand_in_range(lo, hi);
        let eur: i64 = budget - w_usd - w_yen - w_yuan;
        let mut goods: Vec<Good> = Vec::new();
        goods.push(Good::new(GoodKind::EUR, eur));
        goods.push(Good::new(GoodKind::USD, w_usd * crate::goods::RATE_USD));
        goods.push(Good::new(GoodKind::YEN, w_yen * crate::goods::RATE_YEN));
        goods.push(Good::new(GoodKind::YUAN, w_yuan * crate::goods::RATE_YUAN));
        res.goods = goods;
        proof {
            assert((w_usd as int * (crate::goods::RATE_USD as int)) / (crate::goods::RATE_USD
                as int) == w_usd as int) by (nonlinear_arith)
                requires
                    crate::goods::RATE_USD as int > 0,
            ;
            assert((w_yen as int * (crate::goods::RATE_YEN as int)) / (crate::goods::RATE_YEN
                as int) == w_yen as int) by (nonlinear_arith)
                requires
                    crate::goods::RATE_YEN as int > 0,
            ;
            assert((w_yuan as int * (crate::goods::RATE_YUAN as int)) / (crate::goods::RATE_YUAN
                as int) == w_yuan as int) by (nonlinear_arith)
                requires
                    crate::goods::RATE_YUAN as int > 0,
            ;
        }
        res
    }

    /// A dropshipping trader over three venues with chosen capital.
    pub fn new_with_quantities(data: Vec<i64>, m1: Vec<i64>, m2: Vec<i64>, m3: Vec<i64>) -> (t:
        ZSE_Trader)
        requires
            data@.len() == 4,
            m1@.len() == 4,
            m2@.len() == 4,
            m3@.len() == 4,
            forall|i: int| 0 <= i < 4 ==> 0 <= #[trigger] data@[i] <= 20_000_000_000,
            forall|i: int| 0 <= i < 4 ==> 0 <= #[trigger] m1@[i] <= MAX_UNITS,
            forall|i: int| 0 <= i < 4 ==> 0 <= #[trigger] m2@[i] <= MAX_UNITS,
            forall|i: int| 0 <= i < 4 ==> 0 <= #[trigger] m3@[i] <= MAX_UNITS,
        ensures
            t.wf(),
            t.transactions@.len() == 0,
            t.goods@[0].quantity == data@[0],
            t.goods@[1].quantity == data@[1] * crate::goods::RATE_USD,
            t.goods@[2].quantity == data@[2] * crate::goods::RATE_YEN,
            t.goods@[3].quantity == data@[3] * crate::goods::RATE_YUAN,
            t.markets@[0].goods_qty(0) == m1@[0] && t.markets@[0].goods_qty(1) == m1@[1]
                && t.markets@[0].goods_qty(2) == m1@[2] && t.markets@[0].goods_qty(3) == m1@[3],
            t.markets@[1].goods_qty(0) == m2@[0] && t.markets@[1].goods_qty(1) == m2@[1]
                && t.markets@[1].goods_qty(2) == m2@[2] && t.markets@[1].goods_qty(3) == m2@[3],
            t.markets@[2].goods_qty(0) == m3@[0] && t.markets@[2].goods_qty(1) == m3@[1]
                && t.markets@[2].goods_qty(2) == m3@[2] && t.markets@[2].goods_qty(3) == m3@[3],
    {
        let mut res = Self::default();
        let mut markets: Vec<ZSE> = Vec::new();
        markets.push(ZSE::new_with_quantities(m1[0], m1[2], m1[1], m1[3]));
        markets.push(ZSE::new_with_quantities(m2[0], m2[2], m2[1], m2[3]));
        markets.push(ZSE::new_with_quantities(m3[0], m3[2], m3[1], m3[3]));
        res.markets = markets;
        res.subscribe_all();
        let mut goods: Vec<Good> = Vec::new();
        goods.push(Good::new(GoodKind::EUR, data[0]));
        goods.push(Good::new(GoodKind::USD, data[1] * crate::goods::RATE_USD));
        goods.push(Good::new(GoodKind::YEN, data[2] * crate::goods::RATE_YEN));
        goods.push(Good::new(GoodKind::YUAN, data[3] * crate::goods::RATE_YUAN));
        res.goods = goods;
        res
    }

    pub fn get_name(&self) -> (r: &String)
        ensures
            r@ == self.name@,
    {
        &self.name
    }

    pub fn get_markets(&self) -> (r: &Vec<ZSE>)
        ensures
            r == &self.markets,
    {
        &self.markets
    }

    /// Total inventory value in cash units at the canonical rates.
    pub fn get_budget(&self) -> (r: i64)
        requires
            self.wf(),
        ensures
            r == spec_convert_to_eur(self.goods@[0]) + spec_convert_to_eur(self.goods@[1])
                + spec_convert_to_eur(self.goods@[2]) + spec_convert_to_eur(self.goods@[3]),
    {
        let mut total: i64 = 0;
        total = total + convert_to_eur(&self.goods[0]);
        total = total + convert_to_eur(&self.goods[1]);
        total = total + convert_to_eur(&self.goods[2]);
        total = total + convert_to_eur(&self.goods[3]);
        total
    }

    /// Deliver a venue's queued events to its two peers.
    fn propagate(&mut self, origin: usize)
        requires
            old(self).wf(),
            origin < 3,
        ensures
            final(self).wf(),
            final(self).goods@ == old(self).goods@,
            final(self).transactions@ == old(self).transactions@,
            final(self).best_prices@ == old(self).best_prices@,
    {
        let evs = self.markets[origin].take_events();
        let ghost subs0 = self.markets@[origin as int].subscribers@;
        let mut i: usize = 0;
        while i < evs.len()
            invariant
                self.wf(),
                origin < 3,
                i <= evs@.len(),
                forall|x: int| 0 <= x < evs@.len() ==> (#[trigger] evs@[x]).valid(),
                self.markets@[origin as int].subscribers@ == subs0,
                self.goods@ == old(self).goods@,
                self.transactions@ == old(self).transactions@,
                self.best_prices@ == old(self).best_prices@,
            decreases evs@.len() - i,
        {
            let e: Event = evs[i];
            let mut s2: usize = 0;
            while s2 < self.markets[origin].subscribers.len()
                invariant
                    self.wf(),
                    origin < 3,
                    e.valid(),
                    self.markets@[origin as int].subscribers@ == subs0,
                    s2 <= self.markets@[origin as int].subscribers@.len(),
                    self.goods@ == old(self).goods@,
                    self.transactions@ == old(self).transactions@,
                    self.best_prices@ == old(self).best_prices@,
                decreases self.markets@[origin as int].subscribers@.len() - s2,
            {
                let target: usize = self.markets[origin].subscribers[s2];
                if target < 3 && target != origin {
                    self.markets[target].on_event(e);
                }
                s2 = s2 + 1;
            }
            i = i + 1;
        }
    }

    /// Let one simulated day pass on every venue.
    fn wait_one_day(&mut self)
        requires
            old(self).wf(),
        ensures
            final(self).wf(),
            final(self).goods@ == old(self).goods@,
            final(self).transactions@ == old(self).transactions@,
            final(self).best_prices@ == old(self).best_prices@,
    {
        let e = Event { kind: EventKind::Wait, good_kind: GoodKind::EUR, quantity: 0, price: 0 };
        self.markets[0].on_event(e);
        self.markets[1].on_event(e);
        self.markets[2].on_event(e);
    }

    /// Refresh the best-quote cache: for every kind and direction, sample a
    /// few candidate quantities on every venue and keep the best feasible
    /// unit price seen so far, remembering which venue quoted it.
    #[verifier::rlimit(80)]
    pub fn update_best_prices(&mut self)
        requires
            old(self).wf(),
        ensures
            final(self).wf(),
            final(self).goods@ == old(self).goods@,
            final(self).transactions@ == old(self).transactions@,
            *final(self) == (ZSE_Trader { best_prices: final(self).best_prices, ..*old(self) }),
            final(self).best_prices@[0]@[0] == old(self).best_prices@[0]@[0],
            final(self).best_prices@[1]@[0] == old(self).best_prices@[1]@[0],
            forall|kk: int|
                1 <= kk < 4 ==> ((#[trigger] final(self).best_prices@[0]@[kk]) == old(self).best_prices@[0]@[kk] || buy_entry_sound(
                    old(self).markets@,
                    kk,
                    final(self).best_prices@[0]@[kk],
                )),
            forall|kk: int|
                1 <= kk < 4 ==> (#[trigger] final(self).best_prices@[0]@[kk]).price <= old(self).best_prices@[0]@[kk].price,
            forall|kk: int|
                1 <= kk < 4 ==> ((#[trigger] final(self).best_prices@[1]@[kk]) == old(self).best_prices@[1]@[kk] || sell_entry_sound(
                    old(self).markets@,
                    kk,
                    final(self).best_prices@[1]@[kk],
                )),
            forall|kk: int|
                1 <= kk < 4 ==> (#[trigger] final(self).best_prices@[1]@[kk]).price >= old(self).best_prices@[1]@[kk].price,
            forall|kk: int, mm: int, q: int|
                1 <= kk < 4 && 0 <= mm < 3 && spec_is_sample(q) ==> #[trigger] buy_sample_covered(
                    final(self).best_prices@[0]@[kk],
                    old(self).markets@,
                    kk,
                    mm,
                    q,
                ),
            forall|kk: int, mm: int, q: int|
                1 <= kk < 4 && 0 <= mm < 3 && spec_is_sample(q) ==> #[trigger] sell_sample_covered(
                    final(self).best_prices@[1]@[kk],
                    old(self).markets@,
                    kk,
                    mm,
                    q,
                ),
    {
        let samples: Vec<i64> = vec![10, 100, 500, 1000, 10000];
        let mut good: usize = 1;
        while good < 4
            invariant
                self.wf(),
                samples@.len() == 5,
                samples@[0] == 10 && samples@[1] == 100 && samples@[2] == 500 && samples@[3] == 1000
                    && samples@[4] == 10000,
                1 <= good <= 4,
                *self == (ZSE_Trader { best_prices: self.best_prices, ..*old(self) }),
                self.best_prices@[0]@[0] == old(self).best_prices@[0]@[0],
                self.best_prices@[1]@[0] == old(self).best_prices@[1]@[0],
                forall|kk: int|
                    1 <= kk < 4 ==> ((#[trigger] self.best_prices@[0]@[kk]) == old(self).best_prices@[0]@[kk] || buy_entry_sound(
                        old(self).markets@,
                        kk,
                        self.best_prices@[0]@[kk],
                    )),
                forall|kk: int|
                    1 <= kk < 4 ==> (#[trigger] self.best_prices@[0]@[kk]).price <= old(self).best_prices@[0]@[kk].price,
                forall|kk: int|
                    1 <= kk < 4 ==> ((#[trigger] self.best_prices@[1]@[kk]) == old(self).best_prices@[1]@[kk] || sell_entry_sound(
                        old(self).markets@,
                        kk,
                        self.best_prices@[1]@[kk],
                    )),
                forall|kk: int|
                    1 <= kk < 4 ==> (#[trigger] self.best_prices@[1]@[kk]).price >= old(self).best_prices@[1]@[kk].price,
                forall|kk: int, mm: int, q: int|
                    1 <= kk < good && 0 <= mm < 3 && spec_is_sample(q)
                        ==> #[trigger] buy_sample_covered(self.best_prices@[0]@[kk], old(self).markets@, kk, mm, q),
                forall|kk: int, mm: int, q: int|
                    1 <= kk < good && 0 <= mm < 3 && spec_is_sample(q)
                        ==> #[trigger] sell_sample_covered(self.best_prices@[1]@[kk], old(self).markets@, kk, mm, q),
            decreases 4 - good,
        {
            let gk: GoodKind = get_goodkind_by_index(good);
            let mut market: usize = 0;
            while market < 3
                invariant
                    self.wf(),
                    samples@.len() == 5,
                    samples@[0] == 10 && samples@[1] == 100 && samples@[2] == 500 && samples@[3] == 1000
                    && samples@[4] == 10000,
                    1 <= good < 4,
                    market <= 3,
                    gk == spec_kind_of_index(good as int),
                    *self == (ZSE_Trader { best_prices: self.best_prices, ..*old(self) }),
                    self.best_prices@[0]@[0] == old(self).best_prices@[0]@[0],
                    self.best_prices@[1]@[0] == old(self).best_prices@[1]@[0],
                    forall|kk: int|
                        1 <= kk < 4 ==> ((#[trigger] self.best_prices@[0]@[kk]) == old(self).best_prices@[0]@[kk] || buy_entry_sound(
                            old(self).markets@,
                            kk,
                            self.best_prices@[0]@[kk],
                        )),
                    forall|kk: int|
                        1 <= kk < 4 ==> (#[trigger] self.best_prices@[0]@[kk]).price <= old(self).best_prices@[0]@[kk].price,
                    forall|kk: int|
                        1 <= kk < 4 ==> ((#[trigger] self.best_prices@[1]@[kk]) == old(self).best_prices@[1]@[kk] || sell_entry_sound(
                            old(self).markets@,
                            kk,
                            self.best_prices@[1]@[kk],
                        )),
                    forall|kk: int|
                        1 <= kk < 4 ==> (#[trigger] self.best_prices@[1]@[kk]).price >= old(self).best_prices@[1]@[kk].price,
                    forall|kk: int, mm: int, q: int|
                        1 <= kk < good && 0 <= mm < 3 && spec_is_sample(q)
                            ==> #[trigger] buy_sample_covered(self.best_prices@[0]@[kk], old(self).markets@, kk, mm, q),
                    forall|kk: int, mm: int, q: int|
                        1 <= kk < good && 0 <= mm < 3 && spec_is_sample(q)
                            ==> #[trigger] sell_sample_covered(self.best_prices@[1]@[kk], old(self).markets@, kk, mm, q),
                    forall|mm: int, q: int|
                        0 <= mm < market && spec_is_sample(q) ==> #[trigger] buy_sample_covered(self.best_prices@[0]@[good as int], old(self).markets@, good as int, mm, q),
                    forall|mm: int, q: int|
                        0 <= mm < market && spec_is_sample(q)
                            ==> #[trigger] sell_sample_covered(self.best_prices@[1]@[good as int], old(self).markets@, good as int, mm, q),
                decreases 3 - market,
            {
                let mut si: usize = 0;
                while si < 5
                    invariant
                        self.wf(),
                        samples@.len() == 5,
                        samples@[0] == 10 && samples@[1] == 100 && samples@[2] == 500 && samples@[3] == 1000
                            && samples@[4] == 10000,
                        1 <= good < 4,
                        market < 3,
                        si <= 5,
                        gk == spec_kind_of_index(good as int),
                        *self == (ZSE_Trader { best_prices: self.best_prices, ..*old(self) }),
                        self.best_prices@[0]@[0] == old(self).best_prices@[0]@[0],
                        self.best_prices@[1]@[0] == old(self).best_prices@[1]@[0],
                        forall|kk: int|
                            1 <= kk < 4 ==> ((#[trigger] self.best_prices@[0]@[kk]) == old(self).best_prices@[0]@[kk] || buy_entry_sound(
                                old(self).markets@,
                                kk,
                                self.best_prices@[0]@[kk],
                            )),
                        forall|kk: int|
                            1 <= kk < 4 ==> (#[trigger] self.best_prices@[0]@[kk]).price <= old(self).best_prices@[0]@[kk].price,
                        forall|kk: int|
                            1 <= kk < 4 ==> ((#[trigger] self.best_prices@[1]@[kk]) == old(self).best_prices@[1]@[kk] || sell_entry_sound(
                                old(self).markets@,
                                kk,
                                self.best_prices@[1]@[kk],
                            )),
                        forall|kk: int|
                            1 <= kk < 4 ==> (#[trigger] self.best_prices@[1]@[kk]).price >= old(self).best_prices@[1]@[kk].price,
                        forall|kk: int, mm: int, q: int|
                            1 <= kk < good && 0 <= mm < 3 && spec_is_sample(q)
                                ==> #[trigger] buy_sample_covered(self.best_prices@[0]@[kk], old(self).markets@, kk, mm, q),
                        forall|kk: int, mm: int, q: int|
                            1 <= kk < good && 0 <= mm < 3 && spec_is_sample(q)
                                ==> #[trigger] sell_sample_covered(self.best_prices@[1]@[kk], old(self).markets@, kk, mm, q),
                        forall|mm: int, q: int|
                            0 <= mm < market && spec_is_sample(q)
                                ==> #[trigger] buy_sample_covered(self.best_prices@[0]@[good as int], old(self).markets@, good as int, mm, q),
                        forall|mm: int, q: int|
                            0 <= mm < market && spec_is_sample(q)
                                ==> #[trigger] sell_sample_covered(self.best_prices@[1]@[good as int], old(self).markets@, good as int, mm, q),
                        si >= 1 ==> buy_sample_covered(self.best_prices@[0]@[good as int], old(self).markets@, good as int, market as int, 10) && sell_sample_covered(self.best_prices@[1]@[good as int], old(self).markets@, good as int, market as int, 10),
                        si >= 2 ==> buy_sample_covered(self.best_prices@[0]@[good as int], old(self).markets@, good as int, market as int, 100) && sell_sample_covered(self.best_prices@[1]@[good as int], old(self).markets@, good as int, market as int, 100),
                        si >= 3 ==> buy_sample_covered(self.best_prices@[0]@[good as int], old(self).markets@, good as int, market as int, 500) && sell_sample_covered(self.best_prices@[1]@[good as int], old(self).markets@, good as int, market as int, 500),
                        si >= 4 ==> buy_sample_covered(self.best_prices@[0]@[good as int], old(self).markets@, good as int, market as int, 1000) && sell_sample_covered(self.best_prices@[1]@[good as int], old(self).markets@, good as int, market as int, 1000),
                        si >= 5 ==> buy_sample_covered(self.best_prices@[0]@[good as int], old(self).markets@, good as int, market as int, 10000) && sell_sample_covered(self.best_prices@[1]@[good as int], old(self).markets@, good as int, market as int, 10000),
                    decreases 5 - si,
                {
                    let qty: i64 = samples[si];
                    let labels = self.markets[market].get_goods();
                    let m_good: i64 = labels[good].quantity;
                    if m_good > qty {
                        let quote = self.markets[market].get_buy_price(gk, qty);
                        let unit: i64 = match quote {
                            Ok(p) => {
                                if p > 0 {
                                    p / qty
                                } else {
                                    i64::MAX
                                }
                            },
                            Err(_) => i64::MAX,
                        };
                        if unit < self.best_prices[0][good].price && unit <= PRICE_CAP {
                            let ghost prev = self.best_prices@;
                            self.best_prices[0][good] = BestPrice {
                                price: unit,
                                quantity: qty,
                                market,
                            };
                            proof {
                                assert(buy_entry_sound(
                                    old(self).markets@,
                                    good as int,
                                    self.best_prices@[0]@[good as int],
                                ));
                                assert forall|kk: int|
                                    1 <= kk < 4 && kk != good as int implies (
                                #[trigger] self.best_prices@[0]@[kk]) == prev[0][kk] by {}
                                assert forall|kk: int|
                                    1 <= kk < 4 implies (#[trigger] self.best_prices@[1]@[kk])
                                    == prev[1][kk] by {}
                                assert forall|mm2: int, q2: int|
                                    0 <= mm2 < 3 && spec_is_sample(q2) && buy_sample_covered(
                                        prev[0][good as int],
                                        old(self).markets@,
                                        good as int,
                                        mm2,
                                        q2,
                                    ) implies #[trigger] buy_sample_covered(
                                    self.best_prices@[0]@[good as int],
                                    old(self).markets@,
                                    good as int,
                                    mm2,
                                    q2,
                                ) by {
                                    assert(self.best_prices@[0]@[good as int].price
                                        <= prev[0][good as int].price);
                                }
                            }
                        }
                    }
                    let m_eur: i64 = labels[0].quantity;
                    let squote = self.markets[market].get_sell_price(gk, qty);
                    match squote {
                        Ok(p) => {
                            if p >= 0 && p <= m_eur {
                                let unit: i64 = p / qty;
                                if unit > self.best_prices[1][good].price && unit <= PRICE_CAP {
                                    let ghost prev = self.best_prices@;
                                    self.best_prices[1][good] = BestPrice {
                                        price: unit,
                                        quantity: qty,
                                        market,
                                    };
                                    proof {
                                        assert(sell_entry_sound(
                                            old(self).markets@,
                                            good as int,
                                            self.best_prices@[1]@[good as int],
                                        ));
                                        assert forall|kk: int|
                                            1 <= kk < 4 && kk != good as int implies (
                                        #[trigger] self.best_prices@[1]@[kk]) == prev[1][kk] by {}
                                        assert forall|kk: int|
                                            1 <= kk < 4 implies (
                                        #[trigger] self.best_prices@[0]@[kk]) == prev[0][kk] by {}
                                        assert forall|mm2: int, q2: int|
                                            0 <= mm2 < 3 && spec_is_sample(q2)
                                                && sell_sample_covered(
                                                prev[1][good as int],
                                                old(self).markets@,
                                                good as int,
                                                mm2,
                                                q2,
                                            ) implies #[trigger] sell_sample_covered(
                                            self.best_prices@[1]@[good as int],
                                            old(self).markets@,
                                            good as int,
                                            mm2,
                                            q2,
                                        ) by {
                                            assert(self.best_prices@[1]@[good as int].price
                                                >= prev[1][good as int].price);
                                        }
                                    }
                                }
                            }
                        },
                        Err(_) => {},
                    }
                    si = si + 1;
                }
                market = market + 1;
            }
            good = good + 1;
        }
    }

    /// HRRN bookkeeping: refresh each transaction's profit spread.
    pub fn update_priorities(&mut self)
        requires
            old(self).wf(),
        ensures
            final(self).wf(),
            final(self).transactions@ == spec_respread(old(self).transactions@),
            *final(self) == (ZSE_Trader { transactions: final(self).transactions, ..*old(self) }),
    {
        let mut i: usize = 0;
        while i < self.transactions.len()
            invariant
                old(self).wf(),
                self.wf(),
                i <= self.transactions@.len(),
                self.transactions@.len() == old(self).transactions@.len(),
                *self == (ZSE_Trader { transactions: self.transactions, ..*old(self) }),
                forall|x: int|
                    0 <= x < i ==> #[trigger] self.transactions@[x] == spec_respread(
                        old(self).transactions@,
                    )[x],
                forall|x: int|
                    i <= x < self.transactions@.len() ==> #[trigger] self.transactions@[x] == old(self).transactions@[x],
            decreases self.transactions@.len() - i,
        {
            let spread: i64 = self.transactions[i].lock_sell.price
                - self.transactions[i].lock_buy.price;
            self.transactions[i].priority_spread = spread;
            i = i + 1;
        }
        proof {
            assert(self.transactions@ =~= spec_respread(old(self).transactions@));
        }
    }

    /// Age every pending transaction's deadline by one day and drop the
    /// ones that ran out.
    pub fn update_deadlines(&mut self)
        requires
            old(self).wf(),
        ensures
            final(self).wf(),
            final(self).transactions@ == spec_age_transactions(old(self).transactions@),
            forall|i: int|
                0 <= i < final(self).transactions@.len() ==> (#[trigger] final(self).transactions@[i]).deadline >= 1,
            *final(self) == (ZSE_Trader { transactions: final(self).transactions, ..*old(self) }),
    {
        let mut kept: Vec<Transaction> = Vec::new();
        let total: usize = self.transactions.len();
        let ghost all = self.transactions@;
        let mut done: usize = 0;
        while self.transactions.len() > 0
            invariant
                self.wf(),
                done <= all.len(),
                all.len() == total as int,
                all == old(self).transactions@,
                *self == (ZSE_Trader { transactions: self.transactions, ..*old(self) }),
                self.transactions@ == all.skip(done as int),
                kept@ == spec_age_transactions(all.take(done as int)),
                forall|i: int|
                    0 <= i < kept@.len() ==> Self::txn_ok(#[trigger] kept@[i]) && kept@[i].deadline
                        >= 1,
            decreases self.transactions@.len(),
        {
            let ghost prefix = all.take(done as int);
            proof {
                assert(all.skip(done as int).len() > 0);
                assert(done < all.len());
            }
            let mut t: Transaction = self.transactions.remove(0);
            proof {
                assert(t == all[done as int]);
                assert(self.transactions@ =~= all.skip(done as int + 1));
                assert(all.take(done as int + 1).drop_last() =~= prefix);
                assert(all.take(done as int + 1).last() == all[done as int]);
            }
            if t.deadline > 1 {
                t.deadline = t.deadline - 1;
                kept.push(t);
            }
            proof {
                assert(done < all.len());
            }
            done = done + 1;
        }
        self.transactions = kept;
        proof {
            assert(all.take(all.len() as int) =~= all);
        }
    }

    /// The pending transaction the scheduler picks: the first one that no
    /// other outranks under highest-response-ratio-next order.
    #[verifier::loop_isolation(false)]
    pub fn best_transaction_index(&self) -> (r: usize)
        requires
            self.wf(),
            self.transactions@.len() > 0,
            forall|i: int|
                0 <= i < self.transactions@.len() ==> (#[trigger] self.transactions@[i]).deadline
                    >= 1,
        ensures
            r < self.transactions@.len(),
            forall|i: int|
                0 <= i < self.transactions@.len() ==> !spec_priority_gt(
                    (#[trigger] self.transactions@[i]).priority_spread as int,
                    self.transactions@[i].deadline as int,
                    self.transactions@[r as int].priority_spread as int,
                    self.transactions@[r as int].deadline as int,
                ),
    {
        let mut best: usize = 0;
        let mut i: usize = 1;
        while i < self.transactions.len()
            invariant
                self.wf(),
                self.transactions@.len() > 0,
                best < i,
                1 <= i <= self.transactions@.len(),
                forall|x: int|
                    0 <= x < i ==> !spec_priority_gt(
                        (#[trigger] self.transactions@[x]).priority_spread as int,
                        self.transactions@[x].deadline as int,
                        self.transactions@[best as int].priority_spread as int,
                        self.transactions@[best as int].deadline as int,
                    ),
            decreases self.transactions@.len() - i,
        {
            let s_i: i64 = self.transactions[i].priority_spread;
            let d_i: i64 = self.transactions[i].deadline;
            let s_b: i64 = self.transactions[best].priority_spread;
            let d_b: i64 = self.transactions[best].deadline;
            if priority_gt(s_i, d_i, s_b, d_b) {
                proof {
                    assert forall|x: int|
                        0 <= x < i + 1 implies !spec_priority_gt(
                        (#[trigger] self.transactions@[x]).priority_spread as int,
                        self.transactions@[x].deadline as int,
                        self.transactions@[i as int].priority_spread as int,
                        self.transactions@[i as int].deadline as int,
                    ) by {
                        if x < i {
                            assert(Self::txn_ok(self.transactions@[x]));
                            assert(Self::txn_ok(self.transactions@[best as int]));
                            assert(Self::txn_ok(self.transactions@[i as int]));
                            assert(self.transactions@[x].deadline >= 1);
                            assert(self.transactions@[best as int].deadline >= 1);
                            assert(self.transactions@[i as int].deadline >= 1);
                            let sx: int = self.transactions@[x].priority_spread as int;
                            let dx: int = self.transactions@[x].deadline as int;
                            let sb: int = self.transactions@[best as int].priority_spread as int;
                            let db: int = self.transactions@[best as int].deadline as int;
                            let si2: int = self.transactions@[i as int].priority_spread as int;
                            let di2: int = self.transactions@[i as int].deadline as int;
                            assert(!(sx * di2 > si2 * dx)) by (nonlinear_arith)
                                requires
                                    !(sx * db > sb * dx),
                                    si2 * db > sb * di2,
                                    1 <= dx <= 15,
                                    1 <= db <= 15,
                                    1 <= di2 <= 15,
                            ;
                        }
                    }
                }
                best = i;
            }
            i = i + 1;
        }
        best
    }

    /// Open a buy reservation for transaction `t` on its chosen venue,
    /// retrying once with the venue's reported floor when the bid is too
    /// low, as the price-disagreement protocol allows.
    /// Open a buy reservation for transaction `t` on its chosen venue,
    /// retrying once with the venue's reported floor when the bid is too
    /// low, as the price-disagreement protocol allows. Success is exactly
    /// the two-attempt protocol's acceptance; on failure nothing but the
    /// retry bookkeeping changes.
    fn lock_buy(&mut self, t: &mut Transaction) -> (r: bool)
        requires
            old(self).wf(),
            Self::txn_ok(*old(t)),
        ensures
            final(self).wf(),
            Self::txn_ok(*final(t)),
            final(self).transactions@ == old(self).transactions@,
            final(self).goods@ == old(self).goods@,
            final(self).best_prices@ == old(self).best_prices@,
            final(t).deadline == old(t).deadline,
            final(t).quantity == old(t).quantity,
            final(t).good_kind == old(t).good_kind,
            final(t).lock_buy.market == old(t).lock_buy.market,
            final(t).lock_sell == old(t).lock_sell,
            ({
                let m0 = old(self).markets@[old(t).lock_buy.market as int];
                let k = spec_kind_index(old(t).good_kind);
                let qv = old(t).quantity as int;
                let bid1 = old(t).lock_buy.price as int * qv;
                let floor = m0.spec_min_bid(k, qv);
                let acc1 = m0.lock_buy_accepts(k, qv, bid1);
                let is_low = qv > 0 && bid1 > 0 && m0.buy_count(k) < crate::market::MAXLOCK
                    && m0.goods_qty(k) - m0.locked(k) >= qv && bid1 < floor;
                let retried = !acc1 && is_low && 0 <= floor && floor / qv < PRICE_CAP;
                &&& r == buy_protocol_accepts(
                    m0,
                    old(t).good_kind,
                    old(t).quantity,
                    old(t).lock_buy.price,
                )
                &&& (acc1 ==> final(t).lock_buy.price == old(t).lock_buy.price)
                &&& (retried ==> final(t).lock_buy.price as int == floor / qv + 1)
                &&& (!acc1 && !retried ==> *final(t) == *old(t))
                &&& (r ==> final(t).lock_buy.token is Some)
                &&& (!r ==> final(t).lock_buy.token == old(t).lock_buy.token && (forall|i: int|
                    0 <= i < 3 ==> #[trigger] final(self).markets@[i] == old(self).markets@[i]))
            }),
    {
        let m: usize = t.lock_buy.market;
        let qty: i64 = t.quantity;
        proof {
            assert(0 <= (t.lock_buy.price as int) * (qty as int) <= (PRICE_CAP as int) * 10_000)
                by (nonlinear_arith)
                requires
                    0 <= t.lock_buy.price as int <= PRICE_CAP as int,
                    0 < qty as int <= 10_000,
            ;
        }
        let bid: i64 = t.lock_buy.price * qty;
        let name: String = {
            let n: &str = "ZSE";
            n.to_owned()
        };
        let res = self.markets[m].lock_buy(t.good_kind, qty, bid, name);
        match res {
            Ok(tok) => {
                t.lock_buy.token = Some(tok);
                self.days = 0;
                self.propagate(m);
                true
            },
            Err(e) => {
                match e {
                    LockBuyError::BidTooLow {
                        requested_good_kind: _,
                        requested_good_quantity: _,
                        low_bid: _,
                        lowest_acceptable_bid: minimum,
                    } => {
                        proof {
                            let m0 = old(self).markets@[m as int];
                            let k = spec_kind_index(old(t).good_kind);
                            crate::market::lemma_buy_quote_bounds(
                                m0.buy_rate(k),
                                qty as int,
                                m0.goods_qty(k),
                            );
                            assert(m0.buy_rate(k) * (qty as int) <= (crate::market::MAX_RATE
                                as int) * 10_000) by (nonlinear_arith)
                                requires
                                    1 <= m0.buy_rate(k) <= crate::market::MAX_RATE as int,
                                    0 < qty as int <= 10_000,
                            ;
                            assert(minimum as int == m0.spec_min_bid(k, qty as int));
                        }
                        if minimum < 0 {
                            return false;
                        }
                        let base: i64 = minimum / qty;
                        if base >= PRICE_CAP {
                            return false;
                        }
                        let unit: i64 = base + 1;
                        t.lock_buy.price = unit;
                        proof {
                            assert(0 <= (unit as int) * (qty as int) <= (PRICE_CAP as int)
                                * 10_000) by (nonlinear_arith)
                                requires
                                    0 <= unit as int <= PRICE_CAP as int,
                                    0 < qty as int <= 10_000,
                            ;
                        }
                        let bid2: i64 = unit * qty;
                        let name2: String = {
                            let n: &str = "ZSE";
                            n.to_owned()
                        };
                        let res2 = self.markets[m].lock_buy(t.good_kind, qty, bid2, name2);
                        match res2 {
                            Ok(tok) => {
                                t.lock_buy.token = Some(tok);
                                self.days = 0;
                                self.propagate(m);
                                true
                            },
                            Err(_) => {
                                if self.days < i64::MAX {
                                    self.days = self.days + 1;
                                }
                                proof {
                                    assert forall|i: int|
                                        0 <= i < 3 implies #[trigger] self.markets@[i] == old(self).markets@[i] by {}
                                }
                                false
                            },
                        }
                    },
                    _ => {
                        proof {
                            assert forall|i: int|
                                0 <= i < 3 implies #[trigger] self.markets@[i] == old(self).markets@[i] by {}
                        }
                        false
                    },
                }
            },
        }
    }

    /// Open a sell reservation for transaction `t`, retrying once with the
    /// venue's reported ceiling when the offer is too high.
    /// Open a sell reservation for transaction `t`, retrying once with the
    /// venue's reported ceiling when the offer is too high. Success is
    /// exactly the two-attempt protocol's acceptance; on failure nothing
    /// but the retry bookkeeping changes.
    fn lock_sell(&mut self, t: &mut Transaction) -> (r: bool)
        requires
            old(self).wf(),
            Self::txn_ok(*old(t)),
        ensures
            final(self).wf(),
            Self::txn_ok(*final(t)),
            final(self).transactions@ == old(self).transactions@,
            final(self).goods@ == old(self).goods@,
            final(self).best_prices@ == old(self).best_prices@,
            final(t).deadline == old(t).deadline,
            final(t).quantity == old(t).quantity,
            final(t).good_kind == old(t).good_kind,
            final(t).lock_sell.market == old(t).lock_sell.market,
            final(t).lock_buy == old(t).lock_buy,
            ({
                let m0 = old(self).markets@[old(t).lock_sell.market as int];
                let k = spec_kind_index(old(t).good_kind);
                let qv = old(t).quantity as int;
                let offer1 = old(t).lock_sell.price as int * qv;
                let ceiling = m0.spec_max_offer(k, qv);
                let acc1 = m0.lock_sell_accepts(k, qv, offer1);
                let is_high = qv > 0 && offer1 > 0 && m0.sell_count(k) < crate::market::MAXLOCK
                    && m0.goods_qty(0) - m0.locked(0) >= offer1 && offer1 > ceiling;
                let retried = !acc1 && is_high && 0 <= ceiling && 0 < ceiling / qv - 1 && ceiling
                    / qv - 1 <= PRICE_CAP;
                &&& r == sell_protocol_accepts(
                    m0,
                    old(t).good_kind,
                    old(t).quantity,
                    old(t).lock_sell.price,
                )
                &&& (acc1 ==> final(t).lock_sell.price == old(t).lock_sell.price)
                &&& (retried ==> final(t).lock_sell.price as int == ceiling / qv - 1)
                &&& (!acc1 && !retried ==> *final(t) == *old(t))
                &&& (r ==> final(t).lock_sell.token is Some)
                &&& (!r ==> final(t).lock_sell.token == old(t).lock_sell.token && (forall|i: int|
                    0 <= i < 3 ==> #[trigger] final(self).markets@[i] == old(self).markets@[i]))
            }),
    {
        let m: usize = t.lock_sell.market;
        let qty: i64 = t.quantity;
        proof {
            assert(0 <= (t.lock_sell.price as int) * (qty as int) <= (PRICE_CAP as int) * 10_000)
                by (nonlinear_arith)
                requires
                    0 <= t.lock_sell.price as int <= PRICE_CAP as int,
                    0 < qty as int <= 10_000,
            ;
        }
        let offer: i64 = t.lock_sell.price * qty;
        let name: String = {
            let n: &str = "ZSE";
            n.to_owned()
        };
        let res = self.markets[m].lock_sell(t.good_kind, qty, offer, name);
        match res {
            Ok(tok) => {
                t.lock_sell.token = Some(tok);
                self.propagate(m);
                true
            },
            Err(e) => {
                match e {
                    LockSellError::OfferTooHigh {
                        offered_good_kind: _,
                        offered_good_quantity: _,
                        high_offer: _,
                        highest_acceptable_offer: maximum,
                    } => {
                        proof {
                            let m0 = old(self).markets@[m as int];
                            let k = spec_kind_index(old(t).good_kind);
                            crate::market::lemma_sell_quote_bounds(m0.sell_rate(k), qty as int);
                            assert(maximum as int == m0.spec_max_offer(k, qty as int));
                        }
                        if maximum < 0 {
                            return false;
                        }
                        let unit: i64 = maximum / qty - 1;
                        if unit <= 0 || unit > PRICE_CAP {
                            return false;
                        }
                        t.lock_sell.price = unit;
                        proof {
                            assert(0 <= (unit as int) * (qty as int) <= (PRICE_CAP as int)
                                * 10_000) by (nonlinear_arith)
                                requires
                                    0 <= unit as int <= PRICE_CAP as int,
                                    0 < qty as int <= 10_000,
                            ;
                        }
                        let offer2: i64 = unit * qty;
                        let name2: String = {
                            let n: &str = "ZSE";
                            n.to_owned()
                        };
                        let res2 = self.markets[m].lock_sell(t.good_kind, qty, offer2, name2);
                        match res2 {
                            Ok(tok) => {
                                t.lock_sell.token = Some(tok);
                                self.propagate(m);
                                true
                            },
                            Err(_) => {
                                proof {
                                    assert forall|i: int|
                                        0 <= i < 3 implies #[trigger] self.markets@[i] == old(self).markets@[i] by {}
                                }
                                false
                            },
                        }
                    },
                    _ => {
                        proof {
                            assert forall|i: int|
                                0 <= i < 3 implies #[trigger] self.markets@[i] == old(self).markets@[i] by {}
                        }
                        false
                    },
                }
            },
        }
    }

    /// Commit a buy reservation: pay out of the cash holding, merge the
    /// bought good into the inventory, and append a valuation line (tagged
    /// `1`) to `out`.
    fn buy(&mut self, token: Token, market: usize, out: &mut Vec<Vec<i64>>) -> (r: bool)
        requires
            old(self).wf(),
            market < 3,
        ensures
            final(self).wf(),
            final(self).transactions@ == old(self).transactions@,
            final(self).best_prices@ == old(self).best_prices@,
            ({
                let m = old(self).markets@[market as int];
                let id = token.id as int;
                let room = m.goods_qty(0) + old(self).goods@[0].quantity <= MAX_UNITS;
                &&& r == (room && m.buy_accepts(id, token.code@, old(self).goods@[0]))
                &&& (!r ==> final(self).goods@ == old(self).goods@ && final(out)@ == old(out)@)
                &&& (r ==> {
                    let kpos = m.buy_pos(id).0;
                    let p = m.buy_agreed_price(id);
                    let q = m.buy_agreed_qty(id);
                    let gafter = old(self).goods@.update(
                        0,
                        Good {
                            kind: GoodKind::EUR,
                            quantity: (old(self).goods@[0].quantity - p) as i64,
                        },
                    );
                    let room2 = gafter[kpos].quantity + q <= MAX_UNITS;
                    &&& final(self).goods@ == (if room2 {
                        gafter.update(
                            kpos,
                            Good {
                                kind: spec_kind_of_index(kpos),
                                quantity: (gafter[kpos].quantity + q) as i64,
                            },
                        )
                    } else {
                        gafter
                    })
                    &&& final(out)@.len() == old(out)@.len() + 1
                    &&& (forall|i: int|
                        0 <= i < old(out)@.len() ==> #[trigger] final(out)@[i] == old(out)@[i])
                    &&& final(out)@.last()@.len() == 5
                    &&& final(out)@.last()@[0] == 1
                    &&& final(out)@.last()@[1] == spec_convert_to_eur(final(self).goods@[0])
                    &&& final(out)@.last()@[2] == spec_convert_to_eur(final(self).goods@[1])
                    &&& final(out)@.last()@[3] == spec_convert_to_eur(final(self).goods@[2])
                    &&& final(out)@.last()@[4] == spec_convert_to_eur(final(self).goods@[3])
                })
            }),
    {
        let ghost pre = *old(self);
        let labels = self.markets[market].get_goods();
        if !(labels[0].quantity <= MAX_UNITS - self.goods[0].get_qty()) {
            return false;
        }
        let ghost id = token.id as int;
        let res = self.markets[market].buy(token, &mut self.goods[0]);
        self.propagate(market);
        match res {
            Ok(g) => {
                let kidx: usize = get_index_by_goodkind(&g.get_kind());
                let ghost gafter = self.goods@;
                proof {
                    let mm = pre.markets@[market as int];
                    assert(mm.buy_token_valid(id));
                    let kpos = mm.buy_pos(id).0;
                    assert(g.spec_kind() == spec_kind_of_index(kpos));
                    assert(0 <= kpos < 4) by {
                        assert(crate::market::has_slot(mm.lock_buy@, id));
                        let (a, b) = choose|a: int, b: int|
                            0 <= a < mm.lock_buy@.len() && 0 <= b < mm.lock_buy@[a].slots@.len()
                                && (#[trigger] mm.lock_buy@[a].slots@[b]).occupied
                                && mm.lock_buy@[a].slots@[b].token_id == id;
                        assert(mm.buy_row(a)[b].occupied && mm.buy_row(a)[b].token_id == id);
                        assert(exists|k: int, j: int|
                            0 <= k < 4 && 0 <= j < crate::market::MAXLOCK && (
                            #[trigger] mm.buy_row(k)[j]).occupied && mm.buy_row(k)[j].token_id
                                == id);
                    }
                    assert(kidx as int == kpos);
                    assert(gafter =~= pre.goods@.update(
                        0,
                        Good {
                            kind: GoodKind::EUR,
                            quantity: (pre.goods@[0].quantity - mm.buy_agreed_price(id)) as i64,
                        },
                    ));
                }
                if g.get_kind() == self.goods[kidx].get_kind() && self.goods[kidx].get_qty()
                    <= MAX_UNITS - g.get_qty() {
                    let merged = self.goods[kidx].merge(g);
                    proof {
                        assert(merged is Ok);
                        assert(self.goods@ =~= gafter.update(
                            kidx as int,
                            Good {
                                kind: spec_kind_of_index(kidx as int),
                                quantity: (gafter[kidx as int].quantity
                                    + pre.markets@[market as int].buy_agreed_qty(id)) as i64,
                            },
                        ));
                    }
                }
                let mut line: Vec<i64> = Vec::new();
                line.push(1);
                let vals = metadata_values(&self.goods);
                line.push(vals[0]);
                line.push(vals[1]);
                line.push(vals[2]);
                line.push(vals[3]);
                out.push(line);
                true
            },
            Err(_) => {
                proof {
                    assert(self.goods@ =~= pre.goods@);
                }
                false
            },
        }
    }

    /// Commit a sell reservation: hand over the good, merge the payout into
    /// the cash holding, and append a valuation line (tagged `1`) to `out`.
    fn sell(&mut self, token: Token, market: usize, kind: usize, out: &mut Vec<Vec<i64>>) -> (r:
        bool)
        requires
            old(self).wf(),
            market < 3,
            kind < 4,
        ensures
            final(self).wf(),
            final(self).transactions@ == old(self).transactions@,
            final(self).best_prices@ == old(self).best_prices@,
            ({
                let m = old(self).markets@[market as int];
                let id = token.id as int;
                let room = m.goods_qty(kind as int) + old(self).goods@[kind as int].quantity
                    <= MAX_UNITS;
                &&& r == (room && m.sell_accepts(id, token.code@, old(self).goods@[kind as int]))
                &&& (!r ==> final(self).goods@ == old(self).goods@ && final(out)@ == old(out)@)
                &&& (r ==> {
                    let p = m.sell_agreed_price(id);
                    let q = m.sell_agreed_qty(id);
                    let gafter = old(self).goods@.update(
                        kind as int,
                        Good {
                            kind: old(self).goods@[kind as int].kind,
                            quantity: (old(self).goods@[kind as int].quantity - q) as i64,
                        },
                    );
                    let room3 = gafter[0].quantity + p <= MAX_UNITS;
                    &&& final(self).goods@ == (if room3 {
                        gafter.update(
                            0,
                            Good {
                                kind: GoodKind::EUR,
                                quantity: (gafter[0].quantity + p) as i64,
                            },
                        )
                    } else {
                        gafter
                    })
                    &&& final(out)@.len() == old(out)@.len() + 1
                    &&& (forall|i: int|
                        0 <= i < old(out)@.len() ==> #[trigger] final(out)@[i] == old(out)@[i])
                    &&& final(out)@.last()@.len() == 5
                    &&& final(out)@.last()@[0] == 1
                    &&& final(out)@.last()@[1] == spec_convert_to_eur(final(self).goods@[0])
                    &&& final(out)@.last()@[2] == spec_convert_to_eur(final(self).goods@[1])
                    &&& final(out)@.last()@[3] == spec_convert_to_eur(final(self).goods@[2])
                    &&& final(out)@.last()@[4] == spec_convert_to_eur(final(self).goods@[3])
                })
            }),
    {
        let ghost pre = *old(self);
        let labels = self.markets[market].get_goods();
        if !(labels[kind].quantity <= MAX_UNITS - self.goods[kind].get_qty()) {
            return false;
        }
        let ghost id = token.id as int;
        let res = self.markets[market].sell(token, &mut self.goods[kind]);
        self.propagate(market);
        match res {
            Ok(g) => {
                let ghost gafter = self.goods@;
                proof {
                    let mm = pre.markets@[market as int];
                    assert(gafter =~= pre.goods@.update(
                        kind as int,
                        Good {
                            kind: pre.goods@[kind as int].kind,
                            quantity: (pre.goods@[kind as int].quantity - mm.sell_agreed_qty(
                                id,
                            )) as i64,
                        },
                    ));
                }
                if g.get_kind() == self.goods[0].get_kind() && self.goods[0].get_qty() <= MAX_UNITS
                    - g.get_qty() {
                    let merged = self.goods[0].merge(g);
                    proof {
                        assert(merged is Ok);
                        assert(self.goods@ =~= gafter.update(
                            0,
                            Good {
                                kind: GoodKind::EUR,
                                quantity: (gafter[0].quantity
                                    + pre.markets@[market as int].sell_agreed_price(id)) as i64,
                            },
                        ));
                    }
                }
                let mut line: Vec<i64> = Vec::new();
                line.push(1);
                let vals = metadata_values(&self.goods);
                line.push(vals[0]);
                line.push(vals[1]);
                line.push(vals[2]);
                line.push(vals[3]);
                out.push(line);
                true
            },
            Err(_) => {
                proof {
                    assert(self.goods@ =~= pre.goods@);
                }
                false
            },
        }
    }

    /// Open a paired buy/sell transaction for `good` from the best-quote
    /// cache, when both cached quotes are real; the transaction joins the
    /// pending list only if both reservations are granted.
    fn open_transaction_for(&mut self, good: usize)
        requires
            old(self).wf(),
            1 <= good < 4,
        ensures
            final(self).wf(),
            spec_open_shape(old(self).transactions@, final(self).transactions@),
            final(self).transactions@.len() <= old(self).transactions@.len() + 1,
            final(self).goods@ == old(self).goods@,
            final(self).best_prices@ == old(self).best_prices@,
            ({
                let b = old(self).best_prices@[0]@[good as int];
                let sl = old(self).best_prices@[1]@[good as int];
                &&& (!(0 <= b.price <= PRICE_CAP) || !(0 <= sl.price <= PRICE_CAP) || (if b.quantity
                    > sl.quantity {
                    b.quantity
                } else {
                    sl.quantity
                }) <= 0 ==> *final(self) == *old(self))
                &&& (final(self).transactions@.len() == old(self).transactions@.len() + 1 ==> {
                    let t = final(self).transactions@.last();
                    &&& t.good_kind == spec_kind_of_index(good as int)
                    &&& t.lock_buy.market == b.market
                    &&& t.lock_sell.market == sl.market
                    &&& t.quantity == (if b.quantity > sl.quantity {
                        b.quantity
                    } else {
                        sl.quantity
                    })
                    &&& 1 <= t.deadline <= 15
                    &&& t.lock_buy.token is Some
                    &&& t.lock_sell.token is Some
                })
                &&& ({
                    let maxq = (if b.quantity > sl.quantity {
                        b.quantity
                    } else {
                        sl.quantity
                    });
                    let cacheable = 0 <= b.price <= PRICE_CAP && 0 <= sl.price <= PRICE_CAP
                        && maxq > 0;
                    let acc_buy = buy_protocol_accepts(
                        old(self).markets@[b.market as int],
                        spec_kind_of_index(good as int),
                        maxq,
                        b.price,
                    );
                    &&& (final(self).transactions@.len() == old(self).transactions@.len() + 1
                        ==> cacheable && acc_buy)
                    &&& (cacheable && !acc_buy ==> final(self).transactions@ == old(self).transactions@ && (forall|i: int|
                        0 <= i < 3 ==> #[trigger] final(self).markets@[i] == old(self).markets@[i]))
                })
            }),
    {
        let bp_buy: BestPrice = self.best_prices[0][good];
        let bp_sell: BestPrice = self.best_prices[1][good];
        if bp_buy.price < 0 || bp_buy.price > PRICE_CAP {
            return ;
        }
        if bp_sell.price < 0 || bp_sell.price > PRICE_CAP {
            return ;
        }
        let qty: i64 = if bp_buy.quantity > bp_sell.quantity {
            bp_buy.quantity
        } else {
            bp_sell.quantity
        };
        if qty <= 0 {
            return ;
        }
        let d_buy: i64 = deadline_of_venue(bp_buy.market);
        let d_sell: i64 = deadline_of_venue(bp_sell.market);
        let deadline: i64 = if d_buy < d_sell {
            d_buy
        } else {
            d_sell
        };
        let mut transaction = Transaction {
            lock_buy: Lock { token: None, market: bp_buy.market, price: bp_buy.price },
            lock_sell: Lock { token: None, market: bp_sell.market, price: bp_sell.price },
            good_kind: get_goodkind_by_index(good),
            quantity: qty,
            deadline,
            priority_spread: 0,
        };
        let ok_buy: bool = self.lock_buy(&mut transaction);
        if ok_buy {
            let ok_sell: bool = self.lock_sell(&mut transaction);
            if ok_sell {
                let ghost before = self.transactions@;
                self.transactions.push(transaction);
                proof {
                    assert forall|i: int|
                        0 <= i < self.transactions@.len() implies Self::txn_ok(
                        #[trigger] self.transactions@[i],
                    ) by {
                        if i < before.len() {
                            assert(self.transactions@[i] == before[i]);
                        }
                    }
                }
            }
        }
    }

    /// The simple opening policy: try to open one transaction per kind.
    fn lock_profits(&mut self)
        requires
            old(self).wf(),
        ensures
            final(self).wf(),
            spec_open_shape(old(self).transactions@, final(self).transactions@),
            final(self).goods@ == old(self).goods@,
    {
        self.open_transaction_for(1);
        self.open_transaction_for(2);
        self.open_transaction_for(3);
    }

    /// The spread a kind's cached quotes promise, counting only real
    /// quotes (a cache still holding a sentinel offers no spread).
    pub open spec fn spec_cached_spread(self, g: int) -> int {
        let b = self.best_prices@[0]@[g];
        let sl = self.best_prices@[1]@[g];
        if 0 <= b.price <= PRICE_CAP && 0 <= sl.price <= PRICE_CAP {
            sl.price - b.price
        } else {
            0
        }
    }

    /// The profit-seeking opening policy: open one transaction for the
    /// earliest kind with the widest strictly positive cached spread; with
    /// no positive spread anywhere, do nothing at all.
    fn lock_best_profit(&mut self)
        requires
            old(self).wf(),
        ensures
            final(self).wf(),
            spec_open_shape(old(self).transactions@, final(self).transactions@),
            final(self).goods@ == old(self).goods@,
            (forall|g: int| 1 <= g < 4 ==> #[trigger] old(self).spec_cached_spread(g) <= 0)
                ==> *final(self) == *old(self),
            (exists|g: int| 1 <= g < 4 && #[trigger] old(self).spec_cached_spread(g) > 0)
                ==> exists|g: int|
                1 <= g < 4 && #[trigger] old(self).spec_cached_spread(g) > 0 && (forall|h: int|
                    1 <= h < 4 ==> #[trigger] old(self).spec_cached_spread(h) <= old(self).spec_cached_spread(g)) && (forall|h: int|
                    1 <= h < g ==> #[trigger] old(self).spec_cached_spread(h) < old(self).spec_cached_spread(g)) && (final(self).transactions@.len() == old(self).transactions@.len() + 1 ==> final(self).transactions@.last().good_kind
                    == spec_kind_of_index(g) && buy_protocol_accepts(
                    old(self).markets@[old(self).best_prices@[0]@[g].market as int],
                    spec_kind_of_index(g),
                    (if old(self).best_prices@[0]@[g].quantity > old(self).best_prices@[1]@[g].quantity {
                        old(self).best_prices@[0]@[g].quantity
                    } else {
                        old(self).best_prices@[1]@[g].quantity
                    }),
                    old(self).best_prices@[0]@[g].price,
                )),
    {
        let mut best_good: usize = 0;
        let mut best_profit: i64 = 0;
        let mut good: usize = 1;
        while good < 4
            invariant
                self.wf(),
                *self == *old(self),
                1 <= good <= 4,
                best_good < 4,
                0 <= best_profit,
                best_good == 0 ==> best_profit == 0,
                best_good >= 1 ==> best_profit == self.spec_cached_spread(best_good as int)
                    && best_profit > 0,
                forall|h: int| 1 <= h < good ==> #[trigger] self.spec_cached_spread(h) <= best_profit,
                best_good >= 1 ==> (forall|h: int|
                    1 <= h < best_good as int ==> #[trigger] self.spec_cached_spread(h)
                        < best_profit),
            decreases 4 - good,
        {
            let bp_buy: BestPrice = self.best_prices[0][good];
            let bp_sell: BestPrice = self.best_prices[1][good];
            if 0 <= bp_buy.price && bp_buy.price <= PRICE_CAP && 0 <= bp_sell.price
                && bp_sell.price <= PRICE_CAP {
                let profit: i64 = bp_sell.price - bp_buy.price;
                if profit > best_profit {
                    best_good = good;
                    best_profit = profit;
                }
            }
            good = good + 1;
        }
        if best_good >= 1 {
            self.open_transaction_for(best_good);
        }
    }

    /// Commit the highest-priority pending transaction, when the cash
    /// holding can cover its buy side; on failure the pair is kept with a
    /// dead deadline so the next sweep prunes it instead of retrying.
    fn dropship(&mut self, out: &mut Vec<Vec<i64>>)
        requires
            old(self).wf(),
            old(self).transactions@.len() > 0,
            forall|i: int|
                0 <= i < old(self).transactions@.len() ==> (#[trigger] old(self).transactions@[i]).deadline >= 1,
        ensures
            final(self).wf(),
            spec_commit_shape(
                old(self).goods@,
                old(self).transactions@,
                final(self).transactions@,
            ),
            exists|ti: int|
                #![trigger old(self).transactions@[ti]]
                0 <= ti < old(self).transactions@.len() && (forall|i: int|
                    0 <= i < old(self).transactions@.len() ==> !spec_priority_gt(
                        (#[trigger] old(self).transactions@[i]).priority_spread as int,
                        old(self).transactions@[i].deadline as int,
                        old(self).transactions@[ti].priority_spread as int,
                        old(self).transactions@[ti].deadline as int,
                    )) && ((old(self).transactions@[ti].lock_buy.price as int) * (old(self).transactions@[ti].quantity as int) > old(self).goods@[0].quantity
                    ==> *final(self) == *old(self) && final(out)@ == old(out)@),
    {
        let ghost pre = *old(self);
        let ti: usize = self.best_transaction_index();
        proof {
            assert(Self::txn_ok(self.transactions@[ti as int]));
            let price: int = self.transactions@[ti as int].lock_buy.price as int;
            let qty: int = self.transactions@[ti as int].quantity as int;
            assert(0 <= price * qty <= (PRICE_CAP as int) * 10_000) by (nonlinear_arith)
                requires
                    0 <= price <= PRICE_CAP as int,
                    0 < qty <= 10_000,
            ;
        }
        let cost_buy: i64 = self.transactions[ti].lock_buy.price * self.transactions[ti].quantity;
        if self.goods[0].get_qty() >= cost_buy {
            let t: Transaction = self.transactions.remove(ti);
            proof {
                assert(self.transactions@ =~= pre.transactions@.take(ti as int).add(
                    pre.transactions@.skip(ti as int + 1),
                ));
            }
            let kidx: usize = get_index_by_goodkind(&t.good_kind);
            let lb_market: usize = t.lock_buy.market;
            let lb_price: i64 = t.lock_buy.price;
            let ls_market: usize = t.lock_sell.market;
            let ls_price: i64 = t.lock_sell.price;
            let quantity: i64 = t.quantity;
            let spread: i64 = t.priority_spread;
            let good_kind: GoodKind = t.good_kind;
            let lb_token: Option<Token> = t.lock_buy.token;
            let ls_token: Option<Token> = t.lock_sell.token;
            let ok_buy: bool = match lb_token {
                Some(tok) => self.buy(tok, lb_market, out),
                None => false,
            };
            let ok_sell: bool = if ok_buy {
                match ls_token {
                    Some(tok) => self.sell(tok, ls_market, kidx, out),
                    None => false,
                }
            } else {
                false
            };
            if !(ok_buy && ok_sell) {
                let ghost before = self.transactions@;
                self.transactions.push(
                    Transaction {
                        lock_buy: Lock { token: None, market: lb_market, price: lb_price },
                        lock_sell: Lock { token: None, market: ls_market, price: ls_price },
                        good_kind,
                        quantity,
                        deadline: 0,
                        priority_spread: spread,
                    },
                );
                proof {
                    assert forall|i: int|
                        0 <= i < self.transactions@.len() implies Self::txn_ok(
                        #[trigger] self.transactions@[i],
                    ) by {
                        if i < before.len() {
                            assert(self.transactions@[i] == before[i]);
                        }
                    }
                }
            }
        }
        proof {
            let tii = ti as int;
            let t0 = pre.transactions@[tii];
            let cost = (t0.lock_buy.price as int) * (t0.quantity as int);
            let rest = pre.transactions@.take(tii).add(pre.transactions@.skip(tii + 1));
            assert(0 <= tii < pre.transactions@.len() && (forall|i: int|
                0 <= i < pre.transactions@.len() ==> !spec_priority_gt(
                    (#[trigger] pre.transactions@[i]).priority_spread as int,
                    pre.transactions@[i].deadline as int,
                    pre.transactions@[tii].priority_spread as int,
                    pre.transactions@[tii].deadline as int,
                )));
            if cost > pre.goods@[0].quantity {
                assert(self.transactions@ == pre.transactions@);
                assert(*self == pre);
            } else {
                assert(self.transactions@ == rest || self.transactions@ == rest.push(
                    Transaction {
                        lock_buy: Lock {
                            token: None,
                            market: t0.lock_buy.market,
                            price: t0.lock_buy.price,
                        },
                        lock_sell: Lock {
                            token: None,
                            market: t0.lock_sell.market,
                            price: t0.lock_sell.price,
                        },
                        good_kind: t0.good_kind,
                        quantity: t0.quantity,
                        deadline: 0,
                        priority_spread: t0.priority_spread,
                    },
                ));
            }
            assert(spec_commit_shape(pre.goods@, pre.transactions@, self.transactions@));
        }
    }

    /// One cycle of the dropshipping loop: refresh the quote cache; then,
    /// steered by a uniform draw against how full the transaction window
    /// is, either commit the highest-priority pending transaction or open
    /// new ones; refresh the spreads; age the deadlines; and report
    /// bankruptcy exactly when the remaining inventory value is gone.
    pub fn trade_tick(&mut self, out: &mut Vec<Vec<i64>>) -> (bankrupt: bool)
        requires
            old(self).wf(),
            forall|i: int|
                0 <= i < old(self).transactions@.len() ==> (#[trigger] old(self).transactions@[i]).deadline >= 1,
        ensures
            final(self).wf(),
            forall|i: int|
                0 <= i < final(self).transactions@.len() ==> (#[trigger] final(self).transactions@[i]).deadline >= 1,
            bankrupt == (spec_convert_to_eur(final(self).goods@[0]) + spec_convert_to_eur(
                final(self).goods@[1],
            ) + spec_convert_to_eur(final(self).goods@[2]) + spec_convert_to_eur(
                final(self).goods@[3],
            ) <= 0),
            exists|mid: Seq<Transaction>|
                #![trigger spec_age_transactions(spec_respread(mid))]
                final(self).transactions@ == spec_age_transactions(spec_respread(mid)) && (
                spec_commit_shape(old(self).goods@, old(self).transactions@, mid)
                    || spec_open_shape(old(self).transactions@, mid)),
    {
        if self.days >= 5 {
            let mut w: usize = 0;
            while w < 5
                invariant
                    self.wf(),
                    w <= 5,
                    self.transactions@ == old(self).transactions@,
                    self.goods@ == old(self).goods@,
                decreases 5 - w,
            {
                self.wait_one_day();
                w = w + 1;
            }
            self.days = 0;
        }
        self.update_best_prices();
        proof {
            assert forall|i: int|
                0 <= i < self.transactions@.len() implies (#[trigger] self.transactions@[i]).deadline
                >= 1 by {
                assert(self.transactions@[i] == old(self).transactions@[i]);
            }
        }
        let n: usize = self.transactions.len();
        let draw: i64 = outside::rand_in_range(0, BUFFER_SIZE);
        if n < 100_000 && draw < (n as i64) {
            self.dropship(out);
        } else {
            self.lock_profits();
        }
        let ghost mid = self.transactions@;
        proof {
            assert(spec_commit_shape(old(self).goods@, old(self).transactions@, mid)
                || spec_open_shape(old(self).transactions@, mid));
        }
        self.update_priorities();
        self.update_deadlines();
        proof {
            assert(self.transactions@ == spec_age_transactions(spec_respread(mid)));
        }
        let budget: i64 = self.get_budget();
        budget <= 0
    }
}

} // verus!
