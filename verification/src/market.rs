//! The ZSE exchange: an inventory of goods, buy/sell price vectors, and the
//! token-based reservation protocol with bounded, time-limited lock tables.
//!
//! The state is modelled directly. `wf` is the exchange invariant — stated
//! over the field values, so that an operation touching one field leaves the
//! other clauses untouched — and each operation's contract pins down the
//! error returned on each input and the exact state change on success.

use vstd::prelude::*;
use crate::goods::{
    Good, GoodKind, MAX_UNITS, get_index_by_goodkind, rate_of_index, spec_kind_index,
    spec_kind_of_index, spec_rate_of_index, convert_to_eur, spec_convert_to_eur,
};
use crate::errors::{BuyError, LockBuyError, LockSellError, MarketGetterError, SellError};
use crate::token::Token;
use crate::outside;

verus! {

/// Lock slots per (kind, direction).
pub const MAXLOCK: usize = 3;

/// Ticks a reservation may age before it is reclaimed.
pub const MAXTIME: i64 = 15;

/// Largest unit price a price vector may hold.
pub const MAX_RATE: i64 = 1_000_000;

/// Initial capital of a randomly initialised exchange, in cash units.
pub const STARTING_CAPITAL: i64 = 100_000;

/// Holdings below this are scarce and attract internal rebalancing.
pub const LOW_WATER: i64 = 14_000;

/// Units moved by one internal rebalancing pass.
pub const CONV_CHUNK: i64 = 10_000;

/// Events that must pass between two rebalancings of the same pair.
pub const CONV_COOLDOWN: i64 = 100;

/// What a trade event reports.
#[derive(Clone, Copy, Debug, PartialEq, Eq, Structural)]
pub enum EventKind {
    Bought,
    Sold,
    LockedBuy,
    LockedSell,
    Wait,
}

/// A trade notification, applied locally first and then rebroadcast to
/// subscribed peer exchanges.
#[derive(Clone, Copy, Debug, PartialEq, Eq, Structural)]
pub struct Event {
    pub kind: EventKind,
    pub good_kind: GoodKind,
    pub quantity: i64,
    pub price: i64,
}

impl Event {
    /// Events carried between exchanges never report negative amounts.
    pub open spec fn valid(self) -> bool {
        0 <= self.quantity && 0 <= self.price
    }
}

/// One lock slot. A free slot has `occupied == false`; its other fields are
/// then meaningless.
#[derive(Clone, Copy, Debug)]
pub struct Contract {
    pub occupied: bool,
    pub token_id: usize,
    pub quantity: i64,
    pub price: i64,
    pub age: i64,
}

impl Contract {
    pub fn empty() -> (c: Contract)
        ensures
            c == (Contract { occupied: false, token_id: 0, quantity: 0, price: 0, age: 0 }),
    {
        Contract { occupied: false, token_id: 0, quantity: 0, price: 0, age: 0 }
    }
}

/// A fixed-capacity row of lock slots for one (kind, direction), plus the
/// count of occupied slots.
#[derive(Clone, Debug)]
pub struct LockRow {
    pub slots: Vec<Contract>,
    pub count: usize,
}

impl LockRow {
    pub fn new() -> (r: LockRow)
        ensures
            r.slots@.len() == MAXLOCK,
            forall|j: int| 0 <= j < MAXLOCK ==> !(#[trigger] r.slots@[j]).occupied,
            r.count == 0,
    {
        let slots: Vec<Contract> = vec![Contract::empty(), Contract::empty(), Contract::empty()];
        LockRow { slots, count: 0 }
    }
}

// ---------------------------------------------------------------------------
// Row sums and their lemmas.
// ---------------------------------------------------------------------------

/// Occupied slots in a row.
pub open spec fn occupied_count(s: Seq<Contract>) -> int
    decreases s.len(),
{
    if s.len() == 0 {
        0
    } else {
        occupied_count(s.drop_last()) + occ_contrib(s.last())
    }
}

/// Total quantity reserved by the occupied slots of a row.
pub open spec fn qty_sum(s: Seq<Contract>) -> int
    decreases s.len(),
{
    if s.len() == 0 {
        0
    } else {
        qty_sum(s.drop_last()) + qty_contrib(s.last())
    }
}

/// Total payout promised by the occupied slots of a row.
pub open spec fn price_sum(s: Seq<Contract>) -> int
    decreases s.len(),
{
    if s.len() == 0 {
        0
    } else {
        price_sum(s.drop_last()) + price_contrib(s.last())
    }
}

pub open spec fn occ_contrib(c: Contract) -> int {
    if c.occupied {
        1
    } else {
        0
    }
}

pub open spec fn qty_contrib(c: Contract) -> int {
    if c.occupied {
        c.quantity as int
    } else {
        0
    }
}

pub open spec fn price_contrib(c: Contract) -> int {
    if c.occupied {
        c.price as int
    } else {
        0
    }
}

/// A row with no occupied slot reserves nothing.
pub proof fn lemma_sum_all_free(s: Seq<Contract>)
    requires
        forall|j: int| 0 <= j < s.len() ==> !(#[trigger] s[j]).occupied,
    ensures
        occupied_count(s) == 0,
        qty_sum(s) == 0,
        price_sum(s) == 0,
    decreases s.len(),
{
    if s.len() > 0 {
        assert(!s[s.len() - 1].occupied);
        lemma_sum_all_free(s.drop_last());
    }
}

/// Replacing one slot shifts each row sum by the difference of the
/// contributions.
pub proof fn lemma_sum_update(s: Seq<Contract>, j: int, c: Contract)
    requires
        0 <= j < s.len(),
    ensures
        occupied_count(s.update(j, c)) == occupied_count(s) - occ_contrib(s[j]) + occ_contrib(c),
        qty_sum(s.update(j, c)) == qty_sum(s) - qty_contrib(s[j]) + qty_contrib(c),
        price_sum(s.update(j, c)) == price_sum(s) - price_contrib(s[j]) + price_contrib(c),
    decreases s.len(),
{
    let t = s.update(j, c);
    if j == s.len() - 1 {
        assert(t.drop_last() =~= s.drop_last());
        assert(t.last() == c);
    } else {
        assert(t.drop_last() =~= s.drop_last().update(j, c));
        assert(t.last() == s.last());
        lemma_sum_update(s.drop_last(), j, c);
    }
}

/// Row sums are bounded by the slots they add up.
pub proof fn lemma_sum_bounds(s: Seq<Contract>)
    ensures
        0 <= occupied_count(s) <= s.len(),
        (forall|j: int| 0 <= j < s.len() && (#[trigger] s[j]).occupied ==> s[j].quantity >= 0)
            ==> qty_sum(s) >= 0,
        (forall|j: int| 0 <= j < s.len() && (#[trigger] s[j]).occupied ==> s[j].price >= 0)
            ==> price_sum(s) >= 0,
    decreases s.len(),
{
    if s.len() > 0 {
        lemma_sum_bounds(s.drop_last());
        assert(forall|j: int| 0 <= j < s.len() - 1 ==> s.drop_last()[j] == s[j]);
        assert(s[s.len() - 1] == s.last());
    }
}

/// One occupied slot contributes no more than the whole (non-negative) sum.
pub proof fn lemma_element_le_sums(s: Seq<Contract>, j: int)
    requires
        0 <= j < s.len(),
        s[j].occupied,
        forall|i: int|
            0 <= i < s.len() && (#[trigger] s[i]).occupied ==> s[i].quantity >= 0 && s[i].price
                >= 0,
    ensures
        s[j].quantity <= qty_sum(s),
        s[j].price <= price_sum(s),
        1 <= occupied_count(s),
    decreases s.len(),
{
    assert(forall|i: int| 0 <= i < s.len() - 1 ==> s.drop_last()[i] == s[i]);
    if j == s.len() - 1 {
        lemma_sum_bounds(s.drop_last());
    } else {
        lemma_element_le_sums(s.drop_last(), j);
        lemma_sum_bounds(s.drop_last());
    }
}

/// A row whose occupied count is below its capacity has a free slot.
pub proof fn lemma_count_has_free(s: Seq<Contract>)
    requires
        occupied_count(s) < s.len(),
    ensures
        exists|j: int| 0 <= j < s.len() && !(#[trigger] s[j]).occupied,
    decreases s.len(),
{
    lemma_sum_bounds(s.drop_last());
    if s.last().occupied {
        lemma_count_has_free(s.drop_last());
        let j = choose|j: int|
            0 <= j < s.drop_last().len() && !(#[trigger] s.drop_last()[j]).occupied;
        assert(!s[j].occupied);
    } else {
        assert(!s[s.len() - 1].occupied);
    }
}

/// In a well-formed exchange every row sum is non-negative.
pub proof fn lemma_wf_sums_nonneg(m: ZSE)
    requires
        m.wf(),
    ensures
        forall|k: int| 0 <= k < 4 ==> 0 <= #[trigger] qty_sum(m.buy_row(k)),
        forall|k: int| 0 <= k < 4 ==> 0 <= #[trigger] price_sum(m.sell_row(k)),
        0 <= sell_reserved_of(m.lock_sell@),
{
    assert forall|k: int| 0 <= k < 4 implies 0 <= #[trigger] qty_sum(m.buy_row(k)) by {
        assert forall|b: int|
            0 <= b < m.buy_row(k).len() && (#[trigger] m.buy_row(k)[b]).occupied implies m.buy_row(
            k,
        )[b].quantity >= 0 by {
            assert(slot_sane(m.lock_buy@[k].slots@[b], m.tokens_buy@, true));
        }
        lemma_sum_bounds(m.buy_row(k));
    }
    assert forall|k: int| 0 <= k < 4 implies 0 <= #[trigger] price_sum(m.sell_row(k)) by {
        assert forall|b: int|
            0 <= b < m.sell_row(k).len() && (#[trigger] m.sell_row(k)[b]).occupied implies
            m.sell_row(k)[b].price >= 0 by {
            assert(slot_sane(m.lock_sell@[k].slots@[b], m.tokens_sell@, false));
        }
        lemma_sum_bounds(m.sell_row(k));
    }
    assert(price_sum(m.sell_row(0)) >= 0);
    assert(price_sum(m.sell_row(1)) >= 0);
    assert(price_sum(m.sell_row(2)) >= 0);
    assert(price_sum(m.sell_row(3)) >= 0);
}

// ---------------------------------------------------------------------------
// Invariant clauses, stated over field values.
// ---------------------------------------------------------------------------

/// One holding per kind, each in range and keyed by its table index.
pub open spec fn goods_wf(g: Seq<Good>) -> bool {
    &&& g.len() == 4
    &&& forall|k: int|
        0 <= k < 4 ==> (#[trigger] g[k]).valid() && g[k].kind == spec_kind_of_index(k)
}

/// A price vector: one positive bounded unit price per kind.
pub open spec fn prices_wf(p: Seq<i64>) -> bool {
    &&& p.len() == 4
    &&& forall|k: int| 0 <= k < 4 ==> 1 <= #[trigger] p[k] <= MAX_RATE
}

/// One lock row per kind, rows at capacity `MAXLOCK`, counts accurate.
pub open spec fn rows_shape(t: Seq<LockRow>) -> bool {
    &&& t.len() == 4
    &&& forall|k: int|
        0 <= k < 4 ==> (#[trigger] t[k]).slots@.len() == MAXLOCK && t[k].count == occupied_count(
            t[k].slots@,
        )
}

/// An occupied slot reserves a sane amount, has not outlived `MAXTIME`, and
/// points at an issued, still-valid token. Buy slots cap the reserved
/// quantity; sell slots cap the promised payout.
pub open spec fn slot_sane(c: Contract, tokens: Seq<bool>, is_buy: bool) -> bool {
    c.occupied ==> {
        &&& 0 < c.quantity
        &&& (is_buy ==> c.quantity <= MAX_UNITS)
        &&& 0 < c.price
        &&& (!is_buy ==> c.price <= MAX_UNITS)
        &&& 0 <= c.age < MAXTIME
        &&& c.token_id < tokens.len()
        &&& tokens[c.token_id as int]
    }
}

pub open spec fn slots_wf(t: Seq<LockRow>, tokens: Seq<bool>, is_buy: bool) -> bool {
    forall|k: int, j: int|
        0 <= k < t.len() && 0 <= j < t[k].slots@.len() ==> slot_sane(
            #[trigger] t[k].slots@[j],
            tokens,
            is_buy,
        )
}

/// No two occupied slots of one direction share a token.
pub open spec fn ids_distinct(t: Seq<LockRow>) -> bool {
    forall|k1: int, j1: int, k2: int, j2: int|
        0 <= k1 < t.len() && 0 <= j1 < t[k1].slots@.len() && 0 <= k2 < t.len() && 0 <= j2
            < t[k2].slots@.len() && !(k1 == k2 && j1 == j2) && (#[trigger] t[k1].slots@[j1]).occupied
            && (#[trigger] t[k2].slots@[j2]).occupied ==> t[k1].slots@[j1].token_id
            != t[k2].slots@[j2].token_id
}

/// Some occupied slot of the table carries token `id`.
pub open spec fn has_slot(t: Seq<LockRow>, id: int) -> bool {
    exists|k: int, j: int|
        0 <= k < t.len() && 0 <= j < t[k].slots@.len() && (#[trigger] t[k].slots@[j]).occupied
            && t[k].slots@[j].token_id == id
}

/// Every still-valid token has a slot backing it.
pub open spec fn tokens_covered(t: Seq<LockRow>, tokens: Seq<bool>) -> bool {
    forall|id: int| 0 <= id < tokens.len() && #[trigger] tokens[id] ==> has_slot(t, id)
}

/// Cash reserved for outstanding sell locks (their promised payouts).
pub open spec fn sell_reserved_of(t: Seq<LockRow>) -> int {
    price_sum(t[0].slots@) + price_sum(t[1].slots@) + price_sum(t[2].slots@) + price_sum(
        t[3].slots@,
    )
}

/// The reservation ledger: `locked[k]` is exactly what the buy locks of kind
/// `k` reserve — plus, for the cash kind, what the sell locks promise — and
/// never exceeds the holding.
pub open spec fn locked_wf(locked: Seq<i64>, buyt: Seq<LockRow>, sellt: Seq<LockRow>, g: Seq<Good>) -> bool {
    &&& locked.len() == 4
    &&& forall|k: int| 1 <= k < 4 ==> #[trigger] locked[k] == qty_sum(buyt[k].slots@)
    &&& locked[0] == qty_sum(buyt[0].slots@) + sell_reserved_of(sellt)
    &&& forall|k: int| 0 <= k < 4 ==> 0 <= #[trigger] locked[k] <= g[k].quantity
}

/// The 4x4 rebalancing cooldown matrix, row-major.
pub open spec fn timer_wf(t: Seq<i64>) -> bool {
    &&& t.len() == 16
    &&& forall|i: int| 0 <= i < 16 ==> 0 <= #[trigger] t[i] <= CONV_COOLDOWN
}

pub open spec fn outbox_wf(o: Seq<Event>) -> bool {
    forall|i: int| 0 <= i < o.len() ==> (#[trigger] o[i]).valid()
}

/// First free slot of a row known not to be full.
fn find_free_slot(row: &LockRow) -> (j: usize)
    requires
        row.slots@.len() == MAXLOCK,
        occupied_count(row.slots@) < MAXLOCK,
    ensures
        j < MAXLOCK,
        !row.slots@[j as int].occupied,
        forall|jj: int| 0 <= jj < j ==> (#[trigger] row.slots@[jj]).occupied,
{
    let mut j: usize = 0;
    while j < MAXLOCK
        invariant
            j <= MAXLOCK,
            row.slots@.len() == MAXLOCK,
            occupied_count(row.slots@) < MAXLOCK,
            forall|jj: int| 0 <= jj < j ==> (#[trigger] row.slots@[jj]).occupied,
        decreases MAXLOCK - j,
    {
        if !row.slots[j].occupied {
            return j;
        }
        j = j + 1;
    }
    proof {
        lemma_count_has_free(row.slots@);
        assert(false);
    }
    0
}

/// Force a unit price into the legal band.
fn clamp_rate(p: i64) -> (r: i64)
    ensures
        r as int == spec_clamp_rate(p as int),
        1 <= r <= MAX_RATE,
{
    if p < 1 {
        1
    } else if p > MAX_RATE {
        MAX_RATE
    } else {
        p
    }
}

/// Does any occupied slot of the table carry token `id`?
fn table_has_token(t: &Vec<LockRow>, id: usize) -> (found: bool)
    requires
        t@.len() == 4,
        forall|a: int| 0 <= a < 4 ==> (#[trigger] t@[a]).slots@.len() == MAXLOCK,
    ensures
        found == has_slot(t@, id as int),
{
    let mut k: usize = 0;
    while k < 4
        invariant
            t@.len() == 4,
            forall|a: int| 0 <= a < 4 ==> (#[trigger] t@[a]).slots@.len() == MAXLOCK,
            k <= 4,
            forall|a: int, b: int|
                0 <= a < k && 0 <= b < MAXLOCK ==> !((#[trigger] t@[a].slots@[b]).occupied
                    && t@[a].slots@[b].token_id == id),
        decreases 4 - k,
    {
        let mut j: usize = 0;
        while j < MAXLOCK
            invariant
                t@.len() == 4,
                forall|a: int| 0 <= a < 4 ==> (#[trigger] t@[a]).slots@.len() == MAXLOCK,
                k < 4,
                j <= MAXLOCK,
                forall|a: int, b: int|
                    0 <= a < k && 0 <= b < MAXLOCK ==> !((#[trigger] t@[a].slots@[b]).occupied
                        && t@[a].slots@[b].token_id == id),
                forall|b: int|
                    0 <= b < j ==> !((#[trigger] t@[k as int].slots@[b]).occupied && t@[k
                        as int].slots@[b].token_id == id),
            decreases MAXLOCK - j,
        {
            let occupied: bool = t[k].slots[j].occupied;
            let tid: usize = t[k].slots[j].token_id;
            if occupied && tid == id {
                proof {
                    assert(t@[k as int].slots@[j as int].occupied && t@[k as int].slots@[j
                        as int].token_id == id);
                }
                return true;
            }
            j = j + 1;
        }
        k = k + 1;
    }
    proof {
        if has_slot(t@, id as int) {
            let (a, b) = choose|a: int, b: int|
                0 <= a < t@.len() && 0 <= b < t@[a].slots@.len() && (#[trigger] t@[a].slots@[b]).occupied
                    && t@[a].slots@[b].token_id == id as int;
            assert(!(t@[a].slots@[b].occupied && t@[a].slots@[b].token_id == id));
            assert(false);
        }
    }
    false
}

/// Inserting a fresh contract into a free slot keeps a lock table well
/// formed and grows its row sums by the contract's contributions.
pub proof fn lemma_table_insert(
    t: Seq<LockRow>,
    t2: Seq<LockRow>,
    tokens: Seq<bool>,
    tokens2: Seq<bool>,
    k: int,
    j: int,
    c: Contract,
    is_buy: bool,
)
    requires
        rows_shape(t),
        slots_wf(t, tokens, is_buy),
        ids_distinct(t),
        tokens_covered(t, tokens),
        0 <= k < 4,
        0 <= j < MAXLOCK,
        !t[k].slots@[j].occupied,
        c.occupied,
        c.token_id == tokens.len(),
        0 < c.quantity,
        is_buy ==> c.quantity <= MAX_UNITS,
        0 < c.price,
        !is_buy ==> c.price <= MAX_UNITS,
        c.age == 0,
        tokens2 == tokens.push(true),
        t2.len() == 4,
        t2[k].slots@ == t[k].slots@.update(j, c),
        t2[k].count == t[k].count + 1,
        forall|i: int| 0 <= i < 4 && i != k ==> #[trigger] t2[i] == t[i],
    ensures
        rows_shape(t2),
        slots_wf(t2, tokens2, is_buy),
        ids_distinct(t2),
        tokens_covered(t2, tokens2),
        qty_sum(t2[k].slots@) == qty_sum(t[k].slots@) + c.quantity,
        price_sum(t2[k].slots@) == price_sum(t[k].slots@) + c.price,
        occupied_count(t2[k].slots@) == occupied_count(t[k].slots@) + 1,
{
    lemma_sum_update(t[k].slots@, j, c);
    assert forall|i: int| 0 <= i < 4 implies (#[trigger] t2[i]).slots@.len() == MAXLOCK
        && t2[i].count == occupied_count(t2[i].slots@) by {
        if i != k {
            assert(t2[i] == t[i]);
        }
    }
    assert forall|k1: int, j1: int|
        0 <= k1 < t2.len() && 0 <= j1 < t2[k1].slots@.len() implies slot_sane(
        #[trigger] t2[k1].slots@[j1],
        tokens2,
        is_buy,
    ) by {
        if k1 == k && j1 == j {
            assert(t2[k1].slots@[j1] == c);
        } else {
            if k1 != k {
                assert(t2[k1] == t[k1]);
            }
            assert(t2[k1].slots@[j1] == t[k1].slots@[j1]);
            assert(slot_sane(t[k1].slots@[j1], tokens, is_buy));
            if t[k1].slots@[j1].occupied {
                assert(t[k1].slots@[j1].token_id < tokens.len());
                assert(tokens2[t[k1].slots@[j1].token_id as int] == tokens[t[k1].slots@[j1].token_id
                    as int]);
            }
        }
    }
    assert forall|k1: int, j1: int, k2: int, j2: int|
        0 <= k1 < t2.len() && 0 <= j1 < t2[k1].slots@.len() && 0 <= k2 < t2.len() && 0 <= j2
            < t2[k2].slots@.len() && !(k1 == k2 && j1 == j2) && (#[trigger] t2[k1].slots@[j1]).occupied
            && (#[trigger] t2[k2].slots@[j2]).occupied implies t2[k1].slots@[j1].token_id
        != t2[k2].slots@[j2].token_id by {
        if k1 != k {
            assert(t2[k1] == t[k1]);
        }
        if k2 != k {
            assert(t2[k2] == t[k2]);
        }
        if k1 == k && j1 == j {
            assert(t2[k1].slots@[j1] == c);
            assert(t2[k2].slots@[j2] == t[k2].slots@[j2]);
            assert(slot_sane(t[k2].slots@[j2], tokens, is_buy));
        } else if k2 == k && j2 == j {
            assert(t2[k2].slots@[j2] == c);
            assert(t2[k1].slots@[j1] == t[k1].slots@[j1]);
            assert(slot_sane(t[k1].slots@[j1], tokens, is_buy));
        } else {
            assert(t2[k1].slots@[j1] == t[k1].slots@[j1]);
            assert(t2[k2].slots@[j2] == t[k2].slots@[j2]);
        }
    }
    assert forall|id: int| 0 <= id < tokens2.len() && #[trigger] tokens2[id] implies has_slot(
        t2,
        id,
    ) by {
        if id == tokens.len() {
            assert(t2[k].slots@[j] == c);
            assert(0 <= k < t2.len() && 0 <= j < t2[k].slots@.len() && t2[k].slots@[j].occupied
                && t2[k].slots@[j].token_id == id);
        } else {
            assert(tokens[id]);
            assert(has_slot(t, id));
            let (k1, j1) = choose|k1: int, j1: int|
                0 <= k1 < t.len() && 0 <= j1 < t[k1].slots@.len() && (#[trigger] t[k1].slots@[j1]).occupied
                    && t[k1].slots@[j1].token_id == id;
            if k1 == k && j1 == j {
                assert(false);
            }
            if k1 != k {
                assert(t2[k1] == t[k1]);
            }
            assert(t2[k1].slots@[j1] == t[k1].slots@[j1]);
            assert(0 <= k1 < t2.len() && 0 <= j1 < t2[k1].slots@.len() && t2[k1].slots@[j1].occupied
                && t2[k1].slots@[j1].token_id == id);
        }
    }
}

/// A lock insertion (described field by field) preserves the exchange
/// invariant.
pub proof fn lemma_lock_insert_wf(pre: ZSE, post: ZSE, k: int, j: int, c: Contract, is_buy: bool)
    requires
        pre.wf(),
        0 <= k < 4,
        0 <= j < MAXLOCK,
        c.occupied,
        c.age == 0,
        0 < c.quantity,
        0 < c.price,
        post.goods@ == pre.goods@,
        post.prices_buy@ == pre.prices_buy@,
        post.prices_sell@ == pre.prices_sell@,
        post.conversion_timer@ == pre.conversion_timer@,
        outbox_wf(post.outbox@),
        post.codes_buy@.len() == post.tokens_buy@.len(),
        post.codes_sell@.len() == post.tokens_sell@.len(),
        is_buy ==> {
            &&& c.token_id == pre.tokens_buy@.len()
            &&& c.quantity <= MAX_UNITS
            &&& pre.goods_qty(k) - pre.locked(k) >= c.quantity
            &&& !pre.buy_row(k)[j].occupied
            &&& post.tokens_buy@ == pre.tokens_buy@.push(true)
            &&& post.tokens_sell@ == pre.tokens_sell@
            &&& post.lock_sell@ == pre.lock_sell@
            &&& post.lock_buy@.len() == 4
            &&& post.buy_row(k) == pre.buy_row(k).update(j, c)
            &&& post.buy_count(k) == pre.buy_count(k) + 1
            &&& forall|i: int| 0 <= i < 4 && i != k ==> #[trigger] post.lock_buy@[i] == pre.lock_buy@[i]
            &&& post.locked_qty@ == pre.locked_qty@.update(k, (pre.locked(k) + c.quantity) as i64)
        },
        !is_buy ==> {
            &&& c.token_id == pre.tokens_sell@.len()
            &&& c.price <= MAX_UNITS
            &&& pre.goods_qty(0) - pre.locked(0) >= c.price
            &&& !pre.sell_row(k)[j].occupied
            &&& post.tokens_sell@ == pre.tokens_sell@.push(true)
            &&& post.tokens_buy@ == pre.tokens_buy@
            &&& post.lock_buy@ == pre.lock_buy@
            &&& post.lock_sell@.len() == 4
            &&& post.sell_row(k) == pre.sell_row(k).update(j, c)
            &&& post.sell_count(k) == pre.sell_count(k) + 1
            &&& forall|i: int| 0 <= i < 4 && i != k ==> #[trigger] post.lock_sell@[i] == pre.lock_sell@[i]
            &&& post.locked_qty@ == pre.locked_qty@.update(0, (pre.locked(0) + c.price) as i64)
        },
    ensures
        post.wf(),
{
    if is_buy {
        lemma_table_insert(
            pre.lock_buy@,
            post.lock_buy@,
            pre.tokens_buy@,
            post.tokens_buy@,
            k,
            j,
            c,
            true,
        );
        assert forall|k1: int| 1 <= k1 < 4 implies #[trigger] post.locked_qty@[k1] == qty_sum(
            post.lock_buy@[k1].slots@,
        ) by {
            if k1 == k {
                assert(pre.locked_qty@[k1] == qty_sum(pre.lock_buy@[k1].slots@));
            } else {
                assert(post.lock_buy@[k1] == pre.lock_buy@[k1]);
                assert(pre.locked_qty@[k1] == qty_sum(pre.lock_buy@[k1].slots@));
            }
        }
        if k != 0 {
            assert(post.lock_buy@[0] == pre.lock_buy@[0]);
        }
        assert(post.locked_qty@[0] == qty_sum(post.lock_buy@[0].slots@) + sell_reserved_of(
            post.lock_sell@,
        ));
        assert forall|k1: int| 0 <= k1 < 4 implies 0 <= #[trigger] post.locked_qty@[k1]
            <= post.goods@[k1].quantity by {
            assert(0 <= pre.locked_qty@[k1] <= pre.goods@[k1].quantity);
        }
    } else {
        lemma_table_insert(
            pre.lock_sell@,
            post.lock_sell@,
            pre.tokens_sell@,
            post.tokens_sell@,
            k,
            j,
            c,
            false,
        );
        assert forall|k1: int| 1 <= k1 < 4 implies #[trigger] post.locked_qty@[k1] == qty_sum(
            post.lock_buy@[k1].slots@,
        ) by {
            assert(pre.locked_qty@[k1] == qty_sum(pre.lock_buy@[k1].slots@));
        }
        assert(sell_reserved_of(post.lock_sell@) == sell_reserved_of(pre.lock_sell@) + c.price) by {
            assert forall|i: int| 0 <= i < 4 && i != k implies #[trigger] post.lock_sell@[i]
                == pre.lock_sell@[i] by {}
        }
        assert(post.locked_qty@[0] == qty_sum(post.lock_buy@[0].slots@) + sell_reserved_of(
            post.lock_sell@,
        ));
        assert forall|k1: int| 0 <= k1 < 4 implies 0 <= #[trigger] post.locked_qty@[k1]
            <= post.goods@[k1].quantity by {
            assert(0 <= pre.locked_qty@[k1] <= pre.goods@[k1].quantity);
        }
    }
}

/// Clearing one occupied slot and invalidating its token keeps a lock table
/// well formed and shrinks the row sums by the contract's contributions.
pub proof fn lemma_table_remove(
    t: Seq<LockRow>,
    t2: Seq<LockRow>,
    tokens: Seq<bool>,
    tokens2: Seq<bool>,
    k: int,
    j: int,
    is_buy: bool,
)
    requires
        rows_shape(t),
        slots_wf(t, tokens, is_buy),
        ids_distinct(t),
        tokens_covered(t, tokens),
        0 <= k < 4,
        0 <= j < MAXLOCK,
        t[k].slots@[j].occupied,
        tokens2 == tokens.update(t[k].slots@[j].token_id as int, false),
        t2.len() == 4,
        t2[k].slots@ == t[k].slots@.update(
            j,
            Contract { occupied: false, token_id: 0, quantity: 0, price: 0, age: 0 },
        ),
        t2[k].count == t[k].count - 1,
        forall|i: int| 0 <= i < 4 && i != k ==> #[trigger] t2[i] == t[i],
    ensures
        rows_shape(t2),
        slots_wf(t2, tokens2, is_buy),
        ids_distinct(t2),
        tokens_covered(t2, tokens2),
        qty_sum(t2[k].slots@) == qty_sum(t[k].slots@) - t[k].slots@[j].quantity,
        price_sum(t2[k].slots@) == price_sum(t[k].slots@) - t[k].slots@[j].price,
        occupied_count(t2[k].slots@) == occupied_count(t[k].slots@) - 1,
{
    let id = t[k].slots@[j].token_id as int;
    lemma_sum_update(
        t[k].slots@,
        j,
        Contract { occupied: false, token_id: 0, quantity: 0, price: 0, age: 0 },
    );
    assert forall|i: int| 0 <= i < 4 implies (#[trigger] t2[i]).slots@.len() == MAXLOCK
        && t2[i].count == occupied_count(t2[i].slots@) by {
        if i != k {
            assert(t2[i] == t[i]);
        }
    }
    assert forall|k1: int, j1: int|
        0 <= k1 < t2.len() && 0 <= j1 < t2[k1].slots@.len() implies slot_sane(
        #[trigger] t2[k1].slots@[j1],
        tokens2,
        is_buy,
    ) by {
        if k1 == k && j1 == j {
        } else {
            if k1 != k {
                assert(t2[k1] == t[k1]);
            }
            assert(t2[k1].slots@[j1] == t[k1].slots@[j1]);
            assert(slot_sane(t[k1].slots@[j1], tokens, is_buy));
            if t[k1].slots@[j1].occupied {
                assert(t[k1].slots@[j1].token_id != id);
                assert(tokens2[t[k1].slots@[j1].token_id as int] == tokens[t[k1].slots@[j1].token_id
                    as int]);
            }
        }
    }
    assert forall|k1: int, j1: int, k2: int, j2: int|
        0 <= k1 < t2.len() && 0 <= j1 < t2[k1].slots@.len() && 0 <= k2 < t2.len() && 0 <= j2
            < t2[k2].slots@.len() && !(k1 == k2 && j1 == j2) && (#[trigger] t2[k1].slots@[j1]).occupied
            && (#[trigger] t2[k2].slots@[j2]).occupied implies t2[k1].slots@[j1].token_id
        != t2[k2].slots@[j2].token_id by {
        if k1 != k {
            assert(t2[k1] == t[k1]);
        }
        if k2 != k {
            assert(t2[k2] == t[k2]);
        }
        assert(t2[k1].slots@[j1] == t[k1].slots@[j1]);
        assert(t2[k2].slots@[j2] == t[k2].slots@[j2]);
    }
    assert forall|id2: int| 0 <= id2 < tokens2.len() && #[trigger] tokens2[id2] implies has_slot(
        t2,
        id2,
    ) by {
        assert(id2 != id);
        assert(tokens[id2]);
        assert(has_slot(t, id2));
        let (k1, j1) = choose|k1: int, j1: int|
            0 <= k1 < t.len() && 0 <= j1 < t[k1].slots@.len() && (#[trigger] t[k1].slots@[j1]).occupied
                && t[k1].slots@[j1].token_id == id2;
        if k1 == k && j1 == j {
            assert(false);
        }
        if k1 != k {
            assert(t2[k1] == t[k1]);
        }
        assert(t2[k1].slots@[j1] == t[k1].slots@[j1]);
        assert(0 <= k1 < t2.len() && 0 <= j1 < t2[k1].slots@.len() && t2[k1].slots@[j1].occupied
            && t2[k1].slots@[j1].token_id == id2);
    }
}

/// A commit's release step (described field by field, before the price
/// model runs) preserves the exchange invariant.
pub proof fn lemma_commit_release_wf(pre: ZSE, post: ZSE, k: int, j: int, is_buy: bool)
    requires
        pre.wf(),
        0 <= k < 4,
        0 <= j < MAXLOCK,
        post.prices_buy@.len() == 4,
        post.prices_sell@.len() == 4,
        forall|i: int| 0 <= i < 4 ==> 1 <= #[trigger] post.prices_buy@[i] <= MAX_RATE,
        forall|i: int| 0 <= i < 4 ==> 1 <= #[trigger] post.prices_sell@[i] <= MAX_RATE,
        post.conversion_timer@ == pre.conversion_timer@,
        outbox_wf(post.outbox@),
        post.codes_buy@.len() == post.tokens_buy@.len(),
        post.codes_sell@.len() == post.tokens_sell@.len(),
        is_buy ==> {
            let c = pre.buy_row(k)[j];
            &&& c.occupied
            &&& pre.goods_qty(0) + c.price <= MAX_UNITS
            &&& post.goods@ == spec_transfer(pre.goods@, k, -(c.quantity as int), c.price as int)
            &&& post.locked_qty@ == pre.locked_qty@.update(k, (pre.locked(k) - c.quantity) as i64)
            &&& post.tokens_buy@ == pre.tokens_buy@.update(c.token_id as int, false)
            &&& post.tokens_sell@ == pre.tokens_sell@
            &&& post.lock_sell@ == pre.lock_sell@
            &&& post.lock_buy@.len() == 4
            &&& post.buy_row(k) == pre.buy_row(k).update(
                j,
                Contract { occupied: false, token_id: 0, quantity: 0, price: 0, age: 0 },
            )
            &&& post.buy_count(k) == pre.buy_count(k) - 1
            &&& forall|i: int|
                0 <= i < 4 && i != k ==> #[trigger] post.lock_buy@[i] == pre.lock_buy@[i]
        },
        !is_buy ==> {
            let c = pre.sell_row(k)[j];
            &&& c.occupied
            &&& pre.goods_qty(k) + c.quantity <= MAX_UNITS
            &&& post.goods@ == spec_transfer(pre.goods@, k, c.quantity as int, -(c.price as int))
            &&& post.locked_qty@ == pre.locked_qty@.update(0, (pre.locked(0) - c.price) as i64)
            &&& post.tokens_sell@ == pre.tokens_sell@.update(c.token_id as int, false)
            &&& post.tokens_buy@ == pre.tokens_buy@
            &&& post.lock_buy@ == pre.lock_buy@
            &&& post.lock_sell@.len() == 4
            &&& post.sell_row(k) == pre.sell_row(k).update(
                j,
                Contract { occupied: false, token_id: 0, quantity: 0, price: 0, age: 0 },
            )
            &&& post.sell_count(k) == pre.sell_count(k) - 1
            &&& forall|i: int|
                0 <= i < 4 && i != k ==> #[trigger] post.lock_sell@[i] == pre.lock_sell@[i]
        },
    ensures
        post.wf(),
{
    assert(pre.locked_qty@[0] == qty_sum(pre.lock_buy@[0].slots@) + sell_reserved_of(
        pre.lock_sell@,
    ));
    lemma_sum_bounds(pre.lock_buy@[0].slots@);
    lemma_sum_bounds(pre.lock_sell@[0].slots@);
    lemma_sum_bounds(pre.lock_sell@[1].slots@);
    lemma_sum_bounds(pre.lock_sell@[2].slots@);
    lemma_sum_bounds(pre.lock_sell@[3].slots@);
    if is_buy {
        let c = pre.buy_row(k)[j];
        lemma_element_le_sums(pre.buy_row(k), j);
        assert(c.quantity <= qty_sum(pre.buy_row(k)));
        if k == 0 {
            assert(qty_sum(pre.buy_row(0)) <= pre.locked_qty@[0]);
        } else {
            assert(pre.locked_qty@[k] == qty_sum(pre.buy_row(k)));
        }
        assert(c.quantity <= pre.locked_qty@[k]);
        assert(pre.locked_qty@[k] <= pre.goods@[k].quantity);
        lemma_table_remove(
            pre.lock_buy@,
            post.lock_buy@,
            pre.tokens_buy@,
            post.tokens_buy@,
            k,
            j,
            true,
        );
        assert forall|i: int| 0 <= i < 4 implies (#[trigger] post.goods@[i]).valid()
            && post.goods@[i].kind == spec_kind_of_index(i) by {
            assert(pre.goods@[i].valid() && pre.goods@[i].kind == spec_kind_of_index(i));
        }
        assert forall|k1: int| 1 <= k1 < 4 implies #[trigger] post.locked_qty@[k1] == qty_sum(
            post.lock_buy@[k1].slots@,
        ) by {
            assert(pre.locked_qty@[k1] == qty_sum(pre.lock_buy@[k1].slots@));
            if k1 != k {
                assert(post.lock_buy@[k1] == pre.lock_buy@[k1]);
            }
        }
        if k != 0 {
            assert(post.lock_buy@[0] == pre.lock_buy@[0]);
        }
        assert(post.locked_qty@[0] == qty_sum(post.lock_buy@[0].slots@) + sell_reserved_of(
            post.lock_sell@,
        ));
        assert forall|k1: int| 0 <= k1 < 4 implies 0 <= #[trigger] post.locked_qty@[k1]
            <= post.goods@[k1].quantity by {
            assert(0 <= pre.locked_qty@[k1] <= pre.goods@[k1].quantity);
            assert(post.goods@[k1].quantity == pre.goods@[k1].quantity + (if k1 == 0 {
                c.price as int
            } else {
                0int
            }) - (if k1 == k {
                c.quantity as int
            } else {
                0int
            }));
        }
    } else {
        let c = pre.sell_row(k)[j];
        lemma_element_le_sums(pre.sell_row(k), j);
        assert(c.price <= price_sum(pre.sell_row(k)));
        assert(c.price <= sell_reserved_of(pre.lock_sell@));
        assert(c.price <= pre.locked_qty@[0]);
        assert(pre.locked_qty@[0] <= pre.goods@[0].quantity);
        lemma_table_remove(
            pre.lock_sell@,
            post.lock_sell@,
            pre.tokens_sell@,
            post.tokens_sell@,
            k,
            j,
            false,
        );
        assert forall|i: int| 0 <= i < 4 implies (#[trigger] post.goods@[i]).valid()
            && post.goods@[i].kind == spec_kind_of_index(i) by {
            assert(pre.goods@[i].valid() && pre.goods@[i].kind == spec_kind_of_index(i));
        }
        assert forall|k1: int| 1 <= k1 < 4 implies #[trigger] post.locked_qty@[k1] == qty_sum(
            post.lock_buy@[k1].slots@,
        ) by {
            assert(pre.locked_qty@[k1] == qty_sum(pre.lock_buy@[k1].slots@));
        }
        assert(sell_reserved_of(post.lock_sell@) == sell_reserved_of(pre.lock_sell@)
            - c.price) by {
            assert forall|i: int| 0 <= i < 4 && i != k implies #[trigger] post.lock_sell@[i]
                == pre.lock_sell@[i] by {}
        }
        assert(post.locked_qty@[0] == qty_sum(post.lock_buy@[0].slots@) + sell_reserved_of(
            post.lock_sell@,
        ));
        assert forall|k1: int| 0 <= k1 < 4 implies 0 <= #[trigger] post.locked_qty@[k1]
            <= post.goods@[k1].quantity by {
            assert(0 <= pre.locked_qty@[k1] <= pre.goods@[k1].quantity);
            assert(post.goods@[k1].quantity == pre.goods@[k1].quantity - (if k1 == 0 {
                c.price as int
            } else {
                0int
            }) + (if k1 == k {
                c.quantity as int
            } else {
                0int
            }));
        }
    }
}

// ---------------------------------------------------------------------------
// The exchange.
// ---------------------------------------------------------------------------

/// The exchange. One instance owns its inventory, price vectors, lock
/// tables, token registries and peer subscription list.
pub struct ZSE {
    pub goods: Vec<Good>,
    pub prices_buy: Vec<i64>,
    pub prices_sell: Vec<i64>,
    pub lock_buy: Vec<LockRow>,
    pub lock_sell: Vec<LockRow>,
    pub locked_qty: Vec<i64>,
    pub tokens_buy: Vec<bool>,
    pub tokens_sell: Vec<bool>,
    pub codes_buy: Vec<String>,
    pub codes_sell: Vec<String>,
    pub subscribers: Vec<usize>,
    pub outbox: Vec<Event>,
    pub conversion_timer: Vec<i64>,
}

/// A row of the public inventory listing.
#[derive(Clone, Copy, Debug)]
pub struct GoodLabel {
    pub good_kind: GoodKind,
    pub quantity: i64,
    pub exchange_rate_buy: i64,
    pub exchange_rate_sell: i64,
}

/// Quoted price for buying `qty` units from a holding of `avail`: the raw
/// price minus an availability discount that scales with the share of the
/// holding asked for, capped at a tenth.
pub open spec fn spec_buy_quote(rate: int, qty: int, avail: int) -> int {
    if qty <= 0 {
        0
    } else {
        rate * qty - (rate * qty / 100) * ((10 * qty) / avail)
    }
}

/// Quoted payout for selling `qty` units: the raw price plus a markup of a
/// tenth.
pub open spec fn spec_sell_quote(rate: int, qty: int) -> int {
    rate * qty + rate * qty / 10
}

/// The buy quote is never negative and never above the raw price.
pub proof fn lemma_buy_quote_bounds(rate: int, qty: int, avail: int)
    requires
        1 <= rate <= MAX_RATE,
        0 < qty <= avail,
        avail <= MAX_UNITS,
    ensures
        0 <= spec_buy_quote(rate, qty, avail) <= rate * qty,
{
    let raw = rate * qty;
    let share = (10 * qty) / avail;
    assert(0 <= raw) by (nonlinear_arith)
        requires
            raw == rate * qty,
            1 <= rate,
            0 < qty,
    ;
    assert(0 <= share <= 10) by (nonlinear_arith)
        requires
            share == (10 * qty) / avail,
            0 < qty <= avail,
    ;
    let rq = raw / 100;
    assert(100 * rq <= raw);
    assert(0 <= rq * share <= rq * 10) by (nonlinear_arith)
        requires
            0 <= share <= 10,
            0 <= rq,
    ;
}

/// The sell quote is never negative and at most double the raw price.
pub proof fn lemma_sell_quote_bounds(rate: int, qty: int)
    requires
        1 <= rate <= MAX_RATE,
        0 < qty,
    ensures
        0 <= spec_sell_quote(rate, qty) <= 2 * (rate * qty),
{
    let raw = rate * qty;
    assert(0 < raw) by (nonlinear_arith)
        requires
            raw == rate * qty,
            1 <= rate,
            0 < qty,
    ;
    assert(raw / 10 <= raw);
}

/// The quantity an inventory-entry list leaves a kind at: the last entry
/// for that kind wins, and a kind never mentioned stays at zero.
pub open spec fn spec_last_entry(entries: Seq<(GoodKind, i64)>, kind: GoodKind) -> int
    decreases entries.len(),
{
    if entries.len() == 0 {
        0
    } else if entries.last().0 == kind {
        entries.last().1 as int
    } else {
        spec_last_entry(entries.drop_last(), kind)
    }
}

/// Holdings after a commit: `dk` units land on kind `k` and `dcash` on the
/// cash kind (both may be negative; for `k == 0` they combine).
pub open spec fn spec_transfer(g: Seq<Good>, k: int, dk: int, dcash: int) -> Seq<Good> {
    Seq::new(
        g.len(),
        |i: int|
            Good {
                kind: g[i].kind,
                quantity: ((g[i].quantity + (if i == 0 {
                    dcash
                } else {
                    0
                })) + (if i == k {
                    dk
                } else {
                    0
                })) as i64,
            },
    )
}

/// A price moved four fifths of the way toward `target`.
pub open spec fn spec_adjust_toward(p: int, target: int) -> int {
    if target >= p {
        p + (target - p) * 8 / 10
    } else {
        p - (p - target) * 8 / 10
    }
}

/// Index of the largest holding among the first `n`, earliest on ties.
pub open spec fn max_idx_upto(g: Seq<Good>, n: int) -> int
    decreases n,
{
    if n <= 1 {
        0
    } else {
        let m = max_idx_upto(g, n - 1);
        if g[n - 1].quantity > g[m].quantity {
            n - 1
        } else {
            m
        }
    }
}

/// Index of the smallest holding among the first `n`, earliest on ties.
pub open spec fn min_idx_upto(g: Seq<Good>, n: int) -> int
    decreases n,
{
    if n <= 1 {
        0
    } else {
        let m = min_idx_upto(g, n - 1);
        if g[n - 1].quantity < g[m].quantity {
            n - 1
        } else {
            m
        }
    }
}

/// Does an internal trade trigger the rebalancing pass? The scarcest kind
/// must be under the low-water mark, a distinct surplus kind must have a
/// whole chunk unreserved, and the pair's cooldown must have elapsed.
pub open spec fn conv_fires(g: Seq<Good>, t: Seq<i64>, locked: Seq<i64>) -> bool {
    let mx = max_idx_upto(g, 4);
    let mn = min_idx_upto(g, 4);
    &&& g[mn].quantity < LOW_WATER
    &&& mx != mn
    &&& t[mx * 4 + mn] == 0
    &&& g[mx].quantity - locked[mx] > CONV_CHUNK
}

/// Units of the scarce kind bought by one chunk of the surplus kind at the
/// canonical rates, rounded down.
pub open spec fn conv_transfer_amount(g: Seq<Good>) -> int {
    (CONV_CHUNK as int) * spec_rate_of_index(min_idx_upto(g, 4)) / spec_rate_of_index(
        max_idx_upto(g, 4),
    )
}

/// Holdings after the rebalancing pass (identical when it does not fire).
pub open spec fn spec_after_conversion_goods(g: Seq<Good>, t: Seq<i64>, locked: Seq<i64>) -> Seq<
    Good,
> {
    if conv_fires(g, t, locked) {
        let mx = max_idx_upto(g, 4);
        let mn = min_idx_upto(g, 4);
        Seq::new(
            g.len(),
            |i: int|
                Good {
                    kind: g[i].kind,
                    quantity: ((g[i].quantity - (if i == mx {
                        CONV_CHUNK as int
                    } else {
                        0
                    })) + (if i == mn {
                        conv_transfer_amount(g)
                    } else {
                        0
                    })) as i64,
                },
        )
    } else {
        g
    }
}

/// Cooldown matrix after the rebalancing pass.
pub open spec fn spec_after_conversion_timer(g: Seq<Good>, t: Seq<i64>, locked: Seq<i64>) -> Seq<
    i64,
> {
    if conv_fires(g, t, locked) {
        t.update(max_idx_upto(g, 4) * 4 + min_idx_upto(g, 4), CONV_COOLDOWN)
    } else {
        t
    }
}

/// One slot, one tick later: a free slot stays free, a lock that has
/// reached its time limit is reclaimed, any other lock ages by one.
pub open spec fn spec_sweep_slot(c: Contract) -> Contract {
    if !c.occupied {
        c
    } else if c.age + 1 >= MAXTIME {
        Contract { occupied: false, token_id: 0, quantity: 0, price: 0, age: 0 }
    } else {
        Contract { age: (c.age + 1) as i64, ..c }
    }
}

/// A whole row, one tick later.
pub open spec fn spec_sweep_row(s: Seq<Contract>) -> Seq<Contract> {
    Seq::new(s.len(), |j: int| spec_sweep_slot(s[j]))
}

/// A unit price forced into the legal price band.
pub open spec fn spec_clamp_rate(p: int) -> int {
    if p < 1 {
        1
    } else if p > MAX_RATE {
        MAX_RATE as int
    } else {
        p
    }
}

/// Buy prices after a peer's event: undercut slightly when the peer trades
/// below this exchange's buy price.
pub open spec fn spec_external_prices_buy(pb: Seq<i64>, e: Event) -> Seq<i64> {
    let k = spec_kind_index(e.good_kind);
    if e.quantity <= 0 {
        pb
    } else {
        let u = e.price as int / e.quantity as int;
        if e.kind == EventKind::Bought && u < pb[k] {
            pb.update(k, spec_clamp_rate(u - u * 15 / 1000) as i64)
        } else if e.kind == EventKind::LockedSell && u < pb[k] {
            pb.update(k, spec_clamp_rate(u - u * 10 / 1000) as i64)
        } else {
            pb
        }
    }
}

/// Sell prices after a peer's event: stay above the peer's unit price when
/// it trades higher.
pub open spec fn spec_external_prices_sell(ps: Seq<i64>, e: Event) -> Seq<i64> {
    let k = spec_kind_index(e.good_kind);
    if e.quantity <= 0 {
        ps
    } else {
        let u = e.price as int / e.quantity as int;
        if e.kind == EventKind::Sold && u > ps[k] {
            ps.update(k, spec_clamp_rate(u + u * 15 / 1000) as i64)
        } else if e.kind == EventKind::LockedBuy && u > ps[k] {
            ps.update(k, spec_clamp_rate(u + u * 10 / 1000) as i64)
        } else {
            ps
        }
    }
}

/// Cooldown matrix one event later.
pub open spec fn spec_dec_timer(t: Seq<i64>) -> Seq<i64> {
    Seq::new(
        t.len(),
        |i: int|
            if t[i] > 0 {
                (t[i] - 1) as i64
            } else {
                t[i]
            },
    )
}

impl ZSE {
    pub open spec fn goods_qty(self, k: int) -> int {
        self.goods@[k].quantity as int
    }

    pub open spec fn buy_rate(self, k: int) -> int {
        self.prices_buy@[k] as int
    }

    pub open spec fn sell_rate(self, k: int) -> int {
        self.prices_sell@[k] as int
    }

    pub open spec fn locked(self, k: int) -> int {
        self.locked_qty@[k] as int
    }

    pub open spec fn buy_row(self, k: int) -> Seq<Contract> {
        self.lock_buy@[k].slots@
    }

    pub open spec fn sell_row(self, k: int) -> Seq<Contract> {
        self.lock_sell@[k].slots@
    }

    pub open spec fn buy_count(self, k: int) -> int {
        self.lock_buy@[k].count as int
    }

    pub open spec fn sell_count(self, k: int) -> int {
        self.lock_sell@[k].count as int
    }

    pub open spec fn n_buy_tokens(self) -> int {
        self.tokens_buy@.len() as int
    }

    pub open spec fn n_sell_tokens(self) -> int {
        self.tokens_sell@.len() as int
    }

    /// Is `id` an issued, still-valid buy token?
    pub open spec fn buy_token_valid(self, id: int) -> bool {
        0 <= id < self.n_buy_tokens() && self.tokens_buy@[id]
    }

    /// Is `id` an issued, still-valid sell token?
    pub open spec fn sell_token_valid(self, id: int) -> bool {
        0 <= id < self.n_sell_tokens() && self.tokens_sell@[id]
    }

    /// The exchange invariant. Established by the constructors and preserved
    /// by every operation.
    pub open spec fn wf(self) -> bool {
        &&& goods_wf(self.goods@)
        &&& prices_wf(self.prices_buy@)
        &&& prices_wf(self.prices_sell@)
        &&& rows_shape(self.lock_buy@)
        &&& rows_shape(self.lock_sell@)
        &&& slots_wf(self.lock_buy@, self.tokens_buy@, true)
        &&& slots_wf(self.lock_sell@, self.tokens_sell@, false)
        &&& ids_distinct(self.lock_buy@)
        &&& ids_distinct(self.lock_sell@)
        &&& tokens_covered(self.lock_buy@, self.tokens_buy@)
        &&& tokens_covered(self.lock_sell@, self.tokens_sell@)
        &&& locked_wf(self.locked_qty@, self.lock_buy@, self.lock_sell@, self.goods@)
        &&& self.codes_buy@.len() == self.tokens_buy@.len()
        &&& self.codes_sell@.len() == self.tokens_sell@.len()
        &&& timer_wf(self.conversion_timer@)
        &&& outbox_wf(self.outbox@)
    }

    /// An exchange holding the given fresh quantities, with canonical
    /// prices, empty lock tables and no issued token.
    ///
    /// The argument order matches the construction interface: default kind
    /// first, then yen, usd, yuan.
    pub fn new_with_quantities(eur: i64, yen: i64, usd: i64, yuan: i64) -> (m: ZSE)
        requires
            0 <= eur <= MAX_UNITS,
            0 <= yen <= MAX_UNITS,
            0 <= usd <= MAX_UNITS,
            0 <= yuan <= MAX_UNITS,
        ensures
            m.wf(),
            m.goods_qty(0) == eur,
            m.goods_qty(1) == usd,
            m.goods_qty(2) == yen,
            m.goods_qty(3) == yuan,
            forall|k: int| 0 <= k < 4 ==> #[trigger] m.buy_rate(k) == spec_rate_of_index(k),
            forall|k: int| 0 <= k < 4 ==> #[trigger] m.sell_rate(k) == spec_rate_of_index(k),
            forall|k: int| 0 <= k < 4 ==> #[trigger] m.buy_count(k) == 0 && m.sell_count(k) == 0,
            forall|k: int| 0 <= k < 4 ==> #[trigger] m.locked(k) == 0,
            m.n_buy_tokens() == 0,
            m.n_sell_tokens() == 0,
            m.outbox@.len() == 0,
            m.subscribers@.len() == 0,
    {
        let goods: Vec<Good> = vec![
            Good::new(GoodKind::EUR, eur),
            Good::new(GoodKind::USD, usd),
            Good::new(GoodKind::YEN, yen),
            Good::new(GoodKind::YUAN, yuan),
        ];
        let prices_buy: Vec<i64> = vec![
            1,
            crate::goods::RATE_USD,
            crate::goods::RATE_YEN,
            crate::goods::RATE_YUAN,
        ];
        let prices_sell: Vec<i64> = vec![
            1,
            crate::goods::RATE_USD,
            crate::goods::RATE_YEN,
            crate::goods::RATE_YUAN,
        ];
        let lock_buy: Vec<LockRow> =
            vec![LockRow::new(), LockRow::new(), LockRow::new(), LockRow::new()];
        let lock_sell: Vec<LockRow> =
            vec![LockRow::new(), LockRow::new(), LockRow::new(), LockRow::new()];
        let locked_qty: Vec<i64> = vec![0, 0, 0, 0];
        let conversion_timer: Vec<i64> = vec![0, 0, 0, 0, 0, 0, 0, 0, 0, 0, 0, 0, 0, 0, 0, 0];
        let m = ZSE {
            goods,
            prices_buy,
            prices_sell,
            lock_buy,
            lock_sell,
            locked_qty,
            tokens_buy: Vec::new(),
            tokens_sell: Vec::new(),
            codes_buy: Vec::new(),
            codes_sell: Vec::new(),
            subscribers: Vec::new(),
            outbox: Vec::new(),
            conversion_timer,
        };
        proof {
            assert forall|k: int| 0 <= k < 4 implies (#[trigger] m.lock_buy@[k]).slots@.len()
                == MAXLOCK && m.lock_buy@[k].count == occupied_count(m.lock_buy@[k].slots@) by {
                lemma_sum_all_free(m.lock_buy@[k].slots@);
            }
            assert forall|k: int| 0 <= k < 4 implies (#[trigger] m.lock_sell@[k]).slots@.len()
                == MAXLOCK && m.lock_sell@[k].count == occupied_count(m.lock_sell@[k].slots@) by {
                lemma_sum_all_free(m.lock_sell@[k].slots@);
            }
            assert forall|k: int| 1 <= k < 4 implies #[trigger] m.locked_qty@[k] == qty_sum(
                m.lock_buy@[k].slots@,
            ) by {
                lemma_sum_all_free(m.lock_buy@[k].slots@);
            }
            lemma_sum_all_free(m.lock_buy@[0].slots@);
            lemma_sum_all_free(m.lock_sell@[0].slots@);
            lemma_sum_all_free(m.lock_sell@[1].slots@);
            lemma_sum_all_free(m.lock_sell@[2].slots@);
            lemma_sum_all_free(m.lock_sell@[3].slots@);
        }
        m
    }

    /// An exchange with a randomised initial split of `STARTING_CAPITAL`
    /// (in cash units) across the four kinds, each kind holding at least an
    /// eighth of it, converted at the canonical rates.
    pub fn new_random() -> (m: ZSE)
        ensures
            m.wf(),
            forall|k: int|
                0 <= k < 4 ==> #[trigger] m.goods_qty(k) >= (STARTING_CAPITAL / 8)
                    * spec_rate_of_index(k),
            forall|k: int| 0 <= k < 4 ==> #[trigger] m.buy_rate(k) == spec_rate_of_index(k),
            forall|k: int| 0 <= k < 4 ==> #[trigger] m.sell_rate(k) == spec_rate_of_index(k),
            forall|k: int| 0 <= k < 4 ==> #[trigger] m.buy_count(k) == 0 && m.sell_count(k) == 0,
            forall|k: int| 0 <= k < 4 ==> #[trigger] m.locked(k) == 0,
            m.n_buy_tokens() == 0,
            m.n_sell_tokens() == 0,
            m.outbox@.len() == 0,
            m.subscribers@.len() == 0,
            spec_convert_to_eur(m.goods@[0]) + spec_convert_to_eur(m.goods@[1])
                + spec_convert_to_eur(m.goods@[2]) + spec_convert_to_eur(m.goods@[3])
                == STARTING_CAPITAL,
            forall|k: int|
                1 <= k < 4 ==> #[trigger] spec_convert_to_eur(m.goods@[k]) < STARTING_CAPITAL / 4,
    {
        let lo: i64 = STARTING_CAPITAL / 8;
        let hi: i64 = STARTING_CAPITAL / 4;
        let eur_worth_usd: i64 = outside::rand_in_range(lo, hi);
        let eur_worth_yen: i64 = outside::rand_in_range(lo, hi);
        let eur_worth_yuan: i64 = outside::rand_in_range(lo, hi);
        let eur: i64 = STARTING_CAPITAL - eur_worth_usd - eur_worth_yen - eur_worth_yuan;
        let m = Self::new_with_quantities(
            eur,
            eur_worth_yen * crate::goods::RATE_YEN,
            eur_worth_usd * crate::goods::RATE_USD,
            eur_worth_yuan * crate::goods::RATE_YUAN,
        );
        proof {
            assert((eur_worth_usd as int * (crate::goods::RATE_USD as int)) / (
            crate::goods::RATE_USD as int) == eur_worth_usd as int) by (nonlinear_arith)
                requires
                    crate::goods::RATE_USD as int > 0,
            ;
            assert((eur_worth_yen as int * (crate::goods::RATE_YEN as int)) / (
            crate::goods::RATE_YEN as int) == eur_worth_yen as int) by (nonlinear_arith)
                requires
                    crate::goods::RATE_YEN as int > 0,
            ;
            assert((eur_worth_yuan as int * (crate::goods::RATE_YUAN as int)) / (
            crate::goods::RATE_YUAN as int) == eur_worth_yuan as int) by (nonlinear_arith)
                requires
                    crate::goods::RATE_YUAN as int > 0,
            ;
        }
        m
    }

    /// An exchange built from parsed inventory entries (as read from a
    /// stock file): later entries for a kind win, unmentioned kinds start
    /// empty. Reading the file and falling back to `new_random` when it
    /// cannot be read are the shell's concern.
    pub fn new_file_quantities(entries: &Vec<(GoodKind, i64)>) -> (m: ZSE)
        requires
            forall|i: int|
                0 <= i < entries@.len() ==> 0 <= (#[trigger] entries@[i]).1 <= MAX_UNITS,
        ensures
            m.wf(),
            forall|k: int|
                0 <= k < 4 ==> #[trigger] m.goods_qty(k) == spec_last_entry(
                    entries@,
                    spec_kind_of_index(k),
                ),
            forall|k: int| 0 <= k < 4 ==> #[trigger] m.buy_count(k) == 0 && m.sell_count(k) == 0,
            forall|k: int| 0 <= k < 4 ==> #[trigger] m.locked(k) == 0,
            m.n_buy_tokens() == 0,
            m.n_sell_tokens() == 0,
    {
        let mut eur: i64 = 0;
        let mut usd: i64 = 0;
        let mut yen: i64 = 0;
        let mut yuan: i64 = 0;
        let mut i: usize = 0;
        while i < entries.len()
            invariant
                forall|x: int|
                    0 <= x < entries@.len() ==> 0 <= (#[trigger] entries@[x]).1 <= MAX_UNITS,
                i <= entries@.len(),
                0 <= eur <= MAX_UNITS,
                0 <= usd <= MAX_UNITS,
                0 <= yen <= MAX_UNITS,
                0 <= yuan <= MAX_UNITS,
                eur == spec_last_entry(entries@.take(i as int), GoodKind::EUR),
                usd == spec_last_entry(entries@.take(i as int), GoodKind::USD),
                yen == spec_last_entry(entries@.take(i as int), GoodKind::YEN),
                yuan == spec_last_entry(entries@.take(i as int), GoodKind::YUAN),
            decreases entries@.len() - i,
        {
            let qty: i64 = entries[i].1;
            proof {
                assert(entries@.take(i as int + 1).drop_last() =~= entries@.take(i as int));
                assert(entries@.take(i as int + 1).last() == entries@[i as int]);
            }
            match entries[i].0 {
                GoodKind::EUR => {
                    eur = qty;
                },
                GoodKind::USD => {
                    usd = qty;
                },
                GoodKind::YEN => {
                    yen = qty;
                },
                GoodKind::YUAN => {
                    yuan = qty;
                },
            }
            i = i + 1;
        }
        proof {
            assert(entries@.take(entries@.len() as int) =~= entries@);
        }
        Self::new_with_quantities(eur, yen, usd, yuan)
    }

    pub fn get_name(&self) -> (r: &'static str)
        ensures
            r@ == "ZSE"@,
    {
        "ZSE"
    }

    /// Total holdings valued in the default cash kind at the canonical
    /// rates (each kind rounded down).
    pub fn get_budget(&self) -> (r: i64)
        requires
            self.wf(),
        ensures
            r == spec_convert_to_eur(self.goods@[0]) + spec_convert_to_eur(self.goods@[1])
                + spec_convert_to_eur(self.goods@[2]) + spec_convert_to_eur(self.goods@[3]),
    {
        let mut total: i64 = 0;
        total = total + convert_to_eur(&self.goods[0]);
        total = total + convert_to_eur(&self.goods[1]);
        total = total + convert_to_eur(&self.goods[2]);
        total = total + convert_to_eur(&self.goods[3]);
        total
    }

    /// Price asked for buying `quantity` units of `kind` out of the current
    /// holding, discounted by how thin the request leaves it. Rejects a
    /// negative quantity and a request beyond the holding.
    pub fn get_buy_price(&self, kind: GoodKind, quantity: i64) -> (r: Result<
        i64,
        MarketGetterError,
    >)
        requires
            self.wf(),
        ensures
            ({
                let k = spec_kind_index(kind);
                &&& quantity < 0 ==> r == Result::<i64, MarketGetterError>::Err(
                    MarketGetterError::NonPositiveQuantityAsked,
                )
                &&& quantity >= 0 && self.goods_qty(k) < quantity ==> r == Result::<
                    i64,
                    MarketGetterError,
                >::Err(
                    MarketGetterError::InsufficientGoodQuantityAvailable {
                        requested_good_kind: kind,
                        requested_good_quantity: quantity,
                        available_good_quantity: self.goods@[k].quantity,
                    },
                )
                &&& quantity >= 0 && self.goods_qty(k) >= quantity ==> {
                    &&& r is Ok
                    &&& r->Ok_0 == spec_buy_quote(self.buy_rate(k), quantity as int, self.goods_qty(k))
                    &&& 0 <= r->Ok_0 <= self.buy_rate(k) * quantity
                }
            }),
    {
        if quantity < 0 {
            return Err(MarketGetterError::NonPositiveQuantityAsked);
        }
        let index: usize = get_index_by_goodkind(&kind);
        let internal_quantity: i64 = self.goods[index].get_qty();
        if internal_quantity < quantity {
            return Err(
                MarketGetterError::InsufficientGoodQuantityAvailable {
                    requested_good_kind: kind,
                    requested_good_quantity: quantity,
                    available_good_quantity: internal_quantity,
                },
            );
        }
        if quantity == 0 {
            return Ok(0);
        }
        let rate: i64 = self.prices_buy[index];
        proof {
            assert(0 <= (rate as int) * (quantity as int) <= (MAX_RATE as int) * (MAX_UNITS
                as int)) by (nonlinear_arith)
                requires
                    1 <= rate as int <= MAX_RATE as int,
                    0 < quantity as int <= MAX_UNITS as int,
            ;
        }
        let raw: i64 = rate * quantity;
        let share: i64 = (10 * quantity) / internal_quantity;
        proof {
            assert(0 <= share <= 10) by (nonlinear_arith)
                requires
                    share == (10 * (quantity as int)) / (internal_quantity as int),
                    0 < quantity as int <= internal_quantity as int,
            ;
            let rq: int = raw as int / 100;
            assert(100 * rq <= raw as int);
            assert(0 <= rq * (share as int) <= rq * 10) by (nonlinear_arith)
                requires
                    0 <= share as int <= 10,
                    0 <= rq,
            ;
        }
        let discount: i64 = (raw / 100) * share;
        Ok(raw - discount)
    }

    /// Payout offered for selling `quantity` units of `kind` to the
    /// exchange, with the exchange's markup. Rejects a negative quantity.
    pub fn get_sell_price(&self, kind: GoodKind, quantity: i64) -> (r: Result<
        i64,
        MarketGetterError,
    >)
        requires
            self.wf(),
            quantity <= MAX_UNITS,
        ensures
            quantity < 0 ==> r == Result::<i64, MarketGetterError>::Err(
                MarketGetterError::NonPositiveQuantityAsked,
            ),
            quantity >= 0 ==> r is Ok && r->Ok_0 == spec_sell_quote(
                self.sell_rate(spec_kind_index(kind)),
                quantity as int,
            ),
    {
        if quantity < 0 {
            return Err(MarketGetterError::NonPositiveQuantityAsked);
        }
        let index: usize = get_index_by_goodkind(&kind);
        let rate: i64 = self.prices_sell[index];
        proof {
            assert(0 <= (rate as int) * (quantity as int) <= (MAX_RATE as int) * (MAX_UNITS
                as int)) by (nonlinear_arith)
                requires
                    1 <= rate as int <= MAX_RATE as int,
                    0 <= quantity as int <= MAX_UNITS as int,
            ;
        }
        let raw: i64 = rate * quantity;
        Ok(raw + raw / 10)
    }

    /// The inventory listing: one label per kind, with the holding and the
    /// two unit prices.
    pub fn get_goods(&self) -> (r: Vec<GoodLabel>)
        requires
            self.wf(),
        ensures
            r@.len() == 4,
            forall|k: int|
                0 <= k < 4 ==> (#[trigger] r@[k]).good_kind == spec_kind_of_index(k) && r@[k].quantity
                    == self.goods_qty(k) && r@[k].exchange_rate_buy == self.buy_rate(k)
                    && r@[k].exchange_rate_sell == self.sell_rate(k),
    {
        let mut out: Vec<GoodLabel> = Vec::new();
        let mut i: usize = 0;
        while i < 4
            invariant
                self.wf(),
                0 <= i <= 4,
                out@.len() == i,
                forall|k: int|
                    0 <= k < i ==> (#[trigger] out@[k]).good_kind == spec_kind_of_index(k)
                        && out@[k].quantity == self.goods_qty(k) && out@[k].exchange_rate_buy
                        == self.buy_rate(k) && out@[k].exchange_rate_sell == self.sell_rate(k),
            decreases 4 - i,
        {
            let label = GoodLabel {
                good_kind: self.goods[i].get_kind(),
                quantity: self.goods[i].get_qty(),
                exchange_rate_buy: self.prices_buy[i],
                exchange_rate_sell: self.prices_sell[i],
            };
            out.push(label);
            i = i + 1;
        }
        out
    }

    /// Lowest bid `lock_buy` accepts for `qty` units of kind `k`.
    pub open spec fn spec_min_bid(self, k: int, qty: int) -> int {
        spec_buy_quote(self.buy_rate(k), qty, self.goods_qty(k))
    }

    /// Highest offer `lock_sell` accepts for `qty` units of kind `k`.
    pub open spec fn spec_max_offer(self, k: int, qty: int) -> int {
        spec_sell_quote(self.sell_rate(k), qty)
    }

    /// Exactly when `lock_buy` issues a token.
    pub open spec fn lock_buy_accepts(self, k: int, qty: int, bid: int) -> bool {
        &&& qty > 0
        &&& bid > 0
        &&& self.buy_count(k) < MAXLOCK
        &&& self.goods_qty(k) - self.locked(k) >= qty
        &&& bid >= self.spec_min_bid(k, qty)
    }

    /// The error `lock_buy` returns when it refuses, by the first failing
    /// check.
    pub open spec fn spec_lock_buy_err(self, kind: GoodKind, qty: i64, bid: i64) -> LockBuyError {
        let k = spec_kind_index(kind);
        if qty <= 0 {
            LockBuyError::NonPositiveQuantityToBuy { negative_quantity_to_buy: qty }
        } else if bid <= 0 {
            LockBuyError::NonPositiveBid { negative_bid: bid }
        } else if self.buy_count(k) >= MAXLOCK {
            LockBuyError::MaxAllowedLocksReached
        } else if self.goods_qty(k) - self.locked(k) < qty {
            LockBuyError::InsufficientGoodQuantityAvailable {
                requested_good_kind: kind,
                requested_good_quantity: qty,
                available_good_quantity: (self.goods_qty(k) - self.locked(k)) as i64,
            }
        } else {
            LockBuyError::BidTooLow {
                requested_good_kind: kind,
                requested_good_quantity: qty,
                low_bid: bid,
                lowest_acceptable_bid: self.spec_min_bid(k, qty as int) as i64,
            }
        }
    }

    /// Exactly when `lock_sell` issues a token.
    pub open spec fn lock_sell_accepts(self, k: int, qty: int, offer: int) -> bool {
        &&& qty > 0
        &&& offer > 0
        &&& self.sell_count(k) < MAXLOCK
        &&& self.goods_qty(0) - self.locked(0) >= offer
        &&& offer <= self.spec_max_offer(k, qty)
    }

    /// The error `lock_sell` returns when it refuses, by the first failing
    /// check.
    pub open spec fn spec_lock_sell_err(self, kind: GoodKind, qty: i64, offer: i64) -> LockSellError {
        let k = spec_kind_index(kind);
        if qty <= 0 {
            LockSellError::NonPositiveQuantityToSell { negative_quantity_to_sell: qty }
        } else if offer <= 0 {
            LockSellError::NonPositiveOffer { negative_offer: offer }
        } else if self.sell_count(k) >= MAXLOCK {
            LockSellError::MaxAllowedLocksReached
        } else if self.goods_qty(0) - self.locked(0) < offer {
            LockSellError::InsufficientDefaultGoodQuantityAvailable {
                offered_good_kind: kind,
                offered_good_quantity: qty,
                available_good_quantity: self.goods@[0].quantity,
            }
        } else {
            LockSellError::OfferTooHigh {
                offered_good_kind: kind,
                offered_good_quantity: qty,
                high_offer: offer,
                highest_acceptable_offer: self.spec_max_offer(k, qty as int) as i64,
            }
        }
    }

    /// Reserve `quantity_to_buy` units of `kind_to_buy` at price `bid`.
    /// On success the returned token is fresh and valid, one previously free
    /// slot of the kind's buy row holds the contract, and `quantity_to_buy`
    /// moves into the reserved ledger; nothing else changes. On failure the
    /// state is untouched and the error is the first failing check.
    pub fn lock_buy(
        &mut self,
        kind_to_buy: GoodKind,
        quantity_to_buy: i64,
        bid: i64,
        trader_name: String,
    ) -> (r: Result<Token, LockBuyError>)
        requires
            old(self).wf(),
        ensures
            final(self).wf(),
            ({
                let k = spec_kind_index(kind_to_buy);
                let pre = *old(self);
                let post = *final(self);
                &&& (r is Ok <==> pre.lock_buy_accepts(k, quantity_to_buy as int, bid as int))
                &&& (r is Err ==> post == pre && r->Err_0 == pre.spec_lock_buy_err(
                    kind_to_buy,
                    quantity_to_buy,
                    bid,
                ))
                &&& (r is Ok ==> {
                    let t = r->Ok_0;
                    &&& t.id == pre.n_buy_tokens()
                    &&& post.tokens_buy@ == pre.tokens_buy@.push(true)
                    &&& post.tokens_sell@ == pre.tokens_sell@
                    &&& post.codes_buy@ == pre.codes_buy@.push(t.code)
                    &&& post.codes_sell@ == pre.codes_sell@
                    &&& post.goods@ == pre.goods@
                    &&& post.prices_buy@ == pre.prices_buy@
                    &&& post.prices_sell@ == pre.prices_sell@
                    &&& post.lock_sell@ == pre.lock_sell@
                    &&& post.subscribers@ == pre.subscribers@
                    &&& post.conversion_timer@ == pre.conversion_timer@
                    &&& post.locked_qty@ == pre.locked_qty@.update(
                        k,
                        (pre.locked(k) + quantity_to_buy) as i64,
                    )
                    &&& post.outbox@ == pre.outbox@.push(
                        Event {
                            kind: EventKind::LockedBuy,
                            good_kind: kind_to_buy,
                            quantity: quantity_to_buy,
                            price: bid,
                        },
                    )
                    &&& exists|j: int|
                        0 <= j < MAXLOCK && !(#[trigger] pre.buy_row(k)[j]).occupied && (forall|
                            jj: int,
                        |
                            0 <= jj < j ==> pre.buy_row(k)[jj].occupied) && post.buy_row(k)
                            == pre.buy_row(k).update(
                            j,
                            Contract {
                                occupied: true,
                                token_id: t.id,
                                quantity: quantity_to_buy,
                                price: bid,
                                age: 0,
                            },
                        )
                    &&& forall|i: int|
                        0 <= i < 4 && i != k ==> #[trigger] post.lock_buy@[i] == pre.lock_buy@[i]
                    &&& post.buy_count(k) == pre.buy_count(k) + 1
                })
            }),
    {
        let index: usize = get_index_by_goodkind(&kind_to_buy);
        if quantity_to_buy <= 0 {
            return Err(
                LockBuyError::NonPositiveQuantityToBuy {
                    negative_quantity_to_buy: quantity_to_buy,
                },
            );
        }
        if bid <= 0 {
            return Err(LockBuyError::NonPositiveBid { negative_bid: bid });
        }
        if self.lock_buy[index].count >= MAXLOCK {
            return Err(LockBuyError::MaxAllowedLocksReached);
        }
        let available: i64 = self.goods[index].get_qty() - self.locked_qty[index];
        if available < quantity_to_buy {
            return Err(
                LockBuyError::InsufficientGoodQuantityAvailable {
                    requested_good_kind: kind_to_buy,
                    requested_good_quantity: quantity_to_buy,
                    available_good_quantity: available,
                },
            );
        }
        let minimum_bid: i64 = match self.get_buy_price(kind_to_buy, quantity_to_buy) {
            Ok(m) => m,
            Err(_) => {
                return Err(LockBuyError::MaxAllowedLocksReached);
            },
        };
        if bid < minimum_bid {
            return Err(
                LockBuyError::BidTooLow {
                    requested_good_kind: kind_to_buy,
                    requested_good_quantity: quantity_to_buy,
                    low_bid: bid,
                    lowest_acceptable_bid: minimum_bid,
                },
            );
        }
        let token_id: usize = self.tokens_buy.len();
        let salt: u32 = outside::rand_u32();
        let code: String = outside::digest_with_salt(
            "buy",
            quantity_to_buy,
            bid,
            trader_name.as_str(),
            salt,
        );
        let j: usize = find_free_slot(&self.lock_buy[index]);
        let ghost c = Contract {
            occupied: true,
            token_id,
            quantity: quantity_to_buy,
            price: bid,
            age: 0,
        };
        self.lock_buy[index].slots[j] = Contract {
            occupied: true,
            token_id,
            quantity: quantity_to_buy,
            price: bid,
            age: 0,
        };
        let new_count: usize = self.lock_buy[index].count + 1;
        self.lock_buy[index].count = new_count;
        let new_locked: i64 = self.locked_qty[index] + quantity_to_buy;
        self.locked_qty[index] = new_locked;
        self.tokens_buy.push(true);
        self.codes_buy.push(code.clone());
        self.outbox.push(
            Event {
                kind: EventKind::LockedBuy,
                good_kind: kind_to_buy,
                quantity: quantity_to_buy,
                price: bid,
            },
        );
        proof {
            let k = index as int;
            let pre = *old(self);
            let post = *self;
            assert(post.buy_row(k) =~= pre.buy_row(k).update(j as int, c));
            assert(post.locked_qty@ =~= pre.locked_qty@.update(k, (pre.locked(k) + quantity_to_buy) as i64));
            assert(forall|i: int| 0 <= i < 4 && i != k ==> #[trigger] post.lock_buy@[i] == pre.lock_buy@[i]);
            lemma_lock_insert_wf(pre, post, k, j as int, c, true);
            assert(!pre.buy_row(k)[j as int].occupied);
            assert(forall|jj: int| 0 <= jj < j as int ==> (#[trigger] pre.buy_row(k)[jj]).occupied);
            assert(pre.lock_buy_accepts(k, quantity_to_buy as int, bid as int));
            assert(post.tokens_buy@ =~= pre.tokens_buy@.push(true));
            assert(post.outbox@ =~= pre.outbox@.push(
                Event {
                    kind: EventKind::LockedBuy,
                    good_kind: kind_to_buy,
                    quantity: quantity_to_buy,
                    price: bid,
                },
            ));
            assert(post.buy_count(k) == pre.buy_count(k) + 1);
        }
        Ok(Token { id: token_id, code })
    }

    /// Reserve the sale of `quantity_to_sell` units of `kind_to_sell` at
    /// payout `offer`. On success the returned token is fresh and valid, one
    /// previously free slot of the kind's sell row holds the contract, and
    /// `offer` moves into the reserved cash ledger; nothing else changes. On
    /// failure the state is untouched and the error is the first failing
    /// check.
    pub fn lock_sell(
        &mut self,
        kind_to_sell: GoodKind,
        quantity_to_sell: i64,
        offer: i64,
        trader_name: String,
    ) -> (r: Result<Token, LockSellError>)
        requires
            old(self).wf(),
        ensures
            final(self).wf(),
            ({
                let k = spec_kind_index(kind_to_sell);
                let pre = *old(self);
                let post = *final(self);
                &&& (r is Ok <==> pre.lock_sell_accepts(k, quantity_to_sell as int, offer as int))
                &&& (r is Err ==> post == pre && r->Err_0 == pre.spec_lock_sell_err(
                    kind_to_sell,
                    quantity_to_sell,
                    offer,
                ))
                &&& (r is Ok ==> {
                    let t = r->Ok_0;
                    &&& t.id == pre.n_sell_tokens()
                    &&& post.tokens_sell@ == pre.tokens_sell@.push(true)
                    &&& post.tokens_buy@ == pre.tokens_buy@
                    &&& post.codes_sell@ == pre.codes_sell@.push(t.code)
                    &&& post.codes_buy@ == pre.codes_buy@
                    &&& post.goods@ == pre.goods@
                    &&& post.prices_buy@ == pre.prices_buy@
                    &&& post.prices_sell@ == pre.prices_sell@
                    &&& post.lock_buy@ == pre.lock_buy@
                    &&& post.subscribers@ == pre.subscribers@
                    &&& post.conversion_timer@ == pre.conversion_timer@
                    &&& post.locked_qty@ == pre.locked_qty@.update(
                        0,
                        (pre.locked(0) + offer) as i64,
                    )
                    &&& post.outbox@ == pre.outbox@.push(
                        Event {
                            kind: EventKind::LockedSell,
                            good_kind: kind_to_sell,
                            quantity: quantity_to_sell,
                            price: offer,
                        },
                    )
                    &&& exists|j: int|
                        0 <= j < MAXLOCK && !(#[trigger] pre.sell_row(k)[j]).occupied && (forall|
                            jj: int,
                        |
                            0 <= jj < j ==> pre.sell_row(k)[jj].occupied) && post.sell_row(k)
                            == pre.sell_row(k).update(
                            j,
                            Contract {
                                occupied: true,
                                token_id: t.id,
                                quantity: quantity_to_sell,
                                price: offer,
                                age: 0,
                            },
                        )
                    &&& forall|i: int|
                        0 <= i < 4 && i != k ==> #[trigger] post.lock_sell@[i] == pre.lock_sell@[i]
                    &&& post.sell_count(k) == pre.sell_count(k) + 1
                })
            }),
    {
        let index: usize = get_index_by_goodkind(&kind_to_sell);
        if quantity_to_sell <= 0 {
            return Err(
                LockSellError::NonPositiveQuantityToSell {
                    negative_quantity_to_sell: quantity_to_sell,
                },
            );
        }
        if offer <= 0 {
            return Err(LockSellError::NonPositiveOffer { negative_offer: offer });
        }
        if self.lock_sell[index].count >= MAXLOCK {
            return Err(LockSellError::MaxAllowedLocksReached);
        }
        let available: i64 = self.goods[0].get_qty() - self.locked_qty[0];
        if available < offer {
            return Err(
                LockSellError::InsufficientDefaultGoodQuantityAvailable {
                    offered_good_kind: kind_to_sell,
                    offered_good_quantity: quantity_to_sell,
                    available_good_quantity: self.goods[0].get_qty(),
                },
            );
        }
        let rate: i64 = self.prices_sell[index];
        proof {
            assert(0 < (rate as int) * (quantity_to_sell as int) <= (MAX_RATE as int) * (i64::MAX
                as int)) by (nonlinear_arith)
                requires
                    1 <= rate as int <= MAX_RATE as int,
                    0 < quantity_to_sell as int <= i64::MAX as int,
            ;
        }
        let raw: i128 = (rate as i128) * (quantity_to_sell as i128);
        let acceptable: i128 = raw + raw / 10;
        if (offer as i128) > acceptable {
            return Err(
                LockSellError::OfferTooHigh {
                    offered_good_kind: kind_to_sell,
                    offered_good_quantity: quantity_to_sell,
                    high_offer: offer,
                    highest_acceptable_offer: acceptable as i64,
                },
            );
        }
        let token_id: usize = self.tokens_sell.len();
        let salt: u32 = outside::rand_u32();
        let code: String = outside::digest_with_salt(
            "sell",
            quantity_to_sell,
            offer,
            trader_name.as_str(),
            salt,
        );
        let j: usize = find_free_slot(&self.lock_sell[index]);
        let ghost c = Contract {
            occupied: true,
            token_id,
            quantity: quantity_to_sell,
            price: offer,
            age: 0,
        };
        self.lock_sell[index].slots[j] = Contract {
            occupied: true,
            token_id,
            quantity: quantity_to_sell,
            price: offer,
            age: 0,
        };
        let new_count: usize = self.lock_sell[index].count + 1;
        self.lock_sell[index].count = new_count;
        let new_locked: i64 = self.locked_qty[0] + offer;
        self.locked_qty[0] = new_locked;
        self.tokens_sell.push(true);
        self.codes_sell.push(code.clone());
        self.outbox.push(
            Event {
                kind: EventKind::LockedSell,
                good_kind: kind_to_sell,
                quantity: quantity_to_sell,
                price: offer,
            },
        );
        proof {
            let k = index as int;
            let pre = *old(self);
            let post = *self;
            assert(post.sell_row(k) =~= pre.sell_row(k).update(j as int, c));
            assert(post.locked_qty@ =~= pre.locked_qty@.update(0, (pre.locked(0) + offer) as i64));
            assert(forall|i: int| 0 <= i < 4 && i != k ==> #[trigger] post.lock_sell@[i] == pre.lock_sell@[i]);
            lemma_lock_insert_wf(pre, post, k, j as int, c, false);
            assert(!pre.sell_row(k)[j as int].occupied);
            assert(forall|jj: int| 0 <= jj < j as int ==> (#[trigger] pre.sell_row(k)[jj]).occupied);
            assert(pre.lock_sell_accepts(k, quantity_to_sell as int, offer as int));
            assert(post.tokens_sell@ =~= pre.tokens_sell@.push(true));
            assert(post.outbox@ =~= pre.outbox@.push(
                Event {
                    kind: EventKind::LockedSell,
                    good_kind: kind_to_sell,
                    quantity: quantity_to_sell,
                    price: offer,
                },
            ));
            assert(post.sell_count(k) == pre.sell_count(k) + 1);
        }
        Ok(Token { id: token_id, code })
    }

    /// Position `(kind row, slot)` of the unique occupied buy slot carrying
    /// token `id` (meaningful whenever the token is valid).
    pub open spec fn buy_pos(self, id: int) -> (int, int) {
        choose|k: int, j: int|
            0 <= k < 4 && 0 <= j < MAXLOCK && (#[trigger] self.buy_row(k)[j]).occupied
                && self.buy_row(k)[j].token_id == id
    }

    /// Position of the unique occupied sell slot carrying token `id`.
    pub open spec fn sell_pos(self, id: int) -> (int, int) {
        choose|k: int, j: int|
            0 <= k < 4 && 0 <= j < MAXLOCK && (#[trigger] self.sell_row(k)[j]).occupied
                && self.sell_row(k)[j].token_id == id
    }

    /// Price agreed when buy token `id` was issued.
    pub open spec fn buy_agreed_price(self, id: int) -> int {
        self.buy_row(self.buy_pos(id).0)[self.buy_pos(id).1].price as int
    }

    /// Quantity agreed when buy token `id` was issued.
    pub open spec fn buy_agreed_qty(self, id: int) -> int {
        self.buy_row(self.buy_pos(id).0)[self.buy_pos(id).1].quantity as int
    }

    /// Payout agreed when sell token `id` was issued.
    pub open spec fn sell_agreed_price(self, id: int) -> int {
        self.sell_row(self.sell_pos(id).0)[self.sell_pos(id).1].price as int
    }

    /// Quantity agreed when sell token `id` was issued.
    pub open spec fn sell_agreed_qty(self, id: int) -> int {
        self.sell_row(self.sell_pos(id).0)[self.sell_pos(id).1].quantity as int
    }

    /// Exactly when `buy` commits: a valid token carrying the issued
    /// credential, cash of the default kind, and at least the agreed price
    /// in it.
    pub open spec fn buy_accepts(self, id: int, code: Seq<char>, cash: Good) -> bool {
        &&& self.buy_token_valid(id)
        &&& self.codes_buy@[id]@ == code
        &&& cash.kind == GoodKind::EUR
        &&& cash.quantity >= self.buy_agreed_price(id)
    }

    /// The error `buy` returns when it refuses, by the first failing check.
    pub open spec fn spec_buy_err(self, token: Token, cash: Good) -> BuyError {
        if token.id >= self.n_buy_tokens() {
            BuyError::UnrecognizedToken { unrecognized_token: token }
        } else if self.codes_buy@[token.id as int]@ != token.code@ {
            BuyError::UnrecognizedToken { unrecognized_token: token }
        } else if !self.tokens_buy@[token.id as int] {
            BuyError::ExpiredToken { expired_token: token }
        } else if cash.kind != GoodKind::EUR {
            BuyError::GoodKindNotDefault { non_default_good_kind: cash.kind }
        } else {
            BuyError::InsufficientGoodQuantity {
                contained_quantity: cash.quantity,
                pre_agreed_quantity: self.buy_agreed_price(token.id as int) as i64,
            }
        }
    }

    /// Exactly when `sell` commits: a valid token carrying the issued
    /// credential, a good of the agreed kind, and at least the agreed
    /// quantity in it.
    pub open spec fn sell_accepts(self, id: int, code: Seq<char>, good: Good) -> bool {
        &&& self.sell_token_valid(id)
        &&& self.codes_sell@[id]@ == code
        &&& good.kind == spec_kind_of_index(self.sell_pos(id).0)
        &&& good.quantity >= self.sell_agreed_qty(id)
    }

    /// The error `sell` returns when it refuses, by the first failing check.
    pub open spec fn spec_sell_err(self, token: Token, good: Good) -> SellError {
        if token.id >= self.n_sell_tokens() {
            SellError::UnrecognizedToken { unrecognized_token: token }
        } else if self.codes_sell@[token.id as int]@ != token.code@ {
            SellError::UnrecognizedToken { unrecognized_token: token }
        } else if !self.tokens_sell@[token.id as int] {
            SellError::ExpiredToken { expired_token: token }
        } else if good.kind != spec_kind_of_index(self.sell_pos(token.id as int).0) {
            SellError::WrongGoodKind {
                wrong_good_kind: good.kind,
                pre_agreed_kind: spec_kind_of_index(self.sell_pos(token.id as int).0),
            }
        } else {
            SellError::InsufficientGoodQuantity {
                contained_quantity: good.quantity,
                pre_agreed_quantity: self.sell_agreed_qty(token.id as int) as i64,
            }
        }
    }

    /// Scan the buy table for the slot carrying a valid token.
    fn find_buy_slot(&self, id: usize) -> (pos: (usize, usize))
        requires
            self.wf(),
            self.buy_token_valid(id as int),
        ensures
            pos.0 < 4,
            pos.1 < MAXLOCK,
            self.buy_row(pos.0 as int)[pos.1 as int].occupied,
            self.buy_row(pos.0 as int)[pos.1 as int].token_id == id,
            (pos.0 as int, pos.1 as int) == self.buy_pos(id as int),
    {
        let mut k: usize = 0;
        while k < 4
            invariant
                self.wf(),
                self.buy_token_valid(id as int),
                k <= 4,
                forall|a: int, b: int|
                    0 <= a < k && 0 <= b < MAXLOCK ==> !((#[trigger] self.buy_row(a)[b]).occupied
                        && self.buy_row(a)[b].token_id == id),
            decreases 4 - k,
        {
            let mut j: usize = 0;
            while j < MAXLOCK
                invariant
                    self.wf(),
                    self.buy_token_valid(id as int),
                    k < 4,
                    j <= MAXLOCK,
                    forall|a: int, b: int|
                        0 <= a < k && 0 <= b < MAXLOCK ==> !((#[trigger] self.buy_row(
                            a,
                        )[b]).occupied && self.buy_row(a)[b].token_id == id),
                    forall|b: int|
                        0 <= b < j ==> !((#[trigger] self.buy_row(k as int)[b]).occupied
                            && self.buy_row(k as int)[b].token_id == id),
                decreases MAXLOCK - j,
            {
                let occupied: bool = self.lock_buy[k].slots[j].occupied;
                let tid: usize = self.lock_buy[k].slots[j].token_id;
                if occupied && tid == id {
                    proof {
                        let ki = k as int;
                        let ji = j as int;
                        assert(self.buy_row(ki)[ji].occupied && self.buy_row(ki)[ji].token_id
                            == id);
                        assert(exists|a: int, b: int|
                            0 <= a < 4 && 0 <= b < MAXLOCK && (#[trigger] self.buy_row(
                                a,
                            )[b]).occupied && self.buy_row(a)[b].token_id == id);
                        let (sk, sj) = self.buy_pos(id as int);
                        assert(self.buy_row(sk)[sj].occupied && self.buy_row(sk)[sj].token_id
                            == id);
                        if !(sk == ki && sj == ji) {
                            assert(self.buy_row(sk)[sj].token_id != self.buy_row(
                                ki,
                            )[ji].token_id);
                            assert(false);
                        }
                    }
                    return (k, j);
                }
                j = j + 1;
            }
            k = k + 1;
        }
        proof {
            assert(has_slot(self.lock_buy@, id as int));
            let (a, b) = choose|a: int, b: int|
                0 <= a < self.lock_buy@.len() && 0 <= b < self.lock_buy@[a].slots@.len() && (
                #[trigger] self.lock_buy@[a].slots@[b]).occupied && self.lock_buy@[a].slots@[b].token_id
                    == id as int;
            assert(self.buy_row(a)[b].occupied && self.buy_row(a)[b].token_id == id);
            assert(false);
        }
        (0, 0)
    }

    /// Scan the sell table for the slot carrying a valid token.
    fn find_sell_slot(&self, id: usize) -> (pos: (usize, usize))
        requires
            self.wf(),
            self.sell_token_valid(id as int),
        ensures
            pos.0 < 4,
            pos.1 < MAXLOCK,
            self.sell_row(pos.0 as int)[pos.1 as int].occupied,
            self.sell_row(pos.0 as int)[pos.1 as int].token_id == id,
            (pos.0 as int, pos.1 as int) == self.sell_pos(id as int),
    {
        let mut k: usize = 0;
        while k < 4
            invariant
                self.wf(),
                self.sell_token_valid(id as int),
                k <= 4,
                forall|a: int, b: int|
                    0 <= a < k && 0 <= b < MAXLOCK ==> !((#[trigger] self.sell_row(a)[b]).occupied
                        && self.sell_row(a)[b].token_id == id),
            decreases 4 - k,
        {
            let mut j: usize = 0;
            while j < MAXLOCK
                invariant
                    self.wf(),
                    self.sell_token_valid(id as int),
                    k < 4,
                    j <= MAXLOCK,
                    forall|a: int, b: int|
                        0 <= a < k && 0 <= b < MAXLOCK ==> !((#[trigger] self.sell_row(
                            a,
                        )[b]).occupied && self.sell_row(a)[b].token_id == id),
                    forall|b: int|
                        0 <= b < j ==> !((#[trigger] self.sell_row(k as int)[b]).occupied
                            && self.sell_row(k as int)[b].token_id == id),
                decreases MAXLOCK - j,
            {
                let occupied: bool = self.lock_sell[k].slots[j].occupied;
                let tid: usize = self.lock_sell[k].slots[j].token_id;
                if occupied && tid == id {
                    proof {
                        let ki = k as int;
                        let ji = j as int;
                        assert(self.sell_row(ki)[ji].occupied && self.sell_row(ki)[ji].token_id
                            == id);
                        assert(exists|a: int, b: int|
                            0 <= a < 4 && 0 <= b < MAXLOCK && (#[trigger] self.sell_row(
                                a,
                            )[b]).occupied && self.sell_row(a)[b].token_id == id);
                        let (sk, sj) = self.sell_pos(id as int);
                        assert(self.sell_row(sk)[sj].occupied && self.sell_row(sk)[sj].token_id
                            == id);
                        if !(sk == ki && sj == ji) {
                            assert(self.sell_row(sk)[sj].token_id != self.sell_row(
                                ki,
                            )[ji].token_id);
                            assert(false);
                        }
                    }
                    return (k, j);
                }
                j = j + 1;
            }
            k = k + 1;
        }
        proof {
            assert(has_slot(self.lock_sell@, id as int));
            let (a, b) = choose|a: int, b: int|
                0 <= a < self.lock_sell@.len() && 0 <= b < self.lock_sell@[a].slots@.len() && (
                #[trigger] self.lock_sell@[a].slots@[b]).occupied && self.lock_sell@[a].slots@[b].token_id
                    == id as int;
            assert(self.sell_row(a)[b].occupied && self.sell_row(a)[b].token_id == id);
            assert(false);
        }
        (0, 0)
    }

    /// The rebalancing pass: when one kind is scarce and another has a whole
    /// unreserved chunk to spare, convert one chunk at the canonical rates
    /// and arm the pair's cooldown.
    fn internal_conversion(&mut self)
        requires
            old(self).wf(),
        ensures
            final(self).wf(),
            final(self).goods@ == spec_after_conversion_goods(
                old(self).goods@,
                old(self).conversion_timer@,
                old(self).locked_qty@,
            ),
            final(self).conversion_timer@ == spec_after_conversion_timer(
                old(self).goods@,
                old(self).conversion_timer@,
                old(self).locked_qty@,
            ),
            final(self).prices_buy@ == old(self).prices_buy@,
            final(self).prices_sell@ == old(self).prices_sell@,
            final(self).lock_buy@ == old(self).lock_buy@,
            final(self).lock_sell@ == old(self).lock_sell@,
            final(self).locked_qty@ == old(self).locked_qty@,
            final(self).tokens_buy@ == old(self).tokens_buy@,
            final(self).tokens_sell@ == old(self).tokens_sell@,
            final(self).codes_buy@ == old(self).codes_buy@,
            final(self).codes_sell@ == old(self).codes_sell@,
            final(self).subscribers@ == old(self).subscribers@,
            final(self).outbox@ == old(self).outbox@,
    {
        let mut mx: usize = 0;
        let mut mn: usize = 0;
        let mut i: usize = 1;
        while i < 4
            invariant
                old(self).wf(),
                *self == *old(self),
                1 <= i <= 4,
                mx < 4,
                mn < 4,
                mx as int == max_idx_upto(self.goods@, i as int),
                mn as int == min_idx_upto(self.goods@, i as int),
            decreases 4 - i,
        {
            if self.goods[i].get_qty() > self.goods[mx].get_qty() {
                mx = i;
            }
            if self.goods[i].get_qty() < self.goods[mn].get_qty() {
                mn = i;
            }
            i = i + 1;
        }
        let fires: bool = self.goods[mn].get_qty() < LOW_WATER && mx != mn
            && self.conversion_timer[mx * 4 + mn] == 0 && self.goods[mx].get_qty()
            - self.locked_qty[mx] > CONV_CHUNK;
        proof {
            assert(fires == conv_fires(self.goods@, self.conversion_timer@, self.locked_qty@));
        }
        if fires {
            let amount_in: i64 = CONV_CHUNK * rate_of_index(mn) / rate_of_index(mx);
            let new_src: i64 = self.goods[mx].get_qty() - CONV_CHUNK;
            self.goods[mx].quantity = new_src;
            let new_dst: i64 = self.goods[mn].get_qty() + amount_in;
            self.goods[mn].quantity = new_dst;
            self.conversion_timer[mx * 4 + mn] = CONV_COOLDOWN;
            proof {
                let pre = *old(self);
                assert(self.goods@ =~= spec_after_conversion_goods(
                    pre.goods@,
                    pre.conversion_timer@,
                    pre.locked_qty@,
                ));
                assert(self.conversion_timer@ =~= spec_after_conversion_timer(
                    pre.goods@,
                    pre.conversion_timer@,
                    pre.locked_qty@,
                ));
                assert forall|k1: int| 0 <= k1 < 4 implies (#[trigger] self.goods@[k1]).valid()
                    && self.goods@[k1].kind == spec_kind_of_index(k1) by {
                    assert(pre.goods@[k1].valid() && pre.goods@[k1].kind == spec_kind_of_index(k1));
                }
                assert forall|k1: int| 0 <= k1 < 4 implies 0 <= #[trigger] self.locked_qty@[k1]
                    <= self.goods@[k1].quantity by {
                    assert(0 <= pre.locked_qty@[k1] <= pre.goods@[k1].quantity);
                }
                assert forall|k1: int| 0 <= k1 < 16 implies 0 <= #[trigger] self.conversion_timer@[k1]
                    <= CONV_COOLDOWN by {
                    assert(0 <= pre.conversion_timer@[k1] <= CONV_COOLDOWN);
                }
            }
        } else {
            proof {
                let pre = *old(self);
                assert(self.goods@ =~= spec_after_conversion_goods(
                    pre.goods@,
                    pre.conversion_timer@,
                    pre.locked_qty@,
                ));
                assert(self.conversion_timer@ =~= spec_after_conversion_timer(
                    pre.goods@,
                    pre.conversion_timer@,
                    pre.locked_qty@,
                ));
            }
        }
    }

    /// Count one event toward every armed rebalancing cooldown.
    fn decrement_conversion_timer(&mut self)
        requires
            old(self).wf(),
        ensures
            final(self).wf(),
            final(self).conversion_timer@ == spec_dec_timer(old(self).conversion_timer@),
            *final(self) == (ZSE {
                conversion_timer: final(self).conversion_timer,
                ..*old(self)
            }),
    {
        let mut i: usize = 0;
        while i < 16
            invariant
                old(self).wf(),
                i <= 16,
                self.conversion_timer@.len() == 16,
                forall|jj: int|
                    0 <= jj < i ==> #[trigger] self.conversion_timer@[jj] == spec_dec_timer(
                        old(self).conversion_timer@,
                    )[jj],
                forall|jj: int|
                    i <= jj < 16 ==> #[trigger] self.conversion_timer@[jj]
                        == old(self).conversion_timer@[jj],
                *self == (ZSE { conversion_timer: self.conversion_timer, ..*old(self) }),
            decreases 16 - i,
        {
            if self.conversion_timer[i] > 0 {
                let v: i64 = self.conversion_timer[i] - 1;
                self.conversion_timer[i] = v;
            }
            i = i + 1;
        }
        proof {
            assert(self.conversion_timer@ =~= spec_dec_timer(old(self).conversion_timer@));
            assert forall|k1: int| 0 <= k1 < 16 implies 0 <= #[trigger] self.conversion_timer@[k1]
                <= CONV_COOLDOWN by {
                assert(0 <= old(self).conversion_timer@[k1] <= CONV_COOLDOWN);
            }
        }
    }

    /// Commit a buy reservation: the agreed price moves from `cash` into the
    /// exchange's cash holding, the agreed quantity of the reserved kind
    /// comes back as a `Good`, the slot is freed and the token spent — it is
    /// never accepted again. The buy price then drifts toward the canonical
    /// rate and an internal trade may trigger the rebalancing pass. On
    /// failure nothing changes and the error is the first failing check.
    pub fn buy(&mut self, token: Token, cash: &mut Good) -> (r: Result<Good, BuyError>)
        requires
            old(self).wf(),
            old(cash).valid(),
            old(self).goods_qty(0) + old(cash).spec_qty() <= MAX_UNITS,
        ensures
            final(self).wf(),
            final(cash).valid(),
            final(cash).spec_kind() == old(cash).spec_kind(),
            ({
                let pre = *old(self);
                let post = *final(self);
                let id = token.id as int;
                &&& (r is Ok <==> pre.buy_accepts(id, token.code@, *old(cash)))
                &&& (r is Err ==> post == pre && *final(cash) == *old(cash) && r->Err_0
                    == pre.spec_buy_err(token, *old(cash)))
                &&& (r is Ok ==> {
                    let kj = pre.buy_pos(id);
                    let k = kj.0;
                    let j = kj.1;
                    let q = pre.buy_row(k)[j].quantity;
                    let p = pre.buy_row(k)[j].price;
                    let gmid = spec_transfer(pre.goods@, k, -(q as int), p as int);
                    let lmid = pre.locked_qty@.update(k, (pre.locked(k) - q) as i64);
                    &&& r->Ok_0.spec_kind() == spec_kind_of_index(k)
                    &&& r->Ok_0.spec_qty() == q
                    &&& r->Ok_0.valid()
                    &&& final(cash).spec_qty() == old(cash).spec_qty() - p
                    &&& post.goods@ == spec_after_conversion_goods(
                        gmid,
                        pre.conversion_timer@,
                        lmid,
                    )
                    &&& post.conversion_timer@ == spec_dec_timer(
                        spec_after_conversion_timer(gmid, pre.conversion_timer@, lmid),
                    )
                    &&& post.locked_qty@ == lmid
                    &&& post.tokens_buy@ == pre.tokens_buy@.update(id, false)
                    &&& post.tokens_sell@ == pre.tokens_sell@
                    &&& post.codes_buy@ == pre.codes_buy@
                    &&& post.codes_sell@ == pre.codes_sell@
                    &&& post.lock_sell@ == pre.lock_sell@
                    &&& post.buy_row(k) == pre.buy_row(k).update(
                        j,
                        Contract { occupied: false, token_id: 0, quantity: 0, price: 0, age: 0 },
                    )
                    &&& forall|i: int|
                        0 <= i < 4 && i != k ==> #[trigger] post.lock_buy@[i] == pre.lock_buy@[i]
                    &&& post.buy_count(k) == pre.buy_count(k) - 1
                    &&& post.prices_buy@ == pre.prices_buy@.update(
                        k,
                        spec_adjust_toward(pre.buy_rate(k), spec_rate_of_index(k)) as i64,
                    )
                    &&& post.prices_sell@ == pre.prices_sell@
                    &&& post.outbox@ == pre.outbox@.push(
                        Event {
                            kind: EventKind::Bought,
                            good_kind: spec_kind_of_index(k),
                            quantity: q,
                            price: p,
                        },
                    )
                    &&& !post.buy_token_valid(id)
                })
            }),
    {
        if token.id >= self.tokens_buy.len() {
            return Err(BuyError::UnrecognizedToken { unrecognized_token: token });
        }
        if !outside::str_eq(token.code.as_str(), self.codes_buy[token.id].as_str()) {
            return Err(BuyError::UnrecognizedToken { unrecognized_token: token });
        }
        if !self.tokens_buy[token.id] {
            return Err(BuyError::ExpiredToken { expired_token: token });
        }
        let pos: (usize, usize) = self.find_buy_slot(token.id);
        let row: usize = pos.0;
        let slot: usize = pos.1;
        let agreed_quantity: i64 = self.lock_buy[row].slots[slot].quantity;
        let agreed_price: i64 = self.lock_buy[row].slots[slot].price;
        if !matches!(cash.get_kind(), GoodKind::EUR) {
            return Err(BuyError::GoodKindNotDefault { non_default_good_kind: cash.get_kind() });
        }
        if cash.get_qty() < agreed_price {
            return Err(
                BuyError::InsufficientGoodQuantity {
                    contained_quantity: cash.get_qty(),
                    pre_agreed_quantity: agreed_price,
                },
            );
        }
        let ghost pre = *self;
        let ret_kind: GoodKind = self.goods[row].get_kind();
        cash.quantity = cash.quantity - agreed_price;
        let new_cash: i64 = self.goods[0].get_qty() + agreed_price;
        self.goods[0].quantity = new_cash;
        proof {
            lemma_element_le_sums(pre.buy_row(row as int), slot as int);
            lemma_sum_bounds(pre.lock_sell@[0].slots@);
            lemma_sum_bounds(pre.lock_sell@[1].slots@);
            lemma_sum_bounds(pre.lock_sell@[2].slots@);
            lemma_sum_bounds(pre.lock_sell@[3].slots@);
        }
        let new_kind_qty: i64 = self.goods[row].get_qty() - agreed_quantity;
        self.goods[row].quantity = new_kind_qty;
        self.tokens_buy[token.id] = false;
        self.lock_buy[row].slots[slot] = Contract::empty();
        let new_count: usize = self.lock_buy[row].count - 1;
        self.lock_buy[row].count = new_count;
        let new_locked: i64 = self.locked_qty[row] - agreed_quantity;
        self.locked_qty[row] = new_locked;
        let target: i64 = rate_of_index(row);
        let cur: i64 = self.prices_buy[row];
        let adjusted: i64 = if target >= cur {
            cur + (target - cur) * 8 / 10
        } else {
            cur - (cur - target) * 8 / 10
        };
        self.prices_buy[row] = adjusted;
        proof {
            assert(self.goods@ =~= spec_transfer(
                pre.goods@,
                row as int,
                -(agreed_quantity as int),
                agreed_price as int,
            ));
            assert(self.locked_qty@ =~= pre.locked_qty@.update(
                row as int,
                (pre.locked(row as int) - agreed_quantity) as i64,
            ));
            assert(self.buy_row(row as int) =~= pre.buy_row(row as int).update(
                slot as int,
                Contract { occupied: false, token_id: 0, quantity: 0, price: 0, age: 0 },
            ));
            assert(self.tokens_buy@ =~= pre.tokens_buy@.update(token.id as int, false));
            assert(self.prices_buy@ =~= pre.prices_buy@.update(row as int, adjusted));
            assert(1 <= adjusted <= MAX_RATE);
            assert forall|i: int| 0 <= i < 4 implies 1 <= #[trigger] self.prices_buy@[i]
                <= MAX_RATE by {
                assert(1 <= pre.prices_buy@[i] <= MAX_RATE);
            }
            lemma_commit_release_wf(pre, *self, row as int, slot as int, true);
        }
        let ret = Good::new(ret_kind, agreed_quantity);
        let ghost mid = *self;
        self.internal_conversion();
        self.decrement_conversion_timer();
        self.outbox.push(
            Event {
                kind: EventKind::Bought,
                good_kind: ret_kind,
                quantity: agreed_quantity,
                price: agreed_price,
            },
        );
        proof {
            let id = token.id as int;
            let (sk, sj) = pre.buy_pos(id);
            assert(sk == row as int && sj == slot as int);
            assert(self.outbox@ =~= pre.outbox@.push(
                Event {
                    kind: EventKind::Bought,
                    good_kind: spec_kind_of_index(row as int),
                    quantity: agreed_quantity,
                    price: agreed_price,
                },
            ));
        }
        Ok(ret)
    }

    /// Commit a sell reservation: the agreed quantity moves from `good` into
    /// the exchange's holding of that kind and the agreed payout comes back
    /// as cash; the slot is freed and the token spent — it is never accepted
    /// again. The sell price then drifts toward the canonical rate and an
    /// internal trade may trigger the rebalancing pass. On failure nothing
    /// changes and the error is the first failing check.
    pub fn sell(&mut self, token: Token, good: &mut Good) -> (r: Result<Good, SellError>)
        requires
            old(self).wf(),
            old(good).valid(),
            old(self).goods_qty(spec_kind_index(old(good).spec_kind())) + old(good).spec_qty()
                <= MAX_UNITS,
        ensures
            final(self).wf(),
            final(good).valid(),
            final(good).spec_kind() == old(good).spec_kind(),
            ({
                let pre = *old(self);
                let post = *final(self);
                let id = token.id as int;
                &&& (r is Ok <==> pre.sell_accepts(id, token.code@, *old(good)))
                &&& (r is Err ==> post == pre && *final(good) == *old(good) && r->Err_0
                    == pre.spec_sell_err(token, *old(good)))
                &&& (r is Ok ==> {
                    let kj = pre.sell_pos(id);
                    let k = kj.0;
                    let j = kj.1;
                    let q = pre.sell_row(k)[j].quantity;
                    let p = pre.sell_row(k)[j].price;
                    let gmid = spec_transfer(pre.goods@, k, q as int, -(p as int));
                    let lmid = pre.locked_qty@.update(0, (pre.locked(0) - p) as i64);
                    &&& r->Ok_0.spec_kind() == GoodKind::EUR
                    &&& r->Ok_0.spec_qty() == p
                    &&& r->Ok_0.valid()
                    &&& final(good).spec_qty() == old(good).spec_qty() - q
                    &&& post.goods@ == spec_after_conversion_goods(
                        gmid,
                        pre.conversion_timer@,
                        lmid,
                    )
                    &&& post.conversion_timer@ == spec_dec_timer(
                        spec_after_conversion_timer(gmid, pre.conversion_timer@, lmid),
                    )
                    &&& post.locked_qty@ == lmid
                    &&& post.tokens_sell@ == pre.tokens_sell@.update(id, false)
                    &&& post.tokens_buy@ == pre.tokens_buy@
                    &&& post.codes_buy@ == pre.codes_buy@
                    &&& post.codes_sell@ == pre.codes_sell@
                    &&& post.lock_buy@ == pre.lock_buy@
                    &&& post.sell_row(k) == pre.sell_row(k).update(
                        j,
                        Contract { occupied: false, token_id: 0, quantity: 0, price: 0, age: 0 },
                    )
                    &&& forall|i: int|
                        0 <= i < 4 && i != k ==> #[trigger] post.lock_sell@[i] == pre.lock_sell@[i]
                    &&& post.sell_count(k) == pre.sell_count(k) - 1
                    &&& post.prices_sell@ == pre.prices_sell@.update(
                        k,
                        spec_adjust_toward(pre.sell_rate(k), spec_rate_of_index(k)) as i64,
                    )
                    &&& post.prices_buy@ == pre.prices_buy@
                    &&& post.outbox@ == pre.outbox@.push(
                        Event {
                            kind: EventKind::Sold,
                            good_kind: spec_kind_of_index(k),
                            quantity: q,
                            price: p,
                        },
                    )
                    &&& !post.sell_token_valid(id)
                })
            }),
    {
        if token.id >= self.tokens_sell.len() {
            return Err(SellError::UnrecognizedToken { unrecognized_token: token });
        }
        if !outside::str_eq(token.code.as_str(), self.codes_sell[token.id].as_str()) {
            return Err(SellError::UnrecognizedToken { unrecognized_token: token });
        }
        if !self.tokens_sell[token.id] {
            return Err(SellError::ExpiredToken { expired_token: token });
        }
        let pos: (usize, usize) = self.find_sell_slot(token.id);
        let row: usize = pos.0;
        let slot: usize = pos.1;
        let agreed_quantity: i64 = self.lock_sell[row].slots[slot].quantity;
        let agreed_price: i64 = self.lock_sell[row].slots[slot].price;
        let slot_kind: GoodKind = self.goods[row].get_kind();
        if good.get_kind() != slot_kind {
            return Err(
                SellError::WrongGoodKind {
                    wrong_good_kind: good.get_kind(),
                    pre_agreed_kind: slot_kind,
                },
            );
        }
        if good.get_qty() < agreed_quantity {
            return Err(
                SellError::InsufficientGoodQuantity {
                    contained_quantity: good.get_qty(),
                    pre_agreed_quantity: agreed_quantity,
                },
            );
        }
        let ghost pre = *self;
        good.quantity = good.quantity - agreed_quantity;
        let new_kind_qty: i64 = self.goods[row].get_qty() + agreed_quantity;
        self.goods[row].quantity = new_kind_qty;
        proof {
            lemma_element_le_sums(pre.sell_row(row as int), slot as int);
            lemma_sum_bounds(pre.lock_buy@[0].slots@);
            lemma_sum_bounds(pre.lock_sell@[0].slots@);
            lemma_sum_bounds(pre.lock_sell@[1].slots@);
            lemma_sum_bounds(pre.lock_sell@[2].slots@);
            lemma_sum_bounds(pre.lock_sell@[3].slots@);
        }
        let new_cash: i64 = self.goods[0].get_qty() - agreed_price;
        self.goods[0].quantity = new_cash;
        self.tokens_sell[token.id] = false;
        self.lock_sell[row].slots[slot] = Contract::empty();
        let new_count: usize = self.lock_sell[row].count - 1;
        self.lock_sell[row].count = new_count;
        let new_locked: i64 = self.locked_qty[0] - agreed_price;
        self.locked_qty[0] = new_locked;
        let target: i64 = rate_of_index(row);
        let cur: i64 = self.prices_sell[row];
        let adjusted: i64 = if target >= cur {
            cur + (target - cur) * 8 / 10
        } else {
            cur - (cur - target) * 8 / 10
        };
        self.prices_sell[row] = adjusted;
        proof {
            assert(self.goods@ =~= spec_transfer(
                pre.goods@,
                row as int,
                agreed_quantity as int,
                -(agreed_price as int),
            ));
            assert(self.locked_qty@ =~= pre.locked_qty@.update(
                0,
                (pre.locked(0) - agreed_price) as i64,
            ));
            assert(self.sell_row(row as int) =~= pre.sell_row(row as int).update(
                slot as int,
                Contract { occupied: false, token_id: 0, quantity: 0, price: 0, age: 0 },
            ));
            assert(self.tokens_sell@ =~= pre.tokens_sell@.update(token.id as int, false));
            assert(self.prices_sell@ =~= pre.prices_sell@.update(row as int, adjusted));
            assert(1 <= adjusted <= MAX_RATE);
            assert forall|i: int| 0 <= i < 4 implies 1 <= #[trigger] self.prices_sell@[i]
                <= MAX_RATE by {
                assert(1 <= pre.prices_sell@[i] <= MAX_RATE);
            }
            lemma_commit_release_wf(pre, *self, row as int, slot as int, false);
        }
        let ret = Good::new(GoodKind::EUR, agreed_price);
        self.internal_conversion();
        self.decrement_conversion_timer();
        self.outbox.push(
            Event {
                kind: EventKind::Sold,
                good_kind: slot_kind,
                quantity: agreed_quantity,
                price: agreed_price,
            },
        );
        proof {
            let id = token.id as int;
            let (sk, sj) = pre.sell_pos(id);
            assert(sk == row as int && sj == slot as int);
            assert(self.outbox@ =~= pre.outbox@.push(
                Event {
                    kind: EventKind::Sold,
                    good_kind: spec_kind_of_index(row as int),
                    quantity: agreed_quantity,
                    price: agreed_price,
                },
            ));
        }
        Ok(ret)
    }

    /// React to a peer exchange's event (or to a day passing, reported as a
    /// `Wait` event). Every outstanding reservation ages by one tick; any
    /// reservation reaching `MAXTIME` is reclaimed — its slot is freed, its
    /// reserved amount released and its token invalidated for good. Prices
    /// then adjust defensively toward the peer's observed unit price, and
    /// the rebalancing cooldowns count down. Holdings never change.
    #[verifier::loop_isolation(false)]
    pub fn on_event(&mut self, event: Event)
        requires
            old(self).wf(),
            event.valid(),
        ensures
            final(self).wf(),
            final(self).goods@ == old(self).goods@,
            final(self).outbox@ == old(self).outbox@,
            final(self).subscribers@ == old(self).subscribers@,
            final(self).n_buy_tokens() == old(self).n_buy_tokens(),
            final(self).n_sell_tokens() == old(self).n_sell_tokens(),
            forall|k: int|
                0 <= k < 4 ==> #[trigger] final(self).buy_row(k) == spec_sweep_row(
                    old(self).buy_row(k),
                ),
            forall|k: int|
                0 <= k < 4 ==> #[trigger] final(self).sell_row(k) == spec_sweep_row(
                    old(self).sell_row(k),
                ),
            forall|id: int|
                0 <= id < old(self).n_buy_tokens() ==> (#[trigger] final(self).tokens_buy@[id]) == (
                old(self).tokens_buy@[id] && has_slot(final(self).lock_buy@, id)),
            forall|id: int|
                0 <= id < old(self).n_sell_tokens() ==> (#[trigger] final(self).tokens_sell@[id])
                    == (old(self).tokens_sell@[id] && has_slot(final(self).lock_sell@, id)),
            final(self).prices_buy@ == spec_external_prices_buy(old(self).prices_buy@, event),
            final(self).prices_sell@ == spec_external_prices_sell(old(self).prices_sell@, event),
            final(self).conversion_timer@ == spec_dec_timer(old(self).conversion_timer@),
            forall|k: int| 0 <= k < 4 ==> #[trigger] final(self).locked(k) <= old(self).locked(k),
    {
        let ghost pre = *old(self);
        proof {
            lemma_wf_sums_nonneg(pre);
        }
        // Age the buy table, reclaiming expired reservations.
        let mut k: usize = 0;
        while k < 4
            invariant
                pre == *old(self),
                pre.wf(),
                event.valid(),
                k <= 4,
                self.goods@ == pre.goods@,
                self.prices_buy@ == pre.prices_buy@,
                self.prices_sell@ == pre.prices_sell@,
                self.lock_sell@ == pre.lock_sell@,
                self.tokens_buy@ == pre.tokens_buy@,
                self.tokens_sell@ == pre.tokens_sell@,
                self.codes_buy@ == pre.codes_buy@,
                self.codes_sell@ == pre.codes_sell@,
                self.outbox@ == pre.outbox@,
                self.subscribers@ == pre.subscribers@,
                self.conversion_timer@ == pre.conversion_timer@,
                self.lock_buy@.len() == 4,
                self.locked_qty@.len() == 4,
                forall|a: int| 0 <= a < 4 ==> (#[trigger] self.lock_buy@[a]).slots@.len() == MAXLOCK,
                forall|a: int, b: int|
                    0 <= a < k && 0 <= b < MAXLOCK ==> #[trigger] self.buy_row(a)[b]
                        == spec_sweep_slot(pre.buy_row(a)[b]),
                forall|a: int, b: int|
                    (k as int) <= a < 4 && 0 <= b < MAXLOCK ==> #[trigger] self.buy_row(a)[b]
                        == pre.buy_row(a)[b],
                forall|a: int, b: int|
                    0 <= a < 4 && 0 <= b < MAXLOCK && (#[trigger] self.buy_row(a)[b]).occupied
                        ==> 0 < self.buy_row(a)[b].quantity <= MAX_UNITS && 0 < self.buy_row(
                        a,
                    )[b].price && 0 <= self.buy_row(a)[b].age < MAXTIME && self.buy_row(
                        a,
                    )[b].token_id < pre.tokens_buy@.len(),
                forall|a: int|
                    0 <= a < 4 ==> #[trigger] self.buy_count(a) == occupied_count(self.buy_row(a)),
                forall|a: int| 1 <= a < 4 ==> #[trigger] self.locked_qty@[a] == qty_sum(self.buy_row(a)),
                self.locked_qty@[0] == qty_sum(self.buy_row(0)) + sell_reserved_of(pre.lock_sell@),
                forall|a: int| 0 <= a < 4 ==> 0 <= #[trigger] self.locked_qty@[a] <= pre.locked_qty@[a],
            decreases 4 - k,
        {
            let mut j: usize = 0;
            while j < MAXLOCK
                invariant
                    pre == *old(self),
                    pre.wf(),
                    event.valid(),
                    k < 4,
                    j <= MAXLOCK,
                    self.goods@ == pre.goods@,
                    self.prices_buy@ == pre.prices_buy@,
                    self.prices_sell@ == pre.prices_sell@,
                    self.lock_sell@ == pre.lock_sell@,
                    self.tokens_buy@ == pre.tokens_buy@,
                    self.tokens_sell@ == pre.tokens_sell@,
                    self.codes_buy@ == pre.codes_buy@,
                    self.codes_sell@ == pre.codes_sell@,
                    self.outbox@ == pre.outbox@,
                    self.subscribers@ == pre.subscribers@,
                    self.conversion_timer@ == pre.conversion_timer@,
                    self.lock_buy@.len() == 4,
                    self.locked_qty@.len() == 4,
                    forall|a: int|
                        0 <= a < 4 ==> (#[trigger] self.lock_buy@[a]).slots@.len() == MAXLOCK,
                    forall|a: int, b: int|
                        0 <= a < k && 0 <= b < MAXLOCK ==> #[trigger] self.buy_row(a)[b]
                            == spec_sweep_slot(pre.buy_row(a)[b]),
                    forall|b: int|
                        0 <= b < j ==> #[trigger] self.buy_row(k as int)[b] == spec_sweep_slot(
                            pre.buy_row(k as int)[b],
                        ),
                    forall|b: int|
                        (j as int) <= b < MAXLOCK ==> #[trigger] self.buy_row(k as int)[b]
                            == pre.buy_row(k as int)[b],
                    forall|a: int, b: int|
                        (k as int) < a < 4 && 0 <= b < MAXLOCK ==> #[trigger] self.buy_row(a)[b]
                            == pre.buy_row(a)[b],
                    forall|a: int, b: int|
                        0 <= a < 4 && 0 <= b < MAXLOCK && (#[trigger] self.buy_row(a)[b]).occupied
                            ==> 0 < self.buy_row(a)[b].quantity <= MAX_UNITS && 0 < self.buy_row(
                            a,
                        )[b].price && 0 <= self.buy_row(a)[b].age < MAXTIME && self.buy_row(
                            a,
                        )[b].token_id < pre.tokens_buy@.len(),
                    forall|a: int|
                        0 <= a < 4 ==> #[trigger] self.buy_count(a) == occupied_count(
                            self.buy_row(a),
                        ),
                    forall|a: int|
                        1 <= a < 4 ==> #[trigger] self.locked_qty@[a] == qty_sum(self.buy_row(a)),
                    self.locked_qty@[0] == qty_sum(self.buy_row(0)) + sell_reserved_of(
                        pre.lock_sell@,
                    ),
                    forall|a: int|
                        0 <= a < 4 ==> 0 <= #[trigger] self.locked_qty@[a] <= pre.locked_qty@[a],
                decreases MAXLOCK - j,
            {
                let ghost cur = *self;
                let c: Contract = self.lock_buy[k].slots[j];
                proof {
                    assert(c == self.buy_row(k as int)[j as int]);
                }
                if c.occupied {
                    proof {
                        assert(0 < c.quantity <= MAX_UNITS && 0 < c.price && 0 <= c.age < MAXTIME);
                    }
                    if c.age + 1 >= MAXTIME {
                        let ghost newc = Contract {
                            occupied: false,
                            token_id: 0,
                            quantity: 0,
                            price: 0,
                            age: 0,
                        };
                        proof {
                            lemma_element_le_sums(self.buy_row(k as int), j as int);
                            assert(self.buy_count(k as int) == occupied_count(
                                self.buy_row(k as int),
                            ));
                            assert(self.lock_buy@[k as int].count >= 1);
                            lemma_sum_update(self.buy_row(k as int), j as int, newc);
                        }
                        self.lock_buy[k].slots[j] = Contract::empty();
                        let nc: usize = self.lock_buy[k].count - 1;
                        self.lock_buy[k].count = nc;
                        let nl: i64 = self.locked_qty[k] - c.quantity;
                        self.locked_qty[k] = nl;
                    proof {
                        assert(self.buy_row(k as int) =~= cur.buy_row(k as int).update(
                            j as int,
                            newc,
                        ));
                        assert forall|a: int| 0 <= a < 4 && a != k as int implies
                            #[trigger] self.lock_buy@[a] == cur.lock_buy@[a] by {}
                        assert forall|a: int, b: int|
                            0 <= a < 4 && 0 <= b < MAXLOCK && !(a == k as int && b == j as int)
                                implies #[trigger] self.buy_row(a)[b] == cur.buy_row(a)[b] by {
                            if a != k as int {
                                assert(self.lock_buy@[a] == cur.lock_buy@[a]);
                            } else {
                                assert(self.buy_row(a) == cur.buy_row(a).update(j as int, newc));
                            }
                        }
                        assert(self.buy_row(k as int)[j as int] == newc);
                        assert(cur.buy_row(k as int)[j as int] == pre.buy_row(k as int)[j as int]);
                        assert(self.buy_row(k as int)[j as int] == spec_sweep_slot(
                            pre.buy_row(k as int)[j as int],
                        ));
                        assert forall|a: int, b: int|
                            0 <= a < k as int && 0 <= b < MAXLOCK implies
                            #[trigger] self.buy_row(a)[b] == spec_sweep_slot(pre.buy_row(a)[b]) by {
                            assert(self.buy_row(a)[b] == cur.buy_row(a)[b]);
                            assert(cur.buy_row(a)[b] == spec_sweep_slot(pre.buy_row(a)[b]));
                        }
                        assert forall|b: int|
                            0 <= b < (j as int) + 1 implies #[trigger] self.buy_row(k as int)[b]
                                == spec_sweep_slot(pre.buy_row(k as int)[b]) by {
                            if b < j as int {
                                assert(self.buy_row(k as int)[b] == cur.buy_row(k as int)[b]);
                                assert(cur.buy_row(k as int)[b] == spec_sweep_slot(
                                    pre.buy_row(k as int)[b],
                                ));
                            }
                        }
                        assert forall|b: int|
                            (j as int) + 1 <= b < MAXLOCK implies #[trigger] self.buy_row(k as int)[b]
                                == pre.buy_row(k as int)[b] by {
                            assert(self.buy_row(k as int)[b] == cur.buy_row(k as int)[b]);
                            assert(cur.buy_row(k as int)[b] == pre.buy_row(k as int)[b]);
                        }
                        assert forall|a: int, b: int|
                            (k as int) < a < 4 && 0 <= b < MAXLOCK implies
                            #[trigger] self.buy_row(a)[b] == pre.buy_row(a)[b] by {
                            assert(self.buy_row(a)[b] == cur.buy_row(a)[b]);
                            assert(cur.buy_row(a)[b] == pre.buy_row(a)[b]);
                        }
                        assert forall|a: int, b: int|
                            0 <= a < 4 && 0 <= b < MAXLOCK && (#[trigger] self.buy_row(a)[b]).occupied
                                implies 0 < self.buy_row(a)[b].quantity <= MAX_UNITS && 0 < self.buy_row(a)[b].price
                                && 0 <= self.buy_row(a)[b].age < MAXTIME && self.buy_row(a)[b].token_id
                                < pre.tokens_buy@.len() by {
                            if !(a == k as int && b == j as int) {
                                assert(self.buy_row(a)[b] == cur.buy_row(a)[b]);
                            }
                        }
                        assert forall|a: int| 0 <= a < 4 implies #[trigger] self.buy_count(a)
                            == occupied_count(self.buy_row(a)) by {
                            if a != k as int {
                                assert(self.buy_count(a) == cur.buy_count(a));
                                assert(self.buy_row(a) == cur.buy_row(a));
                                assert(cur.buy_count(a) == occupied_count(cur.buy_row(a)));
                            } else {
                                assert(self.buy_row(a) == cur.buy_row(a).update(j as int, newc));
                                assert(cur.buy_row(a)[j as int] == c);
                                assert(cur.buy_count(a) == occupied_count(cur.buy_row(a)));
                            }
                        }
                        assert forall|a: int| 1 <= a < 4 implies #[trigger] self.locked_qty@[a]
                            == qty_sum(self.buy_row(a)) by {
                            if a != k as int {
                                assert(self.locked_qty@[a] == cur.locked_qty@[a]);
                                assert(self.buy_row(a) == cur.buy_row(a));
                                assert(cur.locked_qty@[a] == qty_sum(cur.buy_row(a)));
                            } else {
                                assert(self.buy_row(a) == cur.buy_row(a).update(j as int, newc));
                                assert(cur.locked_qty@[a] == qty_sum(cur.buy_row(a)));
                            }
                        }
                        assert(self.locked_qty@[0] == qty_sum(self.buy_row(0)) + sell_reserved_of(
                            pre.lock_sell@,
                        )) by {
                            if k as int != 0 {
                                assert(self.locked_qty@[0] == cur.locked_qty@[0]);
                                assert(self.buy_row(0) == cur.buy_row(0));
                            } else {
                                assert(self.buy_row(0) == cur.buy_row(0).update(j as int, newc));
                            }
                        }
                        assert forall|a: int| 0 <= a < 4 implies 0 <= #[trigger] self.locked_qty@[a]
                            <= pre.locked_qty@[a] by {
                            assert(0 <= cur.locked_qty@[a] <= pre.locked_qty@[a]);
                            if a != k as int {
                                assert(self.locked_qty@[a] == cur.locked_qty@[a]);
                            } else {
                                assert(c.quantity <= qty_sum(cur.buy_row(a)));
                                if a == 0 {
                                    assert(cur.locked_qty@[0] == qty_sum(cur.buy_row(0))
                                        + sell_reserved_of(pre.lock_sell@));
                                    assert(price_sum(pre.sell_row(0)) >= 0);
                                    assert(price_sum(pre.sell_row(1)) >= 0);
                                    assert(price_sum(pre.sell_row(2)) >= 0);
                                    assert(price_sum(pre.sell_row(3)) >= 0);
                                } else {
                                    assert(cur.locked_qty@[a] == qty_sum(cur.buy_row(a)));
                                }
                            }
                        }
                    }

                    } else {
                        let ghost newc = Contract {
                            occupied: true,
                            token_id: c.token_id,
                            quantity: c.quantity,
                            price: c.price,
                            age: (c.age + 1) as i64,
                        };
                        proof {
                            lemma_element_le_sums(self.buy_row(k as int), j as int);
                            lemma_sum_update(self.buy_row(k as int), j as int, newc);
                        }
                        self.lock_buy[k].slots[j] = Contract {
                            occupied: true,
                            token_id: c.token_id,
                            quantity: c.quantity,
                            price: c.price,
                            age: c.age + 1,
                        };
                    proof {
                        assert(self.buy_row(k as int) =~= cur.buy_row(k as int).update(
                            j as int,
                            newc,
                        ));
                        assert forall|a: int| 0 <= a < 4 && a != k as int implies
                            #[trigger] self.lock_buy@[a] == cur.lock_buy@[a] by {}
                        assert forall|a: int, b: int|
                            0 <= a < 4 && 0 <= b < MAXLOCK && !(a == k as int && b == j as int)
                                implies #[trigger] self.buy_row(a)[b] == cur.buy_row(a)[b] by {
                            if a != k as int {
                                assert(self.lock_buy@[a] == cur.lock_buy@[a]);
                            } else {
                                assert(self.buy_row(a) == cur.buy_row(a).update(j as int, newc));
                            }
                        }
                        assert(self.buy_row(k as int)[j as int] == newc);
                        assert(cur.buy_row(k as int)[j as int] == pre.buy_row(k as int)[j as int]);
                        assert(self.buy_row(k as int)[j as int] == spec_sweep_slot(
                            pre.buy_row(k as int)[j as int],
                        ));
                        assert forall|a: int, b: int|
                            0 <= a < k as int && 0 <= b < MAXLOCK implies
                            #[trigger] self.buy_row(a)[b] == spec_sweep_slot(pre.buy_row(a)[b]) by {
                            assert(self.buy_row(a)[b] == cur.buy_row(a)[b]);
                            assert(cur.buy_row(a)[b] == spec_sweep_slot(pre.buy_row(a)[b]));
                        }
                        assert forall|b: int|
                            0 <= b < (j as int) + 1 implies #[trigger] self.buy_row(k as int)[b]
                                == spec_sweep_slot(pre.buy_row(k as int)[b]) by {
                            if b < j as int {
                                assert(self.buy_row(k as int)[b] == cur.buy_row(k as int)[b]);
                                assert(cur.buy_row(k as int)[b] == spec_sweep_slot(
                                    pre.buy_row(k as int)[b],
                                ));
                            }
                        }
                        assert forall|b: int|
                            (j as int) + 1 <= b < MAXLOCK implies #[trigger] self.buy_row(k as int)[b]
                                == pre.buy_row(k as int)[b] by {
                            assert(self.buy_row(k as int)[b] == cur.buy_row(k as int)[b]);
                            assert(cur.buy_row(k as int)[b] == pre.buy_row(k as int)[b]);
                        }
                        assert forall|a: int, b: int|
                            (k as int) < a < 4 && 0 <= b < MAXLOCK implies
                            #[trigger] self.buy_row(a)[b] == pre.buy_row(a)[b] by {
                            assert(self.buy_row(a)[b] == cur.buy_row(a)[b]);
                            assert(cur.buy_row(a)[b] == pre.buy_row(a)[b]);
                        }
                        assert forall|a: int, b: int|
                            0 <= a < 4 && 0 <= b < MAXLOCK && (#[trigger] self.buy_row(a)[b]).occupied
                                implies 0 < self.buy_row(a)[b].quantity <= MAX_UNITS && 0 < self.buy_row(a)[b].price
                                && 0 <= self.buy_row(a)[b].age < MAXTIME && self.buy_row(a)[b].token_id
                                < pre.tokens_buy@.len() by {
                            if !(a == k as int && b == j as int) {
                                assert(self.buy_row(a)[b] == cur.buy_row(a)[b]);
                            }
                        }
                        assert forall|a: int| 0 <= a < 4 implies #[trigger] self.buy_count(a)
                            == occupied_count(self.buy_row(a)) by {
                            if a != k as int {
                                assert(self.buy_count(a) == cur.buy_count(a));
                                assert(self.buy_row(a) == cur.buy_row(a));
                                assert(cur.buy_count(a) == occupied_count(cur.buy_row(a)));
                            } else {
                                assert(self.buy_row(a) == cur.buy_row(a).update(j as int, newc));
                                assert(cur.buy_row(a)[j as int] == c);
                                assert(cur.buy_count(a) == occupied_count(cur.buy_row(a)));
                            }
                        }
                        assert forall|a: int| 1 <= a < 4 implies #[trigger] self.locked_qty@[a]
                            == qty_sum(self.buy_row(a)) by {
                            if a != k as int {
                                assert(self.locked_qty@[a] == cur.locked_qty@[a]);
                                assert(self.buy_row(a) == cur.buy_row(a));
                                assert(cur.locked_qty@[a] == qty_sum(cur.buy_row(a)));
                            } else {
                                assert(self.buy_row(a) == cur.buy_row(a).update(j as int, newc));
                                assert(cur.locked_qty@[a] == qty_sum(cur.buy_row(a)));
                            }
                        }
                        assert(self.locked_qty@[0] == qty_sum(self.buy_row(0)) + sell_reserved_of(
                            pre.lock_sell@,
                        )) by {
                            if k as int != 0 {
                                assert(self.locked_qty@[0] == cur.locked_qty@[0]);
                                assert(self.buy_row(0) == cur.buy_row(0));
                            } else {
                                assert(self.buy_row(0) == cur.buy_row(0).update(j as int, newc));
                            }
                        }
                        assert forall|a: int| 0 <= a < 4 implies 0 <= #[trigger] self.locked_qty@[a]
                            <= pre.locked_qty@[a] by {
                            assert(0 <= cur.locked_qty@[a] <= pre.locked_qty@[a]);
                            if a != k as int {
                                assert(self.locked_qty@[a] == cur.locked_qty@[a]);
                            } else {
                                assert(c.quantity <= qty_sum(cur.buy_row(a)));
                                if a == 0 {
                                    assert(cur.locked_qty@[0] == qty_sum(cur.buy_row(0))
                                        + sell_reserved_of(pre.lock_sell@));
                                    assert(price_sum(pre.sell_row(0)) >= 0);
                                    assert(price_sum(pre.sell_row(1)) >= 0);
                                    assert(price_sum(pre.sell_row(2)) >= 0);
                                    assert(price_sum(pre.sell_row(3)) >= 0);
                                } else {
                                    assert(cur.locked_qty@[a] == qty_sum(cur.buy_row(a)));
                                }
                            }
                        }
                    }

                    }
                }
                j = j + 1;
            }
            k = k + 1;
        }
        let ghost afterbuy = *self;
        proof {
            assert forall|a: int, b: int| 0 <= a < 4 && 0 <= b < MAXLOCK implies
                #[trigger] afterbuy.buy_row(a)[b] == spec_sweep_slot(pre.buy_row(a)[b]) by {
                assert(afterbuy.buy_row(a)[b] == self.buy_row(a)[b]);
            }
            assert forall|a: int, b: int|
                0 <= a < 4 && 0 <= b < MAXLOCK && (#[trigger] afterbuy.buy_row(a)[b]).occupied
                    implies 0 < afterbuy.buy_row(a)[b].quantity <= MAX_UNITS && 0
                    < afterbuy.buy_row(a)[b].price && 0 <= afterbuy.buy_row(a)[b].age < MAXTIME
                    && afterbuy.buy_row(a)[b].token_id < pre.tokens_buy@.len() by {
                assert(afterbuy.buy_row(a)[b] == self.buy_row(a)[b]);
            }
            assert forall|a: int| 0 <= a < 4 implies #[trigger] afterbuy.buy_count(a)
                == occupied_count(afterbuy.buy_row(a)) by {
                assert(afterbuy.buy_count(a) == self.buy_count(a));
                assert(afterbuy.buy_row(a) == self.buy_row(a));
            }
        }
        // Age the sell table the same way.
        let mut k2: usize = 0;
        while k2 < 4
            invariant
                pre == *old(self),
                pre.wf(),
                event.valid(),
                k2 <= 4,
                self.goods@ == pre.goods@,
                self.prices_buy@ == pre.prices_buy@,
                self.prices_sell@ == pre.prices_sell@,
                self.lock_buy@ == afterbuy.lock_buy@,
                self.tokens_buy@ == pre.tokens_buy@,
                self.tokens_sell@ == pre.tokens_sell@,
                self.codes_buy@ == pre.codes_buy@,
                self.codes_sell@ == pre.codes_sell@,
                self.outbox@ == pre.outbox@,
                self.subscribers@ == pre.subscribers@,
                self.conversion_timer@ == pre.conversion_timer@,
                afterbuy.lock_buy@.len() == 4,
                forall|a: int|
                    0 <= a < 4 ==> (#[trigger] afterbuy.lock_buy@[a]).slots@.len() == MAXLOCK,
                forall|a: int, b: int|
                    0 <= a < 4 && 0 <= b < MAXLOCK ==> #[trigger] afterbuy.buy_row(a)[b]
                        == spec_sweep_slot(pre.buy_row(a)[b]),
                forall|a: int, b: int|
                    0 <= a < 4 && 0 <= b < MAXLOCK && (#[trigger] afterbuy.buy_row(a)[b]).occupied
                        ==> 0 < afterbuy.buy_row(a)[b].quantity <= MAX_UNITS && 0
                        < afterbuy.buy_row(a)[b].price && 0 <= afterbuy.buy_row(a)[b].age < MAXTIME
                        && afterbuy.buy_row(a)[b].token_id < pre.tokens_buy@.len(),
                forall|a: int|
                    0 <= a < 4 ==> #[trigger] afterbuy.buy_count(a) == occupied_count(
                        afterbuy.buy_row(a),
                    ),
                forall|a: int|
                    1 <= a < 4 ==> #[trigger] self.locked_qty@[a] == qty_sum(afterbuy.buy_row(a)),
                self.lock_sell@.len() == 4,
                self.locked_qty@.len() == 4,
                forall|a: int| 0 <= a < 4 ==> (#[trigger] self.lock_sell@[a]).slots@.len() == MAXLOCK,
                forall|a: int, b: int|
                    0 <= a < k2 && 0 <= b < MAXLOCK ==> #[trigger] self.sell_row(a)[b]
                        == spec_sweep_slot(pre.sell_row(a)[b]),
                forall|a: int, b: int|
                    (k2 as int) <= a < 4 && 0 <= b < MAXLOCK ==> #[trigger] self.sell_row(a)[b]
                        == pre.sell_row(a)[b],
                forall|a: int, b: int|
                    0 <= a < 4 && 0 <= b < MAXLOCK && (#[trigger] self.sell_row(a)[b]).occupied
                        ==> 0 < self.sell_row(a)[b].quantity && 0 < self.sell_row(a)[b].price
                        <= MAX_UNITS && 0 <= self.sell_row(a)[b].age < MAXTIME && self.sell_row(
                        a,
                    )[b].token_id < pre.tokens_sell@.len(),
                forall|a: int|
                    0 <= a < 4 ==> #[trigger] self.sell_count(a) == occupied_count(
                        self.sell_row(a),
                    ),
                self.locked_qty@[0] == qty_sum(afterbuy.buy_row(0)) + sell_reserved_of(
                    self.lock_sell@,
                ),
                forall|a: int|
                    0 <= a < 4 ==> 0 <= #[trigger] self.locked_qty@[a] <= pre.locked_qty@[a],
            decreases 4 - k2,
        {
            let mut j: usize = 0;
            while j < MAXLOCK
                invariant
                    pre == *old(self),
                    pre.wf(),
                    event.valid(),
                    k2 < 4,
                    j <= MAXLOCK,
                    self.goods@ == pre.goods@,
                    self.prices_buy@ == pre.prices_buy@,
                    self.prices_sell@ == pre.prices_sell@,
                    self.lock_buy@ == afterbuy.lock_buy@,
                    self.tokens_buy@ == pre.tokens_buy@,
                    self.tokens_sell@ == pre.tokens_sell@,
                    self.codes_buy@ == pre.codes_buy@,
                    self.codes_sell@ == pre.codes_sell@,
                    self.outbox@ == pre.outbox@,
                    self.subscribers@ == pre.subscribers@,
                    self.conversion_timer@ == pre.conversion_timer@,
                    afterbuy.lock_buy@.len() == 4,
                    forall|a: int|
                        0 <= a < 4 ==> (#[trigger] afterbuy.lock_buy@[a]).slots@.len() == MAXLOCK,
                    forall|a: int, b: int|
                        0 <= a < 4 && 0 <= b < MAXLOCK ==> #[trigger] afterbuy.buy_row(a)[b]
                            == spec_sweep_slot(pre.buy_row(a)[b]),
                    forall|a: int, b: int|
                        0 <= a < 4 && 0 <= b < MAXLOCK && (#[trigger] afterbuy.buy_row(
                            a,
                        )[b]).occupied ==> 0 < afterbuy.buy_row(a)[b].quantity <= MAX_UNITS && 0
                            < afterbuy.buy_row(a)[b].price && 0 <= afterbuy.buy_row(a)[b].age
                            < MAXTIME && afterbuy.buy_row(a)[b].token_id < pre.tokens_buy@.len(),
                    forall|a: int|
                        0 <= a < 4 ==> #[trigger] afterbuy.buy_count(a) == occupied_count(
                            afterbuy.buy_row(a),
                        ),
                    forall|a: int|
                        1 <= a < 4 ==> #[trigger] self.locked_qty@[a] == qty_sum(
                            afterbuy.buy_row(a),
                        ),
                    self.lock_sell@.len() == 4,
                    self.locked_qty@.len() == 4,
                    forall|a: int|
                        0 <= a < 4 ==> (#[trigger] self.lock_sell@[a]).slots@.len() == MAXLOCK,
                    forall|a: int, b: int|
                        0 <= a < k2 && 0 <= b < MAXLOCK ==> #[trigger] self.sell_row(a)[b]
                            == spec_sweep_slot(pre.sell_row(a)[b]),
                    forall|b: int|
                        0 <= b < j ==> #[trigger] self.sell_row(k2 as int)[b] == spec_sweep_slot(
                            pre.sell_row(k2 as int)[b],
                        ),
                    forall|b: int|
                        (j as int) <= b < MAXLOCK ==> #[trigger] self.sell_row(k2 as int)[b]
                            == pre.sell_row(k2 as int)[b],
                    forall|a: int, b: int|
                        (k2 as int) < a < 4 && 0 <= b < MAXLOCK ==> #[trigger] self.sell_row(a)[b]
                            == pre.sell_row(a)[b],
                    forall|a: int, b: int|
                        0 <= a < 4 && 0 <= b < MAXLOCK && (#[trigger] self.sell_row(a)[b]).occupied
                            ==> 0 < self.sell_row(a)[b].quantity && 0 < self.sell_row(a)[b].price
                            <= MAX_UNITS && 0 <= self.sell_row(a)[b].age < MAXTIME && self.sell_row(
                            a,
                        )[b].token_id < pre.tokens_sell@.len(),
                    forall|a: int|
                        0 <= a < 4 ==> #[trigger] self.sell_count(a) == occupied_count(
                            self.sell_row(a),
                        ),
                    self.locked_qty@[0] == qty_sum(afterbuy.buy_row(0)) + sell_reserved_of(
                        self.lock_sell@,
                    ),
                    forall|a: int|
                        0 <= a < 4 ==> 0 <= #[trigger] self.locked_qty@[a] <= pre.locked_qty@[a],
                decreases MAXLOCK - j,
            {
                let ghost cur = *self;
                let c: Contract = self.lock_sell[k2].slots[j];
                proof {
                    assert(c == self.sell_row(k2 as int)[j as int]);
                }
                if c.occupied {
                    proof {
                        assert(0 < c.quantity && 0 < c.price <= MAX_UNITS && 0 <= c.age < MAXTIME);
                    }
                    if c.age + 1 >= MAXTIME {
                        let ghost newc = Contract {
                            occupied: false,
                            token_id: 0,
                            quantity: 0,
                            price: 0,
                            age: 0,
                        };
                        proof {
                            lemma_element_le_sums(self.sell_row(k2 as int), j as int);
                            assert(self.sell_count(k2 as int) == occupied_count(
                                self.sell_row(k2 as int),
                            ));
                            assert(self.lock_sell@[k2 as int].count >= 1);
                            lemma_sum_bounds(self.sell_row(0));
                            lemma_sum_bounds(self.sell_row(1));
                            lemma_sum_bounds(self.sell_row(2));
                            lemma_sum_bounds(self.sell_row(3));
                            lemma_sum_bounds(afterbuy.buy_row(0));
                            lemma_sum_update(self.sell_row(k2 as int), j as int, newc);
                        }
                        self.lock_sell[k2].slots[j] = Contract::empty();
                        let nc: usize = self.lock_sell[k2].count - 1;
                        self.lock_sell[k2].count = nc;
                        let nl: i64 = self.locked_qty[0] - c.price;
                        self.locked_qty[0] = nl;
                    proof {
                        assert(self.sell_row(k2 as int) =~= cur.sell_row(k2 as int).update(
                            j as int,
                            newc,
                        ));
                        assert forall|a: int| 0 <= a < 4 && a != k2 as int implies
                            #[trigger] self.lock_sell@[a] == cur.lock_sell@[a] by {}
                        assert forall|a: int, b: int|
                            0 <= a < 4 && 0 <= b < MAXLOCK && !(a == k2 as int && b == j as int)
                                implies #[trigger] self.sell_row(a)[b] == cur.sell_row(a)[b] by {
                            if a != k2 as int {
                                assert(self.lock_sell@[a] == cur.lock_sell@[a]);
                            } else {
                                assert(self.sell_row(a) == cur.sell_row(a).update(j as int, newc));
                            }
                        }
                        assert(self.sell_row(k2 as int)[j as int] == newc);
                        assert(cur.sell_row(k2 as int)[j as int] == pre.sell_row(k2 as int)[j as int]);
                        assert(self.sell_row(k2 as int)[j as int] == spec_sweep_slot(
                            pre.sell_row(k2 as int)[j as int],
                        ));
                        assert forall|a: int, b: int|
                            0 <= a < k2 as int && 0 <= b < MAXLOCK implies
                            #[trigger] self.sell_row(a)[b] == spec_sweep_slot(pre.sell_row(a)[b]) by {
                            assert(self.sell_row(a)[b] == cur.sell_row(a)[b]);
                            assert(cur.sell_row(a)[b] == spec_sweep_slot(pre.sell_row(a)[b]));
                        }
                        assert forall|b: int|
                            0 <= b < (j as int) + 1 implies #[trigger] self.sell_row(k2 as int)[b]
                                == spec_sweep_slot(pre.sell_row(k2 as int)[b]) by {
                            if b < j as int {
                                assert(self.sell_row(k2 as int)[b] == cur.sell_row(k2 as int)[b]);
                                assert(cur.sell_row(k2 as int)[b] == spec_sweep_slot(
                                    pre.sell_row(k2 as int)[b],
                                ));
                            }
                        }
                        assert forall|b: int|
                            (j as int) + 1 <= b < MAXLOCK implies #[trigger] self.sell_row(k2 as int)[b]
                                == pre.sell_row(k2 as int)[b] by {
                            assert(self.sell_row(k2 as int)[b] == cur.sell_row(k2 as int)[b]);
                            assert(cur.sell_row(k2 as int)[b] == pre.sell_row(k2 as int)[b]);
                        }
                        assert forall|a: int, b: int|
                            (k2 as int) < a < 4 && 0 <= b < MAXLOCK implies
                            #[trigger] self.sell_row(a)[b] == pre.sell_row(a)[b] by {
                            assert(self.sell_row(a)[b] == cur.sell_row(a)[b]);
                            assert(cur.sell_row(a)[b] == pre.sell_row(a)[b]);
                        }
                        assert forall|a: int, b: int|
                            0 <= a < 4 && 0 <= b < MAXLOCK && (#[trigger] self.sell_row(a)[b]).occupied
                                implies 0 < self.sell_row(a)[b].quantity && 0 < self.sell_row(a)[b].price <= MAX_UNITS
                                && 0 <= self.sell_row(a)[b].age < MAXTIME && self.sell_row(a)[b].token_id
                                < pre.tokens_sell@.len() by {
                            if !(a == k2 as int && b == j as int) {
                                assert(self.sell_row(a)[b] == cur.sell_row(a)[b]);
                            }
                        }
                        assert forall|a: int| 0 <= a < 4 implies #[trigger] self.sell_count(a)
                            == occupied_count(self.sell_row(a)) by {
                            if a != k2 as int {
                                assert(self.sell_count(a) == cur.sell_count(a));
                                assert(self.sell_row(a) == cur.sell_row(a));
                                assert(cur.sell_count(a) == occupied_count(cur.sell_row(a)));
                            } else {
                                assert(self.sell_row(a) == cur.sell_row(a).update(j as int, newc));
                                assert(cur.sell_row(a)[j as int] == c);
                                assert(cur.sell_count(a) == occupied_count(cur.sell_row(a)));
                            }
                        }
                        assert forall|a: int| 1 <= a < 4 implies #[trigger] self.locked_qty@[a]
                            == qty_sum(afterbuy.buy_row(a)) by {
                            assert(self.locked_qty@[a] == cur.locked_qty@[a]);
                            assert(cur.locked_qty@[a] == qty_sum(afterbuy.buy_row(a)));
                        }
                        assert(sell_reserved_of(self.lock_sell@) == sell_reserved_of(
                            cur.lock_sell@,
                        ) - price_contrib(cur.sell_row(k2 as int)[j as int]) + price_contrib(
                            newc,
                        )) by {
                            assert forall|a: int| 0 <= a < 4 && a != k2 as int implies price_sum(
                                (#[trigger] self.lock_sell@[a]).slots@,
                            ) == price_sum(cur.lock_sell@[a].slots@) by {
                                assert(self.lock_sell@[a] == cur.lock_sell@[a]);
                            }
                            assert(self.sell_row(k2 as int) == cur.sell_row(k2 as int).update(
                                j as int,
                                newc,
                            ));
                        }
                        assert(cur.locked_qty@[0] == qty_sum(afterbuy.buy_row(0))
                            + sell_reserved_of(cur.lock_sell@));
                        assert(cur.sell_row(k2 as int)[j as int] == c);
                        assert(self.locked_qty@[0] == qty_sum(afterbuy.buy_row(0))
                            + sell_reserved_of(self.lock_sell@));
                        assert forall|a: int| 0 <= a < 4 implies 0 <= #[trigger] self.locked_qty@[a]
                            <= pre.locked_qty@[a] by {
                            assert(0 <= cur.locked_qty@[a] <= pre.locked_qty@[a]);
                            if a != 0 {
                                assert(self.locked_qty@[a] == cur.locked_qty@[a]);
                            } else {
                                assert(c.price <= price_sum(cur.sell_row(k2 as int)));
                                assert(price_sum(cur.sell_row(0)) >= 0);
                                assert(price_sum(cur.sell_row(1)) >= 0);
                                assert(price_sum(cur.sell_row(2)) >= 0);
                                assert(price_sum(cur.sell_row(3)) >= 0);
                                assert(qty_sum(afterbuy.buy_row(0)) >= 0);
                                assert(cur.locked_qty@[0] == qty_sum(afterbuy.buy_row(0))
                                    + sell_reserved_of(cur.lock_sell@));
                            }
                        }
                    }

                    } else {
                        let ghost newc = Contract {
                            occupied: true,
                            token_id: c.token_id,
                            quantity: c.quantity,
                            price: c.price,
                            age: (c.age + 1) as i64,
                        };
                        proof {
                            lemma_element_le_sums(self.sell_row(k2 as int), j as int);
                            lemma_sum_bounds(self.sell_row(0));
                            lemma_sum_bounds(self.sell_row(1));
                            lemma_sum_bounds(self.sell_row(2));
                            lemma_sum_bounds(self.sell_row(3));
                            lemma_sum_bounds(afterbuy.buy_row(0));
                            lemma_sum_update(self.sell_row(k2 as int), j as int, newc);
                        }
                        self.lock_sell[k2].slots[j] = Contract {
                            occupied: true,
                            token_id: c.token_id,
                            quantity: c.quantity,
                            price: c.price,
                            age: c.age + 1,
                        };
                    proof {
                        assert(self.sell_row(k2 as int) =~= cur.sell_row(k2 as int).update(
                            j as int,
                            newc,
                        ));
                        assert forall|a: int| 0 <= a < 4 && a != k2 as int implies
                            #[trigger] self.lock_sell@[a] == cur.lock_sell@[a] by {}
                        assert forall|a: int, b: int|
                            0 <= a < 4 && 0 <= b < MAXLOCK && !(a == k2 as int && b == j as int)
                                implies #[trigger] self.sell_row(a)[b] == cur.sell_row(a)[b] by {
                            if a != k2 as int {
                                assert(self.lock_sell@[a] == cur.lock_sell@[a]);
                            } else {
                                assert(self.sell_row(a) == cur.sell_row(a).update(j as int, newc));
                            }
                        }
                        assert(self.sell_row(k2 as int)[j as int] == newc);
                        assert(cur.sell_row(k2 as int)[j as int] == pre.sell_row(k2 as int)[j as int]);
                        assert(self.sell_row(k2 as int)[j as int] == spec_sweep_slot(
                            pre.sell_row(k2 as int)[j as int],
                        ));
                        assert forall|a: int, b: int|
                            0 <= a < k2 as int && 0 <= b < MAXLOCK implies
                            #[trigger] self.sell_row(a)[b] == spec_sweep_slot(pre.sell_row(a)[b]) by {
                            assert(self.sell_row(a)[b] == cur.sell_row(a)[b]);
                            assert(cur.sell_row(a)[b] == spec_sweep_slot(pre.sell_row(a)[b]));
                        }
                        assert forall|b: int|
                            0 <= b < (j as int) + 1 implies #[trigger] self.sell_row(k2 as int)[b]
                                == spec_sweep_slot(pre.sell_row(k2 as int)[b]) by {
                            if b < j as int {
                                assert(self.sell_row(k2 as int)[b] == cur.sell_row(k2 as int)[b]);
                                assert(cur.sell_row(k2 as int)[b] == spec_sweep_slot(
                                    pre.sell_row(k2 as int)[b],
                                ));
                            }
                        }
                        assert forall|b: int|
                            (j as int) + 1 <= b < MAXLOCK implies #[trigger] self.sell_row(k2 as int)[b]
                                == pre.sell_row(k2 as int)[b] by {
                            assert(self.sell_row(k2 as int)[b] == cur.sell_row(k2 as int)[b]);
                            assert(cur.sell_row(k2 as int)[b] == pre.sell_row(k2 as int)[b]);
                        }
                        assert forall|a: int, b: int|
                            (k2 as int) < a < 4 && 0 <= b < MAXLOCK implies
                            #[trigger] self.sell_row(a)[b] == pre.sell_row(a)[b] by {
                            assert(self.sell_row(a)[b] == cur.sell_row(a)[b]);
                            assert(cur.sell_row(a)[b] == pre.sell_row(a)[b]);
                        }
                        assert forall|a: int, b: int|
                            0 <= a < 4 && 0 <= b < MAXLOCK && (#[trigger] self.sell_row(a)[b]).occupied
                                implies 0 < self.sell_row(a)[b].quantity && 0 < self.sell_row(a)[b].price <= MAX_UNITS
                                && 0 <= self.sell_row(a)[b].age < MAXTIME && self.sell_row(a)[b].token_id
                                < pre.tokens_sell@.len() by {
                            if !(a == k2 as int && b == j as int) {
                                assert(self.sell_row(a)[b] == cur.sell_row(a)[b]);
                            }
                        }
                        assert forall|a: int| 0 <= a < 4 implies #[trigger] self.sell_count(a)
                            == occupied_count(self.sell_row(a)) by {
                            if a != k2 as int {
                                assert(self.sell_count(a) == cur.sell_count(a));
                                assert(self.sell_row(a) == cur.sell_row(a));
                                assert(cur.sell_count(a) == occupied_count(cur.sell_row(a)));
                            } else {
                                assert(self.sell_row(a) == cur.sell_row(a).update(j as int, newc));
                                assert(cur.sell_row(a)[j as int] == c);
                                assert(cur.sell_count(a) == occupied_count(cur.sell_row(a)));
                            }
                        }
                        assert forall|a: int| 1 <= a < 4 implies #[trigger] self.locked_qty@[a]
                            == qty_sum(afterbuy.buy_row(a)) by {
                            assert(self.locked_qty@[a] == cur.locked_qty@[a]);
                            assert(cur.locked_qty@[a] == qty_sum(afterbuy.buy_row(a)));
                        }
                        assert(sell_reserved_of(self.lock_sell@) == sell_reserved_of(
                            cur.lock_sell@,
                        ) - price_contrib(cur.sell_row(k2 as int)[j as int]) + price_contrib(
                            newc,
                        )) by {
                            assert forall|a: int| 0 <= a < 4 && a != k2 as int implies price_sum(
                                (#[trigger] self.lock_sell@[a]).slots@,
                            ) == price_sum(cur.lock_sell@[a].slots@) by {
                                assert(self.lock_sell@[a] == cur.lock_sell@[a]);
                            }
                            assert(self.sell_row(k2 as int) == cur.sell_row(k2 as int).update(
                                j as int,
                                newc,
                            ));
                        }
                        assert(cur.locked_qty@[0] == qty_sum(afterbuy.buy_row(0))
                            + sell_reserved_of(cur.lock_sell@));
                        assert(cur.sell_row(k2 as int)[j as int] == c);
                        assert(self.locked_qty@[0] == qty_sum(afterbuy.buy_row(0))
                            + sell_reserved_of(self.lock_sell@));
                        assert forall|a: int| 0 <= a < 4 implies 0 <= #[trigger] self.locked_qty@[a]
                            <= pre.locked_qty@[a] by {
                            assert(0 <= cur.locked_qty@[a] <= pre.locked_qty@[a]);
                            if a != 0 {
                                assert(self.locked_qty@[a] == cur.locked_qty@[a]);
                            } else {
                                assert(c.price <= price_sum(cur.sell_row(k2 as int)));
                                assert(price_sum(cur.sell_row(0)) >= 0);
                                assert(price_sum(cur.sell_row(1)) >= 0);
                                assert(price_sum(cur.sell_row(2)) >= 0);
                                assert(price_sum(cur.sell_row(3)) >= 0);
                                assert(qty_sum(afterbuy.buy_row(0)) >= 0);
                                assert(cur.locked_qty@[0] == qty_sum(afterbuy.buy_row(0))
                                    + sell_reserved_of(cur.lock_sell@));
                            }
                        }
                    }

                    }
                }
                j = j + 1;
            }
            k2 = k2 + 1;
        }
        let ghost swept = *self;
        proof {
            assert(swept.lock_buy@ == afterbuy.lock_buy@);
            assert forall|a: int, b: int| 0 <= a < 4 && 0 <= b < MAXLOCK implies
                #[trigger] swept.sell_row(a)[b] == spec_sweep_slot(pre.sell_row(a)[b]) by {
                assert(swept.sell_row(a)[b] == self.sell_row(a)[b]);
            }
            assert forall|a: int, b: int|
                0 <= a < 4 && 0 <= b < MAXLOCK && (#[trigger] swept.sell_row(a)[b]).occupied
                    implies 0 < swept.sell_row(a)[b].quantity && 0 < swept.sell_row(a)[b].price
                    <= MAX_UNITS && 0 <= swept.sell_row(a)[b].age < MAXTIME && swept.sell_row(
                    a,
                )[b].token_id < pre.tokens_sell@.len() by {
                assert(swept.sell_row(a)[b] == self.sell_row(a)[b]);
            }
            assert forall|a: int| 0 <= a < 4 implies #[trigger] swept.sell_count(a)
                == occupied_count(swept.sell_row(a)) by {
                assert(swept.sell_count(a) == self.sell_count(a));
                assert(swept.sell_row(a) == self.sell_row(a));
            }
            assert forall|a: int| 1 <= a < 4 implies #[trigger] swept.locked_qty@[a] == qty_sum(
                afterbuy.buy_row(a),
            ) by {
                assert(swept.locked_qty@[a] == self.locked_qty@[a]);
            }
            assert(swept.locked_qty@[0] == qty_sum(afterbuy.buy_row(0)) + sell_reserved_of(
                swept.lock_sell@,
            ));
            assert forall|a: int| 0 <= a < 4 implies 0 <= #[trigger] swept.locked_qty@[a]
                <= pre.locked_qty@[a] by {
                assert(swept.locked_qty@[a] == self.locked_qty@[a]);
            }
        }
        // A token stays valid exactly while its reservation's slot survives.
        let mut id: usize = 0;
        while id < self.tokens_buy.len()
            invariant
                id <= swept.tokens_buy@.len(),
                self.tokens_buy@.len() == swept.tokens_buy@.len(),
                *self == (ZSE { tokens_buy: self.tokens_buy, ..swept }),
                swept.lock_buy@.len() == 4,
                forall|a: int| 0 <= a < 4 ==> (#[trigger] swept.lock_buy@[a]).slots@.len() == MAXLOCK,
                forall|x: int|
                    0 <= x < id ==> (#[trigger] self.tokens_buy@[x]) == (swept.tokens_buy@[x]
                        && has_slot(swept.lock_buy@, x)),
                forall|x: int|
                    (id as int) <= x < swept.tokens_buy@.len() ==> (#[trigger] self.tokens_buy@[x])
                        == swept.tokens_buy@[x],
            decreases self.tokens_buy@.len() - id,
        {
            if self.tokens_buy[id] {
                let found: bool = table_has_token(&self.lock_buy, id);
                if !found {
                    self.tokens_buy[id] = false;
                }
            }
            id = id + 1;
        }
        let ghost afterbtok = *self;
        let mut id2: usize = 0;
        while id2 < self.tokens_sell.len()
            invariant
                id2 <= swept.tokens_sell@.len(),
                self.tokens_sell@.len() == swept.tokens_sell@.len(),
                *self == (ZSE { tokens_sell: self.tokens_sell, ..afterbtok }),
                swept.lock_sell@.len() == 4,
                afterbtok.lock_sell@ == swept.lock_sell@,
                forall|a: int| 0 <= a < 4 ==> (#[trigger] swept.lock_sell@[a]).slots@.len() == MAXLOCK,
                forall|x: int|
                    0 <= x < id2 ==> (#[trigger] self.tokens_sell@[x]) == (swept.tokens_sell@[x]
                        && has_slot(swept.lock_sell@, x)),
                forall|x: int|
                    (id2 as int) <= x < swept.tokens_sell@.len() ==> (#[trigger] self.tokens_sell@[x])
                        == swept.tokens_sell@[x],
            decreases self.tokens_sell@.len() - id2,
        {
            if self.tokens_sell[id2] {
                let found: bool = table_has_token(&self.lock_sell, id2);
                if !found {
                    self.tokens_sell[id2] = false;
                }
            }
            id2 = id2 + 1;
        }
        // Defensive price adjustment toward the peer's unit price.
        let ghost beforeprices = *self;
        if event.quantity > 0 {
            let kdx: usize = get_index_by_goodkind(&event.good_kind);
            let unit: i64 = event.price / event.quantity;
            match event.kind {
                EventKind::Bought => {
                    if unit < self.prices_buy[kdx] {
                        let v: i64 = clamp_rate(unit - unit * 15 / 1000);
                        self.prices_buy[kdx] = v;
                    }
                },
                EventKind::Sold => {
                    if unit > self.prices_sell[kdx] {
                        let v: i64 = if unit >= MAX_RATE {
                            MAX_RATE
                        } else {
                            clamp_rate(unit + unit * 15 / 1000)
                        };
                        self.prices_sell[kdx] = v;
                    }
                },
                EventKind::LockedBuy => {
                    if unit > self.prices_sell[kdx] {
                        let v: i64 = if unit >= MAX_RATE {
                            MAX_RATE
                        } else {
                            clamp_rate(unit + unit * 10 / 1000)
                        };
                        self.prices_sell[kdx] = v;
                    }
                },
                EventKind::LockedSell => {
                    if unit < self.prices_buy[kdx] {
                        let v: i64 = clamp_rate(unit - unit * 10 / 1000);
                        self.prices_buy[kdx] = v;
                    }
                },
                EventKind::Wait => {},
            }
        }
        proof {
            assert(self.prices_buy@ =~= spec_external_prices_buy(pre.prices_buy@, event));
            assert(self.prices_sell@ =~= spec_external_prices_sell(pre.prices_sell@, event));
        }
        // Re-establish the invariant before the cooldown tick.
        let ghost beforedec = *self;
        proof {
            let post = beforedec;
            assert(post.codes_buy@ == pre.codes_buy@);
            assert(post.codes_sell@ == pre.codes_sell@);
            assert(post.lock_buy@ == swept.lock_buy@);
            assert(post.lock_sell@ == swept.lock_sell@);
            assert(post.locked_qty@ == swept.locked_qty@);
            assert(post.goods@ == pre.goods@);
            assert forall|a: int, b: int| 0 <= a < 4 && 0 <= b < MAXLOCK implies
                #[trigger] post.buy_row(a)[b] == spec_sweep_slot(pre.buy_row(a)[b]) by {
                assert(post.buy_row(a)[b] == afterbuy.buy_row(a)[b]);
            }
            assert forall|a: int, b: int| 0 <= a < 4 && 0 <= b < MAXLOCK implies
                #[trigger] post.sell_row(a)[b] == spec_sweep_slot(pre.sell_row(a)[b]) by {
                assert(post.sell_row(a)[b] == swept.sell_row(a)[b]);
            }
            assert(post.tokens_buy@.len() == pre.tokens_buy@.len());
            assert(post.tokens_sell@.len() == pre.tokens_sell@.len());
            assert forall|x: int|
                0 <= x < pre.tokens_buy@.len() implies (#[trigger] post.tokens_buy@[x]) == (
            pre.tokens_buy@[x] && has_slot(post.lock_buy@, x)) by {
                assert(post.tokens_buy@[x] == (swept.tokens_buy@[x] && has_slot(
                    swept.lock_buy@,
                    x,
                )));
            }
            assert forall|x: int|
                0 <= x < pre.tokens_sell@.len() implies (#[trigger] post.tokens_sell@[x]) == (
            pre.tokens_sell@[x] && has_slot(post.lock_sell@, x)) by {
                assert(post.tokens_sell@[x] == (swept.tokens_sell@[x] && has_slot(
                    swept.lock_sell@,
                    x,
                )));
            }
            assert forall|a: int| 0 <= a < 4 implies #[trigger] post.buy_row(a) == spec_sweep_row(
                pre.buy_row(a),
            ) by {
                assert(post.buy_row(a) == afterbuy.buy_row(a));
                assert(post.buy_row(a) =~= spec_sweep_row(pre.buy_row(a)));
            }
            assert forall|a: int| 0 <= a < 4 implies #[trigger] post.sell_row(a) == spec_sweep_row(
                pre.sell_row(a),
            ) by {
                assert(post.sell_row(a) =~= spec_sweep_row(pre.sell_row(a)));
            }
            assert(prices_wf(post.prices_buy@)) by {
                assert forall|i: int| 0 <= i < 4 implies 1 <= #[trigger] post.prices_buy@[i]
                    <= MAX_RATE by {
                    assert(1 <= pre.prices_buy@[i] <= MAX_RATE);
                }
            }
            assert(prices_wf(post.prices_sell@)) by {
                assert forall|i: int| 0 <= i < 4 implies 1 <= #[trigger] post.prices_sell@[i]
                    <= MAX_RATE by {
                    assert(1 <= pre.prices_sell@[i] <= MAX_RATE);
                }
            }
            assert(rows_shape(post.lock_buy@)) by {
                assert forall|a: int| 0 <= a < 4 implies (#[trigger] post.lock_buy@[a]).slots@.len()
                    == MAXLOCK && post.lock_buy@[a].count == occupied_count(
                    post.lock_buy@[a].slots@,
                ) by {
                    assert(post.lock_buy@[a] == afterbuy.lock_buy@[a]);
                    assert(afterbuy.buy_count(a) == occupied_count(afterbuy.buy_row(a)));
                }
            }
            assert(rows_shape(post.lock_sell@)) by {
                assert forall|a: int| 0 <= a < 4 implies (#[trigger] post.lock_sell@[a]).slots@.len()
                    == MAXLOCK && post.lock_sell@[a].count == occupied_count(
                    post.lock_sell@[a].slots@,
                ) by {
                    assert(post.lock_sell@[a] == swept.lock_sell@[a]);
                    assert(swept.sell_count(a) == occupied_count(swept.sell_row(a)));
                }
            }
            assert(slots_wf(post.lock_buy@, post.tokens_buy@, true)) by {
                assert forall|k1: int, j1: int|
                    0 <= k1 < post.lock_buy@.len() && 0 <= j1
                        < post.lock_buy@[k1].slots@.len() implies slot_sane(
                    #[trigger] post.lock_buy@[k1].slots@[j1],
                    post.tokens_buy@,
                    true,
                ) by {
                    let cslot = post.buy_row(k1)[j1];
                    assert(post.buy_row(k1)[j1] == spec_sweep_slot(pre.buy_row(k1)[j1]));
                    if cslot.occupied {
                        assert(has_slot(post.lock_buy@, cslot.token_id as int));
                        assert(pre.tokens_buy@[cslot.token_id as int]) by {
                            assert(pre.buy_row(k1)[j1].occupied && pre.buy_row(k1)[j1].token_id
                                == cslot.token_id);
                            assert(slot_sane(pre.lock_buy@[k1].slots@[j1], pre.tokens_buy@, true));
                        }
                        assert(post.tokens_buy@[cslot.token_id as int]);
                    }
                }
            }
            assert(slots_wf(post.lock_sell@, post.tokens_sell@, false)) by {
                assert forall|k1: int, j1: int|
                    0 <= k1 < post.lock_sell@.len() && 0 <= j1
                        < post.lock_sell@[k1].slots@.len() implies slot_sane(
                    #[trigger] post.lock_sell@[k1].slots@[j1],
                    post.tokens_sell@,
                    false,
                ) by {
                    let cslot = post.sell_row(k1)[j1];
                    assert(post.sell_row(k1)[j1] == spec_sweep_slot(pre.sell_row(k1)[j1]));
                    if cslot.occupied {
                        assert(has_slot(post.lock_sell@, cslot.token_id as int));
                        assert(pre.tokens_sell@[cslot.token_id as int]) by {
                            assert(pre.sell_row(k1)[j1].occupied && pre.sell_row(k1)[j1].token_id
                                == cslot.token_id);
                            assert(slot_sane(
                                pre.lock_sell@[k1].slots@[j1],
                                pre.tokens_sell@,
                                false,
                            ));
                        }
                        assert(post.tokens_sell@[cslot.token_id as int]);
                    }
                }
            }
            assert(ids_distinct(post.lock_buy@)) by {
                assert forall|k1: int, j1: int, k2a: int, j2: int|
                    0 <= k1 < post.lock_buy@.len() && 0 <= j1 < post.lock_buy@[k1].slots@.len() && 0
                        <= k2a < post.lock_buy@.len() && 0 <= j2 < post.lock_buy@[k2a].slots@.len()
                        && !(k1 == k2a && j1 == j2) && (#[trigger] post.lock_buy@[k1].slots@[j1]).occupied
                        && (#[trigger] post.lock_buy@[k2a].slots@[j2]).occupied implies
                    post.lock_buy@[k1].slots@[j1].token_id
                        != post.lock_buy@[k2a].slots@[j2].token_id by {
                    assert(post.buy_row(k1)[j1] == spec_sweep_slot(pre.buy_row(k1)[j1]));
                    assert(post.buy_row(k2a)[j2] == spec_sweep_slot(pre.buy_row(k2a)[j2]));
                    assert(pre.buy_row(k1)[j1].occupied && pre.buy_row(k1)[j1].token_id
                        == post.buy_row(k1)[j1].token_id);
                    assert(pre.buy_row(k2a)[j2].occupied && pre.buy_row(k2a)[j2].token_id
                        == post.buy_row(k2a)[j2].token_id);
                }
            }
            assert(ids_distinct(post.lock_sell@)) by {
                assert forall|k1: int, j1: int, k2a: int, j2: int|
                    0 <= k1 < post.lock_sell@.len() && 0 <= j1 < post.lock_sell@[k1].slots@.len()
                        && 0 <= k2a < post.lock_sell@.len() && 0 <= j2
                        < post.lock_sell@[k2a].slots@.len() && !(k1 == k2a && j1 == j2) && (
                    #[trigger] post.lock_sell@[k1].slots@[j1]).occupied && (
                    #[trigger] post.lock_sell@[k2a].slots@[j2]).occupied implies
                    post.lock_sell@[k1].slots@[j1].token_id
                        != post.lock_sell@[k2a].slots@[j2].token_id by {
                    assert(post.sell_row(k1)[j1] == spec_sweep_slot(pre.sell_row(k1)[j1]));
                    assert(post.sell_row(k2a)[j2] == spec_sweep_slot(pre.sell_row(k2a)[j2]));
                    assert(pre.sell_row(k1)[j1].occupied && pre.sell_row(k1)[j1].token_id
                        == post.sell_row(k1)[j1].token_id);
                    assert(pre.sell_row(k2a)[j2].occupied && pre.sell_row(k2a)[j2].token_id
                        == post.sell_row(k2a)[j2].token_id);
                }
            }
            assert(tokens_covered(post.lock_buy@, post.tokens_buy@)) by {
                assert forall|x: int|
                    0 <= x < post.tokens_buy@.len() && #[trigger] post.tokens_buy@[x] implies
                    has_slot(post.lock_buy@, x) by {
                    assert(post.tokens_buy@[x] == (pre.tokens_buy@[x] && has_slot(
                        post.lock_buy@,
                        x,
                    )));
                }
            }
            assert(tokens_covered(post.lock_sell@, post.tokens_sell@)) by {
                assert forall|x: int|
                    0 <= x < post.tokens_sell@.len() && #[trigger] post.tokens_sell@[x] implies
                    has_slot(post.lock_sell@, x) by {
                    assert(post.tokens_sell@[x] == (pre.tokens_sell@[x] && has_slot(
                        post.lock_sell@,
                        x,
                    )));
                }
            }
            assert(locked_wf(post.locked_qty@, post.lock_buy@, post.lock_sell@, post.goods@)) by {
                assert forall|a: int| 1 <= a < 4 implies #[trigger] post.locked_qty@[a] == qty_sum(
                    post.lock_buy@[a].slots@,
                ) by {
                    assert(post.buy_row(a) == afterbuy.buy_row(a));
                }
                assert(post.locked_qty@[0] == qty_sum(post.lock_buy@[0].slots@) + sell_reserved_of(
                    post.lock_sell@,
                ));
                assert forall|a: int| 0 <= a < 4 implies 0 <= #[trigger] post.locked_qty@[a]
                    <= post.goods@[a].quantity by {
                    assert(0 <= post.locked_qty@[a] <= pre.locked_qty@[a]);
                    assert(pre.locked_qty@[a] <= pre.goods@[a].quantity);
                }
            }
            assert(post.wf());
            assert forall|a: int| 0 <= a < 4 implies #[trigger] post.buy_row(a) == spec_sweep_row(
                pre.buy_row(a),
            ) by {
                assert(post.buy_row(a) =~= spec_sweep_row(pre.buy_row(a)));
            }
            assert forall|a: int| 0 <= a < 4 implies #[trigger] post.sell_row(a) == spec_sweep_row(
                pre.sell_row(a),
            ) by {
                assert(post.sell_row(a) =~= spec_sweep_row(pre.sell_row(a)));
            }
            assert forall|a: int| 0 <= a < 4 implies 0 <= #[trigger] post.locked_qty@[a]
                <= pre.locked_qty@[a] by {
                assert(post.locked_qty@[a] == swept.locked_qty@[a]);
                assert(0 <= swept.locked_qty@[a] <= pre.locked_qty@[a]);
            }
        }
        self.decrement_conversion_timer();
        proof {
            let fin = *self;
            assert(fin.lock_buy@ == beforedec.lock_buy@);
            assert(fin.lock_sell@ == beforedec.lock_sell@);
            assert(fin.tokens_buy@ == beforedec.tokens_buy@);
            assert(fin.tokens_sell@ == beforedec.tokens_sell@);
            assert(fin.locked_qty@ == beforedec.locked_qty@);
            assert forall|a: int| 0 <= a < 4 implies #[trigger] fin.buy_row(a) == spec_sweep_row(
                pre.buy_row(a),
            ) by {
                assert(fin.buy_row(a) == beforedec.buy_row(a));
                assert(beforedec.buy_row(a) == spec_sweep_row(pre.buy_row(a)));
            }
            assert forall|a: int| 0 <= a < 4 implies #[trigger] fin.sell_row(a) == spec_sweep_row(
                pre.sell_row(a),
            ) by {
                assert(fin.sell_row(a) == beforedec.sell_row(a));
                assert(beforedec.sell_row(a) == spec_sweep_row(pre.sell_row(a)));
            }
            assert forall|x: int|
                0 <= x < pre.tokens_buy@.len() implies (#[trigger] fin.tokens_buy@[x]) == (
            pre.tokens_buy@[x] && has_slot(fin.lock_buy@, x)) by {
                assert(fin.tokens_buy@[x] == beforedec.tokens_buy@[x]);
                assert(beforedec.tokens_buy@[x] == (pre.tokens_buy@[x] && has_slot(
                    beforedec.lock_buy@,
                    x,
                )));
            }
            assert forall|x: int|
                0 <= x < pre.tokens_sell@.len() implies (#[trigger] fin.tokens_sell@[x]) == (
            pre.tokens_sell@[x] && has_slot(fin.lock_sell@, x)) by {
                assert(fin.tokens_sell@[x] == beforedec.tokens_sell@[x]);
                assert(beforedec.tokens_sell@[x] == (pre.tokens_sell@[x] && has_slot(
                    beforedec.lock_sell@,
                    x,
                )));
            }
            assert forall|a: int| 0 <= a < 4 implies 0 <= #[trigger] fin.locked_qty@[a]
                <= pre.locked_qty@[a] by {
                assert(fin.locked_qty@[a] == beforedec.locked_qty@[a]);
                assert(0 <= beforedec.locked_qty@[a] <= pre.locked_qty@[a]);
            }
        }
    }

    /// Register a peer exchange (by its handle in the simulation arena) for
    /// event notifications.
    pub fn add_subscriber(&mut self, subscriber: usize)
        requires
            old(self).wf(),
        ensures
            final(self).wf(),
            final(self).subscribers@ == old(self).subscribers@.push(subscriber),
            *final(self) == (ZSE { subscribers: final(self).subscribers, ..*old(self) }),
    {
        self.subscribers.push(subscriber);
    }

    /// Drain the events this exchange has generated since the last drain;
    /// the driver delivers them to the subscribed peers.
    pub fn take_events(&mut self) -> (evs: Vec<Event>)
        requires
            old(self).wf(),
        ensures
            final(self).wf(),
            evs@ == old(self).outbox@,
            final(self).outbox@.len() == 0,
            *final(self) == (ZSE { outbox: final(self).outbox, ..*old(self) }),
            forall|i: int| 0 <= i < evs@.len() ==> (#[trigger] evs@[i]).valid(),
    {
        let mut out: Vec<Event> = Vec::new();
        core::mem::swap(&mut out, &mut self.outbox);
        out
    }
}

} // verus!
