//! Laws of the reservation protocol, stated over the exchange model and
//! proved once and for all. Each law speaks through the same spec functions
//! that the operations' contracts use.

use vstd::prelude::*;
use crate::goods::{Good, GoodKind, MAX_UNITS, spec_kind_index};
use crate::errors::{BuyError, LockBuyError, LockSellError};
use crate::market::{
    ZSE, MAXLOCK, MAXTIME, occupied_count, spec_sweep_row, spec_sweep_slot, spec_transfer,
    spec_after_conversion_goods, conv_fires, has_slot, lemma_sum_bounds,
};
use crate::token::Token;

verus! {

/// No over-reservation: for every kind, what the open locks reserve never
/// exceeds what the exchange holds.
pub proof fn lemma_no_over_reservation(m: ZSE, k: int)
    requires
        m.wf(),
        0 <= k < 4,
    ensures
        0 <= m.locked(k) <= m.goods_qty(k),
{
}

/// Bounded lock tables: per kind and direction the occupied slots never
/// exceed `MAXLOCK`, and the stored counts agree with the tables.
pub proof fn lemma_lock_capacity(m: ZSE, k: int)
    requires
        m.wf(),
        0 <= k < 4,
    ensures
        m.buy_count(k) == occupied_count(m.buy_row(k)),
        m.sell_count(k) == occupied_count(m.sell_row(k)),
        0 <= m.buy_count(k) <= MAXLOCK,
        0 <= m.sell_count(k) <= MAXLOCK,
{
    lemma_sum_bounds(m.buy_row(k));
    lemma_sum_bounds(m.sell_row(k));
}

/// A full buy row refuses a further lock with `MaxAllowedLocksReached`
/// (and, by `lock_buy`'s contract, leaves the exchange untouched).
pub proof fn lemma_full_buy_table_refuses(m: ZSE, kind: GoodKind, qty: i64, bid: i64)
    requires
        m.wf(),
        qty > 0,
        bid > 0,
        m.buy_count(spec_kind_index(kind)) >= MAXLOCK,
    ensures
        !m.lock_buy_accepts(spec_kind_index(kind), qty as int, bid as int),
        m.spec_lock_buy_err(kind, qty, bid) == LockBuyError::MaxAllowedLocksReached,
{
}

/// A full sell row refuses a further lock with `MaxAllowedLocksReached`.
pub proof fn lemma_full_sell_table_refuses(m: ZSE, kind: GoodKind, qty: i64, offer: i64)
    requires
        m.wf(),
        qty > 0,
        offer > 0,
        m.sell_count(spec_kind_index(kind)) >= MAXLOCK,
    ensures
        !m.lock_sell_accepts(spec_kind_index(kind), qty as int, offer as int),
        m.spec_lock_sell_err(kind, qty, offer) == LockSellError::MaxAllowedLocksReached,
{
}

/// A non-positive quantity or offer is rejected by `lock_sell` with the
/// matching validation error (and, by its contract, without any state
/// change).
pub proof fn lemma_non_positive_sell_rejected(m: ZSE, kind: GoodKind, qty: i64, offer: i64)
    requires
        m.wf(),
        qty <= 0 || offer <= 0,
    ensures
        !m.lock_sell_accepts(spec_kind_index(kind), qty as int, offer as int),
        qty <= 0 ==> m.spec_lock_sell_err(kind, qty, offer) == (
        LockSellError::NonPositiveQuantityToSell { negative_quantity_to_sell: qty }),
        qty > 0 && offer <= 0 ==> m.spec_lock_sell_err(kind, qty, offer) == (
        LockSellError::NonPositiveOffer { negative_offer: offer }),
{
}

/// A token is accepted exactly once. After a committed `buy` has spent
/// token `t` — its registry entry is cleared, which is what `buy`'s
/// contract guarantees — no cash good can make `buy` accept `t` again, and
/// the refusal is `ExpiredToken`.
pub proof fn lemma_token_accepted_once(pre: ZSE, post: ZSE, t: Token)
    requires
        pre.wf(),
        pre.buy_token_valid(t.id as int),
        pre.codes_buy@[t.id as int]@ == t.code@,
        post.tokens_buy@ == pre.tokens_buy@.update(t.id as int, false),
        post.codes_buy@ == pre.codes_buy@,
    ensures
        !post.buy_token_valid(t.id as int),
        (forall|cash: Good| !post.buy_accepts(t.id as int, t.code@, cash)),
        post.spec_buy_err(t, (Good { kind: GoodKind::EUR, quantity: 0 })) == (
        BuyError::ExpiredToken { expired_token: t }),
{
}

/// Expiry: when a tick finds a buy reservation at the end of its life, the
/// sweep described by `on_event`'s contract clears the slot and invalidates
/// its token, even though it was never committed or cancelled.
pub proof fn lemma_expiry_invalidates(pre: ZSE, post: ZSE, k: int, j: int)
    requires
        pre.wf(),
        0 <= k < 4,
        0 <= j < MAXLOCK,
        pre.buy_row(k)[j].occupied,
        pre.buy_row(k)[j].age + 1 >= MAXTIME,
        post.lock_buy@.len() == 4,
        forall|a: int|
            0 <= a < 4 ==> #[trigger] post.buy_row(a) == spec_sweep_row(pre.buy_row(a)),
        post.n_buy_tokens() == pre.n_buy_tokens(),
        forall|id: int|
            0 <= id < pre.n_buy_tokens() ==> (#[trigger] post.tokens_buy@[id]) == (
            pre.tokens_buy@[id] && has_slot(post.lock_buy@, id)),
    ensures
        !post.buy_row(k)[j].occupied,
        !post.buy_token_valid(pre.buy_row(k)[j].token_id as int),
{
    let id = pre.buy_row(k)[j].token_id as int;
    assert(post.buy_row(k) == spec_sweep_row(pre.buy_row(k)));
    assert(post.buy_row(k)[j] == spec_sweep_slot(pre.buy_row(k)[j]));
    assert(!post.buy_row(k)[j].occupied);
    assert(0 <= id < pre.n_buy_tokens());
    if has_slot(post.lock_buy@, id) {
        let (a, b) = choose|a: int, b: int|
            0 <= a < post.lock_buy@.len() && 0 <= b < post.lock_buy@[a].slots@.len() && (
            #[trigger] post.lock_buy@[a].slots@[b]).occupied && post.lock_buy@[a].slots@[b].token_id
                == id;
        assert(post.buy_row(a) == spec_sweep_row(pre.buy_row(a)));
        assert(post.buy_row(a)[b] == spec_sweep_slot(pre.buy_row(a)[b]));
        assert(pre.buy_row(a)[b].occupied && pre.buy_row(a)[b].token_id == id);
        assert(!(a == k && b == j));
        assert(false);
    }
    assert(!post.tokens_buy@[id]);
}

/// Conservation: as long as the rebalancing pass does not fire on the
/// post-trade holdings, a committed buy moves exactly the agreed price into
/// the cash holding and exactly the agreed quantity out of the traded kind,
/// and touches no other holding. Together with `buy`'s contract on the
/// caller's cash good, the two books balance exactly.
pub proof fn lemma_buy_conserves(
    g: Seq<Good>,
    t: Seq<i64>,
    locked: Seq<i64>,
    k: int,
    q: int,
    p: int,
)
    requires
        g.len() == 4,
        0 <= k < 4,
        forall|i: int| 0 <= i < 4 ==> (#[trigger] g[i]).valid(),
        0 <= q <= g[k].quantity,
        0 <= p,
        g[0].quantity + p <= MAX_UNITS,
        !conv_fires(spec_transfer(g, k, -q, p), t, locked),
    ensures
        ({
            let g2 = spec_after_conversion_goods(spec_transfer(g, k, -q, p), t, locked);
            &&& g2.len() == 4
            &&& g2[0].quantity == g[0].quantity + p - (if k == 0 {
                q
            } else {
                0int
            })
            &&& g2[k].quantity == g[k].quantity - q + (if k == 0 {
                p
            } else {
                0int
            })
            &&& forall|i: int|
                0 <= i < 4 && i != 0 && i != k ==> (#[trigger] g2[i]).quantity == g[i].quantity
        }),
{
}

/// The mirror-image of `lemma_buy_conserves` for a committed sell: the
/// agreed quantity lands on the traded kind and the agreed payout leaves
/// the cash holding.
pub proof fn lemma_sell_conserves(
    g: Seq<Good>,
    t: Seq<i64>,
    locked: Seq<i64>,
    k: int,
    q: int,
    p: int,
)
    requires
        g.len() == 4,
        0 <= k < 4,
        forall|i: int| 0 <= i < 4 ==> (#[trigger] g[i]).valid(),
        0 <= p <= g[0].quantity,
        0 <= q,
        g[k].quantity + q <= MAX_UNITS,
        !conv_fires(spec_transfer(g, k, q, -p), t, locked),
    ensures
        ({
            let g2 = spec_after_conversion_goods(spec_transfer(g, k, q, -p), t, locked);
            &&& g2.len() == 4
            &&& g2[0].quantity == g[0].quantity - p + (if k == 0 {
                q
            } else {
                0int
            })
            &&& g2[k].quantity == g[k].quantity + q - (if k == 0 {
                p
            } else {
                0int
            })
            &&& forall|i: int|
                0 <= i < 4 && i != 0 && i != k ==> (#[trigger] g2[i]).quantity == g[i].quantity
        }),
{
}

} // verus!
