//! The four asset kinds, canonical conversion rates, and the `Good` value type.
//!
//! A `Good` is an immutable-kind, mutable-quantity unit of value. Quantities
//! are whole units and never negative; `split` and `merge` are the only
//! mutators. One kind (`EUR`) is the default cash kind.

use vstd::prelude::*;

verus! {

/// Largest quantity any single holding may reach. This is a representation
/// cap (sums of two holdings must stay well inside `i64`), not a market rule.
pub const MAX_UNITS: i64 = 4_000_000_000_000;

/// Canonical units of USD per unit of EUR.
pub const RATE_USD: i64 = 2;
/// Canonical units of YEN per unit of EUR.
pub const RATE_YEN: i64 = 150;
/// Canonical units of YUAN per unit of EUR.
pub const RATE_YUAN: i64 = 7;

/// The closed set of asset kinds. `EUR` is the default (cash) kind.
#[derive(Clone, Copy, Debug, PartialEq, Eq, Structural)]
pub enum GoodKind {
    EUR,
    USD,
    YEN,
    YUAN,
}

/// Index of a kind in every per-kind table (goods, prices, lock rows).
pub open spec fn spec_kind_index(kind: GoodKind) -> int {
    match kind {
        GoodKind::EUR => 0,
        GoodKind::USD => 1,
        GoodKind::YEN => 2,
        GoodKind::YUAN => 3,
    }
}

/// Kind stored at a table index.
pub open spec fn spec_kind_of_index(i: int) -> GoodKind {
    if i == 0 {
        GoodKind::EUR
    } else if i == 1 {
        GoodKind::USD
    } else if i == 2 {
        GoodKind::YEN
    } else {
        GoodKind::YUAN
    }
}

/// Canonical units of kind `i` per unit of the default kind.
pub open spec fn spec_rate_of_index(i: int) -> int {
    if i == 0 {
        1
    } else if i == 1 {
        RATE_USD as int
    } else if i == 2 {
        RATE_YEN as int
    } else {
        RATE_YUAN as int
    }
}

pub fn get_index_by_goodkind(kind: &GoodKind) -> (i: usize)
    ensures
        i == spec_kind_index(*kind),
        i < 4,
{
    match *kind {
        GoodKind::EUR => 0,
        GoodKind::USD => 1,
        GoodKind::YEN => 2,
        GoodKind::YUAN => 3,
    }
}

pub fn get_goodkind_by_index(i: usize) -> (kind: GoodKind)
    ensures
        i < 4 ==> kind == spec_kind_of_index(i as int),
        i >= 3 ==> kind == GoodKind::YUAN,
{
    match i {
        0 => GoodKind::EUR,
        1 => GoodKind::USD,
        2 => GoodKind::YEN,
        _ => GoodKind::YUAN,
    }
}

pub fn rate_of_index(i: usize) -> (r: i64)
    requires
        i < 4,
    ensures
        r == spec_rate_of_index(i as int),
        1 <= r <= RATE_YEN,
{
    match i {
        0 => 1,
        1 => RATE_USD,
        2 => RATE_YEN,
        _ => RATE_YUAN,
    }
}

/// Why a `split` was refused.
#[derive(Clone, Copy, Debug, PartialEq, Eq, Structural)]
pub enum GoodSplitError {
    NegativeSplitQuantityError,
    NotEnoughQuantityToSplitError,
}

/// Why a `merge` was refused.
#[derive(Clone, Copy, Debug, PartialEq, Eq, Structural)]
pub enum GoodMergeError {
    DifferentKindsOfGoodError,
}

/// A quantity of one asset kind.
#[derive(Clone, Copy, Debug, PartialEq)]
pub struct Good {
    pub kind: GoodKind,
    pub quantity: i64,
}

impl Good {
    /// A `Good` the rest of the crate may hold: a whole, non-negative
    /// quantity no larger than the representation cap.
    pub open spec fn valid(self) -> bool {
        0 <= self.quantity <= MAX_UNITS
    }

    pub open spec fn spec_kind(self) -> GoodKind {
        self.kind
    }

    pub open spec fn spec_qty(self) -> int {
        self.quantity as int
    }

    pub fn new(kind: GoodKind, quantity: i64) -> (g: Good)
        requires
            0 <= quantity <= MAX_UNITS,
        ensures
            g.spec_kind() == kind,
            g.spec_qty() == quantity,
            g.valid(),
    {
        Good { kind, quantity }
    }

    pub fn get_kind(&self) -> (k: GoodKind)
        ensures
            k == self.spec_kind(),
    {
        self.kind
    }

    pub fn get_qty(&self) -> (q: i64)
        ensures
            q == self.spec_qty(),
    {
        self.quantity
    }

    /// Remove `by_quantity` units and hand them back as a new `Good` of the
    /// same kind. Fails, leaving `self` unchanged, on a negative quantity or
    /// on more than is held.
    pub fn split(&mut self, by_quantity: i64) -> (r: Result<Good, GoodSplitError>)
        requires
            old(self).valid(),
        ensures
            final(self).valid(),
            final(self).spec_kind() == old(self).spec_kind(),
            by_quantity < 0 ==> r == Result::<Good, GoodSplitError>::Err(
                GoodSplitError::NegativeSplitQuantityError,
            ) && *final(self) == *old(self),
            0 <= by_quantity && by_quantity > old(self).spec_qty() ==> r == Result::<
                Good,
                GoodSplitError,
            >::Err(GoodSplitError::NotEnoughQuantityToSplitError) && *final(self) == *old(self),
            0 <= by_quantity <= old(self).spec_qty() ==> {
                &&& r is Ok
                &&& r->Ok_0.spec_kind() == old(self).spec_kind()
                &&& r->Ok_0.spec_qty() == by_quantity
                &&& r->Ok_0.valid()
                &&& final(self).spec_qty() == old(self).spec_qty() - by_quantity
            },
    {
        if by_quantity < 0 {
            Err(GoodSplitError::NegativeSplitQuantityError)
        } else if by_quantity > self.quantity {
            Err(GoodSplitError::NotEnoughQuantityToSplitError)
        } else {
            self.quantity = self.quantity - by_quantity;
            Ok(Good { kind: self.kind, quantity: by_quantity })
        }
    }

    /// Add the quantity of `other` to `self`. Fails, leaving `self`
    /// unchanged, when the kinds differ.
    pub fn merge(&mut self, other: Good) -> (r: Result<(), GoodMergeError>)
        requires
            old(self).valid(),
            other.valid(),
            old(self).spec_qty() + other.spec_qty() <= MAX_UNITS,
        ensures
            final(self).valid(),
            final(self).spec_kind() == old(self).spec_kind(),
            other.spec_kind() != old(self).spec_kind() ==> r == Result::<
                (),
                GoodMergeError,
            >::Err(GoodMergeError::DifferentKindsOfGoodError) && *final(self) == *old(self),
            other.spec_kind() == old(self).spec_kind() ==> r == Result::<
                (),
                GoodMergeError,
            >::Ok(()) && final(self).spec_qty() == old(self).spec_qty() + other.spec_qty(),
    {
        if !matches!(other.kind, k if k == self.kind) {
            Err(GoodMergeError::DifferentKindsOfGoodError)
        } else {
            self.quantity = self.quantity + other.quantity;
            Ok(())
        }
    }
}

/// The kind named by an inventory-file word, if it names one.
pub fn kind_from_name(name: &str) -> (r: Option<GoodKind>)
    ensures
        (name@ == "EUR"@ && r == Some(GoodKind::EUR)) || (name@ == "USD"@ && r == Some(
            GoodKind::USD,
        )) || (name@ == "YEN"@ && r == Some(GoodKind::YEN)) || (name@ == "YUAN"@ && r == Some(
            GoodKind::YUAN,
        )) || r is None,
{
    if crate::outside::str_eq(name, "EUR") {
        Some(GoodKind::EUR)
    } else if crate::outside::str_eq(name, "USD") {
        Some(GoodKind::USD)
    } else if crate::outside::str_eq(name, "YEN") {
        Some(GoodKind::YEN)
    } else if crate::outside::str_eq(name, "YUAN") {
        Some(GoodKind::YUAN)
    } else {
        None
    }
}

/// Value of `g` in the default cash kind at the canonical rate,
/// rounded down.
pub open spec fn spec_convert_to_eur(g: Good) -> int {
    g.spec_qty() / spec_rate_of_index(spec_kind_index(g.spec_kind()))
}

/// Value of a good in the default cash kind at the canonical rate.
pub fn convert_to_eur(good: &Good) -> (r: i64)
    requires
        good.valid(),
    ensures
        r == spec_convert_to_eur(*good),
        0 <= r <= MAX_UNITS,
{
    let idx: usize = get_index_by_goodkind(&good.get_kind());
    let rate: i64 = rate_of_index(idx);
    good.get_qty() / rate
}

} // verus!
