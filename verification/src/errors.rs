//! Error values returned by the exchange. All of them are plain return
//! values: no exchange operation ever terminates the process.

use vstd::prelude::*;
use crate::goods::GoodKind;
use crate::token::Token;

verus! {

/// Errors of the two price getters.
#[derive(Clone, Copy, Debug, PartialEq)]
pub enum MarketGetterError {
    NonPositiveQuantityAsked,
    InsufficientGoodQuantityAvailable {
        requested_good_kind: GoodKind,
        requested_good_quantity: i64,
        available_good_quantity: i64,
    },
}

/// Errors of `lock_buy`.
#[derive(Clone, Copy, Debug, PartialEq)]
pub enum LockBuyError {
    NonPositiveQuantityToBuy { negative_quantity_to_buy: i64 },
    NonPositiveBid { negative_bid: i64 },
    MaxAllowedLocksReached,
    InsufficientGoodQuantityAvailable {
        requested_good_kind: GoodKind,
        requested_good_quantity: i64,
        available_good_quantity: i64,
    },
    BidTooLow {
        requested_good_kind: GoodKind,
        requested_good_quantity: i64,
        low_bid: i64,
        lowest_acceptable_bid: i64,
    },
}

/// Errors of `buy`.
#[derive(Clone, Debug, PartialEq)]
pub enum BuyError {
    UnrecognizedToken { unrecognized_token: Token },
    ExpiredToken { expired_token: Token },
    GoodKindNotDefault { non_default_good_kind: GoodKind },
    InsufficientGoodQuantity { contained_quantity: i64, pre_agreed_quantity: i64 },
}

/// Errors of `lock_sell`.
#[derive(Clone, Copy, Debug, PartialEq)]
pub enum LockSellError {
    NonPositiveQuantityToSell { negative_quantity_to_sell: i64 },
    NonPositiveOffer { negative_offer: i64 },
    MaxAllowedLocksReached,
    InsufficientDefaultGoodQuantityAvailable {
        offered_good_kind: GoodKind,
        offered_good_quantity: i64,
        available_good_quantity: i64,
    },
    OfferTooHigh {
        offered_good_kind: GoodKind,
        offered_good_quantity: i64,
        high_offer: i64,
        highest_acceptable_offer: i64,
    },
}

/// Errors of `sell`.
#[derive(Clone, Debug, PartialEq)]
pub enum SellError {
    UnrecognizedToken { unrecognized_token: Token },
    ExpiredToken { expired_token: Token },
    WrongGoodKind { wrong_good_kind: GoodKind, pre_agreed_kind: GoodKind },
    InsufficientGoodQuantity { contained_quantity: i64, pre_agreed_quantity: i64 },
}

} // verus!
