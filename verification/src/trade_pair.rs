//! The registry of trade pairs.
//!
//! A trade pair names a base and a quote token and the method by which they
//! are traded. A pair of tokens is registered at most once, in either order.

use crate::common::{generate_did, new_did};
use crate::table::{Key, Table};
use crate::token;
use crate::utilities::{AccountId, Did, TradeMethod, TradePair};
use vstd::prelude::*;

verus! {

/// Why an operation of the registry failed.
#[derive(Clone, Copy, Debug, PartialEq, Eq, Structural)]
pub enum Error {
    /// No matching trade pair
    NoMatchingTradePair,
    /// Base equals to quote
    BaseEqualQuote,
    /// Token owner not found
    TokenOwnerNotFound,
    /// Sender not equal to base or quote owner
    SenderNotEqualToBaseOrQuoteOwner,
    /// Same trade pair with the given base and quote was already exist
    TradePairExisted,
    /// A counter would have passed the largest 64-bit number.
    Overflow,
}

/// What the registry reports to the host.
#[derive(Clone, Copy, Debug, PartialEq, Eq)]
pub enum Event {
    TradePairCreated(AccountId, Did, TradePair),
    TradePairUpdated(AccountId, Did, TradePair),
}

/// The registry as a mathematical value.
pub struct State {
    pub trade_pairs: Map<Did, TradePair>,
    pub trade_pair_id_by_base_quote: Map<(Did, Did), Did>,
    pub trade_pair_id_by_index: Map<u64, Did>,
    pub trade_pair_index: u64,
    pub nonce: u64,
}

/// The pair as it is first registered: the matched price as given, or zero,
/// and no trade yet.
pub open spec fn fresh_pair(
    base: Did,
    quote: Did,
    method: TradeMethod,
    matched_price: Option<u64>,
) -> TradePair {
    TradePair {
        base,
        quote,
        method,
        matched_price: if matched_price.is_some() {
            matched_price.unwrap()
        } else {
            0
        },
        one_day_trade_volume: 0,
        one_day_highest_price: 0,
        one_day_lowest_price: 0,
    }
}

impl State {
    /// Why `sender` may not register the pair of `base` and `quote`, if
    /// anything stands against it.
    pub open spec fn create_check(
        self,
        tokens: token::State,
        sender: AccountId,
        base: Did,
        quote: Did,
    ) -> Option<Error> {
        if base == quote {
            Some(Error::BaseEqualQuote)
        } else if !tokens.tokens.contains_key(base) || !tokens.tokens.contains_key(quote) {
            Some(Error::TokenOwnerNotFound)
        } else if sender != tokens.tokens[base].owner && sender != tokens.tokens[quote].owner {
            Some(Error::SenderNotEqualToBaseOrQuoteOwner)
        } else if self.trade_pair_id_by_base_quote.contains_key((base, quote))
            || self.trade_pair_id_by_base_quote.contains_key((quote, base)) {
            Some(Error::TradePairExisted)
        } else if self.nonce == u64::MAX || self.trade_pair_index == u64::MAX {
            Some(Error::Overflow)
        } else {
            None
        }
    }

    /// The registry after the pair was registered under `tpid`.
    pub open spec fn create(
        self,
        tpid: Did,
        base: Did,
        quote: Did,
        method: TradeMethod,
        matched_price: Option<u64>,
    ) -> State {
        State {
            trade_pairs: self.trade_pairs.insert(
                tpid,
                fresh_pair(base, quote, method, matched_price),
            ),
            trade_pair_id_by_base_quote: self.trade_pair_id_by_base_quote.insert(
                (base, quote),
                tpid,
            ),
            trade_pair_id_by_index: self.trade_pair_id_by_index.insert(
                self.trade_pair_index,
                tpid,
            ),
            trade_pair_index: (self.trade_pair_index + 1) as u64,
            nonce: (self.nonce + 1) as u64,
        }
    }
}

/// The registry.
pub struct Module {
    trade_pairs: Table<Did, TradePair>,
    trade_pair_id_by_base_quote: Table<(Did, Did), Did>,
    trade_pair_id_by_index: Table<u64, Did>,
    trade_pair_index: u64,
    nonce: u64,
}

impl View for Module {
    type V = State;

    closed spec fn view(&self) -> State {
        State {
            trade_pairs: self.trade_pairs@,
            trade_pair_id_by_base_quote: self.trade_pair_id_by_base_quote@,
            trade_pair_id_by_index: self.trade_pair_id_by_index@,
            trade_pair_index: self.trade_pair_index,
            nonce: self.nonce,
        }
    }
}

impl Module {
    /// The registry with no pair.
    pub fn new() -> (r: Self)
        ensures
            r@ == (State {
                trade_pairs: Map::empty(),
                trade_pair_id_by_base_quote: Map::empty(),
                trade_pair_id_by_index: Map::empty(),
                trade_pair_index: 0,
                nonce: 0,
            }),
    {
        Module {
            trade_pairs: Table::new(),
            trade_pair_id_by_base_quote: Table::new(),
            trade_pair_id_by_index: Table::new(),
            trade_pair_index: 0,
            nonce: 0,
        }
    }

    /// Registers the pair of `base` and `quote`. The sender must own one of
    /// the two tokens, and the pair must not be registered yet in either
    /// order. The pair's identifier is derived from the seed, the sender and
    /// the registry's nonce.
    pub fn create_trade_pair(
        &mut self,
        tokens: &token::Module,
        seed: &[u8; 32],
        sender: AccountId,
        base: Did,
        quote: Did,
        method: TradeMethod,
        matched_price: Option<u64>,
    ) -> (r: Result<(Did, Event), Error>)
        ensures
            ({
                let tpid = new_did(seed@, sender, old(self)@.nonce);
                match old(self)@.create_check(tokens@, sender, base, quote) {
                    Some(e) => r == Err::<(Did, Event), Error>(e) && final(self)@ == old(self)@,
                    None => r == Ok::<(Did, Event), Error>(
                        (
                            tpid,
                            Event::TradePairCreated(
                                sender,
                                tpid,
                                fresh_pair(base, quote, method, matched_price),
                            ),
                        ),
                    ) && final(self)@ == old(self)@.create(
                        tpid,
                        base,
                        quote,
                        method,
                        matched_price,
                    ),
                }
            }),
    {
        if base.same(&quote) {
            return Err(Error::BaseEqualQuote);
        }
        let base_owner = tokens.owner_of(base);
        let quote_owner = tokens.owner_of(quote);
        let (base_owner, quote_owner) = match (base_owner, quote_owner) {
            (Some(b), Some(q)) => (b, q),
            _ => {
                return Err(Error::TokenOwnerNotFound);
            },
        };
        if sender != base_owner && sender != quote_owner {
            return Err(Error::SenderNotEqualToBaseOrQuoteOwner);
        }
        let bq = self.trade_pair_id_by_base_quote.contains_key(&(base, quote));
        let qb = self.trade_pair_id_by_base_quote.contains_key(&(quote, base));
        if bq || qb {
            return Err(Error::TradePairExisted);
        }
        let nonce = self.nonce;
        let index = self.trade_pair_index;
        if nonce == u64::MAX || index == u64::MAX {
            return Err(Error::Overflow);
        }
        let tpid = generate_did(seed, sender, nonce);
        let mut tp = TradePair {
            base,
            quote,
            method,
            matched_price: 0,
            one_day_trade_volume: 0,
            one_day_highest_price: 0,
            one_day_lowest_price: 0,
        };
        match matched_price {
            Some(price) => {
                tp.matched_price = price;
            },
            None => {},
        }
        self.nonce = nonce + 1;
        self.trade_pairs.insert(tpid, tp);
        self.trade_pair_id_by_base_quote.insert((base, quote), tpid);
        self.trade_pair_id_by_index.insert(index, tpid);
        self.trade_pair_index = index + 1;
        Ok((tpid, Event::TradePairCreated(sender, tpid, tp)))
    }

    /// Replaces the pair registered under `tpid`.
    pub fn transfer(&mut self, sender: AccountId, tpid: Did, new_trade_pair: TradePair) -> (r:
        Result<Event, Error>)
        ensures
            old(self)@.trade_pairs.contains_key(tpid) ==> r == Ok::<Event, Error>(
                Event::TradePairCreated(sender, tpid, new_trade_pair),
            ) && final(self)@ == (State {
                trade_pairs: old(self)@.trade_pairs.insert(tpid, new_trade_pair),
                ..old(self)@
            }),
            !old(self)@.trade_pairs.contains_key(tpid) ==> r == Err::<Event, Error>(
                Error::NoMatchingTradePair,
            ) && final(self)@ == old(self)@,
    {
        if !self.trade_pairs.contains_key(&tpid) {
            return Err(Error::NoMatchingTradePair);
        }
        self.trade_pairs.insert(tpid, new_trade_pair);
        Ok(Event::TradePairCreated(sender, tpid, new_trade_pair))
    }

    /// The pair registered under `tpid`, if there is one.
    pub fn get_trade_pair(&self, tpid: Did) -> (r: Option<TradePair>)
        ensures
            r == if self@.trade_pairs.contains_key(tpid) {
                Some(self@.trade_pairs[tpid])
            } else {
                None
            },
    {
        match self.trade_pairs.get(&tpid) {
            Some(tp) => Some(*tp),
            None => None,
        }
    }

    /// The identifier under which `base` and `quote` are registered, in that
    /// order, if they are.
    pub fn get_trade_pair_id_by_base_quote(&self, base: Did, quote: Did) -> (r: Option<Did>)
        ensures
            r == if self@.trade_pair_id_by_base_quote.contains_key((base, quote)) {
                Some(self@.trade_pair_id_by_base_quote[(base, quote)])
            } else {
                None
            },
    {
        match self.trade_pair_id_by_base_quote.get(&(base, quote)) {
            Some(id) => Some(*id),
            None => None,
        }
    }

    /// The identifier of the `index`-th pair registered, if there are that
    /// many.
    pub fn trade_pair_id_by_index(&self, index: u64) -> (r: Option<Did>)
        ensures
            r == if self@.trade_pair_id_by_index.contains_key(index) {
                Some(self@.trade_pair_id_by_index[index])
            } else {
                None
            },
    {
        match self.trade_pair_id_by_index.get(&index) {
            Some(id) => Some(*id),
            None => None,
        }
    }

    /// How many pairs were registered.
    pub fn trade_pair_index(&self) -> (r: u64)
        ensures
            r == self@.trade_pair_index,
    {
        self.trade_pair_index
    }
}

} // verus!
