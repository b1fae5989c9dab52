//! The order book engine: limit orders and the queues that stage them.
//!
//! A limit order freezes its amount of the pair's quote token when it is
//! created and sets what remains of it free when it is canceled. The
//! remaining amount of a new order is its whole amount. New orders are
//! staged by their index in one of two ring buffers, one for each side.
//!
//! The checks are made in the order in which the steps are taken, and all of
//! them before anything is written: an operation that fails leaves the
//! engine and the ledger as they were.

use crate::common::{flagged, generate_did, new_did, pop_one, push_each, push_one};
use crate::ringbuffer::{Ring, RingBuffer};
use crate::table::{
    lemma_with_first, lemma_with_none_of, list_or_empty, listed_once, read_or_zero,
    value_or_zero, with_first, with_none_of, Roster, Table,
};
use crate::token;
use crate::trade_pair;
use crate::utilities::{
    AccountId, BufferIndex, Did, LimitOrder, Moment, OrderStatus, OrderType, ValueStruct,
};
use vstd::prelude::*;

verus! {

/// Why an operation of the engine failed.
#[derive(Clone, Copy, Debug, PartialEq, Eq, Structural)]
pub enum Error {
    BoundsCheckFailed,
    PriceLengthCheckFailed,
    NumberCastError,
    OverflowError,
    NoMatchingTradePair,
    BaseEqualQuote,
    TokenOwnerNotFound,
    SenderNotEqualToBaseOrQuoteOwner,
    TradePairExisted,
    OrderMatchGetPriceError,
    OrderMatchGetLinkedListItemError,
    OrderMatchGetOrderError,
    OrderMatchSubstractError,
    OrderMatchOrderIsNotFinished,
    NoMatchingOrder,
    CanOnlyCancelOwnOrder,
    CanOnlyCancelNotFinishedOrder,
    /// The token ledger refused to freeze or to free the funds.
    Token(token::Error),
}

/// What the engine reports to the host.
#[derive(Clone, Copy, Debug, PartialEq, Eq)]
pub enum Event {
    LimitOrderCreated(AccountId, Did, OrderType, u64, u64),
    OrderCanceled(AccountId, Did),
}

/// Whether nothing is left to do for the order: it is filled with nothing
/// remaining, or it is canceled.
pub open spec fn spec_is_limit_order_finished(order: LimitOrder) -> bool {
    (order.remained_amount == 0 && order.status == OrderStatus::Filled) || order.status
        == OrderStatus::Canceled
}

/// The entry that stages the order with the index `integer`.
pub open spec fn staged(integer: u32) -> ValueStruct {
    ValueStruct { integer, boolean: true }
}

/// The index that was staged first among those still in the queue, if the
/// queue is not empty and the entry is marked as set.
pub open spec fn oldest_staged(ring: Ring<ValueStruct>) -> Option<u32> {
    if ring.queue().len() > 0 && ring.queue()[0].boolean {
        Some(ring.queue()[0].integer)
    } else {
        None
    }
}

/// The engine as a mathematical value.
pub struct State {
    pub orders: Map<Did, LimitOrder>,
    pub order_id_by_index: Map<u32, Did>,
    pub order_index: u32,
    pub owned_tp_opened_orders: Map<(AccountId, Did), Seq<Did>>,
    pub owned_tp_closed_orders: Map<(AccountId, Did), Seq<Did>>,
    pub trade_pair_owned_orders: Map<(Did, u64), Did>,
    pub trade_pair_owned_orders_index: Map<Did, u64>,
    pub buy_orders: Ring<ValueStruct>,
    pub sell_orders: Ring<ValueStruct>,
    pub nonce: u64,
}

impl State {
    /// How many orders were placed on the trade pair.
    pub open spec fn trade_pair_owned_order_index(self, tpid: Did) -> u64 {
        value_or_zero(self.trade_pair_owned_orders_index, tpid)
    }

    /// Why `sender` may not place the order, if anything stands against it
    /// before the ledger is asked.
    pub open spec fn create_check(
        self,
        trade_pairs: trade_pair::State,
        tokens: token::State,
        sender: AccountId,
        tpid: Did,
        price: u64,
        amount: u64,
    ) -> Option<Error> {
        if !trade_pairs.trade_pairs.contains_key(tpid) {
            Some(Error::NoMatchingTradePair)
        } else if price == 0 || amount == 0 || tokens.balance_of(
            sender,
            trade_pairs.trade_pairs[tpid].quote,
        ) < amount {
            Some(Error::BoundsCheckFailed)
        } else {
            None
        }
    }

    /// Whether one of the counters that a new order on the trade pair moves
    /// on is at its end.
    pub open spec fn counters_full(self, tpid: Did) -> bool {
        self.nonce == u64::MAX || self.order_index == u32::MAX
            || self.trade_pair_owned_order_index(tpid) == u64::MAX
    }

    /// The order as it is first recorded.
    pub open spec fn fresh_order(
        sender: AccountId,
        tpid: Did,
        otype: OrderType,
        price: u64,
        amount: u64,
        now: Moment,
    ) -> LimitOrder {
        LimitOrder {
            tpid,
            owner: sender,
            price,
            amount,
            created_time: now,
            remained_amount: amount,
            otype,
            status: OrderStatus::Created,
        }
    }

    /// The engine after the order was recorded under `order_id`, staged on
    /// its side, and listed among the open orders of its owner and among the
    /// orders of its trade pair.
    pub open spec fn with_order(self, order_id: Did, order: LimitOrder) -> State {
        State {
            orders: self.orders.insert(order_id, order),
            order_id_by_index: self.order_id_by_index.insert(self.order_index, order_id),
            order_index: (self.order_index + 1) as u32,
            owned_tp_opened_orders: with_first(
                self.owned_tp_opened_orders,
                (order.owner, order.tpid),
                order_id,
            ),
            trade_pair_owned_orders: self.trade_pair_owned_orders.insert(
                (order.tpid, self.trade_pair_owned_order_index(order.tpid)),
                order_id,
            ),
            trade_pair_owned_orders_index: self.trade_pair_owned_orders_index.insert(
                order.tpid,
                (self.trade_pair_owned_order_index(order.tpid) + 1) as u64,
            ),
            buy_orders: if order.otype == OrderType::Buy {
                self.buy_orders.push(staged(self.order_index))
            } else {
                self.buy_orders
            },
            sell_orders: if order.otype == OrderType::Sell {
                self.sell_orders.push(staged(self.order_index))
            } else {
                self.sell_orders
            },
            nonce: (self.nonce + 1) as u64,
            ..self
        }
    }

    /// The engine and the ledger after `sender` placed the order, or the
    /// error. `order_id` is the identifier that the order gets.
    pub open spec fn create_limit_order(
        self,
        trade_pairs: trade_pair::State,
        tokens: token::State,
        order_id: Did,
        now: Moment,
        sender: AccountId,
        tpid: Did,
        otype: OrderType,
        price: u64,
        amount: u64,
    ) -> Result<(State, token::State), Error> {
        let check = self.create_check(trade_pairs, tokens, sender, tpid, price, amount);
        let quote = trade_pairs.trade_pairs[tpid].quote;
        if check is Some {
            Err(check.unwrap())
        } else if tokens.ensure_free_balance(sender, quote, amount) is Err {
            Err(Error::Token(tokens.ensure_free_balance(sender, quote, amount)->Err_0))
        } else if tokens.freeze(sender, quote, amount) is Err {
            Err(Error::Token(tokens.freeze(sender, quote, amount)->Err_0))
        } else if self.counters_full(tpid) {
            Err(Error::OverflowError)
        } else {
            Ok(
                (
                    self.with_order(
                        order_id,
                        State::fresh_order(sender, tpid, otype, price, amount, now),
                    ),
                    tokens.freeze(sender, quote, amount)->Ok_0,
                ),
            )
        }
    }

    /// The engine and the ledger after `sender` canceled the order, or the
    /// error.
    pub open spec fn cancel_limit_order(
        self,
        trade_pairs: trade_pair::State,
        tokens: token::State,
        sender: AccountId,
        order_id: Did,
    ) -> Result<(State, token::State), Error> {
        if !self.orders.contains_key(order_id) {
            Err(Error::NoMatchingOrder)
        } else {
            let order = self.orders[order_id];
            let quote = trade_pairs.trade_pairs[order.tpid].quote;
            if order.owner != sender {
                Err(Error::CanOnlyCancelOwnOrder)
            } else if spec_is_limit_order_finished(order) {
                Err(Error::CanOnlyCancelNotFinishedOrder)
            } else if !trade_pairs.trade_pairs.contains_key(order.tpid) {
                Err(Error::NoMatchingTradePair)
            } else if tokens.unfreeze(sender, quote, order.remained_amount) is Err {
                Err(Error::Token(tokens.unfreeze(sender, quote, order.remained_amount)->Err_0))
            } else {
                Ok(
                    (
                        State {
                            orders: self.orders.insert(
                                order_id,
                                LimitOrder { status: OrderStatus::Canceled, ..order },
                            ),
                            owned_tp_opened_orders: with_none_of(
                                self.owned_tp_opened_orders,
                                (sender, order.tpid),
                                order_id,
                            ),
                            owned_tp_closed_orders: with_first(
                                self.owned_tp_closed_orders,
                                (sender, order.tpid),
                                order_id,
                            ),
                            ..self
                        },
                        tokens.unfreeze(sender, quote, order.remained_amount)->Ok_0,
                    ),
                )
            }
        }
    }
}

/// The index staged first among those still in the buffer.
fn oldest(buffer: &RingBuffer<ValueStruct>) -> (r: Option<u32>)
    ensures
        r == oldest_staged(buffer@),
{
    match buffer.oldest() {
        Some(value) => {
            if value.boolean {
                Some(value.integer)
            } else {
                None
            }
        },
        None => None,
    }
}

/// What the slot holds; an empty slot reads as zero and false.
fn slot_value(buffer: &RingBuffer<ValueStruct>, index: BufferIndex) -> (r: ValueStruct)
    ensures
        r == spec_slot_value(buffer@, index),
{
    match buffer.value(index) {
        Some(value) => *value,
        None => ValueStruct { integer: 0, boolean: false },
    }
}

/// What the slot at `index` of the ring holds; an empty slot reads as zero
/// and false.
pub open spec fn spec_slot_value(ring: Ring<ValueStruct>, index: BufferIndex) -> ValueStruct {
    if ring.slots.contains_key(index) {
        ring.slots[index]
    } else {
        ValueStruct { integer: 0, boolean: false }
    }
}

/// The engine.
pub struct Module {
    orders: Table<Did, LimitOrder>,
    order_id_by_index: Table<u32, Did>,
    order_index: u32,
    owned_tp_opened_orders: Roster<(AccountId, Did), Did>,
    owned_tp_closed_orders: Roster<(AccountId, Did), Did>,
    trade_pair_owned_orders: Table<(Did, u64), Did>,
    trade_pair_owned_orders_index: Table<Did, u64>,
    buy_order_buffer: RingBuffer<ValueStruct>,
    sell_order_buffer: RingBuffer<ValueStruct>,
    nonce: u64,
}

impl View for Module {
    type V = State;

    closed spec fn view(&self) -> State {
        State {
            orders: self.orders@,
            order_id_by_index: self.order_id_by_index@,
            order_index: self.order_index,
            owned_tp_opened_orders: self.owned_tp_opened_orders@,
            owned_tp_closed_orders: self.owned_tp_closed_orders@,
            trade_pair_owned_orders: self.trade_pair_owned_orders@,
            trade_pair_owned_orders_index: self.trade_pair_owned_orders_index@,
            buy_orders: self.buy_order_buffer@,
            sell_orders: self.sell_order_buffer@,
            nonce: self.nonce,
        }
    }
}

impl Module {
    /// The engine with no order.
    pub fn new() -> (r: Self)
        ensures
            r@ == (State {
                orders: Map::empty(),
                order_id_by_index: Map::empty(),
                order_index: 0,
                owned_tp_opened_orders: Map::empty(),
                owned_tp_closed_orders: Map::empty(),
                trade_pair_owned_orders: Map::empty(),
                trade_pair_owned_orders_index: Map::empty(),
                buy_orders: Ring::empty(),
                sell_orders: Ring::empty(),
                nonce: 0,
            }),
            r@.lists_distinct(),
    {
        Module {
            orders: Table::new(),
            order_id_by_index: Table::new(),
            order_index: 0,
            owned_tp_opened_orders: Roster::new(),
            owned_tp_closed_orders: Roster::new(),
            trade_pair_owned_orders: Table::new(),
            trade_pair_owned_orders_index: Table::new(),
            buy_order_buffer: RingBuffer::new(),
            sell_order_buffer: RingBuffer::new(),
            nonce: 0,
        }
    }

    /// Places a limit order of `sender` on the trade pair `tpid`. The price
    /// and the amount must not be zero and the sender's balance of the
    /// pair's quote token must cover the amount, which is frozen. The order
    /// starts as `Created` with its whole amount remaining. Returns the
    /// order's identifier, derived from the seed, the sender and the engine's
    /// nonce, and the event.
    pub fn create_limit_order(
        &mut self,
        trade_pairs: &trade_pair::Module,
        tokens: &mut token::Module,
        seed: &[u8; 32],
        now: Moment,
        sender: AccountId,
        tpid: Did,
        otype: OrderType,
        price: u64,
        amount: u64,
    ) -> (r: Result<(Did, Event), Error>)
        ensures
            ({
                let order_id = new_did(seed@, sender, old(self)@.nonce);
                match old(self)@.create_limit_order(
                    trade_pairs@,
                    old(tokens)@,
                    order_id,
                    now,
                    sender,
                    tpid,
                    otype,
                    price,
                    amount,
                ) {
                    Ok((state, ledger)) => {
                        &&& final(self)@ == state
                        &&& final(tokens)@ == ledger
                        &&& r == Ok::<(Did, Event), Error>(
                            (order_id, Event::LimitOrderCreated(sender, tpid, otype, price, amount)),
                        )
                    },
                    Err(e) => {
                        &&& final(self)@ == old(self)@
                        &&& final(tokens)@ == old(tokens)@
                        &&& r == Err::<(Did, Event), Error>(e)
                    },
                }
            }),
            final(self)@.lists_distinct(),
            r is Ok ==> listed_once(
                list_or_empty(final(self)@.owned_tp_opened_orders, (sender, tpid)),
                new_did(seed@, sender, old(self)@.nonce),
            ),
    {
        self.owned_tp_opened_orders.distinct();
        self.owned_tp_closed_orders.distinct();
        proof {
            lemma_lists_distinct(
                self@,
                trade_pairs@,
                tokens@,
                new_did(seed@, sender, self@.nonce),
                now,
                sender,
                tpid,
                otype,
                price,
                amount,
            );
        }
        let trade_pair = match trade_pairs.get_trade_pair(tpid) {
            Some(tp) => tp,
            None => {
                return Err(Error::NoMatchingTradePair);
            },
        };
        let index = self.order_index;
        let tp_owned_index = read_or_zero(&self.trade_pair_owned_orders_index, &tpid);
        match Self::_ensure_bounds_of_limit_order_create(tokens, sender, trade_pair.quote, price, amount) {
            Ok(()) => {},
            Err(e) => {
                return Err(e);
            },
        }
        if self.nonce == u64::MAX || index == u32::MAX || tp_owned_index == u64::MAX {
            return Err(Error::OverflowError);
        }
        match tokens.freeze(sender, trade_pair.quote, amount) {
            Ok(_) => {},
            Err(e) => {
                return Err(Error::Token(e));
            },
        }
        let new_order_id = generate_did(seed, sender, self.nonce);
        let new_order = LimitOrder {
            tpid,
            owner: sender,
            price,
            amount,
            created_time: now,
            remained_amount: amount,
            otype,
            status: OrderStatus::Created,
        };
        self.orders.insert(new_order_id, new_order);
        self.nonce = self.nonce + 1;
        self.order_id_by_index.insert(index, new_order_id);
        self.order_index = index + 1;
        match otype {
            OrderType::Sell => self.add_to_sell_order_book(index),
            OrderType::Buy => self.add_to_buy_order_book(index),
        }
        self._add_to_owned_tp_opened_order(sender, tpid, new_order_id);
        self._add_to_tp_owned_order(tpid, new_order_id);
        Ok((new_order_id, Event::LimitOrderCreated(sender, tpid, otype, price, amount)))
    }

    /// Cancels the order `order_id`, which must be the sender's and not
    /// finished. The order becomes `Canceled`, moves from the sender's open
    /// orders to the closed ones, and what remains of it is set free.
    pub fn cancel_limit_order(
        &mut self,
        trade_pairs: &trade_pair::Module,
        tokens: &mut token::Module,
        sender: AccountId,
        order_id: Did,
    ) -> (r: Result<Event, Error>)
        ensures
            match old(self)@.cancel_limit_order(trade_pairs@, old(tokens)@, sender, order_id) {
                Ok((state, ledger)) => {
                    &&& final(self)@ == state
                    &&& final(tokens)@ == ledger
                    &&& r == Ok::<Event, Error>(Event::OrderCanceled(sender, order_id))
                },
                Err(e) => {
                    &&& final(self)@ == old(self)@
                    &&& final(tokens)@ == old(tokens)@
                    &&& r == Err::<Event, Error>(e)
                },
            },
            final(self)@.lists_distinct(),
            r is Ok ==> canceled_listed(old(self)@, final(self)@, sender, order_id),
    {
        self.owned_tp_opened_orders.distinct();
        self.owned_tp_closed_orders.distinct();
        proof {
            lemma_lists_distinct(
                self@,
                trade_pairs@,
                tokens@,
                order_id,
                0,
                sender,
                order_id,
                OrderType::Buy,
                0,
                0,
            );
        }
        let mut order = match self.orders.get(&order_id) {
            Some(order) => *order,
            None => {
                return Err(Error::NoMatchingOrder);
            },
        };
        match Self::_ensure_bounds_of_limit_order_cancel(sender, order) {
            Ok(()) => {},
            Err(e) => {
                return Err(e);
            },
        }
        let trade_pair = match trade_pairs.get_trade_pair(order.tpid) {
            Some(tp) => tp,
            None => {
                return Err(Error::NoMatchingTradePair);
            },
        };
        match tokens.unfreeze(sender, trade_pair.quote, order.remained_amount) {
            Ok(_) => {},
            Err(e) => {
                return Err(Error::Token(e));
            },
        }
        order.status = OrderStatus::Canceled;
        self.orders.insert(order_id, order);
        self._remove_from_owned_tp_opened_order(sender, order.tpid, order_id);
        self._add_to_owned_tp_closed_order(sender, order.tpid, order_id);
        Ok(Event::OrderCanceled(sender, order_id))
    }

    /// Checks that the price and the amount are not zero, that the sender's
    /// balance of `quote` covers the amount, and that the ledger would freeze
    /// the amount. Nothing is written.
    fn _ensure_bounds_of_limit_order_create(
        tokens: &token::Module,
        sender: AccountId,
        quote: Did,
        price: u64,
        amount: u64,
    ) -> (r: Result<(), Error>)
        ensures
            r == if price == 0 || amount == 0 || tokens@.balance_of(sender, quote) < amount {
                Err::<(), Error>(Error::BoundsCheckFailed)
            } else if tokens@.ensure_free_balance(sender, quote, amount) is Err {
                Err(Error::Token(tokens@.ensure_free_balance(sender, quote, amount)->Err_0))
            } else if tokens@.freeze(sender, quote, amount) is Err {
                Err(Error::Token(tokens@.freeze(sender, quote, amount)->Err_0))
            } else {
                Ok(())
            },
    {
        if !(price > 0 && price <= u64::MAX) {
            return Err(Error::BoundsCheckFailed);
        }
        if !(amount > 0 && amount <= u64::MAX) {
            return Err(Error::BoundsCheckFailed);
        }
        let balance = tokens.balance_of(sender, quote);
        if !(balance >= amount) {
            return Err(Error::BoundsCheckFailed);
        }
        match tokens.ensure_free_balance(sender, quote, amount) {
            Ok(()) => {},
            Err(e) => {
                return Err(Error::Token(e));
            },
        }
        match tokens.check_freeze(sender, quote, amount) {
            Ok(()) => {},
            Err(e) => {
                return Err(Error::Token(e));
            },
        }
        Ok(())
    }

    /// Checks that the order is the sender's and not finished.
    fn _ensure_bounds_of_limit_order_cancel(sender: AccountId, order: LimitOrder) -> (r: Result<
        (),
        Error,
    >)
        ensures
            r == if order.owner != sender {
                Err::<(), Error>(Error::CanOnlyCancelOwnOrder)
            } else if spec_is_limit_order_finished(order) {
                Err(Error::CanOnlyCancelNotFinishedOrder)
            } else {
                Ok(())
            },
    {
        if order.owner != sender {
            return Err(Error::CanOnlyCancelOwnOrder);
        }
        if Self::is_limit_order_finished(order) {
            return Err(Error::CanOnlyCancelNotFinishedOrder);
        }
        Ok(())
    }

    /// Whether nothing is left to do for the order: it is filled with
    /// nothing remaining, or it is canceled.
    pub fn is_limit_order_finished(order: LimitOrder) -> (r: bool)
        ensures
            r == spec_is_limit_order_finished(order),
    {
        (order.remained_amount == 0 && order.status == OrderStatus::Filled) || order.status
            == OrderStatus::Canceled
    }

    /// Stages the index of a buy order.
    pub fn add_to_buy_order_book(&mut self, integer: u32)
        ensures
            final(self)@ == (State {
                buy_orders: old(self)@.buy_orders.push(staged(integer)),
                ..old(self)@
            }),
    {
        push_one(&mut self.buy_order_buffer, ValueStruct { integer, boolean: true });
    }

    /// Stages the indices of buy orders, in order.
    pub fn add_multiple_buy_order(&mut self, integers: Vec<u32>)
        ensures
            final(self)@ == (State {
                buy_orders: old(self)@.buy_orders.push_all(flagged(integers@, true)),
                ..old(self)@
            }),
    {
        push_each(&mut self.buy_order_buffer, &integers, true);
    }

    /// Drops the buy order staged first, if there is one.
    pub fn remove_from_buy_order_book(&mut self)
        ensures
            final(self)@ == (State { buy_orders: old(self)@.buy_orders.pop(), ..old(self)@ }),
    {
        pop_one(&mut self.buy_order_buffer);
    }

    /// The index of the buy order staged first, if there is one.
    pub fn get_oldest_value_from_buy_order_book(&self) -> (r: Option<u32>)
        ensures
            r == oldest_staged(self@.buy_orders),
    {
        oldest(&self.buy_order_buffer)
    }

    /// The bounds of the queue of buy orders: the index of the oldest
    /// entry and the index one past the newest. The slots between them all
    /// hold an entry.
    pub fn buy_order_range(&self) -> (r: (BufferIndex, BufferIndex))
        ensures
            r == self@.buy_orders.bounds,
            self@.buy_orders.filled(),
    {
        self.buy_order_buffer.range()
    }

    /// What the slot at `index` of the queue of buy orders holds; an empty
    /// slot reads as zero and false.
    pub fn get_buy_order_value(&self, index: BufferIndex) -> (r: ValueStruct)
        ensures
            r == spec_slot_value(self@.buy_orders, index),
    {
        slot_value(&self.buy_order_buffer, index)
    }

    /// Stages the index of a sell order.
    pub fn add_to_sell_order_book(&mut self, integer: u32)
        ensures
            final(self)@ == (State {
                sell_orders: old(self)@.sell_orders.push(staged(integer)),
                ..old(self)@
            }),
    {
        push_one(&mut self.sell_order_buffer, ValueStruct { integer, boolean: true });
    }

    /// Stages the indices of sell orders, in order.
    pub fn add_multiple_sell_order(&mut self, integers: Vec<u32>)
        ensures
            final(self)@ == (State {
                sell_orders: old(self)@.sell_orders.push_all(flagged(integers@, true)),
                ..old(self)@
            }),
    {
        push_each(&mut self.sell_order_buffer, &integers, true);
    }

    /// Drops the sell order staged first, if there is one.
    pub fn remove_from_sell_order_book(&mut self)
        ensures
            final(self)@ == (State { sell_orders: old(self)@.sell_orders.pop(), ..old(self)@ }),
    {
        pop_one(&mut self.sell_order_buffer);
    }

    /// The index of the sell order staged first, if there is one.
    pub fn get_oldest_value_from_sell_order_book(&self) -> (r: Option<u32>)
        ensures
            r == oldest_staged(self@.sell_orders),
    {
        oldest(&self.sell_order_buffer)
    }

    /// The bounds of the queue of sell orders: the index of the oldest
    /// entry and the index one past the newest. The slots between them all
    /// hold an entry.
    pub fn sell_order_range(&self) -> (r: (BufferIndex, BufferIndex))
        ensures
            r == self@.sell_orders.bounds,
            self@.sell_orders.filled(),
    {
        self.sell_order_buffer.range()
    }

    /// What the slot at `index` of the queue of sell orders holds; an empty
    /// slot reads as zero and false.
    pub fn get_sell_order_value(&self, index: BufferIndex) -> (r: ValueStruct)
        ensures
            r == spec_slot_value(self@.sell_orders, index),
    {
        slot_value(&self.sell_order_buffer, index)
    }

    /// Puts the order first among the open orders of the account on the
    /// trade pair, unless it is among them.
    fn _add_to_owned_tp_opened_order(&mut self, account_id: AccountId, tpid: Did, order_id: Did)
        ensures
            final(self)@ == (State {
                owned_tp_opened_orders: with_first(
                    old(self)@.owned_tp_opened_orders,
                    (account_id, tpid),
                    order_id,
                ),
                ..old(self)@
            }),
    {
        self.owned_tp_opened_orders.add_first((account_id, tpid), order_id);
    }

    /// Takes the order out of the open orders of the account on the trade
    /// pair.
    fn _remove_from_owned_tp_opened_order(&mut self, account_id: AccountId, tpid: Did, order_id: Did)
        ensures
            final(self)@ == (State {
                owned_tp_opened_orders: with_none_of(
                    old(self)@.owned_tp_opened_orders,
                    (account_id, tpid),
                    order_id,
                ),
                ..old(self)@
            }),
    {
        self.owned_tp_opened_orders.remove_item((account_id, tpid), &order_id);
    }

    /// Records the order as the next one placed on the trade pair.
    fn _add_to_tp_owned_order(&mut self, tpid: Did, order_id: Did)
        requires
            old(self)@.trade_pair_owned_order_index(tpid) < u64::MAX,
        ensures
            final(self)@ == (State {
                trade_pair_owned_orders: old(self)@.trade_pair_owned_orders.insert(
                    (tpid, old(self)@.trade_pair_owned_order_index(tpid)),
                    order_id,
                ),
                trade_pair_owned_orders_index: old(self)@.trade_pair_owned_orders_index.insert(
                    tpid,
                    (old(self)@.trade_pair_owned_order_index(tpid) + 1) as u64,
                ),
                ..old(self)@
            }),
    {
        let tp_owned_index = read_or_zero(&self.trade_pair_owned_orders_index, &tpid);
        self.trade_pair_owned_orders.insert((tpid, tp_owned_index), order_id);
        self.trade_pair_owned_orders_index.insert(tpid, tp_owned_index + 1);
    }

    /// Puts the order first among the closed orders of the account on the
    /// trade pair, unless it is among them.
    fn _add_to_owned_tp_closed_order(&mut self, account_id: AccountId, tpid: Did, order_id: Did)
        ensures
            final(self)@ == (State {
                owned_tp_closed_orders: with_first(
                    old(self)@.owned_tp_closed_orders,
                    (account_id, tpid),
                    order_id,
                ),
                ..old(self)@
            }),
    {
        self.owned_tp_closed_orders.add_first((account_id, tpid), order_id);
    }

    /// The order under `order_id`, if there is one.
    pub fn order(&self, order_id: Did) -> (r: Option<LimitOrder>)
        ensures
            r == if self@.orders.contains_key(order_id) {
                Some(self@.orders[order_id])
            } else {
                None
            },
    {
        match self.orders.get(&order_id) {
            Some(order) => Some(*order),
            None => None,
        }
    }

    /// The identifier of the `index`-th order, if there are that many.
    pub fn order_id_by_index(&self, index: u32) -> (r: Option<Did>)
        ensures
            r == if self@.order_id_by_index.contains_key(index) {
                Some(self@.order_id_by_index[index])
            } else {
                None
            },
    {
        match self.order_id_by_index.get(&index) {
            Some(id) => Some(*id),
            None => None,
        }
    }

    /// How many orders were placed.
    pub fn order_index(&self) -> (r: u32)
        ensures
            r == self@.order_index,
    {
        self.order_index
    }

    /// The open orders of the account on the trade pair, newest first.
    pub fn owned_tp_opened_orders(&self, account_id: AccountId, tpid: Did) -> (r: Vec<Did>)
        ensures
            r@ == list_or_empty(self@.owned_tp_opened_orders, (account_id, tpid)),
            r@.no_duplicates(),
    {
        self.owned_tp_opened_orders.get(&(account_id, tpid))
    }

    /// The closed orders of the account on the trade pair, newest first.
    pub fn owned_tp_closed_orders(&self, account_id: AccountId, tpid: Did) -> (r: Vec<Did>)
        ensures
            r@ == list_or_empty(self@.owned_tp_closed_orders, (account_id, tpid)),
            r@.no_duplicates(),
    {
        self.owned_tp_closed_orders.get(&(account_id, tpid))
    }

    /// The `index`-th order placed on the trade pair, if there are that many.
    pub fn trade_pair_owned_order(&self, tpid: Did, index: u64) -> (r: Option<Did>)
        ensures
            r == if self@.trade_pair_owned_orders.contains_key((tpid, index)) {
                Some(self@.trade_pair_owned_orders[(tpid, index)])
            } else {
                None
            },
    {
        match self.trade_pair_owned_orders.get(&(tpid, index)) {
            Some(id) => Some(*id),
            None => None,
        }
    }

    /// How many orders were placed on the trade pair.
    pub fn trade_pair_owned_order_index(&self, tpid: Did) -> (r: u64)
        ensures
            r == self@.trade_pair_owned_order_index(tpid),
    {
        read_or_zero(&self.trade_pair_owned_orders_index, &tpid)
    }
}

/// Freezing and freeing are symmetric: an order that is placed and then
/// canceled at once by its owner is canceled without error, and every
/// account's balance, free balance and frozen balance of every token is what
/// it was before the order was placed.
pub proof fn lemma_create_then_cancel(
    state: State,
    trade_pairs: trade_pair::State,
    tokens: token::State,
    order_id: Did,
    now: Moment,
    sender: AccountId,
    tpid: Did,
    otype: OrderType,
    price: u64,
    amount: u64,
)
    requires
        state.create_limit_order(
            trade_pairs,
            tokens,
            order_id,
            now,
            sender,
            tpid,
            otype,
            price,
            amount,
        ) is Ok,
    ensures
        ({
            let placed = state.create_limit_order(
                trade_pairs,
                tokens,
                order_id,
                now,
                sender,
                tpid,
                otype,
                price,
                amount,
            )->Ok_0;
            let canceled = placed.0.cancel_limit_order(trade_pairs, placed.1, sender, order_id);
            &&& canceled is Ok
            &&& forall|who: AccountId, token: Did|
                #![trigger canceled->Ok_0.1.free_balance_of(who, token)]
                #![trigger canceled->Ok_0.1.freezed_balance_of(who, token)]
                #![trigger canceled->Ok_0.1.balance_of(who, token)]
                {
                    &&& canceled->Ok_0.1.free_balance_of(who, token) == tokens.free_balance_of(
                        who,
                        token,
                    )
                    &&& canceled->Ok_0.1.freezed_balance_of(who, token)
                        == tokens.freezed_balance_of(who, token)
                    &&& canceled->Ok_0.1.balance_of(who, token) == tokens.balance_of(who, token)
                }
        }),
{
    let quote = trade_pairs.trade_pairs[tpid].quote;
    token::lemma_freeze_unfreeze(tokens, sender, quote, amount);
}

impl State {
    /// Every order that is filled has nothing remaining.
    pub open spec fn orders_sound(self) -> bool {
        forall|id: Did|
            self.orders.contains_key(id) && (#[trigger] self.orders[id]).status
                == OrderStatus::Filled ==> self.orders[id].remained_amount == 0
    }
}

/// Orders stay sound: placing an order and canceling one leave every filled
/// order with nothing remaining. And a canceled order is at its end: whoever
/// tries to cancel it again is refused.
pub proof fn lemma_orders_sound(
    state: State,
    trade_pairs: trade_pair::State,
    tokens: token::State,
    order_id: Did,
    now: Moment,
    sender: AccountId,
    tpid: Did,
    otype: OrderType,
    price: u64,
    amount: u64,
)
    requires
        state.orders_sound(),
    ensures
        state.create_limit_order(
            trade_pairs,
            tokens,
            order_id,
            now,
            sender,
            tpid,
            otype,
            price,
            amount,
        ) is Ok ==> state.create_limit_order(
            trade_pairs,
            tokens,
            order_id,
            now,
            sender,
            tpid,
            otype,
            price,
            amount,
        )->Ok_0.0.orders_sound(),
        state.cancel_limit_order(trade_pairs, tokens, sender, order_id) is Ok
            ==> state.cancel_limit_order(trade_pairs, tokens, sender, order_id)->Ok_0.0.orders_sound()
            && state.cancel_limit_order(
            trade_pairs,
            tokens,
            sender,
            order_id,
        )->Ok_0.0.orders[order_id].status == OrderStatus::Canceled,
        state.orders.contains_key(order_id) && state.orders[order_id].status
            == OrderStatus::Canceled ==> state.cancel_limit_order(
            trade_pairs,
            tokens,
            sender,
            order_id,
        ) is Err,
{
    let created = state.create_limit_order(
        trade_pairs,
        tokens,
        order_id,
        now,
        sender,
        tpid,
        otype,
        price,
        amount,
    );
    if created is Ok {
        let after = created->Ok_0.0;
        assert forall|id: Did|
            after.orders.contains_key(id) && (#[trigger] after.orders[id]).status
                == OrderStatus::Filled implies after.orders[id].remained_amount == 0 by {
            if id != order_id {
                assert(state.orders[id] == after.orders[id]);
            }
        }
    }
    let canceled = state.cancel_limit_order(trade_pairs, tokens, sender, order_id);
    if canceled is Ok {
        let after = canceled->Ok_0.0;
        assert forall|id: Did|
            after.orders.contains_key(id) && (#[trigger] after.orders[id]).status
                == OrderStatus::Filled implies after.orders[id].remained_amount == 0 by {
            if id != order_id {
                assert(state.orders[id] == after.orders[id]);
            }
        }
    }
}

impl State {
    /// No order stands twice among the open orders of an account on a trade
    /// pair, nor among the closed ones.
    pub open spec fn lists_distinct(self) -> bool {
        &&& forall|key: (AccountId, Did)| #[trigger]
            list_or_empty(self.owned_tp_opened_orders, key).no_duplicates()
        &&& forall|key: (AccountId, Did)| #[trigger]
            list_or_empty(self.owned_tp_closed_orders, key).no_duplicates()
    }
}

/// Where the order stands after it was canceled: no longer among the open
/// orders of its owner on its trade pair, and exactly once among the closed
/// ones.
pub open spec fn canceled_listed(before: State, after: State, sender: AccountId, order_id: Did) -> bool {
    let key = (sender, before.orders[order_id].tpid);
    &&& !list_or_empty(after.owned_tp_opened_orders, key).contains(order_id)
    &&& listed_once(list_or_empty(after.owned_tp_closed_orders, key), order_id)
}

/// The lists of open and closed orders stay free of repeats. A new order
/// stands exactly once among the open orders of its owner on its trade pair;
/// a canceled order stands there no longer, and exactly once among the
/// closed ones.
pub proof fn lemma_lists_distinct(
    state: State,
    trade_pairs: trade_pair::State,
    tokens: token::State,
    order_id: Did,
    now: Moment,
    sender: AccountId,
    tpid: Did,
    otype: OrderType,
    price: u64,
    amount: u64,
)
    requires
        state.lists_distinct(),
    ensures
        state.create_limit_order(
            trade_pairs,
            tokens,
            order_id,
            now,
            sender,
            tpid,
            otype,
            price,
            amount,
        ) is Ok ==> {
            let after = state.create_limit_order(
                trade_pairs,
                tokens,
                order_id,
                now,
                sender,
                tpid,
                otype,
                price,
                amount,
            )->Ok_0.0;
            &&& after.lists_distinct()
            &&& listed_once(list_or_empty(after.owned_tp_opened_orders, (sender, tpid)), order_id)
        },
        state.cancel_limit_order(trade_pairs, tokens, sender, order_id) is Ok ==> {
            let after = state.cancel_limit_order(trade_pairs, tokens, sender, order_id)->Ok_0.0;
            &&& after.lists_distinct()
            &&& canceled_listed(state, after, sender, order_id)
        },
{
    let created = state.create_limit_order(
        trade_pairs,
        tokens,
        order_id,
        now,
        sender,
        tpid,
        otype,
        price,
        amount,
    );
    if created is Ok {
        let after = created->Ok_0.0;
        let key = (sender, tpid);
        assert(list_or_empty(state.owned_tp_opened_orders, key).no_duplicates());
        lemma_with_first(state.owned_tp_opened_orders, key, order_id);
        assert forall|k: (AccountId, Did)| #[trigger]
            list_or_empty(after.owned_tp_opened_orders, k).no_duplicates() by {
            assert(list_or_empty(state.owned_tp_opened_orders, k).no_duplicates());
        }
        assert forall|k: (AccountId, Did)| #[trigger]
            list_or_empty(after.owned_tp_closed_orders, k).no_duplicates() by {
            assert(list_or_empty(state.owned_tp_closed_orders, k).no_duplicates());
        }
    }
    let canceled = state.cancel_limit_order(trade_pairs, tokens, sender, order_id);
    if canceled is Ok {
        let after = canceled->Ok_0.0;
        let key = (sender, state.orders[order_id].tpid);
        assert(list_or_empty(state.owned_tp_opened_orders, key).no_duplicates());
        assert(list_or_empty(state.owned_tp_closed_orders, key).no_duplicates());
        lemma_with_none_of(state.owned_tp_opened_orders, key, order_id);
        lemma_with_first(state.owned_tp_closed_orders, key, order_id);
        assert forall|k: (AccountId, Did)| #[trigger]
            list_or_empty(after.owned_tp_opened_orders, k).no_duplicates() by {
            assert(list_or_empty(state.owned_tp_opened_orders, k).no_duplicates());
        }
        assert forall|k: (AccountId, Did)| #[trigger]
            list_or_empty(after.owned_tp_closed_orders, k).no_duplicates() by {
            assert(list_or_empty(state.owned_tp_closed_orders, k).no_duplicates());
        }
    }
}

} // verus!
