use swap_engine::common::generate_did;
use swap_engine::swap_orderbook::{Error, Event, Module};
use swap_engine::token;
use swap_engine::trade_pair;
use std::ops::Not;
use swap_engine::utilities::{
    Did, LimitOrder, OrderStatus, OrderType, TradeMethod, ValueStruct,
};

const SEED: [u8; 32] = [5u8; 32];

struct World {
    ledger: token::Module,
    registry: trade_pair::Module,
    book: Module,
    quote: Did,
    tpid: Did,
}

fn issued(ledger: &mut token::Module, from: u64, supply: u64) -> Did {
    match ledger.issue(&SEED, from, supply, b"TKN".to_vec()) {
        Ok(token::Event::Issued(_, tid, _)) => tid,
        other => panic!("issue failed: {:?}", other),
    }
}

fn world() -> World {
    let mut ledger = token::Module::new();
    let base = issued(&mut ledger, 1, 1_000_000);
    let quote = issued(&mut ledger, 1, 1_000_000);
    let mut registry = trade_pair::Module::new();
    let (tpid, _) = registry
        .create_trade_pair(&ledger, &SEED, 1, base, quote, TradeMethod::OrderBook, None)
        .unwrap();
    World { ledger, registry, book: Module::new(), quote, tpid }
}

fn placed(w: &mut World, sender: u64, otype: OrderType, price: u64, amount: u64) -> Did {
    let (id, event) = w
        .book
        .create_limit_order(&w.registry, &mut w.ledger, &SEED, 77, sender, w.tpid, otype, price, amount)
        .unwrap();
    assert_eq!(event, Event::LimitOrderCreated(sender, w.tpid, otype, price, amount));
    id
}

fn order(status: OrderStatus, remained_amount: u64) -> LimitOrder {
    LimitOrder {
        tpid: Did { did: [0u8; 32] },
        owner: 1,
        price: 1,
        amount: 10,
        created_time: 0,
        remained_amount,
        otype: OrderType::Buy,
        status,
    }
}

#[test]
fn create_records_the_order_and_freezes_the_amount() {
    let mut w = world();
    let id = placed(&mut w, 1, OrderType::Buy, 8, 100);
    assert_eq!(id, generate_did(&SEED, 1, 0));
    assert_eq!(
        w.book.order(id),
        Some(LimitOrder {
            tpid: w.tpid,
            owner: 1,
            price: 8,
            amount: 100,
            created_time: 77,
            remained_amount: 100,
            otype: OrderType::Buy,
            status: OrderStatus::Created,
        })
    );
    assert_eq!(w.book.order_id_by_index(0), Some(id));
    assert_eq!(w.book.order_index(), 1);
    assert_eq!(w.book.owned_tp_opened_orders(1, w.tpid), vec![id]);
    assert_eq!(w.book.owned_tp_closed_orders(1, w.tpid), vec![]);
    assert_eq!(w.book.trade_pair_owned_order(w.tpid, 0), Some(id));
    assert_eq!(w.book.trade_pair_owned_order(w.tpid, 1), None);
    assert_eq!(w.book.trade_pair_owned_order_index(w.tpid), 1);
    assert_eq!(w.book.get_oldest_value_from_buy_order_book(), Some(0));
    assert_eq!(w.book.get_oldest_value_from_sell_order_book(), None);
    assert_eq!(w.ledger.balance_of(1, w.quote), 1_000_000);
    assert_eq!(w.ledger.free_balance_of(1, w.quote), 999_900);
    assert_eq!(w.ledger.freezed_balance_of(1, w.quote), 100);
}

#[test]
fn orders_are_staged_by_side_and_listed_newest_first() {
    let mut w = world();
    let first = placed(&mut w, 1, OrderType::Sell, 10, 1);
    let second = placed(&mut w, 1, OrderType::Buy, 8, 2);
    let third = placed(&mut w, 1, OrderType::Sell, 11, 3);
    assert_eq!(w.book.owned_tp_opened_orders(1, w.tpid), vec![third, second, first]);
    assert_eq!(w.book.trade_pair_owned_order(w.tpid, 0), Some(first));
    assert_eq!(w.book.trade_pair_owned_order(w.tpid, 2), Some(third));
    assert_eq!(w.book.trade_pair_owned_order_index(w.tpid), 3);
    assert_eq!(w.book.get_oldest_value_from_sell_order_book(), Some(0));
    assert_eq!(w.book.get_oldest_value_from_buy_order_book(), Some(1));
    w.book.remove_from_sell_order_book();
    assert_eq!(w.book.get_oldest_value_from_sell_order_book(), Some(2));
    w.book.remove_from_sell_order_book();
    assert_eq!(w.book.get_oldest_value_from_sell_order_book(), None);
    w.book.remove_from_sell_order_book();
    assert_eq!(w.book.get_oldest_value_from_sell_order_book(), None);
    assert_eq!(w.book.get_oldest_value_from_buy_order_book(), Some(1));
}

#[test]
fn staging_queues() {
    let mut book = Module::new();
    book.add_to_buy_order_book(5);
    book.add_multiple_buy_order(vec![6, 7]);
    book.add_multiple_sell_order(vec![1, 2]);
    book.add_to_sell_order_book(3);
    assert_eq!(book.get_oldest_value_from_buy_order_book(), Some(5));
    book.remove_from_buy_order_book();
    assert_eq!(book.get_oldest_value_from_buy_order_book(), Some(6));
    book.remove_from_buy_order_book();
    book.remove_from_buy_order_book();
    assert_eq!(book.get_oldest_value_from_buy_order_book(), None);
    assert_eq!(book.get_oldest_value_from_sell_order_book(), Some(1));
    let many: Vec<u32> = (100..400).collect();
    book.add_multiple_sell_order(many);
    assert_eq!(book.get_oldest_value_from_sell_order_book(), Some(400 - 255));
}

#[test]
fn staging_queues_are_rings_of_slots() {
    let mut book = Module::new();
    assert_eq!(book.buy_order_range(), (0, 0));
    assert_eq!(book.get_buy_order_value(0), ValueStruct { integer: 0, boolean: false });
    book.add_multiple_buy_order(vec![7, 8, 9]);
    assert_eq!(book.buy_order_range(), (0, 3));
    assert_eq!(book.sell_order_range(), (0, 0));
    assert_eq!(book.get_buy_order_value(1), ValueStruct { integer: 8, boolean: true });
    book.remove_from_buy_order_book();
    assert_eq!(book.buy_order_range(), (1, 3));
    assert_eq!(book.get_buy_order_value(0), ValueStruct { integer: 0, boolean: false });
    let many: Vec<u32> = (0..255).collect();
    book.add_multiple_sell_order(many);
    assert_eq!(book.sell_order_range(), (0, 255));
    book.add_to_sell_order_book(255);
    assert_eq!(book.sell_order_range(), (1, 0));
    assert_eq!(book.get_sell_order_value(255), ValueStruct { integer: 255, boolean: true });
    assert_eq!(book.get_sell_order_value(0), ValueStruct { integer: 0, boolean: true });
    assert_eq!(book.get_oldest_value_from_sell_order_book(), Some(1));
    book.add_to_sell_order_book(256);
    assert_eq!(book.sell_order_range(), (2, 1));
    assert_eq!(book.get_sell_order_value(0), ValueStruct { integer: 256, boolean: true });
    assert_eq!(book.get_oldest_value_from_sell_order_book(), Some(2));
}

#[test]
fn create_errors_leave_everything_as_it_was() {
    let mut w = world();
    let unknown = Did { did: [9u8; 32] };
    let buy = OrderType::Buy;
    assert_eq!(
        w.book.create_limit_order(&w.registry, &mut w.ledger, &SEED, 0, 1, unknown, buy, 1, 1),
        Err(Error::NoMatchingTradePair)
    );
    assert_eq!(
        w.book.create_limit_order(&w.registry, &mut w.ledger, &SEED, 0, 1, w.tpid, buy, 0, 1),
        Err(Error::BoundsCheckFailed)
    );
    assert_eq!(
        w.book.create_limit_order(&w.registry, &mut w.ledger, &SEED, 0, 1, w.tpid, buy, 1, 0),
        Err(Error::BoundsCheckFailed)
    );
    assert_eq!(
        w.book.create_limit_order(&w.registry, &mut w.ledger, &SEED, 0, 1, w.tpid, buy, 1, 1_000_001),
        Err(Error::BoundsCheckFailed)
    );
    assert_eq!(
        w.book.create_limit_order(&w.registry, &mut w.ledger, &SEED, 0, 2, w.tpid, buy, 1, 1),
        Err(Error::BoundsCheckFailed)
    );
    assert!(w.ledger.freeze(1, w.quote, 10).is_ok());
    assert_eq!(
        w.book.create_limit_order(&w.registry, &mut w.ledger, &SEED, 0, 1, w.tpid, buy, 1, 999_995),
        Err(Error::Token(token::Error::BalanceNotEnough))
    );
    assert_eq!(w.book.order_index(), 0);
    assert_eq!(w.book.owned_tp_opened_orders(1, w.tpid), vec![]);
    assert_eq!(w.book.get_oldest_value_from_buy_order_book(), None);
    assert_eq!(w.ledger.free_balance_of(1, w.quote), 999_990);
    assert_eq!(w.ledger.freezed_balance_of(1, w.quote), 10);
}

#[test]
fn cancel_closes_the_order_and_frees_the_amount() {
    let mut w = world();
    let kept = placed(&mut w, 1, OrderType::Buy, 8, 40);
    let id = placed(&mut w, 1, OrderType::Sell, 9, 60);
    assert_eq!(w.ledger.freezed_balance_of(1, w.quote), 100);
    assert_eq!(
        w.book.cancel_limit_order(&w.registry, &mut w.ledger, 1, id),
        Ok(Event::OrderCanceled(1, id))
    );
    let canceled = w.book.order(id).unwrap();
    assert_eq!(canceled.status, OrderStatus::Canceled);
    assert_eq!(canceled.remained_amount, 60);
    assert_eq!(w.book.owned_tp_opened_orders(1, w.tpid), vec![kept]);
    assert_eq!(w.book.owned_tp_closed_orders(1, w.tpid), vec![id]);
    assert_eq!(w.ledger.freezed_balance_of(1, w.quote), 40);
    assert_eq!(w.ledger.free_balance_of(1, w.quote), 999_960);
    assert_eq!(w.book.order(kept).unwrap().status, OrderStatus::Created);
}

#[test]
fn canceling_a_canceled_order_fails() {
    let mut w = world();
    let id = placed(&mut w, 1, OrderType::Buy, 8, 100);
    assert!(w.book.cancel_limit_order(&w.registry, &mut w.ledger, 1, id).is_ok());
    assert_eq!(
        w.book.cancel_limit_order(&w.registry, &mut w.ledger, 1, id),
        Err(Error::CanOnlyCancelNotFinishedOrder)
    );
    assert_eq!(w.ledger.free_balance_of(1, w.quote), 1_000_000);
    assert_eq!(w.ledger.freezed_balance_of(1, w.quote), 0);
    assert_eq!(w.book.owned_tp_closed_orders(1, w.tpid), vec![id]);
}

#[test]
fn cancel_errors() {
    let mut w = world();
    let id = placed(&mut w, 1, OrderType::Buy, 8, 100);
    let unknown = Did { did: [9u8; 32] };
    assert_eq!(
        w.book.cancel_limit_order(&w.registry, &mut w.ledger, 1, unknown),
        Err(Error::NoMatchingOrder)
    );
    assert_eq!(
        w.book.cancel_limit_order(&w.registry, &mut w.ledger, 2, id),
        Err(Error::CanOnlyCancelOwnOrder)
    );
    let empty = trade_pair::Module::new();
    assert_eq!(
        w.book.cancel_limit_order(&empty, &mut w.ledger, 1, id),
        Err(Error::NoMatchingTradePair)
    );
    assert!(w.ledger.unfreeze(1, w.quote, 1).is_ok());
    assert_eq!(
        w.book.cancel_limit_order(&w.registry, &mut w.ledger, 1, id),
        Err(Error::Token(token::Error::BalanceNotEnough))
    );
    assert_eq!(w.book.order(id).unwrap().status, OrderStatus::Created);
    assert_eq!(w.book.owned_tp_opened_orders(1, w.tpid), vec![id]);
    assert_eq!(w.ledger.freezed_balance_of(1, w.quote), 99);
}

#[test]
fn create_then_cancel_restores_the_balances() {
    let mut w = world();
    assert!(w.ledger.freeze(1, w.quote, 7).is_ok());
    let before = (
        w.ledger.balance_of(1, w.quote),
        w.ledger.free_balance_of(1, w.quote),
        w.ledger.freezed_balance_of(1, w.quote),
    );
    let id = placed(&mut w, 1, OrderType::Buy, 3, 5000);
    assert_eq!(w.ledger.free_balance_of(1, w.quote), before.1 - 5000);
    assert_eq!(w.ledger.freezed_balance_of(1, w.quote), before.2 + 5000);
    assert!(w.book.cancel_limit_order(&w.registry, &mut w.ledger, 1, id).is_ok());
    let after = (
        w.ledger.balance_of(1, w.quote),
        w.ledger.free_balance_of(1, w.quote),
        w.ledger.freezed_balance_of(1, w.quote),
    );
    assert_eq!(before, after);
}

#[test]
fn finished_orders() {
    assert!(!Module::is_limit_order_finished(order(OrderStatus::Created, 0)));
    assert!(!Module::is_limit_order_finished(order(OrderStatus::Created, 10)));
    assert!(!Module::is_limit_order_finished(order(OrderStatus::PartialFilled, 0)));
    assert!(!Module::is_limit_order_finished(order(OrderStatus::PartialFilled, 4)));
    assert!(Module::is_limit_order_finished(order(OrderStatus::Filled, 0)));
    assert!(!Module::is_limit_order_finished(order(OrderStatus::Filled, 1)));
    assert!(Module::is_limit_order_finished(order(OrderStatus::Canceled, 0)));
    assert!(Module::is_limit_order_finished(order(OrderStatus::Canceled, 10)));
}

#[test]
fn order_type_not_is_the_other_side() {
    assert_eq!(OrderType::Buy.not(), OrderType::Sell);
    assert_eq!(OrderType::Sell.not(), OrderType::Buy);
    assert_eq!(!OrderType::Buy, OrderType::Sell);
    assert_eq!(!!OrderType::Buy, OrderType::Buy);
}

#[test]
fn an_order_is_listed_once() {
    let mut w = world();
    let first = placed(&mut w, 1, OrderType::Buy, 8, 1);
    let second = placed(&mut w, 1, OrderType::Buy, 8, 1);
    assert_eq!(w.book.owned_tp_opened_orders(1, w.tpid), vec![second, first]);
    assert!(w.book.cancel_limit_order(&w.registry, &mut w.ledger, 1, first).is_ok());
    assert_eq!(w.book.owned_tp_opened_orders(1, w.tpid), vec![second]);
    assert_eq!(w.book.owned_tp_closed_orders(1, w.tpid), vec![first]);
    assert!(w.book.cancel_limit_order(&w.registry, &mut w.ledger, 1, second).is_ok());
    assert_eq!(w.book.owned_tp_opened_orders(1, w.tpid), vec![]);
    assert_eq!(w.book.owned_tp_closed_orders(1, w.tpid), vec![second, first]);
}
