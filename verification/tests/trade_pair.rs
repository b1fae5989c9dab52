use swap_engine::common::generate_did;
use swap_engine::token;
use swap_engine::trade_pair::{Error, Event, Module};
use swap_engine::utilities::{Did, TradeMethod, TradePair};

const SEED: [u8; 32] = [2u8; 32];

fn issued(ledger: &mut token::Module, from: u64, supply: u64) -> Did {
    match ledger.issue(&SEED, from, supply, b"TKN".to_vec()) {
        Ok(token::Event::Issued(_, tid, _)) => tid,
        other => panic!("issue failed: {:?}", other),
    }
}

fn pair(base: Did, quote: Did, method: TradeMethod, matched_price: u64) -> TradePair {
    TradePair {
        base,
        quote,
        method,
        matched_price,
        one_day_trade_volume: 0,
        one_day_highest_price: 0,
        one_day_lowest_price: 0,
    }
}

#[test]
fn create_trade_pair_registers_the_pair() {
    let mut ledger = token::Module::new();
    let base = issued(&mut ledger, 1, 1000);
    let quote = issued(&mut ledger, 2, 1000);
    let mut registry = Module::new();
    let created =
        registry.create_trade_pair(&ledger, &SEED, 2, base, quote, TradeMethod::AMMOrder, Some(7));
    let tpid = generate_did(&SEED, 2, 0);
    let expected = pair(base, quote, TradeMethod::AMMOrder, 7);
    assert_eq!(created, Ok((tpid, Event::TradePairCreated(2, tpid, expected))));
    assert_eq!(registry.get_trade_pair(tpid), Some(expected));
    assert_eq!(registry.get_trade_pair_id_by_base_quote(base, quote), Some(tpid));
    assert_eq!(registry.get_trade_pair_id_by_base_quote(quote, base), None);
    assert_eq!(registry.trade_pair_id_by_index(0), Some(tpid));
    assert_eq!(registry.trade_pair_id_by_index(1), None);
    assert_eq!(registry.trade_pair_index(), 1);
}

#[test]
fn matched_price_defaults_to_zero() {
    let mut ledger = token::Module::new();
    let base = issued(&mut ledger, 1, 1000);
    let quote = issued(&mut ledger, 1, 1000);
    let mut registry = Module::new();
    let (tpid, _) = registry
        .create_trade_pair(&ledger, &SEED, 1, base, quote, TradeMethod::OrderBook, None)
        .unwrap();
    assert_eq!(registry.get_trade_pair(tpid), Some(pair(base, quote, TradeMethod::OrderBook, 0)));
}

#[test]
fn create_trade_pair_errors() {
    let mut ledger = token::Module::new();
    let base = issued(&mut ledger, 1, 1000);
    let quote = issued(&mut ledger, 2, 1000);
    let stranger = Did { did: [9u8; 32] };
    let mut registry = Module::new();
    let method = TradeMethod::AMMOrder;
    assert_eq!(
        registry.create_trade_pair(&ledger, &SEED, 1, base, base, method, None),
        Err(Error::BaseEqualQuote)
    );
    assert_eq!(
        registry.create_trade_pair(&ledger, &SEED, 1, base, stranger, method, None),
        Err(Error::TokenOwnerNotFound)
    );
    assert_eq!(
        registry.create_trade_pair(&ledger, &SEED, 1, stranger, quote, method, None),
        Err(Error::TokenOwnerNotFound)
    );
    assert_eq!(
        registry.create_trade_pair(&ledger, &SEED, 3, base, quote, method, None),
        Err(Error::SenderNotEqualToBaseOrQuoteOwner)
    );
    assert_eq!(registry.trade_pair_index(), 0);
    assert!(registry.create_trade_pair(&ledger, &SEED, 1, base, quote, method, None).is_ok());
    assert_eq!(
        registry.create_trade_pair(&ledger, &SEED, 1, base, quote, method, None),
        Err(Error::TradePairExisted)
    );
    assert_eq!(
        registry.create_trade_pair(&ledger, &SEED, 2, quote, base, method, None),
        Err(Error::TradePairExisted)
    );
    assert_eq!(registry.trade_pair_index(), 1);
}

#[test]
fn transfer_replaces_a_registered_pair() {
    let mut ledger = token::Module::new();
    let base = issued(&mut ledger, 1, 1000);
    let quote = issued(&mut ledger, 1, 1000);
    let mut registry = Module::new();
    let (tpid, _) = registry
        .create_trade_pair(&ledger, &SEED, 1, base, quote, TradeMethod::AMMOrder, None)
        .unwrap();
    let mut updated = pair(base, quote, TradeMethod::AMMOrder, 12);
    updated.one_day_trade_volume = 99;
    assert_eq!(
        registry.transfer(1, tpid, updated),
        Ok(Event::TradePairCreated(1, tpid, updated))
    );
    assert_eq!(registry.get_trade_pair(tpid), Some(updated));
    let unknown = Did { did: [8u8; 32] };
    assert_eq!(registry.transfer(1, unknown, updated), Err(Error::NoMatchingTradePair));
    assert_eq!(registry.get_trade_pair(unknown), None);
}
