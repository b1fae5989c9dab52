use swap_engine::common::generate_did;
use swap_engine::token::{Error, Event, Module, MAX_MEMO_LEN};
use swap_engine::utilities::Did;

const SEED: [u8; 32] = [1u8; 32];

fn issued(ledger: &mut Module, from: u64, supply: u64) -> Did {
    match ledger.issue(&SEED, from, supply, b"TKN".to_vec()) {
        Ok(Event::Issued(_, tid, _)) => tid,
        other => panic!("issue failed: {:?}", other),
    }
}

fn pool(byte: u8) -> Did {
    Did { did: [byte; 32] }
}

#[test]
fn issue_gives_the_supply_to_the_issuer() {
    let mut ledger = Module::new();
    assert_eq!(ledger.nonce(), 0);
    let event = ledger.issue(&SEED, 1, 1000, b"ABC".to_vec());
    let tid = generate_did(&SEED, 1, 0);
    assert_eq!(event, Ok(Event::Issued(1, tid, 1000)));
    assert_eq!(ledger.nonce(), 1);
    assert_eq!(ledger.balance_of(1, tid), 1000);
    assert_eq!(ledger.free_balance_of(1, tid), 1000);
    assert_eq!(ledger.freezed_balance_of(1, tid), 0);
    assert_eq!(ledger.owner_of(tid), Some(1));
    assert_eq!(ledger.owned_token(1, 0), Some(tid));
    assert_eq!(ledger.owned_token(1, 1), None);
    assert_eq!(ledger.owned_token_index(1), 1);
    let token = ledger.token(&tid).unwrap();
    assert_eq!(token.tid, tid);
    assert_eq!(token.owner, 1);
    assert_eq!(token.symbol, b"ABC".to_vec());
    assert_eq!(token.total_supply, 1000);
    assert_eq!(token.clone(), *token);
}

#[test]
fn second_issue_uses_the_next_nonce() {
    let mut ledger = Module::new();
    let first = issued(&mut ledger, 1, 10);
    let second = issued(&mut ledger, 1, 20);
    assert_ne!(first, second);
    assert_eq!(second, generate_did(&SEED, 1, 1));
    assert_eq!(ledger.owned_token(1, 1), Some(second));
    assert_eq!(ledger.owned_token_index(1), 2);
}

#[test]
fn unknown_token_reads_as_nothing() {
    let ledger = Module::new();
    let tid = pool(9);
    assert_eq!(ledger.owner_of(tid), None);
    assert!(ledger.token(&tid).is_none());
    assert_eq!(ledger.balance_of(1, tid), 0);
    assert_eq!(ledger.free_balance_of(1, tid), 0);
    assert_eq!(ledger.static_balance_of(pool(1), tid), 0);
}

#[test]
fn transfer_moves_free_balance() {
    let mut ledger = Module::new();
    let tid = issued(&mut ledger, 1, 1000);
    let memo = Some(vec![0u8; MAX_MEMO_LEN]);
    let event = ledger.transfer(1, 2, tid, 300, memo.clone());
    assert_eq!(event, Ok(Event::Transferd(1, 2, tid, 300, memo)));
    assert_eq!(ledger.balance_of(1, tid), 700);
    assert_eq!(ledger.free_balance_of(1, tid), 700);
    assert_eq!(ledger.balance_of(2, tid), 300);
    assert_eq!(ledger.free_balance_of(2, tid), 300);
}

#[test]
fn transfer_errors() {
    let mut ledger = Module::new();
    let tid = issued(&mut ledger, 1, 1000);
    assert_eq!(ledger.transfer(1, 2, pool(5), 1, None), Err(Error::NoMatchingToken));
    assert_eq!(
        ledger.transfer(1, 2, tid, 1, Some(vec![0u8; MAX_MEMO_LEN + 1])),
        Err(Error::MemoLengthExceedLimitation)
    );
    assert_eq!(ledger.transfer(3, 2, tid, 1, None), Err(Error::SenderHaveNoToken));
    assert_eq!(ledger.transfer(1, 2, tid, 1001, None), Err(Error::BalanceNotEnough));
    assert!(ledger.freeze(1, tid, 600).is_ok());
    assert_eq!(ledger.transfer(1, 2, tid, 500, None), Err(Error::BalanceNotEnough));
    assert_eq!(ledger.balance_of(1, tid), 1000);
    assert_eq!(ledger.free_balance_of(1, tid), 400);
    assert_eq!(ledger.balance_of(2, tid), 0);
}

#[test]
fn transfer_to_oneself_adds_the_amount() {
    let mut ledger = Module::new();
    let tid = issued(&mut ledger, 1, 100);
    assert!(ledger.transfer(1, 1, tid, 10, None).is_ok());
    assert_eq!(ledger.balance_of(1, tid), 110);
    assert_eq!(ledger.free_balance_of(1, tid), 110);
}

#[test]
fn transfer_overflow_is_refused() {
    let mut ledger = Module::new();
    let tid = issued(&mut ledger, 1, u64::MAX);
    assert_eq!(ledger.transfer(1, 1, tid, 1, None), Err(Error::AmountOverflow));
    assert_eq!(ledger.balance_of(1, tid), u64::MAX);
}

#[test]
fn static_transfer_in_and_out() {
    let mut ledger = Module::new();
    let tid = issued(&mut ledger, 1, 1000);
    let lp = pool(7);
    assert_eq!(ledger.check_static_transfer_in(1, lp, tid, 400), Ok(()));
    assert_eq!(
        ledger.static_transfer_in(1, lp, tid, 400),
        Ok(Event::StaticTransferdIn(1, lp, tid, 400))
    );
    assert_eq!(ledger.balance_of(1, tid), 600);
    assert_eq!(ledger.free_balance_of(1, tid), 600);
    assert_eq!(ledger.static_balance_of(lp, tid), 400);
    assert_eq!(ledger.check_static_transfer_out(lp, 2, tid, 150), Ok(()));
    assert_eq!(
        ledger.static_transfer_out(lp, 2, tid, 150),
        Ok(Event::StaticTransferdOut(lp, 2, tid, 150))
    );
    assert_eq!(ledger.static_balance_of(lp, tid), 250);
    assert_eq!(ledger.balance_of(2, tid), 150);
    assert_eq!(ledger.free_balance_of(2, tid), 150);
}

#[test]
fn static_transfer_errors() {
    let mut ledger = Module::new();
    let tid = issued(&mut ledger, 1, 1000);
    let lp = pool(7);
    assert_eq!(ledger.static_transfer_in(1, lp, pool(3), 1), Err(Error::NoMatchingToken));
    assert_eq!(ledger.static_transfer_in(2, lp, tid, 1), Err(Error::SenderHaveNoToken));
    assert_eq!(ledger.static_transfer_in(1, lp, tid, 1001), Err(Error::BalanceNotEnough));
    assert_eq!(ledger.check_static_transfer_in(1, lp, tid, 1001), Err(Error::BalanceNotEnough));
    assert_eq!(ledger.static_transfer_out(lp, 1, pool(3), 1), Err(Error::NoMatchingToken));
    assert_eq!(ledger.static_transfer_out(lp, 1, tid, 1), Err(Error::BalanceNotEnough));
    assert_eq!(ledger.check_static_transfer_out(lp, 1, tid, 1), Err(Error::BalanceNotEnough));
    assert_eq!(ledger.balance_of(1, tid), 1000);
    assert_eq!(ledger.static_balance_of(lp, tid), 0);
}

#[test]
fn static_transfer_out_overflow_is_refused() {
    let mut ledger = Module::new();
    let tid = issued(&mut ledger, 1, u64::MAX);
    let lp = pool(7);
    assert!(ledger.static_transfer_in(1, lp, tid, 10).is_ok());
    assert!(ledger.transfer(1, 1, tid, 10, None).is_ok());
    assert_eq!(ledger.balance_of(1, tid), u64::MAX);
    assert_eq!(ledger.static_transfer_out(lp, 1, tid, 1), Err(Error::AmountOverflow));
    assert_eq!(ledger.static_balance_of(lp, tid), 10);
}

#[test]
fn double_transfer_in_moves_both_or_neither() {
    let mut ledger = Module::new();
    let a = issued(&mut ledger, 1, 1000);
    let b = issued(&mut ledger, 1, 50);
    let lp = pool(7);
    assert_eq!(
        ledger.static_transfer_in_twice(1, lp, a, 100, b, 60),
        Err(Error::BalanceNotEnough)
    );
    assert_eq!(ledger.balance_of(1, a), 1000);
    assert_eq!(ledger.static_balance_of(lp, a), 0);
    assert_eq!(
        ledger.static_transfer_in_twice(1, lp, a, 100, b, 50),
        Ok((Event::StaticTransferdIn(1, lp, a, 100), Event::StaticTransferdIn(1, lp, b, 50)))
    );
    assert_eq!(ledger.balance_of(1, a), 900);
    assert_eq!(ledger.balance_of(1, b), 0);
    assert_eq!(ledger.static_balance_of(lp, a), 100);
    assert_eq!(ledger.static_balance_of(lp, b), 50);
}

#[test]
fn double_transfer_of_one_token_counts_both_amounts() {
    let mut ledger = Module::new();
    let a = issued(&mut ledger, 1, 100);
    let lp = pool(7);
    assert_eq!(
        ledger.static_transfer_in_twice(1, lp, a, 60, a, 50),
        Err(Error::BalanceNotEnough)
    );
    assert_eq!(ledger.balance_of(1, a), 100);
    assert!(ledger.static_transfer_in_twice(1, lp, a, 60, a, 40).is_ok());
    assert_eq!(ledger.balance_of(1, a), 0);
    assert_eq!(ledger.static_balance_of(lp, a), 100);
    assert_eq!(
        ledger.static_transfer_out_twice(lp, 2, a, 60, a, 50),
        Err(Error::BalanceNotEnough)
    );
    assert_eq!(ledger.static_balance_of(lp, a), 100);
    assert_eq!(
        ledger.static_transfer_out_twice(lp, 2, a, 60, a, 40),
        Ok((Event::StaticTransferdOut(lp, 2, a, 60), Event::StaticTransferdOut(lp, 2, a, 40)))
    );
    assert_eq!(ledger.static_balance_of(lp, a), 0);
    assert_eq!(ledger.balance_of(2, a), 100);
}

#[test]
fn double_transfer_out_moves_both_or_neither() {
    let mut ledger = Module::new();
    let a = issued(&mut ledger, 1, 1000);
    let b = issued(&mut ledger, 1, 50);
    let lp = pool(7);
    assert!(ledger.static_transfer_in_twice(1, lp, a, 100, b, 50).is_ok());
    assert_eq!(
        ledger.static_transfer_out_twice(lp, 2, a, 100, b, 51),
        Err(Error::BalanceNotEnough)
    );
    assert_eq!(ledger.static_balance_of(lp, a), 100);
    assert_eq!(ledger.balance_of(2, a), 0);
    assert!(ledger.static_transfer_out_twice(lp, 2, a, 100, b, 50).is_ok());
    assert_eq!(ledger.balance_of(2, a), 100);
    assert_eq!(ledger.balance_of(2, b), 50);
}

#[test]
fn freeze_and_unfreeze() {
    let mut ledger = Module::new();
    let tid = issued(&mut ledger, 1, 1000);
    assert_eq!(ledger.freeze(1, tid, 250), Ok(Event::Freezed(1, tid, 250)));
    assert_eq!(ledger.balance_of(1, tid), 1000);
    assert_eq!(ledger.free_balance_of(1, tid), 750);
    assert_eq!(ledger.freezed_balance_of(1, tid), 250);
    assert_eq!(ledger.unfreeze(1, tid, 100), Ok(Event::UnFreezed(1, tid, 100)));
    assert_eq!(ledger.free_balance_of(1, tid), 850);
    assert_eq!(ledger.freezed_balance_of(1, tid), 150);
}

#[test]
fn freeze_then_unfreeze_restores_the_balances() {
    let mut ledger = Module::new();
    let tid = issued(&mut ledger, 1, 1000);
    assert!(ledger.freeze(1, tid, 40).is_ok());
    let before = (
        ledger.balance_of(1, tid),
        ledger.free_balance_of(1, tid),
        ledger.freezed_balance_of(1, tid),
    );
    assert!(ledger.freeze(1, tid, 333).is_ok());
    assert!(ledger.unfreeze(1, tid, 333).is_ok());
    let after = (
        ledger.balance_of(1, tid),
        ledger.free_balance_of(1, tid),
        ledger.freezed_balance_of(1, tid),
    );
    assert_eq!(before, after);
    assert_eq!(after, (1000, 960, 40));
}

#[test]
fn freeze_errors() {
    let mut ledger = Module::new();
    let tid = issued(&mut ledger, 1, 1000);
    assert_eq!(ledger.freeze(1, pool(3), 1), Err(Error::NoMatchingToken));
    assert_eq!(ledger.freeze(2, tid, 1), Err(Error::SenderHaveNoToken));
    assert_eq!(ledger.freeze(1, tid, 1001), Err(Error::BalanceNotEnough));
    assert_eq!(ledger.unfreeze(1, pool(3), 1), Err(Error::NoMatchingToken));
    assert_eq!(ledger.unfreeze(2, tid, 1), Err(Error::SenderHaveNoToken));
    assert_eq!(ledger.unfreeze(1, tid, 1), Err(Error::BalanceNotEnough));
    assert_eq!(ledger.free_balance_of(1, tid), 1000);
    assert_eq!(ledger.freezed_balance_of(1, tid), 0);
}

#[test]
fn ensure_free_balance_checks_the_free_part() {
    let mut ledger = Module::new();
    let tid = issued(&mut ledger, 1, 1000);
    assert_eq!(ledger.ensure_free_balance(1, tid, 1000), Ok(()));
    assert!(ledger.freeze(1, tid, 1).is_ok());
    assert_eq!(ledger.ensure_free_balance(1, tid, 1000), Err(Error::BalanceNotEnough));
    assert_eq!(ledger.ensure_free_balance(1, tid, 999), Ok(()));
    assert_eq!(ledger.ensure_free_balance(2, tid, 0), Err(Error::SenderHaveNoToken));
    assert_eq!(ledger.ensure_free_balance(1, pool(3), 0), Err(Error::NoMatchingToken));
}

#[test]
fn checks_foretell_the_moves_and_write_nothing() {
    let mut ledger = Module::new();
    let a = issued(&mut ledger, 1, 100);
    let b = issued(&mut ledger, 1, 50);
    let lp = pool(7);
    assert_eq!(ledger.check_static_transfer_in_twice(1, lp, a, 100, b, 50), Ok(()));
    assert_eq!(
        ledger.check_static_transfer_in_twice(1, lp, a, 100, b, 51),
        Err(Error::BalanceNotEnough)
    );
    assert_eq!(
        ledger.check_static_transfer_in_twice(1, lp, pool(3), 1, b, 51),
        Err(Error::NoMatchingToken)
    );
    assert_eq!(ledger.check_static_transfer_in_twice(1, lp, a, 60, a, 40), Ok(()));
    assert_eq!(
        ledger.check_static_transfer_in_twice(1, lp, a, 60, a, 41),
        Err(Error::BalanceNotEnough)
    );
    assert_eq!(ledger.balance_of(1, a), 100);
    assert_eq!(ledger.static_balance_of(lp, a), 0);
    assert!(ledger.static_transfer_in_twice(1, lp, a, 100, b, 50).is_ok());
    assert_eq!(ledger.check_static_transfer_out_twice(lp, 2, a, 100, b, 50), Ok(()));
    assert_eq!(
        ledger.check_static_transfer_out_twice(lp, 2, a, 100, b, 51),
        Err(Error::BalanceNotEnough)
    );
    assert_eq!(
        ledger.check_static_transfer_out_twice(lp, 2, a, 101, pool(3), 1),
        Err(Error::BalanceNotEnough)
    );
    assert_eq!(
        ledger.check_static_transfer_out_twice(lp, 2, a, 60, a, 41),
        Err(Error::BalanceNotEnough)
    );
    assert_eq!(ledger.check_static_transfer_out_twice(lp, 2, a, 60, a, 40), Ok(()));
    assert_eq!(ledger.static_balance_of(lp, a), 100);
    assert_eq!(ledger.balance_of(2, a), 0);
    let c = issued(&mut ledger, 3, 10);
    assert_eq!(ledger.check_freeze(3, c, 10), Ok(()));
    assert_eq!(ledger.check_freeze(3, c, 11), Err(Error::BalanceNotEnough));
    assert_eq!(ledger.check_freeze(2, c, 1), Err(Error::SenderHaveNoToken));
    assert_eq!(ledger.check_freeze(3, pool(3), 1), Err(Error::NoMatchingToken));
    assert_eq!(ledger.free_balance_of(3, c), 10);
    assert_eq!(ledger.freezed_balance_of(3, c), 0);
}
