//! The ledger of fungible tokens.
//!
//! For each account and token the ledger keeps a balance and the two parts
//! it is made of, the free and the frozen part. For each pool and token it
//! keeps the balance held in the pool's custody. A balance that was never
//! written reads as zero.
//!
//! Every operation either succeeds and changes the ledger as its model says,
//! or fails and leaves the ledger as it was.

use crate::common::{generate_did, new_did};
use crate::table::{read_or_zero, value_or_zero, Key, Table};
use crate::utilities::{AccountId, Did, Token};
use vstd::prelude::*;

verus! {

/// Why an operation of the ledger failed.
#[derive(Clone, Copy, Debug, PartialEq, Eq, Structural)]
pub enum Error {
    AlreadyInitialized,
    InsufficientFunds,
    NoMatchingToken,
    MemoLengthExceedLimitation,
    SenderHaveNoToken,
    BalanceNotEnough,
    /// A balance or a counter would have passed the largest 64-bit number.
    AmountOverflow,
}

/// What the ledger reports to the host.
#[derive(Debug, PartialEq, Eq)]
pub enum Event {
    Issued(AccountId, Did, u64),
    Transferd(AccountId, AccountId, Did, u64, Option<Vec<u8>>),
    StaticTransferdIn(AccountId, Did, Did, u64),
    StaticTransferdOut(Did, AccountId, Did, u64),
    Freezed(AccountId, Did, u64),
    UnFreezed(AccountId, Did, u64),
}

/// The longest memo a transfer may carry, in bytes.
pub const MAX_MEMO_LEN: usize = 512;

/// The ledger as a mathematical value.
pub struct State {
    pub tokens: Map<Did, Token>,
    pub balances: Map<(AccountId, Did), u64>,
    pub static_balances: Map<(Did, Did), u64>,
    pub free_balances: Map<(AccountId, Did), u64>,
    pub freezed_balances: Map<(AccountId, Did), u64>,
    pub owned_tokens: Map<(AccountId, u64), Did>,
    pub owned_tokens_index: Map<AccountId, u64>,
    pub nonce: u64,
}

impl State {
    /// The balance of `who` in `token_id`.
    pub open spec fn balance_of(self, who: AccountId, token_id: Did) -> u64 {
        value_or_zero(self.balances, (who, token_id))
    }

    /// The free part of the balance of `who` in `token_id`.
    pub open spec fn free_balance_of(self, who: AccountId, token_id: Did) -> u64 {
        value_or_zero(self.free_balances, (who, token_id))
    }

    /// The frozen part of the balance of `who` in `token_id`.
    pub open spec fn freezed_balance_of(self, who: AccountId, token_id: Did) -> u64 {
        value_or_zero(self.freezed_balances, (who, token_id))
    }

    /// The balance of `token_id` in the custody of `pool`.
    pub open spec fn static_balance_of(self, pool: Did, token_id: Did) -> u64 {
        value_or_zero(self.static_balances, (pool, token_id))
    }

    /// How many tokens `who` has issued.
    pub open spec fn owned_token_index(self, who: AccountId) -> u64 {
        value_or_zero(self.owned_tokens_index, who)
    }

    /// Whether `token_id` exists and `sender` has a free balance in it, and
    /// the error if not.
    pub open spec fn holder_check(self, sender: AccountId, token_id: Did) -> Result<(), Error> {
        if !self.tokens.contains_key(token_id) {
            Err(Error::NoMatchingToken)
        } else if !self.free_balances.contains_key((sender, token_id)) {
            Err(Error::SenderHaveNoToken)
        } else {
            Ok(())
        }
    }

    /// The ledger after `from` issued a token under the identifier `tid`,
    /// with the whole supply free in the issuer's hands.
    pub open spec fn issue(self, tid: Did, from: AccountId, total_supply: u64, token: Token) -> Result<
        State,
        Error,
    > {
        if self.nonce == u64::MAX || self.owned_token_index(from) == u64::MAX {
            Err(Error::AmountOverflow)
        } else {
            Ok(
                State {
                    tokens: self.tokens.insert(tid, token),
                    balances: self.balances.insert((from, tid), total_supply),
                    free_balances: self.free_balances.insert((from, tid), total_supply),
                    owned_tokens: self.owned_tokens.insert(
                        (from, self.owned_token_index(from)),
                        tid,
                    ),
                    owned_tokens_index: self.owned_tokens_index.insert(
                        from,
                        (self.owned_token_index(from) + 1) as u64,
                    ),
                    nonce: (self.nonce + 1) as u64,
                    ..self
                },
            )
        }
    }

    /// The ledger after `sender` moved `amount` of its free balance to `to`.
    /// The receiver's balances are read before the sender's are written, so a
    /// transfer to oneself ends with the amount added.
    pub open spec fn transfer(
        self,
        sender: AccountId,
        to: AccountId,
        token_id: Did,
        amount: u64,
        memo: Option<Vec<u8>>,
    ) -> Result<State, Error> {
        if !self.tokens.contains_key(token_id) {
            Err(Error::NoMatchingToken)
        } else if memo.is_some() && memo.unwrap()@.len() > MAX_MEMO_LEN {
            Err(Error::MemoLengthExceedLimitation)
        } else if !self.free_balances.contains_key((sender, token_id)) {
            Err(Error::SenderHaveNoToken)
        } else if self.balance_of(sender, token_id) < amount {
            Err(Error::BalanceNotEnough)
        } else if self.free_balance_of(sender, token_id) < amount {
            Err(Error::BalanceNotEnough)
        } else if self.balance_of(to, token_id) + amount > u64::MAX || self.free_balance_of(
            to,
            token_id,
        ) + amount > u64::MAX {
            Err(Error::AmountOverflow)
        } else {
            Ok(
                State {
                    balances: self.balances.insert(
                        (sender, token_id),
                        (self.balance_of(sender, token_id) - amount) as u64,
                    ).insert((to, token_id), (self.balance_of(to, token_id) + amount) as u64),
                    free_balances: self.free_balances.insert(
                        (sender, token_id),
                        (self.free_balance_of(sender, token_id) - amount) as u64,
                    ).insert(
                        (to, token_id),
                        (self.free_balance_of(to, token_id) + amount) as u64,
                    ),
                    ..self
                },
            )
        }
    }

    /// The ledger after `sender` moved `amount` of its free balance into the
    /// custody of the pool `to`.
    pub open spec fn static_transfer_in(
        self,
        sender: AccountId,
        to: Did,
        token_id: Did,
        amount: u64,
    ) -> Result<State, Error> {
        if self.holder_check(sender, token_id) is Err {
            Err(self.holder_check(sender, token_id)->Err_0)
        } else if self.balance_of(sender, token_id) < amount {
            Err(Error::BalanceNotEnough)
        } else if self.free_balance_of(sender, token_id) < amount {
            Err(Error::BalanceNotEnough)
        } else if self.static_balance_of(to, token_id) + amount > u64::MAX {
            Err(Error::AmountOverflow)
        } else {
            Ok(
                State {
                    balances: self.balances.insert(
                        (sender, token_id),
                        (self.balance_of(sender, token_id) - amount) as u64,
                    ),
                    free_balances: self.free_balances.insert(
                        (sender, token_id),
                        (self.free_balance_of(sender, token_id) - amount) as u64,
                    ),
                    static_balances: self.static_balances.insert(
                        (to, token_id),
                        (self.static_balance_of(to, token_id) + amount) as u64,
                    ),
                    ..self
                },
            )
        }
    }

    /// The ledger after `sender` moved `amount_a` of `token_a` and then
    /// `amount_b` of `token_b` into the custody of the pool `to`.
    pub open spec fn static_transfer_in_twice(
        self,
        sender: AccountId,
        to: Did,
        token_a: Did,
        amount_a: u64,
        token_b: Did,
        amount_b: u64,
    ) -> Result<State, Error> {
        match self.static_transfer_in(sender, to, token_a, amount_a) {
            Ok(state) => state.static_transfer_in(sender, to, token_b, amount_b),
            Err(e) => Err(e),
        }
    }

    /// The ledger after the pool `sender` released `amount` from its custody
    /// to the free balance of `to`.
    pub open spec fn static_transfer_out(
        self,
        sender: Did,
        to: AccountId,
        token_id: Did,
        amount: u64,
    ) -> Result<State, Error> {
        if !self.tokens.contains_key(token_id) {
            Err(Error::NoMatchingToken)
        } else if self.static_balance_of(sender, token_id) < amount {
            Err(Error::BalanceNotEnough)
        } else if self.balance_of(to, token_id) + amount > u64::MAX || self.free_balance_of(
            to,
            token_id,
        ) + amount > u64::MAX {
            Err(Error::AmountOverflow)
        } else {
            Ok(
                State {
                    static_balances: self.static_balances.insert(
                        (sender, token_id),
                        (self.static_balance_of(sender, token_id) - amount) as u64,
                    ),
                    balances: self.balances.insert(
                        (to, token_id),
                        (self.balance_of(to, token_id) + amount) as u64,
                    ),
                    free_balances: self.free_balances.insert(
                        (to, token_id),
                        (self.free_balance_of(to, token_id) + amount) as u64,
                    ),
                    ..self
                },
            )
        }
    }

    /// The ledger after the pool `sender` released `amount_a` of `token_a`
    /// and then `amount_b` of `token_b` to the free balance of `to`.
    pub open spec fn static_transfer_out_twice(
        self,
        sender: Did,
        to: AccountId,
        token_a: Did,
        amount_a: u64,
        token_b: Did,
        amount_b: u64,
    ) -> Result<State, Error> {
        match self.static_transfer_out(sender, to, token_a, amount_a) {
            Ok(state) => state.static_transfer_out(sender, to, token_b, amount_b),
            Err(e) => Err(e),
        }
    }

    /// The ledger after `amount` of the free balance of `sender` was frozen.
    pub open spec fn freeze(self, sender: AccountId, token_id: Did, amount: u64) -> Result<
        State,
        Error,
    > {
        if self.holder_check(sender, token_id) is Err {
            Err(self.holder_check(sender, token_id)->Err_0)
        } else if self.free_balance_of(sender, token_id) < amount {
            Err(Error::BalanceNotEnough)
        } else if self.freezed_balance_of(sender, token_id) + amount > u64::MAX {
            Err(Error::AmountOverflow)
        } else {
            Ok(
                State {
                    free_balances: self.free_balances.insert(
                        (sender, token_id),
                        (self.free_balance_of(sender, token_id) - amount) as u64,
                    ),
                    freezed_balances: self.freezed_balances.insert(
                        (sender, token_id),
                        (self.freezed_balance_of(sender, token_id) + amount) as u64,
                    ),
                    ..self
                },
            )
        }
    }

    /// The ledger after `amount` of the frozen balance of `sender` was set
    /// free.
    pub open spec fn unfreeze(self, sender: AccountId, token_id: Did, amount: u64) -> Result<
        State,
        Error,
    > {
        if self.holder_check(sender, token_id) is Err {
            Err(self.holder_check(sender, token_id)->Err_0)
        } else if self.freezed_balance_of(sender, token_id) < amount {
            Err(Error::BalanceNotEnough)
        } else if self.free_balance_of(sender, token_id) + amount > u64::MAX {
            Err(Error::AmountOverflow)
        } else {
            Ok(
                State {
                    free_balances: self.free_balances.insert(
                        (sender, token_id),
                        (self.free_balance_of(sender, token_id) + amount) as u64,
                    ),
                    freezed_balances: self.freezed_balances.insert(
                        (sender, token_id),
                        (self.freezed_balance_of(sender, token_id) - amount) as u64,
                    ),
                    ..self
                },
            )
        }
    }

    /// Whether `sender` has `amount` of `token_id` free, and the error if
    /// not.
    pub open spec fn ensure_free_balance(self, sender: AccountId, token_id: Did, amount: u64) -> Result<
        (),
        Error,
    > {
        if self.holder_check(sender, token_id) is Err {
            self.holder_check(sender, token_id)
        } else if self.free_balance_of(sender, token_id) < amount {
            Err(Error::BalanceNotEnough)
        } else {
            Ok(())
        }
    }
}

/// The ledger.
pub struct Module {
    tokens: Table<Did, Token>,
    balances: Table<(AccountId, Did), u64>,
    static_balances: Table<(Did, Did), u64>,
    free_balances: Table<(AccountId, Did), u64>,
    freezed_balances: Table<(AccountId, Did), u64>,
    owned_tokens: Table<(AccountId, u64), Did>,
    owned_tokens_index: Table<AccountId, u64>,
    nonce: u64,
}

impl View for Module {
    type V = State;

    closed spec fn view(&self) -> State {
        State {
            tokens: self.tokens@,
            balances: self.balances@,
            static_balances: self.static_balances@,
            free_balances: self.free_balances@,
            freezed_balances: self.freezed_balances@,
            owned_tokens: self.owned_tokens@,
            owned_tokens_index: self.owned_tokens_index@,
            nonce: self.nonce,
        }
    }
}

impl Module {
    /// The ledger with no token and no balance.
    pub fn new() -> (r: Self)
        ensures
            r@ == (State {
                tokens: Map::empty(),
                balances: Map::empty(),
                static_balances: Map::empty(),
                free_balances: Map::empty(),
                freezed_balances: Map::empty(),
                owned_tokens: Map::empty(),
                owned_tokens_index: Map::empty(),
                nonce: 0,
            }),
    {
        Module {
            tokens: Table::new(),
            balances: Table::new(),
            static_balances: Table::new(),
            free_balances: Table::new(),
            freezed_balances: Table::new(),
            owned_tokens: Table::new(),
            owned_tokens_index: Table::new(),
            nonce: 0,
        }
    }

    /// The token under `token_id`, if there is one.
    pub fn token(&self, token_id: &Did) -> (r: Option<&Token>)
        ensures
            match r {
                Some(t) => self@.tokens.contains_key(*token_id) && *t == self@.tokens[*token_id],
                None => !self@.tokens.contains_key(*token_id),
            },
    {
        self.tokens.get(token_id)
    }

    /// The balance of `from` in `token_id`.
    pub fn balance_of(&self, from: AccountId, token_id: Did) -> (r: u64)
        ensures
            r == self@.balance_of(from, token_id),
    {
        read_or_zero(&self.balances, &(from, token_id))
    }

    /// The free part of the balance of `from` in `token_id`.
    pub fn free_balance_of(&self, from: AccountId, token_id: Did) -> (r: u64)
        ensures
            r == self@.free_balance_of(from, token_id),
    {
        read_or_zero(&self.free_balances, &(from, token_id))
    }

    /// The frozen part of the balance of `from` in `token_id`.
    pub fn freezed_balance_of(&self, from: AccountId, token_id: Did) -> (r: u64)
        ensures
            r == self@.freezed_balance_of(from, token_id),
    {
        read_or_zero(&self.freezed_balances, &(from, token_id))
    }

    /// The balance of `token_id` in the custody of the pool `from`.
    pub fn static_balance_of(&self, from: Did, token_id: Did) -> (r: u64)
        ensures
            r == self@.static_balance_of(from, token_id),
    {
        read_or_zero(&self.static_balances, &(from, token_id))
    }

    /// The `index`-th token that `who` issued, if there are that many.
    pub fn owned_token(&self, who: AccountId, index: u64) -> (r: Option<Did>)
        ensures
            match r {
                Some(t) => self@.owned_tokens.contains_key((who, index))
                    && t == self@.owned_tokens[(who, index)],
                None => !self@.owned_tokens.contains_key((who, index)),
            },
    {
        match self.owned_tokens.get(&(who, index)) {
            Some(t) => Some(*t),
            None => None,
        }
    }

    /// How many tokens `who` has issued.
    pub fn owned_token_index(&self, who: AccountId) -> (r: u64)
        ensures
            r == self@.owned_token_index(who),
    {
        read_or_zero(&self.owned_tokens_index, &who)
    }

    /// How many tokens were issued in all.
    pub fn nonce(&self) -> (r: u64)
        ensures
            r == self@.nonce,
    {
        self.nonce
    }

    /// The account that issued `token_id`, if the token exists.
    pub fn owner_of(&self, token_id: Did) -> (r: Option<AccountId>)
        ensures
            r == if self@.tokens.contains_key(token_id) {
                Some(self@.tokens[token_id].owner)
            } else {
                None
            },
    {
        match self.tokens.get(&token_id) {
            Some(token) => Some(token.owner),
            None => None,
        }
    }

    /// Issues a new token: `from` owns it and holds its whole supply, free.
    /// The token's identifier is derived from the seed, the issuer and the
    /// ledger's nonce, and is reported in the event.
    pub fn issue(&mut self, seed: &[u8; 32], from: AccountId, total_supply: u64, symbol: Vec<u8>) -> (r:
        Result<Event, Error>)
        ensures
            ({
                let tid = new_did(seed@, from, old(self)@.nonce);
                let token = Token { tid, owner: from, symbol, total_supply };
                match old(self)@.issue(tid, from, total_supply, token) {
                    Ok(state) => final(self)@ == state && r == Ok::<Event, Error>(
                        Event::Issued(from, tid, total_supply),
                    ),
                    Err(e) => final(self)@ == old(self)@ && r == Err::<Event, Error>(e),
                }
            }),
    {
        let nonce = self.nonce;
        let owned_token_index = read_or_zero(&self.owned_tokens_index, &from);
        if nonce == u64::MAX || owned_token_index == u64::MAX {
            return Err(Error::AmountOverflow);
        }
        let new_token_id = generate_did(seed, from, nonce);
        let token = Token { tid: new_token_id, owner: from, symbol, total_supply };
        self.nonce = nonce + 1;
        self.tokens.insert(new_token_id, token);
        self.balances.insert((from, new_token_id), total_supply);
        self.free_balances.insert((from, new_token_id), total_supply);
        self.owned_tokens.insert((from, owned_token_index), new_token_id);
        self.owned_tokens_index.insert(from, owned_token_index + 1);
        Ok(Event::Issued(from, new_token_id, total_supply))
    }

    /// Moves `amount` of `token_id` from the free balance of `sender` to the
    /// free balance of `to`.
    pub fn transfer(
        &mut self,
        sender: AccountId,
        to: AccountId,
        token_id: Did,
        amount: u64,
        memo: Option<Vec<u8>>,
    ) -> (r: Result<Event, Error>)
        ensures
            match old(self)@.transfer(sender, to, token_id, amount, memo) {
                Ok(state) => final(self)@ == state && r == Ok::<Event, Error>(
                    Event::Transferd(sender, to, token_id, amount, memo),
                ),
                Err(e) => final(self)@ == old(self)@ && r == Err::<Event, Error>(e),
            },
    {
        if !self.tokens.contains_key(&token_id) {
            return Err(Error::NoMatchingToken);
        }
        match &memo {
            Some(memos) => {
                if memos.len() > MAX_MEMO_LEN {
                    return Err(Error::MemoLengthExceedLimitation);
                }
            },
            None => {},
        }
        if !self.free_balances.contains_key(&(sender, token_id)) {
            return Err(Error::SenderHaveNoToken);
        }
        let from_amount = read_or_zero(&self.balances, &(sender, token_id));
        if from_amount < amount {
            return Err(Error::BalanceNotEnough);
        }
        let from_free_amount = read_or_zero(&self.free_balances, &(sender, token_id));
        if from_free_amount < amount {
            return Err(Error::BalanceNotEnough);
        }
        let to_amount = read_or_zero(&self.balances, &(to, token_id));
        let to_free_amount = read_or_zero(&self.free_balances, &(to, token_id));
        if to_amount > u64::MAX - amount || to_free_amount > u64::MAX - amount {
            return Err(Error::AmountOverflow);
        }
        self.balances.insert((sender, token_id), from_amount - amount);
        self.free_balances.insert((sender, token_id), from_free_amount - amount);
        self.balances.insert((to, token_id), to_amount + amount);
        self.free_balances.insert((to, token_id), to_free_amount + amount);
        Ok(Event::Transferd(sender, to, token_id, amount, memo))
    }

    /// Whether moving `amount` of `token_id` from `sender` into the custody
    /// of the pool `to` would succeed, and the error if not.
    pub fn check_static_transfer_in(&self, sender: AccountId, to: Did, token_id: Did, amount: u64) -> (r:
        Result<(), Error>)
        ensures
            match self@.static_transfer_in(sender, to, token_id, amount) {
                Ok(_) => r == Ok::<(), Error>(()),
                Err(e) => r == Err::<(), Error>(e),
            },
    {
        if !self.tokens.contains_key(&token_id) {
            return Err(Error::NoMatchingToken);
        }
        if !self.free_balances.contains_key(&(sender, token_id)) {
            return Err(Error::SenderHaveNoToken);
        }
        if read_or_zero(&self.balances, &(sender, token_id)) < amount {
            return Err(Error::BalanceNotEnough);
        }
        if read_or_zero(&self.free_balances, &(sender, token_id)) < amount {
            return Err(Error::BalanceNotEnough);
        }
        if read_or_zero(&self.static_balances, &(to, token_id)) > u64::MAX - amount {
            return Err(Error::AmountOverflow);
        }
        Ok(())
    }

    /// Makes a move into custody that is known to succeed.
    fn do_static_transfer_in(&mut self, sender: AccountId, to: Did, token_id: Did, amount: u64)
        requires
            old(self)@.static_transfer_in(sender, to, token_id, amount) is Ok,
        ensures
            old(self)@.static_transfer_in(sender, to, token_id, amount) == Ok::<State, Error>(
                final(self)@,
            ),
    {
        let from_amount = read_or_zero(&self.balances, &(sender, token_id));
        let from_free_amount = read_or_zero(&self.free_balances, &(sender, token_id));
        let to_amount = read_or_zero(&self.static_balances, &(to, token_id));
        self.balances.insert((sender, token_id), from_amount - amount);
        self.free_balances.insert((sender, token_id), from_free_amount - amount);
        self.static_balances.insert((to, token_id), to_amount + amount);
    }

    /// Moves `amount` of `token_id` from the free balance of `sender` into
    /// the custody of the pool `to`.
    pub fn static_transfer_in(&mut self, sender: AccountId, to: Did, token_id: Did, amount: u64) -> (r:
        Result<Event, Error>)
        ensures
            match old(self)@.static_transfer_in(sender, to, token_id, amount) {
                Ok(state) => final(self)@ == state && r == Ok::<Event, Error>(
                    Event::StaticTransferdIn(sender, to, token_id, amount),
                ),
                Err(e) => final(self)@ == old(self)@ && r == Err::<Event, Error>(e),
            },
    {
        match self.check_static_transfer_in(sender, to, token_id, amount) {
            Err(e) => Err(e),
            Ok(()) => {
                self.do_static_transfer_in(sender, to, token_id, amount);
                Ok(Event::StaticTransferdIn(sender, to, token_id, amount))
            },
        }
    }

    /// Whether moving `amount_a` of `token_a` and then `amount_b` of
    /// `token_b` from `sender` into the custody of the pool `to` would
    /// succeed, and the error of the first move that would fail if not.
    /// Nothing is written.
    pub fn check_static_transfer_in_twice(
        &self,
        sender: AccountId,
        to: Did,
        token_a: Did,
        amount_a: u64,
        token_b: Did,
        amount_b: u64,
    ) -> (r: Result<(), Error>)
        ensures
            match self@.static_transfer_in_twice(sender, to, token_a, amount_a, token_b, amount_b) {
                Ok(_) => r == Ok::<(), Error>(()),
                Err(e) => r == Err::<(), Error>(e),
            },
    {
        match self.check_static_transfer_in(sender, to, token_a, amount_a) {
            Err(e) => {
                return Err(e);
            },
            Ok(()) => {},
        }
        if token_a.same(&token_b) {
            let balance = read_or_zero(&self.balances, &(sender, token_a)) - amount_a;
            let free = read_or_zero(&self.free_balances, &(sender, token_a)) - amount_a;
            let custody = read_or_zero(&self.static_balances, &(to, token_a)) + amount_a;
            if balance < amount_b || free < amount_b {
                return Err(Error::BalanceNotEnough);
            }
            if custody > u64::MAX - amount_b {
                return Err(Error::AmountOverflow);
            }
            Ok(())
        } else {
            self.check_static_transfer_in(sender, to, token_b, amount_b)
        }
    }

    /// Moves `amount_a` of `token_a` and then `amount_b` of `token_b` from
    /// the free balance of `sender` into the custody of the pool `to`: both
    /// or, if either move would fail, neither.
    pub fn static_transfer_in_twice(
        &mut self,
        sender: AccountId,
        to: Did,
        token_a: Did,
        amount_a: u64,
        token_b: Did,
        amount_b: u64,
    ) -> (r: Result<(Event, Event), Error>)
        ensures
            match old(self)@.static_transfer_in_twice(
                sender,
                to,
                token_a,
                amount_a,
                token_b,
                amount_b,
            ) {
                Ok(state) => final(self)@ == state && r == Ok::<(Event, Event), Error>(
                    (
                        Event::StaticTransferdIn(sender, to, token_a, amount_a),
                        Event::StaticTransferdIn(sender, to, token_b, amount_b),
                    ),
                ),
                Err(e) => final(self)@ == old(self)@ && r == Err::<(Event, Event), Error>(e),
            },
    {
        match self.check_static_transfer_in_twice(sender, to, token_a, amount_a, token_b, amount_b) {
            Err(e) => {
                return Err(e);
            },
            Ok(()) => {},
        }
        self.do_static_transfer_in(sender, to, token_a, amount_a);
        self.do_static_transfer_in(sender, to, token_b, amount_b);
        Ok(
            (
                Event::StaticTransferdIn(sender, to, token_a, amount_a),
                Event::StaticTransferdIn(sender, to, token_b, amount_b),
            ),
        )
    }

    /// Whether moving `amount` of `token_id` out of the custody of the pool
    /// `sender` to `to` would succeed, and the error if not.
    pub fn check_static_transfer_out(&self, sender: Did, to: AccountId, token_id: Did, amount: u64) -> (r:
        Result<(), Error>)
        ensures
            match self@.static_transfer_out(sender, to, token_id, amount) {
                Ok(_) => r == Ok::<(), Error>(()),
                Err(e) => r == Err::<(), Error>(e),
            },
    {
        if !self.tokens.contains_key(&token_id) {
            return Err(Error::NoMatchingToken);
        }
        if read_or_zero(&self.static_balances, &(sender, token_id)) < amount {
            return Err(Error::BalanceNotEnough);
        }
        if read_or_zero(&self.balances, &(to, token_id)) > u64::MAX - amount || read_or_zero(
            &self.free_balances,
            &(to, token_id),
        ) > u64::MAX - amount {
            return Err(Error::AmountOverflow);
        }
        Ok(())
    }

    /// Makes a move out of custody that is known to succeed.
    fn do_static_transfer_out(&mut self, sender: Did, to: AccountId, token_id: Did, amount: u64)
        requires
            old(self)@.static_transfer_out(sender, to, token_id, amount) is Ok,
        ensures
            old(self)@.static_transfer_out(sender, to, token_id, amount) == Ok::<State, Error>(
                final(self)@,
            ),
    {
        let from_amount = read_or_zero(&self.static_balances, &(sender, token_id));
        let to_amount = read_or_zero(&self.balances, &(to, token_id));
        let to_free_amount = read_or_zero(&self.free_balances, &(to, token_id));
        self.static_balances.insert((sender, token_id), from_amount - amount);
        self.balances.insert((to, token_id), to_amount + amount);
        self.free_balances.insert((to, token_id), to_free_amount + amount);
    }

    /// Moves `amount` of `token_id` out of the custody of the pool `sender`
    /// to the free balance of `to`.
    pub fn static_transfer_out(&mut self, sender: Did, to: AccountId, token_id: Did, amount: u64) -> (r:
        Result<Event, Error>)
        ensures
            match old(self)@.static_transfer_out(sender, to, token_id, amount) {
                Ok(state) => final(self)@ == state && r == Ok::<Event, Error>(
                    Event::StaticTransferdOut(sender, to, token_id, amount),
                ),
                Err(e) => final(self)@ == old(self)@ && r == Err::<Event, Error>(e),
            },
    {
        match self.check_static_transfer_out(sender, to, token_id, amount) {
            Err(e) => Err(e),
            Ok(()) => {
                self.do_static_transfer_out(sender, to, token_id, amount);
                Ok(Event::StaticTransferdOut(sender, to, token_id, amount))
            },
        }
    }

    /// Whether moving `amount_a` of `token_a` and then `amount_b` of
    /// `token_b` out of the custody of the pool `sender` to `to` would
    /// succeed, and the error of the first move that would fail if not.
    /// Nothing is written.
    pub fn check_static_transfer_out_twice(
        &self,
        sender: Did,
        to: AccountId,
        token_a: Did,
        amount_a: u64,
        token_b: Did,
        amount_b: u64,
    ) -> (r: Result<(), Error>)
        ensures
            match self@.static_transfer_out_twice(sender, to, token_a, amount_a, token_b, amount_b) {
                Ok(_) => r == Ok::<(), Error>(()),
                Err(e) => r == Err::<(), Error>(e),
            },
    {
        match self.check_static_transfer_out(sender, to, token_a, amount_a) {
            Err(e) => {
                return Err(e);
            },
            Ok(()) => {},
        }
        if token_a.same(&token_b) {
            let custody = read_or_zero(&self.static_balances, &(sender, token_a)) - amount_a;
            let balance = read_or_zero(&self.balances, &(to, token_a)) + amount_a;
            let free = read_or_zero(&self.free_balances, &(to, token_a)) + amount_a;
            if custody < amount_b {
                return Err(Error::BalanceNotEnough);
            }
            if balance > u64::MAX - amount_b || free > u64::MAX - amount_b {
                return Err(Error::AmountOverflow);
            }
            Ok(())
        } else {
            self.check_static_transfer_out(sender, to, token_b, amount_b)
        }
    }

    /// Moves `amount_a` of `token_a` and then `amount_b` of `token_b` out of
    /// the custody of the pool `sender` to the free balance of `to`: both or,
    /// if either move would fail, neither.
    pub fn static_transfer_out_twice(
        &mut self,
        sender: Did,
        to: AccountId,
        token_a: Did,
        amount_a: u64,
        token_b: Did,
        amount_b: u64,
    ) -> (r: Result<(Event, Event), Error>)
        ensures
            match old(self)@.static_transfer_out_twice(
                sender,
                to,
                token_a,
                amount_a,
                token_b,
                amount_b,
            ) {
                Ok(state) => final(self)@ == state && r == Ok::<(Event, Event), Error>(
                    (
                        Event::StaticTransferdOut(sender, to, token_a, amount_a),
                        Event::StaticTransferdOut(sender, to, token_b, amount_b),
                    ),
                ),
                Err(e) => final(self)@ == old(self)@ && r == Err::<(Event, Event), Error>(e),
            },
    {
        match self.check_static_transfer_out_twice(sender, to, token_a, amount_a, token_b, amount_b) {
            Err(e) => {
                return Err(e);
            },
            Ok(()) => {},
        }
        self.do_static_transfer_out(sender, to, token_a, amount_a);
        self.do_static_transfer_out(sender, to, token_b, amount_b);
        Ok(
            (
                Event::StaticTransferdOut(sender, to, token_a, amount_a),
                Event::StaticTransferdOut(sender, to, token_b, amount_b),
            ),
        )
    }

    /// Whether freezing `amount` of the free balance of `sender` in
    /// `token_id` would succeed, and the error if not. Nothing is written.
    pub fn check_freeze(&self, sender: AccountId, token_id: Did, amount: u64) -> (r: Result<
        (),
        Error,
    >)
        ensures
            match self@.freeze(sender, token_id, amount) {
                Ok(_) => r == Ok::<(), Error>(()),
                Err(e) => r == Err::<(), Error>(e),
            },
    {
        if !self.tokens.contains_key(&token_id) {
            return Err(Error::NoMatchingToken);
        }
        if !self.free_balances.contains_key(&(sender, token_id)) {
            return Err(Error::SenderHaveNoToken);
        }
        if read_or_zero(&self.free_balances, &(sender, token_id)) < amount {
            return Err(Error::BalanceNotEnough);
        }
        if read_or_zero(&self.freezed_balances, &(sender, token_id)) > u64::MAX - amount {
            return Err(Error::AmountOverflow);
        }
        Ok(())
    }

    /// Freezes `amount` of the free balance of `sender` in `token_id`.
    pub fn freeze(&mut self, sender: AccountId, token_id: Did, amount: u64) -> (r: Result<
        Event,
        Error,
    >)
        ensures
            match old(self)@.freeze(sender, token_id, amount) {
                Ok(state) => final(self)@ == state && r == Ok::<Event, Error>(
                    Event::Freezed(sender, token_id, amount),
                ),
                Err(e) => final(self)@ == old(self)@ && r == Err::<Event, Error>(e),
            },
    {
        match self.check_freeze(sender, token_id, amount) {
            Err(e) => {
                return Err(e);
            },
            Ok(()) => {},
        }
        let old_free_amount = read_or_zero(&self.free_balances, &(sender, token_id));
        let old_freezed_amount = read_or_zero(&self.freezed_balances, &(sender, token_id));
        self.free_balances.insert((sender, token_id), old_free_amount - amount);
        self.freezed_balances.insert((sender, token_id), old_freezed_amount + amount);
        Ok(Event::Freezed(sender, token_id, amount))
    }

    /// Sets `amount` of the frozen balance of `sender` in `token_id` free.
    pub fn unfreeze(&mut self, sender: AccountId, token_id: Did, amount: u64) -> (r: Result<
        Event,
        Error,
    >)
        ensures
            match old(self)@.unfreeze(sender, token_id, amount) {
                Ok(state) => final(self)@ == state && r == Ok::<Event, Error>(
                    Event::UnFreezed(sender, token_id, amount),
                ),
                Err(e) => final(self)@ == old(self)@ && r == Err::<Event, Error>(e),
            },
    {
        if !self.tokens.contains_key(&token_id) {
            return Err(Error::NoMatchingToken);
        }
        if !self.free_balances.contains_key(&(sender, token_id)) {
            return Err(Error::SenderHaveNoToken);
        }
        let old_freezed_amount = read_or_zero(&self.freezed_balances, &(sender, token_id));
        if old_freezed_amount < amount {
            return Err(Error::BalanceNotEnough);
        }
        let old_free_amount = read_or_zero(&self.free_balances, &(sender, token_id));
        if old_free_amount > u64::MAX - amount {
            return Err(Error::AmountOverflow);
        }
        self.free_balances.insert((sender, token_id), old_free_amount + amount);
        self.freezed_balances.insert((sender, token_id), old_freezed_amount - amount);
        Ok(Event::UnFreezed(sender, token_id, amount))
    }

    /// Checks that `sender` has `amount` of `token_id` free.
    pub fn ensure_free_balance(&self, sender: AccountId, token_id: Did, amount: u64) -> (r: Result<
        (),
        Error,
    >)
        ensures
            r == self@.ensure_free_balance(sender, token_id, amount),
    {
        if !self.tokens.contains_key(&token_id) {
            return Err(Error::NoMatchingToken);
        }
        if !self.free_balances.contains_key(&(sender, token_id)) {
            return Err(Error::SenderHaveNoToken);
        }
        let free_amount = read_or_zero(&self.free_balances, &(sender, token_id));
        if free_amount < amount {
            return Err(Error::BalanceNotEnough);
        }
        Ok(())
    }
}

/// Freezing an amount and setting the same amount free again leaves every
/// balance, free balance and frozen balance as it was.
pub proof fn lemma_freeze_unfreeze(state: State, sender: AccountId, token_id: Did, amount: u64)
    requires
        state.freeze(sender, token_id, amount) is Ok,
    ensures
        state.freeze(sender, token_id, amount)->Ok_0.unfreeze(sender, token_id, amount) is Ok,
        ({
            let after = state.freeze(sender, token_id, amount)->Ok_0.unfreeze(
                sender,
                token_id,
                amount,
            )->Ok_0;
            forall|who: AccountId, token: Did|
                #![trigger after.free_balance_of(who, token)]
                #![trigger after.freezed_balance_of(who, token)]
                #![trigger after.balance_of(who, token)]
                {
                    &&& after.free_balance_of(who, token) == state.free_balance_of(who, token)
                    &&& after.freezed_balance_of(who, token) == state.freezed_balance_of(
                        who,
                        token,
                    )
                    &&& after.balance_of(who, token) == state.balance_of(who, token)
                }
        }),
{
}

impl State {
    /// Every balance is the sum of its free and its frozen part, and only
    /// tokens that exist are held.
    pub open spec fn balanced(self) -> bool {
        &&& forall|who: AccountId, token: Did|
            #![trigger self.balance_of(who, token)]
            #![trigger self.free_balance_of(who, token)]
            #![trigger self.freezed_balance_of(who, token)]
            self.balance_of(who, token) == self.free_balance_of(who, token)
                + self.freezed_balance_of(who, token)
        &&& forall|who: AccountId, token: Did|
            #![trigger self.balances.contains_key((who, token))]
            #![trigger self.free_balances.contains_key((who, token))]
            #![trigger self.freezed_balances.contains_key((who, token))]
            self.balances.contains_key((who, token)) || self.free_balances.contains_key(
                (who, token),
            ) || self.freezed_balances.contains_key((who, token)) ==> self.tokens.contains_key(
                token,
            )
    }
}

/// Where every account's three balances of every token are, after a change,
/// what they were before, or the free and the frozen part have moved by
/// amounts that the balance has moved by too, the balances are still the
/// sums of their parts.
proof fn lemma_still_balanced(before: State, after: State)
    requires
        before.balanced(),
        forall|who: AccountId, token: Did|
            #![trigger after.balance_of(who, token)]
            #![trigger after.free_balance_of(who, token)]
            #![trigger after.freezed_balance_of(who, token)]
            after.balance_of(who, token) - before.balance_of(who, token) == (
            after.free_balance_of(who, token) - before.free_balance_of(who, token)) + (
            after.freezed_balance_of(who, token) - before.freezed_balance_of(who, token)),
        forall|who: AccountId, token: Did|
            #![trigger after.balances.contains_key((who, token))]
            #![trigger after.free_balances.contains_key((who, token))]
            #![trigger after.freezed_balances.contains_key((who, token))]
            after.balances.contains_key((who, token)) || after.free_balances.contains_key(
                (who, token),
            ) || after.freezed_balances.contains_key((who, token)) ==> after.tokens.contains_key(
                token,
            ),
    ensures
        after.balanced(),
{
    assert forall|who: AccountId, token: Did|
        #![trigger after.balance_of(who, token)]
        #![trigger after.free_balance_of(who, token)]
        #![trigger after.freezed_balance_of(who, token)]
        after.balance_of(who, token) == after.free_balance_of(who, token)
            + after.freezed_balance_of(who, token) by {
        assert(before.balance_of(who, token) == before.free_balance_of(who, token)
            + before.freezed_balance_of(who, token));
    }
}

/// A ledger whose balances are the sums of their parts stays so through
/// every operation that it accepts. A token is issued under an identifier
/// that no token has yet.
pub proof fn lemma_balanced(
    state: State,
    sender: AccountId,
    to: AccountId,
    pool: Did,
    token_id: Did,
    amount: u64,
    memo: Option<Vec<u8>>,
    token: Token,
)
    requires
        state.balanced(),
    ensures
        !state.tokens.contains_key(token_id) && state.issue(token_id, sender, amount, token) is Ok
            ==> state.issue(token_id, sender, amount, token)->Ok_0.balanced(),
        state.transfer(sender, to, token_id, amount, memo) is Ok ==> state.transfer(
            sender,
            to,
            token_id,
            amount,
            memo,
        )->Ok_0.balanced(),
        state.static_transfer_in(sender, pool, token_id, amount) is Ok
            ==> state.static_transfer_in(sender, pool, token_id, amount)->Ok_0.balanced(),
        state.static_transfer_out(pool, to, token_id, amount) is Ok
            ==> state.static_transfer_out(pool, to, token_id, amount)->Ok_0.balanced(),
        state.freeze(sender, token_id, amount) is Ok ==> state.freeze(
            sender,
            token_id,
            amount,
        )->Ok_0.balanced(),
        state.unfreeze(sender, token_id, amount) is Ok ==> state.unfreeze(
            sender,
            token_id,
            amount,
        )->Ok_0.balanced(),
{
    if !state.tokens.contains_key(token_id) && state.issue(token_id, sender, amount, token) is Ok {
        assert(!state.balances.contains_key((sender, token_id)));
        assert(!state.free_balances.contains_key((sender, token_id)));
        assert(!state.freezed_balances.contains_key((sender, token_id)));
        lemma_still_balanced(state, state.issue(token_id, sender, amount, token)->Ok_0);
    }
    if state.transfer(sender, to, token_id, amount, memo) is Ok {
        lemma_still_balanced(state, state.transfer(sender, to, token_id, amount, memo)->Ok_0);
    }
    if state.static_transfer_in(sender, pool, token_id, amount) is Ok {
        lemma_still_balanced(state, state.static_transfer_in(sender, pool, token_id, amount)->Ok_0);
    }
    if state.static_transfer_out(pool, to, token_id, amount) is Ok {
        lemma_still_balanced(
            state,
            state.static_transfer_out(pool, to, token_id, amount)->Ok_0,
        );
    }
    if state.freeze(sender, token_id, amount) is Ok {
        lemma_still_balanced(state, state.freeze(sender, token_id, amount)->Ok_0);
    }
    if state.unfreeze(sender, token_id, amount) is Ok {
        lemma_still_balanced(state, state.unfreeze(sender, token_id, amount)->Ok_0);
    }
}

} // verus!
