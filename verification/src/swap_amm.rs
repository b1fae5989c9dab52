//! The liquidity pool engine: a constant-product market maker.
//!
//! A pool holds reserves of the two tokens of a trade pair. Providers add
//! and remove liquidity in shares: one share is one unit of the quote token
//! together with `swap_price_last` units of the base token. Traders swap one
//! token for the other against the reserves.
//!
//! All amounts are unsigned 64-bit integers and division truncates. An
//! operation whose arithmetic would leave that range fails with
//! [`Error::Overflow`], and one that would divide by zero fails with
//! [`Error::DivisionByZero`]. The checks are made in the order in which the
//! steps are taken, the ledger's before those on the reserves, and all of
//! them before anything is written: an operation that fails leaves the
//! engine and the ledger as they were.
//!
//! `k_last` is accumulated by adding and removing liquidity (the product of
//! the new reserves is added to it) and overwritten by a trade (it becomes
//! the product of the new reserves).

use crate::common::{generate_did, new_did};
use crate::table::{
    lemma_with_last, list_or_empty, listed_once, read_or_zero, value_or_zero, with_last, Key,
    ListTable, Roster, Table,
};
use crate::token;
use crate::trade_pair;
use crate::utilities::{AccountId, AmmOrder, Did, LiquidityPool, TradeMethod, TradePair};
use vstd::prelude::*;

verus! {

/// Why an operation of the engine failed.
#[derive(Clone, Copy, Debug, PartialEq, Eq, Structural)]
pub enum Error {
    /// No matching trade pair
    NoMatchingTradePair,
    /// The trade pair is not traded through a liquidity pool
    TradePairErr,
    /// No matching Liquidity Pool
    NoMatchingLiquidityPool,
    /// Balance Is Not Enough
    BalanceIsNotEnough,
    /// LPShare Is Not Enough
    LPShareIsNotEnough,
    /// Liquidity Pool Token Is Not Enough
    LiquidityPoolTokenIsNotEnough,
    /// An amount or a counter would have left the 64-bit unsigned range.
    Overflow,
    /// A price or a reserve would have been divided by zero.
    DivisionByZero,
    /// The token ledger refused to move the funds.
    Token(token::Error),
}

/// What the engine reports to the host.
#[derive(Clone, Copy, Debug, PartialEq, Eq)]
pub enum Event {
    TradePairCreated(AccountId, Did, TradePair),
    LiquidityPoolInited(AccountId, Did, u64, u64),
    LiquidityAdded(AccountId, Did, u64),
    TradeDoned(AccountId, Did, Did, u64),
    LiquidityRemoved(AccountId, Did, u64),
}

/// The factor by which the amount paid in is taken off the divisor of a
/// swap: the trading fee.
pub const FEE_FACTOR: u64 = 30;

/// The pool as `init_liquidity_pool` creates it for a trade pair.
pub open spec fn spec_initial_pool(
    tpid: Did,
    base: Did,
    quote: Did,
    base_amount: u64,
    quote_amount: u64,
) -> Result<LiquidityPool, Error> {
    if base_amount * quote_amount > u64::MAX {
        Err(Error::Overflow)
    } else if quote_amount == 0 || base_amount / quote_amount == 0 {
        Err(Error::DivisionByZero)
    } else {
        Ok(
            LiquidityPool {
                tpid,
                token0: base,
                token1: quote,
                token0_amount: base_amount,
                token1_amount: quote_amount,
                k_last: (base_amount * quote_amount) as u64,
                swap_price_last: base_amount / quote_amount,
                swap_price_highest: base_amount / quote_amount,
                swap_price_lowest: base_amount / quote_amount,
                token0_trade_volume_total: 0,
                token1_trade_volume_total: 0,
            },
        )
    }
}

/// The share credited to the account that created `pool`: the base amount
/// over the price. Meant for a pool whose price is not zero.
pub open spec fn spec_initial_share(pool: LiquidityPool) -> u64 {
    pool.token0_amount / pool.swap_price_last
}

/// Computes the pool that `init_liquidity_pool` creates.
pub fn initial_pool(tpid: Did, base: Did, quote: Did, base_amount: u64, quote_amount: u64) -> (r:
    Result<LiquidityPool, Error>)
    ensures
        r == spec_initial_pool(tpid, base, quote, base_amount, quote_amount),
{
    let k_last = match base_amount.checked_mul(quote_amount) {
        Some(k) => k,
        None => {
            return Err(Error::Overflow);
        },
    };
    if quote_amount == 0 {
        return Err(Error::DivisionByZero);
    }
    let price = base_amount / quote_amount;
    if price == 0 {
        return Err(Error::DivisionByZero);
    }
    Ok(
        LiquidityPool {
            tpid,
            token0: base,
            token1: quote,
            token0_amount: base_amount,
            token1_amount: quote_amount,
            k_last,
            swap_price_last: price,
            swap_price_highest: price,
            swap_price_lowest: price,
            token0_trade_volume_total: 0,
            token1_trade_volume_total: 0,
        },
    )
}

/// The amount of the base token that goes with `share` units of the quote
/// token at the pool's last price, if it fits.
pub open spec fn spec_token0_for(pool: LiquidityPool, share: u64) -> Option<u64> {
    if pool.swap_price_last * share > u64::MAX {
        None
    } else {
        Some((pool.swap_price_last * share) as u64)
    }
}

/// The pool after `amount0` and `amount1` were added to its reserves, if the
/// new reserves and the new `k_last` fit.
pub open spec fn spec_deposit(pool: LiquidityPool, amount0: u64, amount1: u64) -> Option<
    LiquidityPool,
> {
    if pool.token0_amount + amount0 > u64::MAX || pool.token1_amount + amount1 > u64::MAX
        || pool.k_last + (pool.token0_amount + amount0) * (pool.token1_amount + amount1)
        > u64::MAX {
        None
    } else {
        Some(
            LiquidityPool {
                token0_amount: (pool.token0_amount + amount0) as u64,
                token1_amount: (pool.token1_amount + amount1) as u64,
                k_last: (pool.k_last + (pool.token0_amount + amount0) * (pool.token1_amount
                    + amount1)) as u64,
                ..pool
            },
        )
    }
}

/// The pool after `amount0` and `amount1` were taken from its reserves, if
/// the reserves cover them and the new `k_last` fits.
pub open spec fn spec_withdraw(pool: LiquidityPool, amount0: u64, amount1: u64) -> Option<
    LiquidityPool,
> {
    if pool.token0_amount < amount0 || pool.token1_amount < amount1 || pool.k_last + (
    pool.token0_amount - amount0) * (pool.token1_amount - amount1) > u64::MAX {
        None
    } else {
        Some(
            LiquidityPool {
                token0_amount: (pool.token0_amount - amount0) as u64,
                token1_amount: (pool.token1_amount - amount1) as u64,
                k_last: (pool.k_last + (pool.token0_amount - amount0) * (pool.token1_amount
                    - amount1)) as u64,
                ..pool
            },
        )
    }
}

/// Computes the amount of the base token that goes with `share`.
pub fn token0_for(pool: &LiquidityPool, share: u64) -> (r: Option<u64>)
    ensures
        r == spec_token0_for(*pool, share),
{
    pool.swap_price_last.checked_mul(share)
}

/// Computes the pool after a deposit.
pub fn deposit(pool: &LiquidityPool, amount0: u64, amount1: u64) -> (r: Option<LiquidityPool>)
    ensures
        r == spec_deposit(*pool, amount0, amount1),
{
    let token0_amount = match pool.token0_amount.checked_add(amount0) {
        Some(v) => v,
        None => {
            return None;
        },
    };
    let token1_amount = match pool.token1_amount.checked_add(amount1) {
        Some(v) => v,
        None => {
            return None;
        },
    };
    let product = match token0_amount.checked_mul(token1_amount) {
        Some(v) => v,
        None => {
            assert(pool.k_last + token0_amount * token1_amount > u64::MAX);
            return None;
        },
    };
    let k_last = match pool.k_last.checked_add(product) {
        Some(v) => v,
        None => {
            return None;
        },
    };
    let mut new_pool = *pool;
    new_pool.token0_amount = token0_amount;
    new_pool.token1_amount = token1_amount;
    new_pool.k_last = k_last;
    Some(new_pool)
}

/// Computes the pool after a withdrawal.
pub fn withdraw(pool: &LiquidityPool, amount0: u64, amount1: u64) -> (r: Option<LiquidityPool>)
    ensures
        r == spec_withdraw(*pool, amount0, amount1),
{
    let token0_amount = match pool.token0_amount.checked_sub(amount0) {
        Some(v) => v,
        None => {
            return None;
        },
    };
    let token1_amount = match pool.token1_amount.checked_sub(amount1) {
        Some(v) => v,
        None => {
            return None;
        },
    };
    let product = match token0_amount.checked_mul(token1_amount) {
        Some(v) => v,
        None => {
            assert(pool.k_last + token0_amount * token1_amount > u64::MAX);
            return None;
        },
    };
    let k_last = match pool.k_last.checked_add(product) {
        Some(v) => v,
        None => {
            return None;
        },
    };
    let mut new_pool = *pool;
    new_pool.token0_amount = token0_amount;
    new_pool.token1_amount = token1_amount;
    new_pool.k_last = k_last;
    Some(new_pool)
}

/// What a swap does to the two reserves it touches.
#[derive(Clone, Copy, Debug, PartialEq, Eq, Structural)]
pub struct Swap {
    /// The reserve of the token paid in, after the swap.
    pub reserve_in: u64,
    /// The reserve of the token paid out, after the swap.
    pub reserve_out: u64,
    /// The amount paid out.
    pub amount_out: u64,
    /// The product of the two reserves after the swap.
    pub k_last: u64,
}

/// The reserve of the token paid out after `amount_in` was paid into a
/// reserve of `reserve_in`: `k_last` over the grown reserve less `FEE_FACTOR`
/// times the amount. The reserve paid into must exceed the amount.
pub open spec fn spec_swap_reserve_out(reserve_in: u64, k_last: u64, amount_in: u64) -> Result<
    u64,
    Error,
> {
    let grown = reserve_in + amount_in;
    let fee = amount_in * FEE_FACTOR;
    if reserve_in <= amount_in {
        Err(Error::LiquidityPoolTokenIsNotEnough)
    } else if grown > u64::MAX || fee > u64::MAX || grown < fee {
        Err(Error::Overflow)
    } else if grown == fee {
        Err(Error::DivisionByZero)
    } else {
        Ok(k_last / ((grown - fee) as u64))
    }
}

/// Computes the reserve of the token paid out after a swap.
pub fn swap_reserve_out(reserve_in: u64, k_last: u64, amount_in: u64) -> (r: Result<u64, Error>)
    ensures
        r == spec_swap_reserve_out(reserve_in, k_last, amount_in),
{
    if reserve_in <= amount_in {
        return Err(Error::LiquidityPoolTokenIsNotEnough);
    }
    let grown = match reserve_in.checked_add(amount_in) {
        Some(v) => v,
        None => {
            return Err(Error::Overflow);
        },
    };
    let fee = match amount_in.checked_mul(FEE_FACTOR) {
        Some(v) => v,
        None => {
            return Err(Error::Overflow);
        },
    };
    let divisor = match grown.checked_sub(fee) {
        Some(v) => v,
        None => {
            return Err(Error::Overflow);
        },
    };
    if divisor == 0 {
        return Err(Error::DivisionByZero);
    }
    Ok(k_last / divisor)
}

/// The swap of `amount_in` against the reserves: the reserve paid into grows
/// by the amount, the other becomes what `spec_swap_reserve_out` gives, and
/// the difference is paid out. The swap fails where the other reserve would
/// grow, or the product of the new reserves does not fit.
pub open spec fn spec_swap_amounts(reserve_in: u64, reserve_out: u64, k_last: u64, amount_in: u64) -> Result<
    Swap,
    Error,
> {
    let new_out = spec_swap_reserve_out(reserve_in, k_last, amount_in);
    if new_out is Err {
        Err(new_out->Err_0)
    } else if new_out->Ok_0 > reserve_out || (reserve_in + amount_in) * new_out->Ok_0
        > u64::MAX {
        Err(Error::Overflow)
    } else {
        Ok(
            Swap {
                reserve_in: (reserve_in + amount_in) as u64,
                reserve_out: new_out->Ok_0,
                amount_out: (reserve_out - new_out->Ok_0) as u64,
                k_last: ((reserve_in + amount_in) * new_out->Ok_0) as u64,
            },
        )
    }
}

/// Computes the swap of `amount_in` against the reserves.
pub fn swap_amounts(reserve_in: u64, reserve_out: u64, k_last: u64, amount_in: u64) -> (r: Result<
    Swap,
    Error,
>)
    ensures
        r == spec_swap_amounts(reserve_in, reserve_out, k_last, amount_in),
{
    let new_out = match swap_reserve_out(reserve_in, k_last, amount_in) {
        Ok(v) => v,
        Err(e) => {
            return Err(e);
        },
    };
    let grown = reserve_in + amount_in;
    let amount_out = match reserve_out.checked_sub(new_out) {
        Some(v) => v,
        None => {
            return Err(Error::Overflow);
        },
    };
    let product = match grown.checked_mul(new_out) {
        Some(v) => v,
        None => {
            return Err(Error::Overflow);
        },
    };
    Ok(Swap { reserve_in: grown, reserve_out: new_out, amount_out, k_last: product })
}

/// The pool after a trade of `amount` of one of its tokens, and the amount
/// of the other token that the trade pays out. `forward` says that the
/// token paid in is `token0`.
pub open spec fn spec_swap(pool: LiquidityPool, forward: bool, amount: u64) -> Result<
    (LiquidityPool, u64),
    Error,
> {
    let swap = if forward {
        spec_swap_amounts(pool.token0_amount, pool.token1_amount, pool.k_last, amount)
    } else {
        spec_swap_amounts(pool.token1_amount, pool.token0_amount, pool.k_last, amount)
    };
    if swap is Err {
        Err(swap->Err_0)
    } else {
        let swap = swap->Ok_0;
        let divisor = if forward {
            swap.amount_out
        } else {
            amount
        };
        let dividend = if forward {
            amount
        } else {
            swap.amount_out
        };
        let volume0 = pool.token0_trade_volume_total + dividend;
        let volume1 = pool.token1_trade_volume_total + divisor;
        if divisor == 0 {
            Err(Error::DivisionByZero)
        } else if volume0 > u64::MAX || volume1 > u64::MAX {
            Err(Error::Overflow)
        } else {
            let price = dividend / divisor;
            Ok(
                (
                    LiquidityPool {
                        token0_amount: if forward {
                            swap.reserve_in
                        } else {
                            swap.reserve_out
                        },
                        token1_amount: if forward {
                            swap.reserve_out
                        } else {
                            swap.reserve_in
                        },
                        k_last: swap.k_last,
                        swap_price_last: price,
                        swap_price_highest: if price >= pool.swap_price_last {
                            price
                        } else {
                            pool.swap_price_highest
                        },
                        swap_price_lowest: if price >= pool.swap_price_last {
                            pool.swap_price_lowest
                        } else {
                            price
                        },
                        token0_trade_volume_total: volume0 as u64,
                        token1_trade_volume_total: volume1 as u64,
                        ..pool
                    },
                    swap.amount_out,
                ),
            )
        }
    }
}

/// Computes the pool after a trade and the amount that the trade pays out.
pub fn swap(pool: &LiquidityPool, forward: bool, amount: u64) -> (r: Result<
    (LiquidityPool, u64),
    Error,
>)
    ensures
        r == spec_swap(*pool, forward, amount),
{
    let swapped = if forward {
        swap_amounts(pool.token0_amount, pool.token1_amount, pool.k_last, amount)
    } else {
        swap_amounts(pool.token1_amount, pool.token0_amount, pool.k_last, amount)
    };
    let swapped = match swapped {
        Ok(s) => s,
        Err(e) => {
            return Err(e);
        },
    };
    let (dividend, divisor) = if forward {
        (amount, swapped.amount_out)
    } else {
        (swapped.amount_out, amount)
    };
    if divisor == 0 {
        return Err(Error::DivisionByZero);
    }
    let volume0 = match pool.token0_trade_volume_total.checked_add(dividend) {
        Some(v) => v,
        None => {
            return Err(Error::Overflow);
        },
    };
    let volume1 = match pool.token1_trade_volume_total.checked_add(divisor) {
        Some(v) => v,
        None => {
            return Err(Error::Overflow);
        },
    };
    let price = dividend / divisor;
    let mut new_pool = *pool;
    if forward {
        new_pool.token0_amount = swapped.reserve_in;
        new_pool.token1_amount = swapped.reserve_out;
    } else {
        new_pool.token0_amount = swapped.reserve_out;
        new_pool.token1_amount = swapped.reserve_in;
    }
    new_pool.k_last = swapped.k_last;
    new_pool.swap_price_last = price;
    if price >= pool.swap_price_last {
        new_pool.swap_price_highest = price;
    } else {
        new_pool.swap_price_lowest = price;
    }
    new_pool.token0_trade_volume_total = volume0;
    new_pool.token1_trade_volume_total = volume1;
    Ok((new_pool, swapped.amount_out))
}

/// The engine as a mathematical value.
pub struct State {
    pub liquidity_pools: Map<Did, LiquidityPool>,
    pub liquidity_pool_id_by_index: Map<u64, Did>,
    pub liquidity_pool_index: u64,
    pub liquidity_pool_providers: Map<Did, Seq<AccountId>>,
    pub owned_liquidity_pools: Map<AccountId, Seq<Did>>,
    pub owned_liquidity_pool_share: Map<(AccountId, Did), u64>,
    pub amm_orders: Map<Did, AmmOrder>,
    pub amm_order_id_by_index: Map<u64, Did>,
    pub amm_order_index: u64,
    pub owned_amm_order_index: Map<AccountId, Seq<u64>>,
    pub liquidity_pools_owned_amm_order_index: Map<Did, Seq<u64>>,
    pub nonce: u64,
}

impl State {
    /// The share of the pool `lpid` recorded for `who`.
    pub open spec fn share_of(self, who: AccountId, lpid: Did) -> u64 {
        value_or_zero(self.owned_liquidity_pool_share, (who, lpid))
    }

    /// The engine with `who` recorded as a provider of the pool `lpid`, and
    /// the pool among those of `who`.
    pub open spec fn with_provider(self, lpid: Did, who: AccountId) -> State {
        State {
            liquidity_pool_providers: with_last(self.liquidity_pool_providers, lpid, who),
            owned_liquidity_pools: with_last(self.owned_liquidity_pools, who, lpid),
            ..self
        }
    }

    /// Why `sender` may not create a pool for the trade pair `tpid` with
    /// these amounts, if anything stands against it. `lpid` is the
    /// identifier that the pool would get.
    pub open spec fn init_check(
        self,
        trade_pairs: trade_pair::State,
        lpid: Did,
        sender: AccountId,
        tpid: Did,
        base_amount: u64,
        quote_amount: u64,
    ) -> Option<Error> {
        if !trade_pairs.trade_pairs.contains_key(tpid) {
            Some(Error::NoMatchingTradePair)
        } else if trade_pairs.trade_pairs[tpid].method != TradeMethod::AMMOrder {
            Some(Error::TradePairErr)
        } else {
            let pair = trade_pairs.trade_pairs[tpid];
            let pool = spec_initial_pool(tpid, pair.base, pair.quote, base_amount, quote_amount);
            if pool is Err {
                Some(pool->Err_0)
            } else if self.nonce == u64::MAX || self.liquidity_pool_index == u64::MAX
                || self.share_of(sender, lpid) + spec_initial_share(pool->Ok_0) > u64::MAX {
                Some(Error::Overflow)
            } else {
                None
            }
        }
    }

    /// The engine after `sender` created the pool `lpid` for the trade pair.
    /// Meant for arguments that pass `init_check`.
    pub open spec fn init_liquidity_pool(
        self,
        pair: TradePair,
        lpid: Did,
        sender: AccountId,
        tpid: Did,
        base_amount: u64,
        quote_amount: u64,
    ) -> State {
        let pool = spec_initial_pool(tpid, pair.base, pair.quote, base_amount, quote_amount)->Ok_0;
        State {
            liquidity_pools: self.liquidity_pools.insert(lpid, pool),
            liquidity_pool_id_by_index: self.liquidity_pool_id_by_index.insert(
                self.liquidity_pool_index,
                tpid,
            ),
            liquidity_pool_index: (self.liquidity_pool_index + 1) as u64,
            owned_liquidity_pool_share: self.owned_liquidity_pool_share.insert(
                (sender, lpid),
                (self.share_of(sender, lpid) + spec_initial_share(pool)) as u64,
            ),
            nonce: (self.nonce + 1) as u64,
            ..self
        }.with_provider(lpid, sender)
    }

    /// The engine and the ledger after `sender` added `liquidity_share` to the
    /// pool `lpid`, or the error.
    pub open spec fn add_liquidity(
        self,
        tokens: token::State,
        sender: AccountId,
        lpid: Did,
        liquidity_share: u64,
    ) -> Result<(State, token::State), Error> {
        if !self.liquidity_pools.contains_key(lpid) {
            Err(Error::NoMatchingLiquidityPool)
        } else {
            let pool = self.liquidity_pools[lpid];
            let need0 = spec_token0_for(pool, liquidity_share);
            if need0 is None {
                Err(Error::Overflow)
            } else if tokens.balance_of(sender, pool.token0) < need0.unwrap() || tokens.balance_of(
                sender,
                pool.token1,
            ) < liquidity_share || tokens.free_balance_of(sender, pool.token0) < need0.unwrap()
                || tokens.free_balance_of(sender, pool.token1) < liquidity_share {
                Err(Error::BalanceIsNotEnough)
            } else {
                let moved = tokens.static_transfer_in_twice(
                    sender,
                    lpid,
                    pool.token0,
                    need0.unwrap(),
                    pool.token1,
                    liquidity_share,
                );
                let new_pool = spec_deposit(pool, need0.unwrap(), liquidity_share);
                if moved is Err {
                    Err(Error::Token(moved->Err_0))
                } else if new_pool is None || self.share_of(sender, lpid) + liquidity_share
                    > u64::MAX {
                    Err(Error::Overflow)
                } else {
                    Ok(
                        (
                            State {
                                liquidity_pools: self.liquidity_pools.insert(
                                    lpid,
                                    new_pool.unwrap(),
                                ),
                                owned_liquidity_pool_share: self.owned_liquidity_pool_share.insert(
                                    (sender, lpid),
                                    (self.share_of(sender, lpid) + liquidity_share) as u64,
                                ),
                                ..self
                            }.with_provider(lpid, sender),
                            moved->Ok_0,
                        ),
                    )
                }
            }
        }
    }

    /// The engine and the ledger after `sender` removed `liquidity_share`
    /// from the pool `lpid`, or the error.
    pub open spec fn remove_liquidity(
        self,
        tokens: token::State,
        sender: AccountId,
        lpid: Did,
        liquidity_share: u64,
    ) -> Result<(State, token::State), Error> {
        if !self.liquidity_pools.contains_key(lpid) {
            Err(Error::NoMatchingLiquidityPool)
        } else if self.share_of(sender, lpid) < liquidity_share {
            Err(Error::LPShareIsNotEnough)
        } else {
            let pool = self.liquidity_pools[lpid];
            let free0 = spec_token0_for(pool, liquidity_share);
            if free0 is None {
                Err(Error::Overflow)
            } else {
                let moved = tokens.static_transfer_out_twice(
                    lpid,
                    sender,
                    pool.token0,
                    free0.unwrap(),
                    pool.token1,
                    liquidity_share,
                );
                let new_pool = spec_withdraw(pool, free0.unwrap(), liquidity_share);
                if moved is Err {
                    Err(Error::Token(moved->Err_0))
                } else if new_pool is None {
                    Err(Error::Overflow)
                } else {
                    Ok(
                        (
                            State {
                                liquidity_pools: self.liquidity_pools.insert(
                                    lpid,
                                    new_pool.unwrap(),
                                ),
                                owned_liquidity_pool_share: self.owned_liquidity_pool_share.insert(
                                    (sender, lpid),
                                    (self.share_of(sender, lpid) - liquidity_share) as u64,
                                ),
                                ..self
                            }.with_provider(lpid, sender),
                            moved->Ok_0,
                        ),
                    )
                }
            }
        }
    }

    /// Whether the pool `lpid` trades `token_have` against `token_want`: the
    /// two tokens, in one order or the other, are registered as the pool's
    /// trade pair.
    pub open spec fn trades(
        self,
        trade_pairs: trade_pair::State,
        lpid: Did,
        token_have: Did,
        token_want: Did,
    ) -> bool {
        let ids = trade_pairs.trade_pair_id_by_base_quote;
        let tpid = self.liquidity_pools[lpid].tpid;
        ||| ids.contains_key((token_have, token_want)) && ids[(token_have, token_want)] == tpid
        ||| ids.contains_key((token_want, token_have)) && ids[(token_want, token_have)] == tpid
    }

    /// The engine after the swap was recorded as the order `order_id`.
    pub open spec fn with_amm_order(self, order_id: Did, order: AmmOrder) -> State {
        State {
            amm_orders: self.amm_orders.insert(order_id, order),
            amm_order_id_by_index: self.amm_order_id_by_index.insert(
                self.amm_order_index,
                order_id,
            ),
            amm_order_index: (self.amm_order_index + 1) as u64,
            owned_amm_order_index: with_last(
                self.owned_amm_order_index,
                order.owner,
                self.amm_order_index,
            ),
            liquidity_pools_owned_amm_order_index: with_last(
                self.liquidity_pools_owned_amm_order_index,
                order.lpid,
                self.amm_order_index,
            ),
            nonce: (self.nonce + 1) as u64,
            ..self
        }
    }

    /// The engine after `sender` traded `token_have_amount` of `token_have`
    /// into the pool `lpid`, or the error. `order_id` is the identifier that
    /// the record of the swap gets.
    pub open spec fn trade(
        self,
        trade_pairs: trade_pair::State,
        order_id: Did,
        sender: AccountId,
        lpid: Did,
        token_have: Did,
        token_have_amount: u64,
        token_want: Did,
    ) -> Result<State, Error> {
        if !self.liquidity_pools.contains_key(lpid) || !self.trades(
            trade_pairs,
            lpid,
            token_have,
            token_want,
        ) {
            Err(Error::NoMatchingLiquidityPool)
        } else {
            let pool = self.liquidity_pools[lpid];
            let swapped = spec_swap(pool, token_have == pool.token0, token_have_amount);
            if swapped is Err {
                Err(swapped->Err_0)
            } else if self.nonce == u64::MAX || self.amm_order_index == u64::MAX {
                Err(Error::Overflow)
            } else {
                let (new_pool, token_want_amount) = swapped->Ok_0;
                Ok(
                    State {
                        liquidity_pools: self.liquidity_pools.insert(lpid, new_pool),
                        ..self
                    }.with_amm_order(
                        order_id,
                        AmmOrder {
                            lpid,
                            owner: sender,
                            token_have,
                            token_have_amount,
                            token_want,
                            token_want_amount,
                            token_swap_price: new_pool.swap_price_last,
                        },
                    ),
                )
            }
        }
    }
}

/// The engine.
pub struct Module {
    liquidity_pools: Table<Did, LiquidityPool>,
    liquidity_pool_id_by_index: Table<u64, Did>,
    liquidity_pool_index: u64,
    liquidity_pool_providers: Roster<Did, AccountId>,
    owned_liquidity_pools: Roster<AccountId, Did>,
    owned_liquidity_pool_share: Table<(AccountId, Did), u64>,
    amm_orders: Table<Did, AmmOrder>,
    amm_order_id_by_index: Table<u64, Did>,
    amm_order_index: u64,
    owned_amm_order_index: ListTable<AccountId, u64>,
    liquidity_pools_owned_amm_order_index: ListTable<Did, u64>,
    nonce: u64,
}

impl View for Module {
    type V = State;

    closed spec fn view(&self) -> State {
        State {
            liquidity_pools: self.liquidity_pools@,
            liquidity_pool_id_by_index: self.liquidity_pool_id_by_index@,
            liquidity_pool_index: self.liquidity_pool_index,
            liquidity_pool_providers: self.liquidity_pool_providers@,
            owned_liquidity_pools: self.owned_liquidity_pools@,
            owned_liquidity_pool_share: self.owned_liquidity_pool_share@,
            amm_orders: self.amm_orders@,
            amm_order_id_by_index: self.amm_order_id_by_index@,
            amm_order_index: self.amm_order_index,
            owned_amm_order_index: self.owned_amm_order_index@,
            liquidity_pools_owned_amm_order_index: self.liquidity_pools_owned_amm_order_index@,
            nonce: self.nonce,
        }
    }
}

impl Module {
    /// The engine with no pool and no order.
    pub fn new() -> (r: Self)
        ensures
            r@ == (State {
                liquidity_pools: Map::empty(),
                liquidity_pool_id_by_index: Map::empty(),
                liquidity_pool_index: 0,
                liquidity_pool_providers: Map::empty(),
                owned_liquidity_pools: Map::empty(),
                owned_liquidity_pool_share: Map::empty(),
                amm_orders: Map::empty(),
                amm_order_id_by_index: Map::empty(),
                amm_order_index: 0,
                owned_amm_order_index: Map::empty(),
                liquidity_pools_owned_amm_order_index: Map::empty(),
                nonce: 0,
            }),
            r@.lists_distinct(),
    {
        Module {
            liquidity_pools: Table::new(),
            liquidity_pool_id_by_index: Table::new(),
            liquidity_pool_index: 0,
            liquidity_pool_providers: Roster::new(),
            owned_liquidity_pools: Roster::new(),
            owned_liquidity_pool_share: Table::new(),
            amm_orders: Table::new(),
            amm_order_id_by_index: Table::new(),
            amm_order_index: 0,
            owned_amm_order_index: ListTable::new(),
            liquidity_pools_owned_amm_order_index: ListTable::new(),
            nonce: 0,
        }
    }

    /// Creates a pool for the trade pair `tpid` with the given reserves. The
    /// pair must be registered for trading through a pool. The sender becomes
    /// a provider of the pool with the share `base_amount / price`, where the
    /// price is `base_amount / quote_amount`. No funds are moved. Returns the
    /// pool's identifier, derived from the seed, the sender and the engine's
    /// nonce, and the event.
    pub fn init_liquidity_pool(
        &mut self,
        trade_pairs: &trade_pair::Module,
        seed: &[u8; 32],
        sender: AccountId,
        tpid: Did,
        base_amount: u64,
        quote_amount: u64,
    ) -> (r: Result<(Did, Event), Error>)
        ensures
            ({
                let lpid = new_did(seed@, sender, old(self)@.nonce);
                match old(self)@.init_check(
                    trade_pairs@,
                    lpid,
                    sender,
                    tpid,
                    base_amount,
                    quote_amount,
                ) {
                    Some(e) => r == Err::<(Did, Event), Error>(e) && final(self)@ == old(self)@,
                    None => r == Ok::<(Did, Event), Error>(
                        (lpid, Event::LiquidityPoolInited(sender, tpid, base_amount, quote_amount)),
                    ) && final(self)@ == old(self)@.init_liquidity_pool(
                        trade_pairs@.trade_pairs[tpid],
                        lpid,
                        sender,
                        tpid,
                        base_amount,
                        quote_amount,
                    ),
                }
            }),
            lists_kept(final(self)@, r is Ok, sender, new_did(seed@, sender, old(self)@.nonce)),
    {
        self.liquidity_pool_providers.distinct();
        self.owned_liquidity_pools.distinct();
        let lpid = generate_did(seed, sender, self.nonce);
        proof {
            if self@.lists_distinct() && self@.init_check(
                trade_pairs@,
                lpid,
                sender,
                tpid,
                base_amount,
                quote_amount,
            ) is None {
                lemma_lists_distinct(
                    self@,
                    arbitrary(),
                    trade_pairs@,
                    Op::Init { lpid, sender, tpid, base_amount, quote_amount },
                );
            }
        }
        let trade_pair = match trade_pairs.get_trade_pair(tpid) {
            Some(tp) => tp,
            None => {
                return Err(Error::NoMatchingTradePair);
            },
        };
        if trade_pair.method != TradeMethod::AMMOrder {
            return Err(Error::TradePairErr);
        }
        let lp = match initial_pool(tpid, trade_pair.base, trade_pair.quote, base_amount, quote_amount) {
            Ok(lp) => lp,
            Err(e) => {
                return Err(e);
            },
        };
        let index = self.liquidity_pool_index;
        if self.nonce == u64::MAX || index == u64::MAX {
            return Err(Error::Overflow);
        }
        let share = base_amount / lp.swap_price_last;
        let shares = match read_or_zero(&self.owned_liquidity_pool_share, &(sender, lpid)).checked_add(
            share,
        ) {
            Some(v) => v,
            None => {
                return Err(Error::Overflow);
            },
        };
        self.nonce = self.nonce + 1;
        self.liquidity_pools.insert(lpid, lp);
        self.liquidity_pool_id_by_index.insert(index, tpid);
        self.liquidity_pool_index = index + 1;
        self._add_liquidity_providers(lpid, sender);
        self._add_owned_liquidity_pools(sender, lpid);
        self.owned_liquidity_pool_share.insert((sender, lpid), shares);
        Ok((lpid, Event::LiquidityPoolInited(sender, tpid, base_amount, quote_amount)))
    }

    /// Adds `liquidity_share` to the pool `lpid`: `swap_price_last` times the
    /// share of `token0` and the share itself of `token1` move from the
    /// sender's free balance into the pool's custody, the reserves grow by
    /// the same amounts, and the share is credited to the sender.
    pub fn add_liquidity(
        &mut self,
        tokens: &mut token::Module,
        sender: AccountId,
        lpid: Did,
        liquidity_share: u64,
    ) -> (r: Result<Event, Error>)
        ensures
            match old(self)@.add_liquidity(old(tokens)@, sender, lpid, liquidity_share) {
                Ok((state, ledger)) => {
                    &&& final(self)@ == state
                    &&& final(tokens)@ == ledger
                    &&& r == Ok::<Event, Error>(Event::LiquidityAdded(sender, lpid, liquidity_share))
                },
                Err(e) => {
                    &&& final(self)@ == old(self)@
                    &&& final(tokens)@ == old(tokens)@
                    &&& r == Err::<Event, Error>(e)
                },
            },
            lists_kept(final(self)@, r is Ok, sender, lpid),
    {
        self.liquidity_pool_providers.distinct();
        self.owned_liquidity_pools.distinct();
        proof {
            if self@.lists_distinct() && self@.add_liquidity(
                tokens@,
                sender,
                lpid,
                liquidity_share,
            ) is Ok {
                lemma_lists_distinct(
                    self@,
                    tokens@,
                    arbitrary(),
                    Op::Add { sender, lpid, liquidity_share },
                );
            }
        }
        let liquidity_pool = match self.liquidity_pools.get(&lpid) {
            Some(pool) => *pool,
            None => {
                return Err(Error::NoMatchingLiquidityPool);
            },
        };
        let tolen0_need = match token0_for(&liquidity_pool, liquidity_share) {
            Some(v) => v,
            None => {
                return Err(Error::Overflow);
            },
        };
        let tolen1_need = liquidity_share;
        if tokens.balance_of(sender, liquidity_pool.token0) < tolen0_need || tokens.balance_of(
            sender,
            liquidity_pool.token1,
        ) < tolen1_need || tokens.free_balance_of(sender, liquidity_pool.token0) < tolen0_need
            || tokens.free_balance_of(sender, liquidity_pool.token1) < tolen1_need {
            return Err(Error::BalanceIsNotEnough);
        }
        match tokens.check_static_transfer_in_twice(
            sender,
            lpid,
            liquidity_pool.token0,
            tolen0_need,
            liquidity_pool.token1,
            tolen1_need,
        ) {
            Ok(()) => {},
            Err(e) => {
                return Err(Error::Token(e));
            },
        }
        let new_pool = deposit(&liquidity_pool, tolen0_need, tolen1_need);
        let shares = read_or_zero(&self.owned_liquidity_pool_share, &(sender, lpid)).checked_add(
            liquidity_share,
        );
        let (new_pool, shares) = match (new_pool, shares) {
            (Some(p), Some(s)) => (p, s),
            _ => {
                return Err(Error::Overflow);
            },
        };
        match tokens.static_transfer_in_twice(
            sender,
            lpid,
            liquidity_pool.token0,
            tolen0_need,
            liquidity_pool.token1,
            tolen1_need,
        ) {
            Ok(_) => {},
            Err(e) => {
                return Err(Error::Token(e));
            },
        }
        self.liquidity_pools.insert(lpid, new_pool);
        self._add_liquidity_providers(lpid, sender);
        self._add_owned_liquidity_pools(sender, lpid);
        self.owned_liquidity_pool_share.insert((sender, lpid), shares);
        Ok(Event::LiquidityAdded(sender, lpid, liquidity_share))
    }

    /// Trades `token_have_amount` of `token_have` into the pool `lpid` for
    /// `token_want`. The two tokens must be the pool's trade pair, in one
    /// order or the other, and the reserve of the token paid in must exceed
    /// the amount. The swap is recorded as an order whose identifier is
    /// derived from the seed, the sender and the engine's nonce.
    pub fn trade(
        &mut self,
        trade_pairs: &trade_pair::Module,
        seed: &[u8; 32],
        sender: AccountId,
        lpid: Did,
        token_have: Did,
        token_have_amount: u64,
        token_want: Did,
    ) -> (r: Result<Event, Error>)
        ensures
            match old(self)@.trade(
                trade_pairs@,
                new_did(seed@, sender, old(self)@.nonce),
                sender,
                lpid,
                token_have,
                token_have_amount,
                token_want,
            ) {
                Ok(state) => final(self)@ == state && r == Ok::<Event, Error>(
                    Event::TradeDoned(sender, lpid, token_have, token_have_amount),
                ),
                Err(e) => final(self)@ == old(self)@ && r == Err::<Event, Error>(e),
            },
            final(self)@.lists_distinct(),
    {
        self.liquidity_pool_providers.distinct();
        self.owned_liquidity_pools.distinct();
        proof {
            let order_id = new_did(seed@, sender, self@.nonce);
            if self@.lists_distinct() && self@.trade(
                trade_pairs@,
                order_id,
                sender,
                lpid,
                token_have,
                token_have_amount,
                token_want,
            ) is Ok {
                lemma_lists_distinct(
                    self@,
                    arbitrary(),
                    trade_pairs@,
                    Op::Trade { order_id, sender, lpid, token_have, token_have_amount, token_want },
                );
            }
        }
        let liquidity_pool = match self.liquidity_pools.get(&lpid) {
            Some(pool) => *pool,
            None => {
                return Err(Error::NoMatchingLiquidityPool);
            },
        };
        let tpid = trade_pairs.get_trade_pair_id_by_base_quote(token_have, token_want);
        let tpid1 = trade_pairs.get_trade_pair_id_by_base_quote(token_want, token_have);
        let matches = match tpid {
            Some(id) => id.same(&liquidity_pool.tpid),
            None => false,
        };
        let matches1 = match tpid1 {
            Some(id) => id.same(&liquidity_pool.tpid),
            None => false,
        };
        if !(matches || matches1) {
            return Err(Error::NoMatchingLiquidityPool);
        }
        let forward = token_have.same(&liquidity_pool.token0);
        let (new_pool, token_want_amount) = match swap(&liquidity_pool, forward, token_have_amount) {
            Ok(swapped) => swapped,
            Err(e) => {
                return Err(e);
            },
        };
        if self.nonce == u64::MAX || self.amm_order_index == u64::MAX {
            return Err(Error::Overflow);
        }
        self.liquidity_pools.insert(lpid, new_pool);
        self._create_amm_order(
            seed,
            lpid,
            sender,
            token_have,
            token_have_amount,
            token_want,
            token_want_amount,
            new_pool.swap_price_last,
        );
        Ok(Event::TradeDoned(sender, lpid, token_have, token_have_amount))
    }

    /// Removes `liquidity_share` from the pool `lpid`: `swap_price_last`
    /// times the share of `token0` and the share itself of `token1` move out
    /// of the pool's custody to the sender's free balance, the reserves
    /// shrink by the same amounts, and the share is taken off the sender's.
    /// The sender's recorded share must cover the share removed.
    pub fn remove_liquidity(
        &mut self,
        tokens: &mut token::Module,
        sender: AccountId,
        lpid: Did,
        liquidity_share: u64,
    ) -> (r: Result<Event, Error>)
        ensures
            match old(self)@.remove_liquidity(old(tokens)@, sender, lpid, liquidity_share) {
                Ok((state, ledger)) => {
                    &&& final(self)@ == state
                    &&& final(tokens)@ == ledger
                    &&& r == Ok::<Event, Error>(
                        Event::LiquidityRemoved(sender, lpid, liquidity_share),
                    )
                },
                Err(e) => {
                    &&& final(self)@ == old(self)@
                    &&& final(tokens)@ == old(tokens)@
                    &&& r == Err::<Event, Error>(e)
                },
            },
            lists_kept(final(self)@, r is Ok, sender, lpid),
    {
        self.liquidity_pool_providers.distinct();
        self.owned_liquidity_pools.distinct();
        proof {
            if self@.lists_distinct() && self@.remove_liquidity(
                tokens@,
                sender,
                lpid,
                liquidity_share,
            ) is Ok {
                lemma_lists_distinct(
                    self@,
                    tokens@,
                    arbitrary(),
                    Op::Remove { sender, lpid, liquidity_share },
                );
            }
        }
        let liquidity_pool = match self.liquidity_pools.get(&lpid) {
            Some(pool) => *pool,
            None => {
                return Err(Error::NoMatchingLiquidityPool);
            },
        };
        let owned_liquidity_share = read_or_zero(&self.owned_liquidity_pool_share, &(sender, lpid));
        if owned_liquidity_share < liquidity_share {
            return Err(Error::LPShareIsNotEnough);
        }
        let tolen0_free = match token0_for(&liquidity_pool, liquidity_share) {
            Some(v) => v,
            None => {
                return Err(Error::Overflow);
            },
        };
        let tolen1_free = liquidity_share;
        match tokens.check_static_transfer_out_twice(
            lpid,
            sender,
            liquidity_pool.token0,
            tolen0_free,
            liquidity_pool.token1,
            tolen1_free,
        ) {
            Ok(()) => {},
            Err(e) => {
                return Err(Error::Token(e));
            },
        }
        let new_pool = match withdraw(&liquidity_pool, tolen0_free, tolen1_free) {
            Some(p) => p,
            None => {
                return Err(Error::Overflow);
            },
        };
        match tokens.static_transfer_out_twice(
            lpid,
            sender,
            liquidity_pool.token0,
            tolen0_free,
            liquidity_pool.token1,
            tolen1_free,
        ) {
            Ok(_) => {},
            Err(e) => {
                return Err(Error::Token(e));
            },
        }
        self.liquidity_pools.insert(lpid, new_pool);
        self._add_liquidity_providers(lpid, sender);
        self._add_owned_liquidity_pools(sender, lpid);
        self.owned_liquidity_pool_share.insert(
            (sender, lpid),
            owned_liquidity_share - liquidity_share,
        );
        Ok(Event::LiquidityRemoved(sender, lpid, liquidity_share))
    }

    /// Records a completed swap as an order under a new identifier and the
    /// next index, and lists the index under the owner and under the pool.
    fn _create_amm_order(
        &mut self,
        seed: &[u8; 32],
        lpid: Did,
        sender: AccountId,
        token_have: Did,
        token_have_amount: u64,
        token_want: Did,
        token_want_amount: u64,
        token_swap_price: u64,
    )
        requires
            old(self)@.nonce < u64::MAX,
            old(self)@.amm_order_index < u64::MAX,
        ensures
            final(self)@ == old(self)@.with_amm_order(
                new_did(seed@, sender, old(self)@.nonce),
                (AmmOrder {
                    lpid,
                    owner: sender,
                    token_have,
                    token_have_amount,
                    token_want,
                    token_want_amount,
                    token_swap_price,
                }),
            ),
    {
        let aorder_id = generate_did(seed, sender, self.nonce);
        let aorder = AmmOrder {
            lpid,
            owner: sender,
            token_have,
            token_have_amount,
            token_want,
            token_want_amount,
            token_swap_price,
        };
        self.nonce = self.nonce + 1;
        self.amm_orders.insert(aorder_id, aorder);
        let index = self.amm_order_index;
        self.amm_order_id_by_index.insert(index, aorder_id);
        self.amm_order_index = index + 1;
        self.owned_amm_order_index.add_last(sender, index);
        self.liquidity_pools_owned_amm_order_index.add_last(lpid, index);
    }

    /// Replaces the pool under `lpid`, which must exist.
    pub fn update_liquidity_pool(&mut self, lpid: Did, new_liquidity_pool: LiquidityPool) -> (r:
        Result<(), Error>)
        ensures
            old(self)@.liquidity_pools.contains_key(lpid) ==> r is Ok && final(self)@ == (State {
                liquidity_pools: old(self)@.liquidity_pools.insert(lpid, new_liquidity_pool),
                ..old(self)@
            }),
            !old(self)@.liquidity_pools.contains_key(lpid) ==> r == Err::<(), Error>(
                Error::NoMatchingLiquidityPool,
            ) && final(self)@ == old(self)@,
            final(self)@.lists_distinct(),
    {
        self.liquidity_pool_providers.distinct();
        self.owned_liquidity_pools.distinct();
        if !self.liquidity_pools.contains_key(&lpid) {
            return Err(Error::NoMatchingLiquidityPool);
        }
        self.liquidity_pools.insert(lpid, new_liquidity_pool);
        Ok(())
    }

    /// The pool under `lpid`, if there is one.
    pub fn liquidity_pools(&self, lpid: Did) -> (r: Option<LiquidityPool>)
        ensures
            r == if self@.liquidity_pools.contains_key(lpid) {
                Some(self@.liquidity_pools[lpid])
            } else {
                None
            },
    {
        match self.liquidity_pools.get(&lpid) {
            Some(pool) => Some(*pool),
            None => None,
        }
    }

    /// What was recorded under the `index`-th pool created, if there are
    /// that many: the identifier of its trade pair.
    pub fn liquidity_pool_id_by_index(&self, index: u64) -> (r: Option<Did>)
        ensures
            r == if self@.liquidity_pool_id_by_index.contains_key(index) {
                Some(self@.liquidity_pool_id_by_index[index])
            } else {
                None
            },
    {
        match self.liquidity_pool_id_by_index.get(&index) {
            Some(id) => Some(*id),
            None => None,
        }
    }

    /// How many pools were created.
    pub fn liquidity_pool_index(&self) -> (r: u64)
        ensures
            r == self@.liquidity_pool_index,
    {
        self.liquidity_pool_index
    }

    /// The providers of the pool `lpid`, in the order in which they joined.
    pub fn liquidity_pool_providers(&self, lpid: Did) -> (r: Vec<AccountId>)
        ensures
            r@ == list_or_empty(self@.liquidity_pool_providers, lpid),
            r@.no_duplicates(),
    {
        self.liquidity_pool_providers.get(&lpid)
    }

    /// The pools that `who` has provided to, in the order of first provision.
    pub fn owned_liquidity_pools(&self, who: AccountId) -> (r: Vec<Did>)
        ensures
            r@ == list_or_empty(self@.owned_liquidity_pools, who),
            r@.no_duplicates(),
    {
        self.owned_liquidity_pools.get(&who)
    }

    /// The share of the pool `lpid` recorded for `who`.
    pub fn owned_liquidity_pool_share(&self, who: AccountId, lpid: Did) -> (r: u64)
        ensures
            r == self@.share_of(who, lpid),
    {
        read_or_zero(&self.owned_liquidity_pool_share, &(who, lpid))
    }

    /// The order under `order_id`, if there is one.
    pub fn amm_orders(&self, order_id: Did) -> (r: Option<AmmOrder>)
        ensures
            r == if self@.amm_orders.contains_key(order_id) {
                Some(self@.amm_orders[order_id])
            } else {
                None
            },
    {
        match self.amm_orders.get(&order_id) {
            Some(order) => Some(*order),
            None => None,
        }
    }

    /// The identifier of the `index`-th order, if there are that many.
    pub fn amm_order_id_by_index(&self, index: u64) -> (r: Option<Did>)
        ensures
            r == if self@.amm_order_id_by_index.contains_key(index) {
                Some(self@.amm_order_id_by_index[index])
            } else {
                None
            },
    {
        match self.amm_order_id_by_index.get(&index) {
            Some(id) => Some(*id),
            None => None,
        }
    }

    /// How many orders were recorded.
    pub fn amm_order_index(&self) -> (r: u64)
        ensures
            r == self@.amm_order_index,
    {
        self.amm_order_index
    }

    /// The indices of the orders of `who`, oldest first.
    pub fn owned_amm_order_index(&self, who: AccountId) -> (r: Vec<u64>)
        ensures
            r@ == list_or_empty(self@.owned_amm_order_index, who),
    {
        self.owned_amm_order_index.get(&who)
    }

    /// The indices of the orders against the pool `lpid`, oldest first.
    pub fn liquidity_pools_owned_amm_order_index(&self, lpid: Did) -> (r: Vec<u64>)
        ensures
            r@ == list_or_empty(self@.liquidity_pools_owned_amm_order_index, lpid),
    {
        self.liquidity_pools_owned_amm_order_index.get(&lpid)
    }

    /// Records `sender` among the providers of the pool `lpid`.
    fn _add_liquidity_providers(&mut self, lpid: Did, sender: AccountId)
        ensures
            final(self)@ == (State {
                liquidity_pool_providers: with_last(
                    old(self)@.liquidity_pool_providers,
                    lpid,
                    sender,
                ),
                ..old(self)@
            }),
    {
        self.liquidity_pool_providers.add_last(lpid, sender);
    }

    /// Records the pool `lpid` among the pools of `sender`.
    fn _add_owned_liquidity_pools(&mut self, sender: AccountId, lpid: Did)
        ensures
            final(self)@ == (State {
                owned_liquidity_pools: with_last(old(self)@.owned_liquidity_pools, sender, lpid),
                ..old(self)@
            }),
    {
        self.owned_liquidity_pools.add_last(sender, lpid);
    }
}

/// One operation on a pool that changes its reserves.
pub enum PoolOp {
    /// Liquidity is added, by this share.
    Add(u64),
    /// This amount is traded in; `true` where it is paid in `token0`.
    Trade(bool, u64),
    /// Liquidity is removed, by this share.
    Remove(u64),
}

/// The pool after the operation, if the engine accepts it.
pub open spec fn spec_apply(pool: LiquidityPool, op: PoolOp) -> Option<LiquidityPool> {
    match op {
        PoolOp::Add(share) => match spec_token0_for(pool, share) {
            Some(amount0) => spec_deposit(pool, amount0, share),
            None => None,
        },
        PoolOp::Trade(forward, amount) => match spec_swap(pool, forward, amount) {
            Ok((next, _)) => Some(next),
            Err(_) => None,
        },
        PoolOp::Remove(share) => match spec_token0_for(pool, share) {
            Some(amount0) => spec_withdraw(pool, amount0, share),
            None => None,
        },
    }
}

/// By how much the operation changes the two reserves, as integers without
/// bound: what is deposited or paid in counts up, what is withdrawn or paid
/// out counts down.
pub open spec fn reserve_change(pool: LiquidityPool, op: PoolOp) -> (int, int) {
    match op {
        PoolOp::Add(share) => (pool.swap_price_last * share, share as int),
        PoolOp::Trade(forward, amount) => {
            let out = spec_swap(pool, forward, amount)->Ok_0.1;
            if forward {
                (amount as int, -out)
            } else {
                (-out, amount as int)
            }
        },
        PoolOp::Remove(share) => (-(pool.swap_price_last * share), -share),
    }
}

/// The pool after the operations in order, if the engine accepts them all.
pub open spec fn spec_apply_all(pool: LiquidityPool, ops: Seq<PoolOp>) -> Option<LiquidityPool>
    decreases ops.len(),
{
    if ops.len() == 0 {
        Some(pool)
    } else {
        match spec_apply_all(pool, ops.drop_last()) {
            Some(next) => spec_apply(next, ops.last()),
            None => None,
        }
    }
}

/// The two reserves after the operations in order, reckoned in integers
/// without bound from the starting reserves and the changes.
pub open spec fn ideal_reserves(pool: LiquidityPool, ops: Seq<PoolOp>) -> (int, int)
    decreases ops.len(),
{
    if ops.len() == 0 {
        (pool.token0_amount as int, pool.token1_amount as int)
    } else {
        let before = ideal_reserves(pool, ops.drop_last());
        let change = reserve_change(spec_apply_all(pool, ops.drop_last()).unwrap(), ops.last());
        (before.0 + change.0, before.1 + change.1)
    }
}

/// An accepted operation changes the reserves by exactly what it moves: no
/// reserve falls below zero or wraps around.
pub proof fn lemma_reserves_step(pool: LiquidityPool, op: PoolOp)
    requires
        spec_apply(pool, op) is Some,
    ensures
        spec_apply(pool, op).unwrap().token0_amount == pool.token0_amount + reserve_change(
            pool,
            op,
        ).0,
        spec_apply(pool, op).unwrap().token1_amount == pool.token1_amount + reserve_change(
            pool,
            op,
        ).1,
        pool.token0_amount + reserve_change(pool, op).0 >= 0,
        pool.token1_amount + reserve_change(pool, op).1 >= 0,
{
}

/// Reserves never go below zero: if the engine accepts a sequence of
/// additions, trades and removals on a pool, then after every step of it
/// both reserves, reckoned in integers without bound, are at least zero and
/// are what the pool records.
pub proof fn lemma_reserves_non_negative(pool: LiquidityPool, ops: Seq<PoolOp>, steps: int)
    requires
        spec_apply_all(pool, ops) is Some,
        0 <= steps <= ops.len(),
    ensures
        spec_apply_all(pool, ops.take(steps)) is Some,
        ideal_reserves(pool, ops.take(steps)).0 >= 0,
        ideal_reserves(pool, ops.take(steps)).1 >= 0,
        ideal_reserves(pool, ops.take(steps)) == (
            spec_apply_all(pool, ops.take(steps)).unwrap().token0_amount as int,
            spec_apply_all(pool, ops.take(steps)).unwrap().token1_amount as int,
        ),
    decreases ops.len() - steps, steps,
{
    if steps < ops.len() {
        // every prefix of an accepted sequence is accepted
        assert(ops.drop_last().take(steps) =~= ops.take(steps));
        lemma_reserves_non_negative(pool, ops.drop_last(), steps);
    } else {
        assert(ops.take(steps) =~= ops);
        if steps > 0 {
            let front = ops.drop_last();
            lemma_reserves_non_negative(pool, front, steps - 1);
            assert(front.take(steps - 1) =~= front);
            lemma_reserves_step(spec_apply_all(pool, front).unwrap(), ops.last());
        }
    }
}

/// What the engine does to a pool when it accepts an addition, a trade or a
/// removal is the operation on the pool; the other pools stay as they are.
pub proof fn lemma_engine_applies_pool_op(
    state: State,
    tokens: token::State,
    trade_pairs: trade_pair::State,
    order_id: Did,
    sender: AccountId,
    lpid: Did,
    amount: u64,
    token_have: Did,
    token_want: Did,
)
    ensures
        state.add_liquidity(tokens, sender, lpid, amount) is Ok ==> state.add_liquidity(
            tokens,
            sender,
            lpid,
            amount,
        )->Ok_0.0.liquidity_pools == state.liquidity_pools.insert(
            lpid,
            spec_apply(state.liquidity_pools[lpid], PoolOp::Add(amount)).unwrap(),
        ),
        state.remove_liquidity(tokens, sender, lpid, amount) is Ok ==> state.remove_liquidity(
            tokens,
            sender,
            lpid,
            amount,
        )->Ok_0.0.liquidity_pools == state.liquidity_pools.insert(
            lpid,
            spec_apply(state.liquidity_pools[lpid], PoolOp::Remove(amount)).unwrap(),
        ),
        state.trade(trade_pairs, order_id, sender, lpid, token_have, amount, token_want) is Ok
            ==> state.trade(
            trade_pairs,
            order_id,
            sender,
            lpid,
            token_have,
            amount,
            token_want,
        )->Ok_0.liquidity_pools == state.liquidity_pools.insert(
            lpid,
            spec_apply(
                state.liquidity_pools[lpid],
                PoolOp::Trade(token_have == state.liquidity_pools[lpid].token0, amount),
            ).unwrap(),
        ),
{
}

/// One call of the engine.
pub enum Op {
    /// `init_liquidity_pool`, with the identifier that the pool gets.
    Init { lpid: Did, sender: AccountId, tpid: Did, base_amount: u64, quote_amount: u64 },
    /// `add_liquidity`.
    Add { sender: AccountId, lpid: Did, liquidity_share: u64 },
    /// `trade`, with the identifier that the order gets.
    Trade {
        order_id: Did,
        sender: AccountId,
        lpid: Did,
        token_have: Did,
        token_have_amount: u64,
        token_want: Did,
    },
    /// `remove_liquidity`.
    Remove { sender: AccountId, lpid: Did, liquidity_share: u64 },
}

/// The engine and the ledger after the call, if the engine accepts it.
pub open spec fn spec_step(
    state: State,
    tokens: token::State,
    trade_pairs: trade_pair::State,
    op: Op,
) -> Option<(State, token::State)> {
    match op {
        Op::Init { lpid, sender, tpid, base_amount, quote_amount } => {
            if state.init_check(trade_pairs, lpid, sender, tpid, base_amount, quote_amount)
                is None {
                Some(
                    (
                        state.init_liquidity_pool(
                            trade_pairs.trade_pairs[tpid],
                            lpid,
                            sender,
                            tpid,
                            base_amount,
                            quote_amount,
                        ),
                        tokens,
                    ),
                )
            } else {
                None
            }
        },
        Op::Add { sender, lpid, liquidity_share } => match state.add_liquidity(
            tokens,
            sender,
            lpid,
            liquidity_share,
        ) {
            Ok(next) => Some(next),
            Err(_) => None,
        },
        Op::Trade { order_id, sender, lpid, token_have, token_have_amount, token_want } => match state.trade(
            trade_pairs,
            order_id,
            sender,
            lpid,
            token_have,
            token_have_amount,
            token_want,
        ) {
            Ok(next) => Some((next, tokens)),
            Err(_) => None,
        },
        Op::Remove { sender, lpid, liquidity_share } => match state.remove_liquidity(
            tokens,
            sender,
            lpid,
            liquidity_share,
        ) {
            Ok(next) => Some(next),
            Err(_) => None,
        },
    }
}

/// The share of the pool `lpid` that the call credits to `who`: what `who`
/// adds to that pool counts up, what `who` removes from it counts down.
/// Creating the pool adds the initial share.
pub open spec fn share_credit(trade_pairs: trade_pair::State, op: Op, who: AccountId, lpid: Did) -> int {
    match op {
        Op::Init { lpid: pool, sender, tpid, base_amount, quote_amount } => if sender == who
            && pool == lpid {
            spec_initial_share(
                spec_initial_pool(
                    tpid,
                    trade_pairs.trade_pairs[tpid].base,
                    trade_pairs.trade_pairs[tpid].quote,
                    base_amount,
                    quote_amount,
                )->Ok_0,
            ) as int
        } else {
            0
        },
        Op::Add { sender, lpid: pool, liquidity_share } => if sender == who && pool == lpid {
            liquidity_share as int
        } else {
            0
        },
        Op::Trade { .. } => 0,
        Op::Remove { sender, lpid: pool, liquidity_share } => if sender == who && pool == lpid {
            -liquidity_share
        } else {
            0
        },
    }
}

/// The engine and the ledger after the calls in order, if the engine
/// accepts them all.
pub open spec fn spec_run(
    state: State,
    tokens: token::State,
    trade_pairs: trade_pair::State,
    ops: Seq<Op>,
) -> Option<(State, token::State)>
    decreases ops.len(),
{
    if ops.len() == 0 {
        Some((state, tokens))
    } else {
        match spec_run(state, tokens, trade_pairs, ops.drop_last()) {
            Some((s, t)) => spec_step(s, t, trade_pairs, ops.last()),
            None => None,
        }
    }
}

/// The sum of what the calls credit to `who` in the pool `lpid`.
pub open spec fn net_share_credit(
    trade_pairs: trade_pair::State,
    ops: Seq<Op>,
    who: AccountId,
    lpid: Did,
) -> int
    decreases ops.len(),
{
    if ops.len() == 0 {
        0
    } else {
        net_share_credit(trade_pairs, ops.drop_last(), who, lpid) + share_credit(
            trade_pairs,
            ops.last(),
            who,
            lpid,
        )
    }
}

/// Share accounting: over any sequence of calls that the engine accepts, the
/// share recorded for an account in a pool changes by what the account added
/// to the pool less what it removed.
pub proof fn lemma_share_accounting(
    state: State,
    tokens: token::State,
    trade_pairs: trade_pair::State,
    ops: Seq<Op>,
    who: AccountId,
    lpid: Did,
)
    requires
        spec_run(state, tokens, trade_pairs, ops) is Some,
    ensures
        spec_run(state, tokens, trade_pairs, ops).unwrap().0.share_of(who, lpid)
            == state.share_of(who, lpid) + net_share_credit(trade_pairs, ops, who, lpid),
    decreases ops.len(),
{
    if ops.len() > 0 {
        lemma_share_accounting(state, tokens, trade_pairs, ops.drop_last(), who, lpid);
    }
}

/// A removal of more than the share recorded for the sender fails with
/// `LPShareIsNotEnough`, whatever else holds of an existing pool.
pub proof fn lemma_remove_needs_share(
    state: State,
    tokens: token::State,
    sender: AccountId,
    lpid: Did,
    liquidity_share: u64,
)
    requires
        state.liquidity_pools.contains_key(lpid),
        liquidity_share > state.share_of(sender, lpid),
    ensures
        state.remove_liquidity(tokens, sender, lpid, liquidity_share) == Err::<
            (State, token::State),
            Error,
        >(Error::LPShareIsNotEnough),
{
}

/// Providers are never struck off: whatever call the engine accepts, the
/// providers of a pool before the call are the first providers of the pool
/// after it, in the same order.
pub proof fn lemma_providers_append_only(
    state: State,
    tokens: token::State,
    trade_pairs: trade_pair::State,
    op: Op,
    lpid: Did,
)
    requires
        spec_step(state, tokens, trade_pairs, op) is Some,
    ensures
        ({
            let before = list_or_empty(state.liquidity_pool_providers, lpid);
            let after = list_or_empty(
                spec_step(state, tokens, trade_pairs, op).unwrap().0.liquidity_pool_providers,
                lpid,
            );
            before.len() <= after.len() && after.take(before.len() as int) == before
        }),
{
    let before = list_or_empty(state.liquidity_pool_providers, lpid);
    let after = list_or_empty(
        spec_step(state, tokens, trade_pairs, op).unwrap().0.liquidity_pool_providers,
        lpid,
    );
    assert(after == before || exists|who: AccountId| after == before.push(who));
    assert(after.take(before.len() as int) =~= before);
}

impl State {
    /// No provider stands twice in the list of a pool, and no pool twice in
    /// the list of a provider.
    pub open spec fn lists_distinct(self) -> bool {
        &&& forall|lpid: Did| #[trigger]
            list_or_empty(self.liquidity_pool_providers, lpid).no_duplicates()
        &&& forall|who: AccountId| #[trigger]
            list_or_empty(self.owned_liquidity_pools, who).no_duplicates()
    }
}

/// Recording a provider of a pool keeps the lists free of repeats; the
/// provider then stands exactly once in the pool's list and the pool exactly
/// once in the provider's.
pub proof fn lemma_with_provider(state: State, lpid: Did, who: AccountId)
    requires
        state.lists_distinct(),
    ensures
        state.with_provider(lpid, who).lists_distinct(),
        listed_once(
            list_or_empty(state.with_provider(lpid, who).liquidity_pool_providers, lpid),
            who,
        ),
        listed_once(list_or_empty(state.with_provider(lpid, who).owned_liquidity_pools, who), lpid),
{
    let after = state.with_provider(lpid, who);
    assert(list_or_empty(state.liquidity_pool_providers, lpid).no_duplicates());
    assert(list_or_empty(state.owned_liquidity_pools, who).no_duplicates());
    lemma_with_last(state.liquidity_pool_providers, lpid, who);
    lemma_with_last(state.owned_liquidity_pools, who, lpid);
    assert forall|pool: Did| #[trigger]
        list_or_empty(after.liquidity_pool_providers, pool).no_duplicates() by {
        assert(list_or_empty(state.liquidity_pool_providers, pool).no_duplicates());
    }
    assert forall|account: AccountId| #[trigger]
        list_or_empty(after.owned_liquidity_pools, account).no_duplicates() by {
        assert(list_or_empty(state.owned_liquidity_pools, account).no_duplicates());
    }
}

/// The lists stay free of repeats through every call that the engine
/// accepts. After an accepted addition, removal or creation the sender
/// stands exactly once among the providers of the pool, and the pool exactly
/// once among the sender's pools.
pub proof fn lemma_lists_distinct(
    state: State,
    tokens: token::State,
    trade_pairs: trade_pair::State,
    op: Op,
)
    requires
        state.lists_distinct(),
        spec_step(state, tokens, trade_pairs, op) is Some,
    ensures
        spec_step(state, tokens, trade_pairs, op).unwrap().0.lists_distinct(),
        match op {
            Op::Trade { .. } => true,
            Op::Init { lpid, sender, .. } | Op::Add {
                lpid,
                sender,
                ..
            } | Op::Remove { lpid, sender, .. } => {
                let after = spec_step(state, tokens, trade_pairs, op).unwrap().0;
                &&& listed_once(list_or_empty(after.liquidity_pool_providers, lpid), sender)
                &&& listed_once(list_or_empty(after.owned_liquidity_pools, sender), lpid)
            },
        },
{
    let after = spec_step(state, tokens, trade_pairs, op).unwrap().0;
    match op {
        Op::Trade { .. } => {
            assert forall|pool: Did| #[trigger]
                list_or_empty(after.liquidity_pool_providers, pool).no_duplicates() by {
                assert(list_or_empty(state.liquidity_pool_providers, pool).no_duplicates());
            }
            assert forall|account: AccountId| #[trigger]
                list_or_empty(after.owned_liquidity_pools, account).no_duplicates() by {
                assert(list_or_empty(state.owned_liquidity_pools, account).no_duplicates());
            }
        },
        Op::Init { lpid, sender, .. } | Op::Add { lpid, sender, .. } | Op::Remove {
            lpid,
            sender,
            ..
        } => {
            lemma_with_provider(state, lpid, sender);
            assert(after.liquidity_pool_providers == state.with_provider(
                lpid,
                sender,
            ).liquidity_pool_providers);
            assert(after.owned_liquidity_pools == state.with_provider(
                lpid,
                sender,
            ).owned_liquidity_pools);
        },
    }
}

/// The engine's lists are free of repeats after a call, and where the call
/// went through, the sender stands exactly once among the providers of the
/// pool and the pool exactly once among the sender's pools.
pub open spec fn lists_kept(after: State, done: bool, sender: AccountId, lpid: Did) -> bool {
    &&& after.lists_distinct()
    &&& done ==> listed_once(list_or_empty(after.liquidity_pool_providers, lpid), sender)
        && listed_once(list_or_empty(after.owned_liquidity_pools, sender), lpid)
}

} // verus!
