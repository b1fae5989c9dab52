//! Identifiers and records shared by the ledgers and engines.

use crate::table::Key;
use vstd::prelude::*;

verus! {

/// An account of the ledger.
pub type AccountId = u64;

/// A point in time, as the host counts it.
pub type Moment = u64;

/// An amount of the host's native currency.
pub type Balance = u128;

/// Index into a ring buffer's slots.
pub type BufferIndex = u8;

/// Whether two 32-byte strings are equal.
pub fn bytes_equal(a: &[u8; 32], b: &[u8; 32]) -> (r: bool)
    ensures
        r == (*a == *b),
{
    let mut i: usize = 0;
    while i < 32
        invariant
            i <= 32,
            forall|j: int| 0 <= j < i ==> a[j] == b[j],
        decreases 32 - i,
    {
        if a[i] != b[i] {
            return false;
        }
        i += 1;
    }
    assert(*a =~= *b);
    true
}

/// An opaque 32-byte identifier: the key of a token, a trade pair, a pool or
/// an order.
#[derive(Clone, Copy, Debug, Default, PartialEq, Eq, PartialOrd, Ord)]
pub struct Did {
    pub did: [u8; 32],
}

impl Key for Did {
    fn same(&self, other: &Self) -> (r: bool) {
        bytes_equal(&self.did, &other.did)
    }

    fn dup(&self) -> (r: Self) {
        *self
    }
}

/// The identifier of a non-fungible token.
#[derive(Clone, Copy, Debug, Default, PartialEq, Eq, PartialOrd, Ord)]
pub struct NFTId {
    pub did: [u8; 32],
}

impl Key for NFTId {
    fn same(&self, other: &Self) -> (r: bool) {
        bytes_equal(&self.did, &other.did)
    }

    fn dup(&self) -> (r: Self) {
        *self
    }
}

/// The identifier of an auction.
#[derive(Clone, Copy, Debug, Default, PartialEq, Eq, PartialOrd, Ord)]
pub struct AuctionId {
    pub did: [u8; 32],
}

impl Key for AuctionId {
    fn same(&self, other: &Self) -> (r: bool) {
        bytes_equal(&self.did, &other.did)
    }

    fn dup(&self) -> (r: Self) {
        *self
    }
}

/// The standard an auctioned token follows, which selects the manager that
/// moves it.
#[derive(Clone, Copy, Debug, PartialEq, Eq, Structural)]
pub enum NFTType {
    NFT721,
    NFT1155,
    NFT2006,
}

/// One staged entry of a ring buffer.
#[derive(Clone, Copy, Debug, Default, PartialEq, Eq, Structural)]
pub struct ValueStruct {
    pub integer: u32,
    pub boolean: bool,
}

/// A fungible token.
#[derive(Debug, PartialEq, Eq)]
pub struct Token {
    pub tid: Did,
    pub owner: AccountId,
    pub symbol: Vec<u8>,
    pub total_supply: u64,
}

impl Clone for Token {
    fn clone(&self) -> (r: Self)
        ensures
            r.tid == self.tid,
            r.owner == self.owner,
            r.symbol@ == self.symbol@,
            r.total_supply == self.total_supply,
    {
        Token {
            tid: self.tid,
            owner: self.owner,
            symbol: crate::table::list_copy(&self.symbol),
            total_supply: self.total_supply,
        }
    }
}

/// Side of a limit order.
#[derive(Clone, Copy, Debug, PartialEq, Eq, Structural)]
pub enum OrderType {
    Buy,
    Sell,
}

impl core::ops::Not for OrderType {
    type Output = OrderType;

    /// The opposite side.
    fn not(self) -> (r: OrderType) {
        match self {
            OrderType::Sell => OrderType::Buy,
            OrderType::Buy => OrderType::Sell,
        }
    }
}

impl vstd::std_specs::ops::NotSpecImpl for OrderType {
    open spec fn obeys_not_spec() -> bool {
        true
    }

    open spec fn not_req(self) -> bool {
        true
    }

    /// The opposite side.
    open spec fn not_spec(self) -> OrderType {
        match self {
            OrderType::Sell => OrderType::Buy,
            OrderType::Buy => OrderType::Sell,
        }
    }
}

/// How the two tokens of a pair are traded.
#[derive(Clone, Copy, Debug, PartialEq, Eq, Structural)]
pub enum TradeMethod {
    Auction,
    AMMOrder,
    OrderBook,
    P2POrder,
}

/// A registered pair of tokens with its trading method and daily statistics.
#[derive(Clone, Copy, Debug, PartialEq, Eq)]
pub struct TradePair {
    pub base: Did,
    pub quote: Did,
    pub method: TradeMethod,
    pub matched_price: u64,
    pub one_day_trade_volume: u64,
    pub one_day_highest_price: u64,
    pub one_day_lowest_price: u64,
}

/// Where a limit order stands in its life.
#[derive(Clone, Copy, Debug, PartialEq, Eq, Structural)]
pub enum OrderStatus {
    Created,
    PartialFilled,
    Filled,
    Canceled,
}

/// A constant-product pool over the two tokens of a trade pair.
#[derive(Clone, Copy, Debug, PartialEq, Eq)]
pub struct LiquidityPool {
    pub tpid: Did,
    pub token0: Did,
    pub token1: Did,
    pub token0_amount: u64,
    pub token1_amount: u64,
    pub k_last: u64,
    pub swap_price_last: u64,
    pub swap_price_highest: u64,
    pub swap_price_lowest: u64,
    pub token0_trade_volume_total: u64,
    pub token1_trade_volume_total: u64,
}

/// The record of one completed swap.
#[derive(Clone, Copy, Debug, PartialEq, Eq)]
pub struct AmmOrder {
    pub lpid: Did,
    pub owner: AccountId,
    pub token_have: Did,
    pub token_have_amount: u64,
    pub token_want: Did,
    pub token_want_amount: u64,
    pub token_swap_price: u64,
}

/// A resting order at a limit price.
#[derive(Clone, Copy, Debug, PartialEq, Eq)]
pub struct LimitOrder {
    pub tpid: Did,
    pub owner: AccountId,
    pub price: u64,
    pub amount: u64,
    pub created_time: Moment,
    pub remained_amount: u64,
    pub otype: OrderType,
    pub status: OrderStatus,
}

/// The rule an auction is run by.
#[derive(Clone, Copy, Debug, PartialEq, Eq, Structural)]
pub enum AuctionType {
    EighshAuction,
    DutchAuction,
    SealedAuction,
    DoubleAuction,
    HabergerTaxAuction,
}

/// Where an auction stands in its life.
#[derive(Clone, Copy, Debug, PartialEq, Eq, Structural)]
pub enum AuctionStatus {
    Created,
    Canceled,
    Confirmed,
}

/// An auction of one non-fungible token.
#[derive(Clone, Copy, Debug, PartialEq, Eq)]
pub struct Auction {
    pub owner: AccountId,
    pub auction_type: AuctionType,
    pub nft_type: NFTType,
    pub nft_id: NFTId,
    pub base_price: Option<Balance>,
    pub start_time: Option<Moment>,
    pub end_time: Option<Moment>,
    pub status: AuctionStatus,
}

/// One bid placed in an auction.
#[derive(Clone, Copy, Debug, PartialEq, Eq)]
pub struct BidInfo {
    pub bidder: AccountId,
    pub price: Balance,
    pub time: Moment,
    pub is_legal: bool,
    pub is_winner: bool,
}

impl Key for BidInfo {
    fn same(&self, other: &Self) -> (r: bool) {
        self.bidder == other.bidder && self.price == other.price && self.time == other.time
            && self.is_legal == other.is_legal && self.is_winner == other.is_winner
    }

    fn dup(&self) -> (r: Self) {
        *self
    }
}

} // verus!
