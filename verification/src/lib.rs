//! Verified state-transition logic of a token exchange: a constant-product
//! liquidity pool, a price-ordered limit-order book and the ledgers they rest on.
//!
//! Each engine is a value that holds its own state. An operation takes the
//! state, the caller and its arguments, and either changes the state as its
//! contract says and returns the event to report, or fails and leaves the
//! state as it was. What an engine needs from outside comes in as plain
//! values: the host's random seed as 32 bytes, the time as a number.
//!
//! - [`table`]: keyed tables, the form in which all state is held.
//! - [`utilities`]: identifiers and records.
//! - [`ringbuffer`]: the first-in, first-out staging queue.
//! - [`common`]: the derivation of identifiers.
//! - [`token`]: the ledger of fungible tokens.
//! - [`trade_pair`]: the registry of trade pairs.
//! - [`swap_amm`]: the liquidity pool engine.
//! - [`linked_list`]: the price levels of the order book.
//! - [`swap_orderbook`]: limit orders.
//! - [`swap_auction`]: auctions of non-fungible tokens.

pub mod table;
pub mod utilities;
pub mod ringbuffer;
pub mod common;
pub mod token;
pub mod trade_pair;
pub mod swap_amm;
pub mod linked_list;
pub mod swap_orderbook;
pub mod swap_auction;
