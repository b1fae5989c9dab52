//! The auction house for non-fungible tokens.
//!
//! An auction is launched by the owner of a token, takes bids, and is ended
//! by its owner, who either confirms a winner or cancels it. An auction that
//! was confirmed or canceled stays so. Bids are recorded as they come; none
//! is screened. The engine does not move the token: confirming an auction
//! hands back the transfer that the host has to make.

use crate::common::{generate_did, new_did};
use crate::table::{list_or_empty, ListTable, Table};
use crate::utilities::{
    AccountId, Auction, AuctionId, AuctionStatus, AuctionType, Balance, BidInfo, Moment, NFTId,
    NFTType,
};
use vstd::prelude::*;

verus! {

/// Why an operation of the auction house failed.
#[derive(Clone, Copy, Debug, PartialEq, Eq, Structural)]
pub enum Error {
    AuctionNotExist,
    NotAuctionOwner,
    /// The auction was confirmed or canceled before.
    AuctionClosed,
    /// The count of auctions would have passed the largest 64-bit number.
    Overflow,
}

/// What the auction house reports to the host.
#[derive(Clone, Copy, Debug, PartialEq, Eq, Structural)]
pub enum Event {
    LaunchAuction(AccountId),
    BidAuction(AccountId),
    ConfirmAuction(AccountId),
    CancelAuction(AccountId),
}

/// The transfer of a token that the host has to make through the manager of
/// the token's standard.
#[derive(Clone, Copy, Debug, PartialEq, Eq)]
pub struct NftTransfer {
    pub nft_type: NFTType,
    pub from: AccountId,
    pub to: AccountId,
    pub nft_id: NFTId,
}

/// The auction house as a mathematical value.
pub struct State {
    pub auctions: Map<AuctionId, Auction>,
    pub auction_count: u64,
    pub auction_index: Map<u64, AuctionId>,
    pub bids: Map<AuctionId, Seq<BidInfo>>,
    pub anonce: u64,
}

/// The identifier of the auction that `sender` launches at the nonce.
pub open spec fn new_auction_id(seed: Seq<u8>, sender: AccountId, nonce: u64) -> AuctionId {
    AuctionId { did: new_did(seed, sender, nonce).did }
}

impl State {
    /// The auction house after `sender` launched the auction under
    /// `auction_id`, or the error.
    pub open spec fn launch_auction(self, auction_id: AuctionId, auction: Auction) -> Result<
        State,
        Error,
    > {
        if self.anonce == u64::MAX {
            Err(Error::Overflow)
        } else {
            Ok(
                State {
                    auctions: self.auctions.insert(auction_id, auction),
                    auction_count: (self.anonce + 1) as u64,
                    auction_index: self.auction_index.insert(self.anonce, auction_id),
                    anonce: (self.anonce + 1) as u64,
                    ..self
                },
            )
        }
    }

    /// The auction house after the bid was recorded, or the error.
    pub open spec fn bid(self, auction_id: AuctionId, bid: BidInfo) -> Result<State, Error> {
        if !self.auctions.contains_key(auction_id) {
            Err(Error::AuctionNotExist)
        } else {
            Ok(
                State {
                    bids: self.bids.insert(auction_id, list_or_empty(self.bids, auction_id).push(bid)),
                    ..self
                },
            )
        }
    }

    /// The auction house after `sender` ended the auction with the status
    /// `status`, or the error.
    pub open spec fn close(self, sender: AccountId, auction_id: AuctionId, status: AuctionStatus) -> Result<
        State,
        Error,
    > {
        if !self.auctions.contains_key(auction_id) {
            Err(Error::AuctionNotExist)
        } else if self.auctions[auction_id].owner != sender {
            Err(Error::NotAuctionOwner)
        } else if self.auctions[auction_id].status != AuctionStatus::Created {
            Err(Error::AuctionClosed)
        } else {
            Ok(
                State {
                    auctions: self.auctions.insert(
                        auction_id,
                        Auction { status, ..self.auctions[auction_id] },
                    ),
                    ..self
                },
            )
        }
    }
}

/// The auction house.
pub struct Module {
    auctions: Table<AuctionId, Auction>,
    auction_count: u64,
    auction_index: Table<u64, AuctionId>,
    bids: ListTable<AuctionId, BidInfo>,
    anonce: u64,
}

impl View for Module {
    type V = State;

    closed spec fn view(&self) -> State {
        State {
            auctions: self.auctions@,
            auction_count: self.auction_count,
            auction_index: self.auction_index@,
            bids: self.bids@,
            anonce: self.anonce,
        }
    }
}

impl Module {
    /// The auction house with no auction.
    pub fn new() -> (r: Self)
        ensures
            r@ == (State {
                auctions: Map::empty(),
                auction_count: 0,
                auction_index: Map::empty(),
                bids: Map::empty(),
                anonce: 0,
            }),
    {
        Module {
            auctions: Table::new(),
            auction_count: 0,
            auction_index: Table::new(),
            bids: ListTable::new(),
            anonce: 0,
        }
    }

    /// Launches an auction of the token `nft_id` for `sender`. The auction
    /// starts as `Created`. Returns its identifier, derived from the seed,
    /// the sender and the nonce of the auction house, and the event.
    pub fn launch_auction(
        &mut self,
        seed: &[u8; 32],
        sender: AccountId,
        auction_type: AuctionType,
        nft_type: NFTType,
        nft_id: NFTId,
        base_price: Option<Balance>,
        start_time: Option<Moment>,
        end_time: Option<Moment>,
    ) -> (r: Result<(AuctionId, Event), Error>)
        ensures
            ({
                let auction_id = new_auction_id(seed@, sender, old(self)@.anonce);
                let auction = Auction {
                    owner: sender,
                    auction_type,
                    nft_type,
                    nft_id,
                    base_price,
                    start_time,
                    end_time,
                    status: AuctionStatus::Created,
                };
                match old(self)@.launch_auction(auction_id, auction) {
                    Ok(state) => final(self)@ == state && r == Ok::<(AuctionId, Event), Error>(
                        (auction_id, Event::LaunchAuction(sender)),
                    ),
                    Err(e) => final(self)@ == old(self)@ && r == Err::<(AuctionId, Event), Error>(
                        e,
                    ),
                }
            }),
    {
        let nonce = match self.get_anonce() {
            Some(nonce) => nonce,
            None => {
                return Err(Error::Overflow);
            },
        };
        let new_auction_id = AuctionId { did: generate_did(seed, sender, nonce).did };
        let new_auction = Auction {
            owner: sender,
            auction_type,
            nft_type,
            nft_id,
            base_price,
            start_time,
            end_time,
            status: AuctionStatus::Created,
        };
        self.auctions.insert(new_auction_id, new_auction);
        self.auction_count = nonce + 1;
        self.auction_index.insert(nonce, new_auction_id);
        Ok((new_auction_id, Event::LaunchAuction(sender)))
    }

    /// Records a bid of `sender` in the auction. The bid is marked as legal
    /// and not as the winner; nothing about it is checked.
    pub fn bid(&mut self, sender: AccountId, auction_id: AuctionId, price: Balance, time: Moment) -> (r:
        Result<Event, Error>)
        ensures
            match old(self)@.bid(
                auction_id,
                (BidInfo { bidder: sender, price, time, is_legal: true, is_winner: false }),
            ) {
                Ok(state) => final(self)@ == state && r == Ok::<Event, Error>(
                    Event::BidAuction(sender),
                ),
                Err(e) => final(self)@ == old(self)@ && r == Err::<Event, Error>(e),
            },
    {
        if !self.auctions.contains_key(&auction_id) {
            return Err(Error::AuctionNotExist);
        }
        let new_bid = BidInfo { bidder: sender, price, time, is_legal: true, is_winner: false };
        self.bids.push(auction_id, new_bid);
        Ok(Event::BidAuction(sender))
    }

    /// The transfer that confirming `winner` as the winner of the auction
    /// would hand back, or the error with which confirming would fail.
    /// Nothing is changed.
    pub fn confirmable(&self, sender: AccountId, auction_id: AuctionId, winner: AccountId) -> (r:
        Result<NftTransfer, Error>)
        ensures
            match self@.close(sender, auction_id, AuctionStatus::Confirmed) {
                Ok(_) => r == Ok::<NftTransfer, Error>(
                    NftTransfer {
                        nft_type: self@.auctions[auction_id].nft_type,
                        from: sender,
                        to: winner,
                        nft_id: self@.auctions[auction_id].nft_id,
                    },
                ),
                Err(e) => r == Err::<NftTransfer, Error>(e),
            },
    {
        let auction = match self.auctions.get(&auction_id) {
            Some(auction) => *auction,
            None => {
                return Err(Error::AuctionNotExist);
            },
        };
        if auction.owner != sender {
            return Err(Error::NotAuctionOwner);
        }
        if auction.status != AuctionStatus::Created {
            return Err(Error::AuctionClosed);
        }
        Ok(NftTransfer { nft_type: auction.nft_type, from: sender, to: winner, nft_id: auction.nft_id })
    }

    /// Confirms `winner` as the winner of the auction, which must be the
    /// sender's and open. The auction becomes `Confirmed`. Returns the event
    /// and the transfer of the token from the sender to the winner, which the
    /// host has to make.
    pub fn confirm_bid_result(&mut self, sender: AccountId, auction_id: AuctionId, winner: AccountId) -> (r:
        Result<(Event, NftTransfer), Error>)
        ensures
            match old(self)@.close(sender, auction_id, AuctionStatus::Confirmed) {
                Ok(state) => final(self)@ == state && r == Ok::<(Event, NftTransfer), Error>(
                    (
                        Event::ConfirmAuction(sender),
                        NftTransfer {
                            nft_type: old(self)@.auctions[auction_id].nft_type,
                            from: sender,
                            to: winner,
                            nft_id: old(self)@.auctions[auction_id].nft_id,
                        },
                    ),
                ),
                Err(e) => final(self)@ == old(self)@ && r == Err::<(Event, NftTransfer), Error>(
                    e,
                ),
            },
    {
        let auction = match self.close(sender, auction_id, AuctionStatus::Confirmed) {
            Ok(auction) => auction,
            Err(e) => {
                return Err(e);
            },
        };
        Ok(
            (
                Event::ConfirmAuction(sender),
                NftTransfer {
                    nft_type: auction.nft_type,
                    from: sender,
                    to: winner,
                    nft_id: auction.nft_id,
                },
            ),
        )
    }

    /// Cancels the auction, which must be the sender's and open. The auction
    /// becomes `Canceled`.
    pub fn cancel_bid(&mut self, sender: AccountId, auction_id: AuctionId) -> (r: Result<
        Event,
        Error,
    >)
        ensures
            match old(self)@.close(sender, auction_id, AuctionStatus::Canceled) {
                Ok(state) => final(self)@ == state && r == Ok::<Event, Error>(
                    Event::CancelAuction(sender),
                ),
                Err(e) => final(self)@ == old(self)@ && r == Err::<Event, Error>(e),
            },
    {
        match self.close(sender, auction_id, AuctionStatus::Canceled) {
            Ok(_) => Ok(Event::CancelAuction(sender)),
            Err(e) => Err(e),
        }
    }

    /// Ends the auction with the status `status` and returns it as it is
    /// then.
    fn close(&mut self, sender: AccountId, auction_id: AuctionId, status: AuctionStatus) -> (r:
        Result<Auction, Error>)
        ensures
            match old(self)@.close(sender, auction_id, status) {
                Ok(state) => final(self)@ == state && r == Ok::<Auction, Error>(
                    state.auctions[auction_id],
                ),
                Err(e) => final(self)@ == old(self)@ && r == Err::<Auction, Error>(e),
            },
    {
        let mut auction = match self.auctions.get(&auction_id) {
            Some(auction) => *auction,
            None => {
                return Err(Error::AuctionNotExist);
            },
        };
        if auction.owner != sender {
            return Err(Error::NotAuctionOwner);
        }
        if auction.status != AuctionStatus::Created {
            return Err(Error::AuctionClosed);
        }
        auction.status = status;
        self.auctions.insert(auction_id, auction);
        Ok(auction)
    }

    /// The nonce for the next auction; the one after it is kept.
    fn get_anonce(&mut self) -> (r: Option<u64>)
        ensures
            old(self)@.anonce < u64::MAX ==> r == Some(old(self)@.anonce) && final(self)@ == (State {
                anonce: (old(self)@.anonce + 1) as u64,
                ..old(self)@
            }),
            old(self)@.anonce == u64::MAX ==> r.is_none() && final(self)@ == old(self)@,
    {
        let nonce = self.anonce;
        if nonce == u64::MAX {
            return None;
        }
        self.anonce = nonce + 1;
        Some(nonce)
    }

    /// The auction under `auction_id`, if there is one.
    pub fn auctions(&self, auction_id: AuctionId) -> (r: Option<Auction>)
        ensures
            r == if self@.auctions.contains_key(auction_id) {
                Some(self@.auctions[auction_id])
            } else {
                None
            },
    {
        match self.auctions.get(&auction_id) {
            Some(auction) => Some(*auction),
            None => None,
        }
    }

    /// How many auctions were launched.
    pub fn auction_count(&self) -> (r: u64)
        ensures
            r == self@.auction_count,
    {
        self.auction_count
    }

    /// The identifier of the `index`-th auction, if there are that many.
    pub fn auction_index(&self, index: u64) -> (r: Option<AuctionId>)
        ensures
            r == if self@.auction_index.contains_key(index) {
                Some(self@.auction_index[index])
            } else {
                None
            },
    {
        match self.auction_index.get(&index) {
            Some(id) => Some(*id),
            None => None,
        }
    }

    /// The bids in the auction, oldest first.
    pub fn bids(&self, auction_id: AuctionId) -> (r: Vec<BidInfo>)
        ensures
            r@ == list_or_empty(self@.bids, auction_id),
    {
        self.bids.get(&auction_id)
    }
}

} // verus!
