use swap_engine::common::generate_did;
use swap_engine::swap_auction::{Error, Event, Module, NftTransfer};
use swap_engine::utilities::{
    Auction, AuctionId, AuctionStatus, AuctionType, BidInfo, NFTId, NFTType,
};

const SEED: [u8; 32] = [4u8; 32];

fn nft(byte: u8) -> NFTId {
    NFTId { did: [byte; 32] }
}

fn launched(house: &mut Module, sender: u64, nft_type: NFTType) -> AuctionId {
    let (id, event) = house
        .launch_auction(&SEED, sender, AuctionType::DutchAuction, nft_type, nft(1), Some(5), Some(10), None)
        .unwrap();
    assert_eq!(event, Event::LaunchAuction(sender));
    id
}

#[test]
fn launch_records_the_auction() {
    let mut house = Module::new();
    assert_eq!(house.auction_count(), 0);
    let id = launched(&mut house, 1, NFTType::NFT721);
    assert_eq!(id, AuctionId { did: generate_did(&SEED, 1, 0).did });
    assert_eq!(
        house.auctions(id),
        Some(Auction {
            owner: 1,
            auction_type: AuctionType::DutchAuction,
            nft_type: NFTType::NFT721,
            nft_id: nft(1),
            base_price: Some(5),
            start_time: Some(10),
            end_time: None,
            status: AuctionStatus::Created,
        })
    );
    assert_eq!(house.auction_count(), 1);
    assert_eq!(house.auction_index(0), Some(id));
    assert_eq!(house.auction_index(1), None);
    let second = launched(&mut house, 1, NFTType::NFT1155);
    assert_eq!(second, AuctionId { did: generate_did(&SEED, 1, 1).did });
    assert_eq!(house.auction_count(), 2);
    assert_eq!(house.auction_index(1), Some(second));
}

#[test]
fn bids_are_logged_in_order() {
    let mut house = Module::new();
    let id = launched(&mut house, 1, NFTType::NFT721);
    assert_eq!(house.bids(id), vec![]);
    assert_eq!(house.bid(2, id, 100, 7), Ok(Event::BidAuction(2)));
    assert_eq!(house.bid(3, id, 50, 3), Ok(Event::BidAuction(3)));
    assert_eq!(
        house.bids(id),
        vec![
            BidInfo { bidder: 2, price: 100, time: 7, is_legal: true, is_winner: false },
            BidInfo { bidder: 3, price: 50, time: 3, is_legal: true, is_winner: false },
        ]
    );
    let unknown = AuctionId { did: [9u8; 32] };
    assert_eq!(house.bid(2, unknown, 1, 1), Err(Error::AuctionNotExist));
    assert_eq!(house.bids(unknown), vec![]);
}

#[test]
fn confirm_hands_back_the_transfer() {
    let mut house = Module::new();
    let id = launched(&mut house, 1, NFTType::NFT2006);
    assert_eq!(
        house.confirm_bid_result(1, id, 2),
        Ok((
            Event::ConfirmAuction(1),
            NftTransfer { nft_type: NFTType::NFT2006, from: 1, to: 2, nft_id: nft(1) }
        ))
    );
    assert_eq!(house.auctions(id).unwrap().status, AuctionStatus::Confirmed);
    assert_eq!(house.bid(3, id, 1, 1), Ok(Event::BidAuction(3)));
}

#[test]
fn cancel_closes_the_auction() {
    let mut house = Module::new();
    let id = launched(&mut house, 1, NFTType::NFT721);
    assert_eq!(house.cancel_bid(1, id), Ok(Event::CancelAuction(1)));
    assert_eq!(house.auctions(id).unwrap().status, AuctionStatus::Canceled);
}

#[test]
fn only_the_owner_ends_an_open_auction() {
    let mut house = Module::new();
    let id = launched(&mut house, 1, NFTType::NFT721);
    let unknown = AuctionId { did: [9u8; 32] };
    assert_eq!(house.confirm_bid_result(1, unknown, 2), Err(Error::AuctionNotExist));
    assert_eq!(house.cancel_bid(1, unknown), Err(Error::AuctionNotExist));
    assert_eq!(house.confirm_bid_result(2, id, 2), Err(Error::NotAuctionOwner));
    assert_eq!(house.cancel_bid(2, id), Err(Error::NotAuctionOwner));
    assert_eq!(house.auctions(id).unwrap().status, AuctionStatus::Created);
    assert!(house.cancel_bid(1, id).is_ok());
    assert_eq!(house.confirm_bid_result(1, id, 2), Err(Error::AuctionClosed));
    assert_eq!(house.cancel_bid(1, id), Err(Error::AuctionClosed));
    assert_eq!(house.auctions(id).unwrap().status, AuctionStatus::Canceled);
    let other = launched(&mut house, 1, NFTType::NFT721);
    assert!(house.confirm_bid_result(1, other, 3).is_ok());
    assert_eq!(house.cancel_bid(1, other), Err(Error::AuctionClosed));
    assert_eq!(house.confirm_bid_result(1, other, 3), Err(Error::AuctionClosed));
    assert_eq!(house.auctions(other).unwrap().status, AuctionStatus::Confirmed);
}
