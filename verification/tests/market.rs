use footballcaster::market::{
    create_listing, close_listing_and_transfer, create_auction, place_bid, buy_now,
    finalize_auction,
};
use footballcaster::rows::{
    Auction, AuctionStatus, InventoryItem, ItemKind, Listing, ListingStatus, OpError,
};
use footballcaster::state::GameState;

const DEV: i64 = 250704;

fn item(id: &str, owner: i64, hold_until: i64) -> InventoryItem {
    InventoryItem {
        item_id: String::from(id),
        owner_fid: owner,
        item_type: ItemKind::Player,
        acquired_at_ms: 0,
        hold_until_ms: hold_until,
        source_event_id: String::from("genesis"),
    }
}

fn auction(id: &str, seller: i64, reserve: &str, ends: i64) -> Auction {
    Auction {
        id: String::from(id),
        item_id: String::from("it-1"),
        seller_fid: seller,
        reserve_wei: String::from(reserve),
        ends_at_ms: ends,
        status: AuctionStatus::Active,
        top_bid_wei: None,
        top_bidder_fid: None,
        buy_now_wei: None,
        anti_snipe_used: false,
        created_at_ms: 0,
        finalized_at_ms: None,
    }
}

#[test]
fn first_bid_below_reserve_fails_then_reserve_succeeds() {
    let mut s = GameState::new(DEV);
    s.items.push(item("it-1", 7, 0));
    s.auctions.push(auction("a-1", 7, "100", 1_000_000));
    let r = place_bid(&mut s, 1000, 9, "a-1", String::from("90"));
    assert_eq!(r, Err(OpError::BelowReserve));
    assert!(s.bids.is_empty());
    let r2 = place_bid(&mut s, 1000, 9, "a-1", String::from("100"));
    assert_eq!(r2, Ok(()));
    assert_eq!(s.auctions[0].top_bid_wei.as_deref(), Some("100"));
    assert_eq!(s.auctions[0].top_bidder_fid, Some(9));
    assert_eq!(s.bids.len(), 1);
    assert_eq!(s.bids[0].amount_wei, "100");
}

#[test]
fn second_bid_needs_two_percent_increment_rounded_up() {
    let mut s = GameState::new(DEV);
    s.items.push(item("it-1", 7, 0));
    let mut a = auction("a-1", 7, "100", 1_000_000);
    a.top_bid_wei = Some(String::from("100"));
    a.top_bidder_fid = Some(9);
    s.auctions.push(a);
    let r = place_bid(&mut s, 1000, 11, "a-1", String::from("101"));
    assert_eq!(r, Err(OpError::BelowIncrement));
    let r2 = place_bid(&mut s, 1000, 11, "a-1", String::from("102"));
    assert_eq!(r2, Ok(()));
    assert_eq!(s.auctions[0].top_bid_wei.as_deref(), Some("102"));
}

#[test]
fn increment_is_exact_integer_ceiling() {
    let mut s = GameState::new(DEV);
    s.items.push(item("it-1", 7, 0));
    let mut a = auction("a-1", 7, "1", 1_000_000);
    a.top_bid_wei = Some(String::from("50"));
    a.top_bidder_fid = Some(9);
    s.auctions.push(a);
    // ceil(50 * 1.02) = 51
    assert_eq!(place_bid(&mut s, 1000, 11, "a-1", String::from("50")), Err(OpError::BelowIncrement));
    assert_eq!(place_bid(&mut s, 1000, 11, "a-1", String::from("51")), Ok(()));
}

#[test]
fn anti_snipe_extends_once_only() {
    let mut s = GameState::new(DEV);
    s.items.push(item("it-1", 7, 0));
    // deadline 60 seconds away
    s.auctions.push(auction("a-1", 7, "10", 60_000));
    let r = place_bid(&mut s, 0, 9, "a-1", String::from("10"));
    assert_eq!(r, Ok(()));
    assert_eq!(s.auctions[0].ends_at_ms, 60_000 + 180_000);
    assert!(s.auctions[0].anti_snipe_used);
    // a second bid ten seconds later lands inside the window again
    let r2 = place_bid(&mut s, 10_000, 11, "a-1", String::from("11"));
    assert_eq!(r2, Ok(()));
    assert_eq!(s.auctions[0].ends_at_ms, 240_000);
}

#[test]
fn bid_after_deadline_fails() {
    let mut s = GameState::new(DEV);
    s.items.push(item("it-1", 7, 0));
    s.auctions.push(auction("a-1", 7, "10", 5_000));
    assert_eq!(
        place_bid(&mut s, 6_000, 9, "a-1", String::from("10")),
        Err(OpError::AuctionEnded)
    );
    assert_eq!(
        place_bid(&mut s, 1_000, 9, "missing", String::from("10")),
        Err(OpError::AuctionNotFound)
    );
}

#[test]
fn buy_now_requires_exact_string_match() {
    let mut s = GameState::new(DEV);
    s.items.push(item("it-1", 7, 0));
    let mut a = auction("a-1", 7, "10", 1_000_000);
    a.buy_now_wei = Some(String::from("500"));
    s.auctions.push(a);
    // numerically equal but differently formatted must fail
    assert_eq!(
        buy_now(&mut s, 1000, "a-1", 9, String::from("0500")),
        Err(OpError::InvalidBuyNow)
    );
    assert_eq!(buy_now(&mut s, 1000, "a-1", 9, String::from("500")), Ok(()));
    assert_eq!(s.auctions[0].status, AuctionStatus::Finalized);
    assert_eq!(s.auctions[0].top_bidder_fid, Some(9));
    assert_eq!(s.items[0].owner_fid, 9);
    // a finalized auction takes no more action
    assert_eq!(
        buy_now(&mut s, 1000, "a-1", 9, String::from("500")),
        Err(OpError::AuctionClosed)
    );
}

#[test]
fn finalize_pays_only_the_top_bidder() {
    let mut s = GameState::new(DEV);
    s.items.push(item("it-1", 7, 0));
    let mut a = auction("a-1", 7, "10", 1_000_000);
    a.top_bid_wei = Some(String::from("10"));
    a.top_bidder_fid = Some(9);
    s.auctions.push(a);
    assert_eq!(finalize_auction(&mut s, 1000, "a-1", 11), Err(OpError::NotWinner));
    assert_eq!(finalize_auction(&mut s, 1000, "a-1", 9), Ok(()));
    assert_eq!(s.auctions[0].status, AuctionStatus::Finalized);
    assert_eq!(s.items[0].owner_fid, 9);
    assert_eq!(s.auctions[0].finalized_at_ms, Some(1000));
}

#[test]
fn create_listing_checks_owner_and_hold() {
    let mut s = GameState::new(DEV);
    s.items.push(item("it-1", 7, 10_000));
    assert_eq!(
        create_listing(&mut s, 0, 7, String::from("missing"), String::from("5")),
        Err(OpError::ItemNotFound)
    );
    assert_eq!(
        create_listing(&mut s, 0, 8, String::from("it-1"), String::from("5")),
        Err(OpError::NotOwner)
    );
    // still in hold
    assert_eq!(
        create_listing(&mut s, 5_000, 7, String::from("it-1"), String::from("5")),
        Err(OpError::InHold)
    );
    // after the hold passes
    assert_eq!(
        create_listing(&mut s, 10_000, 7, String::from("it-1"), String::from("5")),
        Ok(())
    );
    assert_eq!(s.listings.len(), 1);
    assert_eq!(s.listings[0].status, ListingStatus::Active);
    // the derived listing id is a hyphenated UUID, not the raw name
    assert_eq!(s.listings[0].id.len(), 36);
}

#[test]
fn privileged_account_bypasses_hold() {
    let mut s = GameState::new(DEV);
    s.items.push(item("it-1", DEV, 10_000));
    assert_eq!(
        create_auction(&mut s, 0, DEV, String::from("it-1"), String::from("5"), 60, None),
        Ok(())
    );
    assert_eq!(s.auctions[0].ends_at_ms, 60_000);
}

#[test]
fn close_listing_transfers_and_notifies() {
    let mut s = GameState::new(DEV);
    s.items.push(item("it-1", 7, 0));
    s.listings.push(Listing {
        id: String::from("l-1"),
        item_id: String::from("it-1"),
        seller_fid: 7,
        price_wei: String::from("5"),
        status: ListingStatus::Active,
        created_at_ms: 0,
        closed_at_ms: None,
    });
    assert_eq!(
        close_listing_and_transfer(&mut s, 99, "missing", 9),
        Err(OpError::ListingNotFound)
    );
    assert_eq!(close_listing_and_transfer(&mut s, 99, "l-1", 9), Ok(()));
    assert_eq!(s.listings[0].status, ListingStatus::Closed);
    assert_eq!(s.listings[0].closed_at_ms, Some(99));
    assert_eq!(s.items[0].owner_fid, 9);
    assert_eq!(s.items[0].acquired_at_ms, 99);
    assert_eq!(s.events.len(), 1);
    assert_eq!(s.events[0].kind, "ListingSold");
    assert_eq!(s.events[0].payload_json, "{\"listing_id\":\"l-1\"}");
    assert_eq!(s.inbox.len(), 2);
    assert_eq!(s.inbox[0].fid, 7);
    assert_eq!(s.inbox[1].fid, 9);
    // a closed listing stays closed
    assert_eq!(
        close_listing_and_transfer(&mut s, 100, "l-1", 11),
        Err(OpError::ListingClosed)
    );
}
