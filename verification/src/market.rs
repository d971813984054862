//! The listing and auction engines: fixed-price sales, timed
//! incrementing-bid sales with a one-shot anti-snipe extension, and their
//! settlement through the ownership-transfer protocol.

use vstd::prelude::*;
use crate::rows::{Listing, ListingStatus, Auction, AuctionStatus, Bid, OpError};
use crate::state::{
    GameState, is_first, has_match, first_at, lemma_first, item_key, listing_key, auction_key,
    find_item, find_listing, find_auction, ANTI_SNIPE_MS,
};
use crate::ledger::{
    opt_str, event_id_extra, event_fields, inbox_fields, item_reowned, append_event, push_inbox,
    transfer_item, on_item_transferred, registries_synced, json_id_payload, id_payload,
};
use crate::ids::derived_id;
use crate::text::{dec_int, i64_dec};
use crate::wei::{wei_value, wei_of, min_next_bid, meets_min_increment};

verus! {

/// Amount carried by an optional stored wei string.
pub open spec fn wei_opt(o: Option<String>) -> int {
    match o {
        Some(t) => wei_value(t@),
        None => 0,
    }
}

/// The first failing ownership/hold check for putting `item_id` up for
/// sale, or `None` when the sale may be created.
pub open spec fn create_sale_err(pre: GameState, now: int, fid: int, item_id: Seq<char>) -> Option<
    OpError,
> {
    if !has_match(pre.items@, item_key(item_id)) {
        Some(OpError::ItemNotFound)
    } else {
        let it = pre.items@[first_at(pre.items@, item_key(item_id))];
        if it.owner_fid != fid {
            Some(OpError::NotOwner)
        } else if now < it.hold_until_ms && fid != pre.config.privileged_fid {
            Some(OpError::InHold)
        } else {
            None
        }
    }
}

pub open spec fn sale_id_extra(fid: int, item_id: Seq<char>) -> Seq<char> {
    dec_int(fid) + ":"@ + item_id
}

pub open spec fn new_listing_fields(
    l: Listing,
    now: int,
    fid: int,
    item_id: Seq<char>,
    price: Seq<char>,
) -> bool {
    &&& l.id@ == derived_id("lst"@, now, sale_id_extra(fid, item_id))
    &&& l.item_id@ == item_id
    &&& l.seller_fid == fid
    &&& l.price_wei@ == price
    &&& l.status == ListingStatus::Active
    &&& l.created_at_ms == now
    &&& l.closed_at_ms is None
}

/// Puts an owned, out-of-hold item up for fixed-price sale.
pub fn create_listing(
    s: &mut GameState,
    now_ms: i64,
    fid: i64,
    item_id: String,
    price_wei: String,
) -> (r: Result<(), OpError>)
    ensures
        match r {
            Ok(()) => {
                &&& create_sale_err(*old(s), now_ms as int, fid as int, item_id@) is None
                &&& final(s).listings@ =~= old(s).listings@.push(final(s).listings@.last())
                &&& new_listing_fields(
                    final(s).listings@.last(),
                    now_ms as int,
                    fid as int,
                    item_id@,
                    price_wei@,
                )
                &&& (*final(s) == GameState { listings: final(s).listings, ..*old(s) })
            },
            Err(e) => {
                &&& *final(s) == *old(s)
                &&& create_sale_err(*old(s), now_ms as int, fid as int, item_id@) == Some(e)
            },
        },
{
    let ii = match find_item(&s.items, item_id.as_str()) {
        None => {
            return Err(OpError::ItemNotFound);
        },
        Some(x) => x,
    };
    proof {
        lemma_first(s.items@, item_key(item_id@), ii as int);
    }
    if s.items[ii].owner_fid != fid {
        return Err(OpError::NotOwner);
    }
    if now_ms < s.items[ii].hold_until_ms && fid != s.config.privileged_fid {
        return Err(OpError::InHold);
    }
    let mut extra = i64_dec(fid);
    extra.append(":");
    extra.append(item_id.as_str());
    let id = crate::ids::new_id("lst", now_ms, extra.as_str());
    let l = Listing {
        id,
        item_id,
        seller_fid: fid,
        price_wei,
        status: ListingStatus::Active,
        created_at_ms: now_ms,
        closed_at_ms: None,
    };
    s.listings.push(l);
    Ok(())
}

pub open spec fn new_auction_fields(
    a: Auction,
    now: int,
    fid: int,
    item_id: Seq<char>,
    reserve: Seq<char>,
    duration_seconds: int,
    buy_now: Option<Seq<char>>,
) -> bool {
    &&& a.id@ == derived_id("auc"@, now, sale_id_extra(fid, item_id))
    &&& a.item_id@ == item_id
    &&& a.seller_fid == fid
    &&& a.reserve_wei@ == reserve
    &&& a.ends_at_ms == now + duration_seconds * 1000
    &&& a.status == AuctionStatus::Active
    &&& a.top_bid_wei is None
    &&& a.top_bidder_fid is None
    &&& opt_str(a.buy_now_wei) == buy_now
    &&& !a.anti_snipe_used
    &&& a.created_at_ms == now
    &&& a.finalized_at_ms is None
}

/// Puts an owned, out-of-hold item up for timed auction ending at
/// `now + duration`.
pub fn create_auction(
    s: &mut GameState,
    now_ms: i64,
    fid: i64,
    item_id: String,
    reserve_wei: String,
    duration_seconds: i64,
    buy_now_wei: Option<String>,
) -> (r: Result<(), OpError>)
    requires
        i64::MIN <= duration_seconds * 1000 <= i64::MAX,
        i64::MIN <= now_ms + duration_seconds * 1000 <= i64::MAX,
    ensures
        match r {
            Ok(()) => {
                &&& create_sale_err(*old(s), now_ms as int, fid as int, item_id@) is None
                &&& final(s).auctions@ =~= old(s).auctions@.push(final(s).auctions@.last())
                &&& new_auction_fields(
                    final(s).auctions@.last(),
                    now_ms as int,
                    fid as int,
                    item_id@,
                    reserve_wei@,
                    duration_seconds as int,
                    opt_str(buy_now_wei),
                )
                &&& (*final(s) == GameState { auctions: final(s).auctions, ..*old(s) })
            },
            Err(e) => {
                &&& *final(s) == *old(s)
                &&& create_sale_err(*old(s), now_ms as int, fid as int, item_id@) == Some(e)
            },
        },
{
    let ii = match find_item(&s.items, item_id.as_str()) {
        None => {
            return Err(OpError::ItemNotFound);
        },
        Some(x) => x,
    };
    proof {
        lemma_first(s.items@, item_key(item_id@), ii as int);
    }
    if s.items[ii].owner_fid != fid {
        return Err(OpError::NotOwner);
    }
    if now_ms < s.items[ii].hold_until_ms && fid != s.config.privileged_fid {
        return Err(OpError::InHold);
    }
    let mut extra = i64_dec(fid);
    extra.append(":");
    extra.append(item_id.as_str());
    let id = crate::ids::new_id("auc", now_ms, extra.as_str());
    let ends = now_ms + duration_seconds * 1000;
    let a = Auction {
        id,
        item_id,
        seller_fid: fid,
        reserve_wei,
        ends_at_ms: ends,
        status: AuctionStatus::Active,
        top_bid_wei: None,
        top_bidder_fid: None,
        buy_now_wei,
        anti_snipe_used: false,
        created_at_ms: now_ms,
        finalized_at_ms: None,
    };
    s.auctions.push(a);
    Ok(())
}

/// The first failing check for a bid of `amount` on `auction_id` at `now`,
/// or `None` when the bid must be accepted: the auction is active and not
/// past its deadline, a first bid meets the reserve, and a later bid meets
/// the minimum 2% increment over the current top bid.
pub open spec fn place_bid_err(
    pre: GameState,
    now: int,
    auction_id: Seq<char>,
    amount: Seq<char>,
) -> Option<OpError> {
    if !has_match(pre.auctions@, auction_key(auction_id)) {
        Some(OpError::AuctionNotFound)
    } else {
        let a = pre.auctions@[first_at(pre.auctions@, auction_key(auction_id))];
        if a.status != AuctionStatus::Active {
            Some(OpError::AuctionClosed)
        } else if now > a.ends_at_ms {
            Some(OpError::AuctionEnded)
        } else {
            let current = wei_opt(a.top_bid_wei);
            if current == 0 {
                if wei_value(amount) < wei_value(a.reserve_wei@) {
                    Some(OpError::BelowReserve)
                } else {
                    None
                }
            } else {
                if wei_value(amount) < min_next_bid(current) {
                    Some(OpError::BelowIncrement)
                } else {
                    None
                }
            }
        }
    }
}

/// Whether an accepted bid at `now` triggers the one-shot anti-snipe
/// extension of auction `a`.
pub open spec fn snipe_extends(a: Auction, now: int) -> bool {
    !a.anti_snipe_used && a.ends_at_ms - now <= ANTI_SNIPE_MS
}

/// The auction row after accepting a bid of `amount` by `fid` at `now`:
/// the bid becomes the top bid, and the deadline moves (by exactly the
/// anti-snipe increment) only when the extension had not been used and the
/// bid landed inside the anti-snipe window.
pub open spec fn bid_applied(a_pre: Auction, a_post: Auction, now: int, fid: int, amount: Seq<char>) -> bool {
    &&& a_post == (Auction {
        top_bid_wei: a_post.top_bid_wei,
        top_bidder_fid: Some(fid as i64),
        anti_snipe_used: a_pre.anti_snipe_used || snipe_extends(a_pre, now),
        ends_at_ms: if snipe_extends(a_pre, now) {
            (a_pre.ends_at_ms + ANTI_SNIPE_MS) as i64
        } else {
            a_pre.ends_at_ms
        },
        ..a_pre
    })
    &&& opt_str(a_post.top_bid_wei) == Some(amount)
}

pub open spec fn bid_id_extra(fid: int, auction_id: Seq<char>, amount: Seq<char>) -> Seq<char> {
    dec_int(fid) + ":"@ + auction_id + ":"@ + amount
}

pub open spec fn new_bid_fields(
    b: Bid,
    now: int,
    fid: int,
    auction_id: Seq<char>,
    amount: Seq<char>,
) -> bool {
    &&& b.id@ == derived_id("bid"@, now, bid_id_extra(fid, auction_id, amount))
    &&& b.auction_id@ == auction_id
    &&& b.fid == fid
    &&& b.amount_wei@ == amount
    &&& b.placed_at_ms == now
}

/// Accepts or rejects a bid. On success the immutable bid record is
/// appended, the top bid and bidder move to the new bid, and the deadline
/// is extended once if the bid landed in the anti-snipe window. The top
/// bid amount never decreases across accepted bids.
pub fn place_bid(
    s: &mut GameState,
    now_ms: i64,
    fid: i64,
    auction_id: &str,
    amount_wei: String,
) -> (r: Result<(), OpError>)
    requires
        0 <= now_ms <= i64::MAX - 2 * ANTI_SNIPE_MS,
    ensures
        match r {
            Ok(()) => {
                let ai = first_at(old(s).auctions@, auction_key(auction_id@));
                &&& place_bid_err(*old(s), now_ms as int, auction_id@, amount_wei@) is None
                &&& final(s).auctions@.len() == old(s).auctions@.len()
                &&& (forall|k: int|
                    0 <= k < old(s).auctions@.len() && k != ai ==> final(s).auctions@[k]
                        == #[trigger] old(s).auctions@[k])
                &&& bid_applied(
                    old(s).auctions@[ai],
                    final(s).auctions@[ai],
                    now_ms as int,
                    fid as int,
                    amount_wei@,
                )
                &&& wei_opt(final(s).auctions@[ai].top_bid_wei) >= wei_opt(
                    old(s).auctions@[ai].top_bid_wei,
                )
                &&& final(s).bids@ =~= old(s).bids@.push(final(s).bids@.last())
                &&& new_bid_fields(
                    final(s).bids@.last(),
                    now_ms as int,
                    fid as int,
                    auction_id@,
                    amount_wei@,
                )
                &&& (*final(s) == GameState {
                    auctions: final(s).auctions,
                    bids: final(s).bids,
                    ..*old(s)
                })
            },
            Err(e) => {
                &&& *final(s) == *old(s)
                &&& place_bid_err(*old(s), now_ms as int, auction_id@, amount_wei@) == Some(e)
            },
        },
{
    let ai = match find_auction(&s.auctions, auction_id) {
        None => {
            return Err(OpError::AuctionNotFound);
        },
        Some(x) => x,
    };
    proof {
        lemma_first(s.auctions@, auction_key(auction_id@), ai as int);
    }
    if !matches!(s.auctions[ai].status, AuctionStatus::Active) {
        return Err(OpError::AuctionClosed);
    }
    if now_ms > s.auctions[ai].ends_at_ms {
        return Err(OpError::AuctionEnded);
    }
    let current: i128 = match &s.auctions[ai].top_bid_wei {
        Some(t) => wei_of(t.as_str()),
        None => 0,
    };
    let next: i128 = wei_of(amount_wei.as_str());
    if current == 0 {
        let reserve = wei_of(s.auctions[ai].reserve_wei.as_str());
        if next < reserve {
            return Err(OpError::BelowReserve);
        }
    } else {
        if !meets_min_increment(current, next) {
            return Err(OpError::BelowIncrement);
        }
    }
    let mut extra = i64_dec(fid);
    extra.append(":");
    extra.append(auction_id);
    extra.append(":");
    extra.append(amount_wei.as_str());
    let bid_id = crate::ids::new_id("bid", now_ms, extra.as_str());
    let b = Bid {
        id: bid_id,
        auction_id: String::from_str(auction_id),
        fid,
        amount_wei: amount_wei.clone(),
        placed_at_ms: now_ms,
    };
    s.bids.push(b);
    let extend = !s.auctions[ai].anti_snipe_used && s.auctions[ai].ends_at_ms - now_ms
        <= ANTI_SNIPE_MS;
    if extend {
        let new_ends = s.auctions[ai].ends_at_ms + ANTI_SNIPE_MS;
        s.auctions[ai].ends_at_ms = new_ends;
        s.auctions[ai].anti_snipe_used = true;
    }
    s.auctions[ai].top_bid_wei = Some(amount_wei);
    s.auctions[ai].top_bidder_fid = Some(fid);
    proof {
        let a_pre = old(s).auctions@[ai as int];
        let cur = wei_opt(a_pre.top_bid_wei);
        if cur != 0 {
            assert(cur > 0);
            assert(wei_value(amount_wei@) >= min_next_bid(cur));
            crate::wei::lemma_min_next_bid_ge(cur);
        }
    }
    Ok(())
}

/// The item checks a settlement makes before any write: the sold item must
/// exist and still belong to the seller.
pub open spec fn settle_item_err(pre: GameState, item_id: Seq<char>, seller: int) -> Option<
    OpError,
> {
    if !has_match(pre.items@, item_key(item_id)) {
        Some(OpError::ItemNotFound)
    } else if pre.items@[first_at(pre.items@, item_key(item_id))].owner_fid != seller {
        Some(OpError::NotOwner)
    } else {
        None
    }
}

/// The first failing check for closing `listing_id`, or `None`.
pub open spec fn close_listing_err(pre: GameState, listing_id: Seq<char>) -> Option<OpError> {
    if !has_match(pre.listings@, listing_key(listing_id)) {
        Some(OpError::ListingNotFound)
    } else {
        let l = pre.listings@[first_at(pre.listings@, listing_key(listing_id))];
        if l.status != ListingStatus::Active {
            Some(OpError::ListingClosed)
        } else {
            settle_item_err(pre, l.item_id@, l.seller_fid as int)
        }
    }
}

/// What a successful close does: the listing becomes closed, a
/// `ListingSold` event is appended, the item transfers seller-to-buyer with
/// its registry mirror re-pointed, and both parties are notified.
pub open spec fn close_listing_ok(
    pre: GameState,
    post: GameState,
    now: int,
    listing_id: Seq<char>,
    buyer: int,
) -> bool {
    let li = first_at(pre.listings@, listing_key(listing_id));
    let l = pre.listings@[li];
    let ii = first_at(pre.items@, item_key(l.item_id@));
    let eid = derived_id("evt"@, now, event_id_extra("ListingSold"@, buyer));
    &&& post.listings@ == pre.listings@.update(
        li,
        (Listing { status: ListingStatus::Closed, closed_at_ms: Some(now as i64), ..l }),
    )
    &&& post.events@ =~= pre.events@.push(post.events@.last())
    &&& event_fields(
        post.events@.last(),
        now,
        "ListingSold"@,
        buyer,
        json_id_payload("listing_id"@, listing_id),
        Some(listing_id),
    )
    &&& item_reowned(pre.items@, post.items@, ii, buyer, now, eid)
    &&& registries_synced(pre, post, pre.items@[ii].item_type, l.item_id@, buyer)
    &&& post.inbox@.len() == pre.inbox@.len() + 2
    &&& (forall|k: int| 0 <= k < pre.inbox@.len() ==> post.inbox@[k] == #[trigger] pre.inbox@[k])
    &&& inbox_fields(
        post.inbox@[pre.inbox@.len() as int],
        now,
        l.seller_fid as int,
        "listing-sold-"@ + eid,
        "listing_sold"@,
        "Item Sold!"@,
        "Your item was purchased."@,
    )
    &&& inbox_fields(
        post.inbox@.last(),
        now,
        buyer,
        "listing-bought-"@ + eid,
        "listing_bought"@,
        "Purchase Complete"@,
        "You bought an item."@,
    )
    &&& (post == GameState {
        listings: post.listings,
        events: post.events,
        items: post.items,
        npcs: post.npcs,
        squads: post.squads,
        inbox: post.inbox,
        ..pre
    })
}

/// Settles a fixed-price sale: marks the listing closed and transfers the
/// item to the buyer. Payment confirmation is assumed to have happened
/// before this call.
pub fn close_listing_and_transfer(
    s: &mut GameState,
    now_ms: i64,
    listing_id: &str,
    buyer_fid: i64,
) -> (r: Result<(), OpError>)
    ensures
        match r {
            Ok(()) => close_listing_ok(
                *old(s),
                *final(s),
                now_ms as int,
                listing_id@,
                buyer_fid as int,
            ),
            Err(e) => *final(s) == *old(s) && close_listing_err(*old(s), listing_id@) == Some(e),
        },
{
    let li = match find_listing(&s.listings, listing_id) {
        None => {
            return Err(OpError::ListingNotFound);
        },
        Some(x) => x,
    };
    proof {
        lemma_first(s.listings@, listing_key(listing_id@), li as int);
    }
    if !matches!(s.listings[li].status, ListingStatus::Active) {
        return Err(OpError::ListingClosed);
    }
    let item_id = s.listings[li].item_id.clone();
    let seller = s.listings[li].seller_fid;
    let ii = match find_item(&s.items, item_id.as_str()) {
        None => {
            return Err(OpError::ItemNotFound);
        },
        Some(x) => x,
    };
    proof {
        lemma_first(s.items@, item_key(item_id@), ii as int);
    }
    if s.items[ii].owner_fid != seller {
        return Err(OpError::NotOwner);
    }
    // all checks passed: the writes below commit together
    s.listings[li].status = ListingStatus::Closed;
    s.listings[li].closed_at_ms = Some(now_ms);
    proof {
        assert(s.listings@ =~= old(s).listings@.update(
            li as int,
            (Listing {
                status: ListingStatus::Closed,
                closed_at_ms: Some(now_ms),
                ..old(s).listings@[li as int]
            }),
        ));
    }
    let payload = id_payload("listing_id", listing_id);
    let eid = append_event(
        s,
        now_ms,
        "ListingSold",
        buyer_fid,
        payload,
        Some(String::from_str(listing_id)),
    );
    let tr = transfer_item(s, now_ms, item_id.as_str(), seller, buyer_fid, eid.as_str());
    match tr {
        Ok(()) => {},
        Err(_) => {
            // the owner check above makes the transfer infallible
            proof {
                assert(false);
            }
        },
    }
    let ghost mid = *s;
    proof {
        assert(is_first(mid.items@, item_key(item_id@), ii as int));
        lemma_first(mid.items@, item_key(item_id@), ii as int);
    }
    on_item_transferred(s, item_id.as_str(), buyer_fid);
    let mut m1 = String::from_str("listing-sold-");
    m1.append(eid.as_str());
    push_inbox(s, now_ms, seller, m1, "listing_sold", "Item Sold!", "Your item was purchased.");
    let mut m2 = String::from_str("listing-bought-");
    m2.append(eid.as_str());
    push_inbox(
        s,
        now_ms,
        buyer_fid,
        m2,
        "listing_bought",
        "Purchase Complete",
        "You bought an item.",
    );
    Ok(())
}

/// The first failing check for a buy-now of `auction_id` at the offered
/// price, or `None`. The offered price must match the configured buy-now
/// price exactly, character for character.
pub open spec fn buy_now_err(pre: GameState, auction_id: Seq<char>, offered: Seq<char>) -> Option<
    OpError,
> {
    if !has_match(pre.auctions@, auction_key(auction_id)) {
        Some(OpError::AuctionNotFound)
    } else {
        let a = pre.auctions@[first_at(pre.auctions@, auction_key(auction_id))];
        if a.status != AuctionStatus::Active {
            Some(OpError::AuctionClosed)
        } else if opt_str(a.buy_now_wei) != Some(offered) {
            Some(OpError::InvalidBuyNow)
        } else {
            settle_item_err(pre, a.item_id@, a.seller_fid as int)
        }
    }
}

/// The auction row once finalized at `now` with `winner` on top; when
/// `price` is given the top bid is pinned to it (buy-now), otherwise the
/// recorded top bid stays.
pub open spec fn auction_finalized(
    a_pre: Auction,
    a_post: Auction,
    now: int,
    winner: int,
    price: Option<Seq<char>>,
) -> bool {
    &&& a_post == (Auction {
        status: AuctionStatus::Finalized,
        finalized_at_ms: Some(now as i64),
        top_bid_wei: a_post.top_bid_wei,
        top_bidder_fid: Some(winner as i64),
        ..a_pre
    })
    &&& opt_str(a_post.top_bid_wei) == (match price {
        Some(p) => Some(p),
        None => opt_str(a_pre.top_bid_wei),
    })
}

/// What a successful settlement of an auction does, shared by `buy_now`
/// (with `price` the offered buy-now price and `kind` `AuctionBuyNow`) and
/// `finalize_auction` (with `price` `None` and `kind` `AuctionFinalized`).
pub open spec fn auction_settled(
    pre: GameState,
    post: GameState,
    now: int,
    auction_id: Seq<char>,
    winner: int,
    price: Option<Seq<char>>,
    kind: Seq<char>,
) -> bool {
    let ai = first_at(pre.auctions@, auction_key(auction_id));
    let a = pre.auctions@[ai];
    let ii = first_at(pre.items@, item_key(a.item_id@));
    let eid = derived_id("evt"@, now, event_id_extra(kind, winner));
    &&& post.auctions@.len() == pre.auctions@.len()
    &&& (forall|k: int|
        0 <= k < pre.auctions@.len() && k != ai ==> post.auctions@[k] == #[trigger] pre.auctions@[k])
    &&& auction_finalized(a, post.auctions@[ai], now, winner, price)
    &&& post.events@ =~= pre.events@.push(post.events@.last())
    &&& event_fields(
        post.events@.last(),
        now,
        kind,
        winner,
        json_id_payload("auction_id"@, auction_id),
        Some(auction_id),
    )
    &&& item_reowned(pre.items@, post.items@, ii, winner, now, eid)
    &&& registries_synced(pre, post, pre.items@[ii].item_type, a.item_id@, winner)
    &&& (post == GameState {
        auctions: post.auctions,
        events: post.events,
        items: post.items,
        npcs: post.npcs,
        squads: post.squads,
        ..pre
    })
}

/// Immediate purchase at the configured buy-now price; the price must be
/// echoed exactly as configured.
pub fn buy_now(
    s: &mut GameState,
    now_ms: i64,
    auction_id: &str,
    buyer_fid: i64,
    buy_now_wei: String,
) -> (r: Result<(), OpError>)
    ensures
        match r {
            Ok(()) => auction_settled(
                *old(s),
                *final(s),
                now_ms as int,
                auction_id@,
                buyer_fid as int,
                Some(buy_now_wei@),
                "AuctionBuyNow"@,
            ),
            Err(e) => *final(s) == *old(s) && buy_now_err(*old(s), auction_id@, buy_now_wei@)
                == Some(e),
        },
{
    let ai = match find_auction(&s.auctions, auction_id) {
        None => {
            return Err(OpError::AuctionNotFound);
        },
        Some(x) => x,
    };
    proof {
        lemma_first(s.auctions@, auction_key(auction_id@), ai as int);
    }
    if !matches!(s.auctions[ai].status, AuctionStatus::Active) {
        return Err(OpError::AuctionClosed);
    }
    let price_ok = match &s.auctions[ai].buy_now_wei {
        Some(b) => crate::text::str_eq(b.as_str(), buy_now_wei.as_str()),
        None => false,
    };
    if !price_ok {
        return Err(OpError::InvalidBuyNow);
    }
    let item_id = s.auctions[ai].item_id.clone();
    let seller = s.auctions[ai].seller_fid;
    let ii = match find_item(&s.items, item_id.as_str()) {
        None => {
            return Err(OpError::ItemNotFound);
        },
        Some(x) => x,
    };
    proof {
        lemma_first(s.items@, item_key(item_id@), ii as int);
    }
    if s.items[ii].owner_fid != seller {
        return Err(OpError::NotOwner);
    }
    // all checks passed: the writes below commit together
    let payload = id_payload("auction_id", auction_id);
    let eid = append_event(
        s,
        now_ms,
        "AuctionBuyNow",
        buyer_fid,
        payload,
        Some(String::from_str(auction_id)),
    );
    s.auctions[ai].status = AuctionStatus::Finalized;
    s.auctions[ai].finalized_at_ms = Some(now_ms);
    s.auctions[ai].top_bid_wei = Some(buy_now_wei);
    s.auctions[ai].top_bidder_fid = Some(buyer_fid);
    let tr = transfer_item(s, now_ms, item_id.as_str(), seller, buyer_fid, eid.as_str());
    match tr {
        Ok(()) => {},
        Err(_) => {
            // the owner check above makes the transfer infallible
            proof {
                assert(false);
            }
        },
    }
    let ghost mid = *s;
    proof {
        assert(is_first(mid.items@, item_key(item_id@), ii as int));
        lemma_first(mid.items@, item_key(item_id@), ii as int);
    }
    on_item_transferred(s, item_id.as_str(), buyer_fid);
    Ok(())
}

/// The first failing check for finalizing `auction_id` in favour of
/// `winner`, or `None`: only the recorded top bidder can win. Time expiry
/// alone never finalizes an auction; it only blocks further bidding.
pub open spec fn finalize_auction_err(pre: GameState, auction_id: Seq<char>, winner: int) -> Option<
    OpError,
> {
    if !has_match(pre.auctions@, auction_key(auction_id)) {
        Some(OpError::AuctionNotFound)
    } else {
        let a = pre.auctions@[first_at(pre.auctions@, auction_key(auction_id))];
        if a.status != AuctionStatus::Active {
            Some(OpError::AuctionClosed)
        } else if a.top_bidder_fid != Some(winner as i64) {
            Some(OpError::NotWinner)
        } else {
            settle_item_err(pre, a.item_id@, a.seller_fid as int)
        }
    }
}

/// Settles an auction in favour of the recorded top bidder.
pub fn finalize_auction(s: &mut GameState, now_ms: i64, auction_id: &str, winner_fid: i64) -> (r:
    Result<(), OpError>)
    ensures
        match r {
            Ok(()) => auction_settled(
                *old(s),
                *final(s),
                now_ms as int,
                auction_id@,
                winner_fid as int,
                None,
                "AuctionFinalized"@,
            ),
            Err(e) => *final(s) == *old(s) && finalize_auction_err(
                *old(s),
                auction_id@,
                winner_fid as int,
            ) == Some(e),
        },
{
    let ai = match find_auction(&s.auctions, auction_id) {
        None => {
            return Err(OpError::AuctionNotFound);
        },
        Some(x) => x,
    };
    proof {
        lemma_first(s.auctions@, auction_key(auction_id@), ai as int);
    }
    if !matches!(s.auctions[ai].status, AuctionStatus::Active) {
        return Err(OpError::AuctionClosed);
    }
    let winner_ok = match s.auctions[ai].top_bidder_fid {
        Some(f) => f == winner_fid,
        None => false,
    };
    if !winner_ok {
        return Err(OpError::NotWinner);
    }
    let item_id = s.auctions[ai].item_id.clone();
    let seller = s.auctions[ai].seller_fid;
    let ii = match find_item(&s.items, item_id.as_str()) {
        None => {
            return Err(OpError::ItemNotFound);
        },
        Some(x) => x,
    };
    proof {
        lemma_first(s.items@, item_key(item_id@), ii as int);
    }
    if s.items[ii].owner_fid != seller {
        return Err(OpError::NotOwner);
    }
    // all checks passed: the writes below commit together
    let payload = id_payload("auction_id", auction_id);
    let eid = append_event(
        s,
        now_ms,
        "AuctionFinalized",
        winner_fid,
        payload,
        Some(String::from_str(auction_id)),
    );
    s.auctions[ai].status = AuctionStatus::Finalized;
    s.auctions[ai].finalized_at_ms = Some(now_ms);
    let tr = transfer_item(s, now_ms, item_id.as_str(), seller, winner_fid, eid.as_str());
    match tr {
        Ok(()) => {},
        Err(_) => {
            // the owner check above makes the transfer infallible
            proof {
                assert(false);
            }
        },
    }
    let ghost mid = *s;
    proof {
        assert(is_first(mid.items@, item_key(item_id@), ii as int));
        lemma_first(mid.items@, item_key(item_id@), ii as int);
    }
    on_item_transferred(s, item_id.as_str(), winner_fid);
    Ok(())
}

/// The anti-snipe extension fires at most once over an auction's lifetime:
/// once an accepted bid has moved the deadline, no later accepted bid moves
/// it again, and the one move was by exactly the anti-snipe increment.
pub proof fn lemma_anti_snipe_at_most_once(
    a0: Auction,
    a1: Auction,
    a2: Auction,
    now1: int,
    fid1: int,
    amt1: Seq<char>,
    now2: int,
    fid2: int,
    amt2: Seq<char>,
)
    requires
        a0.ends_at_ms <= i64::MAX - ANTI_SNIPE_MS,
        bid_applied(a0, a1, now1, fid1, amt1),
        bid_applied(a1, a2, now2, fid2, amt2),
        a1.ends_at_ms != a0.ends_at_ms,
    ensures
        a1.ends_at_ms == a0.ends_at_ms + ANTI_SNIPE_MS,
        a1.anti_snipe_used,
        a2.ends_at_ms == a1.ends_at_ms,
{
    assert(snipe_extends(a0, now1));
    assert(!snipe_extends(a1, now2));
}

} // verus!
