//! The table rows: every persisted entity of the economy, plus the closed
//! status/kind enums and the named failures the operations return.

use vstd::prelude::*;

verus! {

/// What kind of ownable thing an inventory item is; the kind decides which
/// registry mirrors the item's owner.
#[derive(Clone, Copy, PartialEq, Eq, Structural, Debug)]
pub enum ItemKind {
    Player,
    NpcManager,
    Squad,
}

#[derive(Clone, Copy, PartialEq, Eq, Structural, Debug)]
pub enum ListingStatus {
    Active,
    Closed,
}

#[derive(Clone, Copy, PartialEq, Eq, Structural, Debug)]
pub enum AuctionStatus {
    Active,
    Finalized,
}

#[derive(Clone, Copy, PartialEq, Eq, Structural, Debug)]
pub enum MatchStatus {
    Pending,
    Active,
    Finalized,
}

/// The named failure an operation aborts with; on any failure the state is
/// left unchanged.
#[derive(Clone, Copy, PartialEq, Eq, Structural, Debug)]
pub enum OpError {
    ItemNotFound,
    NotOwner,
    InHold,
    ListingNotFound,
    ListingClosed,
    AuctionNotFound,
    AuctionClosed,
    AuctionEnded,
    BelowReserve,
    BelowIncrement,
    InvalidBuyNow,
    NotWinner,
    MatchNotFound,
    InvalidState,
    NotChallenged,
    NotParticipant,
    InvalidJson,
    MissingHome,
    MissingAway,
    NegativeScore,
    ScoreOutOfRange,
    SelfChallenge,
    DuplicatePending,
    TxAlreadyUsed,
    InsufficientPool,
    InvalidPayload,
    NoPlayers,
    AlreadyClaimed,
}

#[derive(Clone, Debug)]
pub struct User {
    pub fid: i64,
    pub wallet: Option<String>,
    pub created_at_ms: i64,
    pub is_npc: bool,
    pub elo: i32,
    pub display_name: Option<String>,
    pub ai_persona_json: Option<String>,
}

#[derive(Clone, Debug)]
pub struct WalletLink {
    pub address: String,
    pub fid: i64,
    pub linked_at_ms: i64,
}

#[derive(Clone, Debug)]
pub struct StarterClaim {
    pub fid: i64,
    pub claimed_at_ms: i64,
}

/// The single ledger for every ownable thing.
#[derive(Clone, Debug)]
pub struct InventoryItem {
    pub item_id: String,
    pub owner_fid: i64,
    pub item_type: ItemKind,
    pub acquired_at_ms: i64,
    pub hold_until_ms: i64,
    pub source_event_id: String,
}

/// Global pool of AI managers; `owner_fid` mirrors the owner of the token
/// item `token_id` once the token is minted.
#[derive(Clone, Debug)]
pub struct NpcRegistry {
    pub npc_fid: i64,
    pub token_id: Option<String>,
    pub ai_seed: i64,
    pub difficulty_tier: i16,
    pub budget_fbc_wei: String,
    pub persona: String,
    pub owner_fid: Option<i64>,
    pub manager_confidence: i32,
    pub pressure_level: i32,
    pub mood: String,
    pub next_decision_at_ms: i64,
    pub last_active_ms: i64,
    pub active: bool,
}

/// Idempotent join record assigning an NPC to a user.
#[derive(Clone, Debug)]
pub struct NpcAssignment {
    pub id: String,
    pub user_fid: i64,
    pub npc_fid: i64,
    pub assigned_at_ms: i64,
}

/// Tradable squad token registry; `owner_fid` mirrors the owner of the
/// token item `token_id`.
#[derive(Clone, Debug)]
pub struct SquadRegistry {
    pub squad_id: String,
    pub source_fid: i64,
    pub followers: i64,
    pub intelligence_score: i32,
    pub rank: String,
    pub persona: String,
    pub token_id: String,
    pub owner_fid: i64,
    pub active: bool,
}

#[derive(Clone, Debug)]
pub struct PlayerState {
    pub player_id: String,
    pub age_years: i16,
    pub morale: i32,
    pub fatigue: i32,
    pub injury_status: String,
    pub injury_end_ms: Option<i64>,
    pub satisfaction: i32,
    pub loyalty: i32,
    pub minutes_played_7d: i32,
    pub matches_played_7d: i32,
    pub matches_benched_7d: i32,
    pub last_match_at_ms: Option<i64>,
}

#[derive(Clone, Debug)]
pub struct Official {
    pub official_id: String,
    pub role: String,
    pub strictness: i32,
    pub advantage_tendency: i32,
    pub offside_tolerance: i32,
    pub var_propensity: i32,
    pub consistency: i32,
    pub fitness: i32,
    pub reputation: i32,
    pub ai_seed: i64,
    pub active: bool,
    pub last_assigned_ms: i64,
}

#[derive(Clone, Debug)]
pub struct MatchOfficialAssignment {
    pub match_id: String,
    pub referee_id: String,
    pub assistant_left_id: String,
    pub assistant_right_id: String,
    pub var_id: Option<String>,
    pub assigned_at_ms: i64,
}

#[derive(Clone, Debug)]
pub struct CommentaryLog {
    pub id: String,
    pub match_id: String,
    pub ts_ms: i64,
    pub tone: String,
    pub lang: String,
    pub text: String,
    pub meta_json: String,
}

/// Fixed-price sale; immutable once closed.
#[derive(Clone, Debug)]
pub struct Listing {
    pub id: String,
    pub item_id: String,
    pub seller_fid: i64,
    pub price_wei: String,
    pub status: ListingStatus,
    pub created_at_ms: i64,
    pub closed_at_ms: Option<i64>,
}

/// Timed incrementing-bid sale with a one-shot anti-snipe extension.
#[derive(Clone, Debug)]
pub struct Auction {
    pub id: String,
    pub item_id: String,
    pub seller_fid: i64,
    pub reserve_wei: String,
    pub ends_at_ms: i64,
    pub status: AuctionStatus,
    pub top_bid_wei: Option<String>,
    pub top_bidder_fid: Option<i64>,
    pub buy_now_wei: Option<String>,
    pub anti_snipe_used: bool,
    pub created_at_ms: i64,
    pub finalized_at_ms: Option<i64>,
}

/// Append-only bid record; never mutated or deleted.
#[derive(Clone, Debug)]
pub struct Bid {
    pub id: String,
    pub auction_id: String,
    pub fid: i64,
    pub amount_wei: String,
    pub placed_at_ms: i64,
}

/// Append-only audit trail entry.
#[derive(Clone, Debug)]
pub struct Event {
    pub id: String,
    pub ts_ms: i64,
    pub kind: String,
    pub actor_fid: i64,
    pub topic_id: Option<String>,
    pub payload_json: String,
}

#[derive(Clone, Debug)]
pub struct Inbox {
    pub msg_id: String,
    pub fid: i64,
    pub kind: String,
    pub title: String,
    pub body: String,
    pub created_at_ms: i64,
    pub read_at_ms: Option<i64>,
}

/// Peer-to-peer match; pending, then active, then finalized.
#[derive(Clone, Debug)]
pub struct PvpMatch {
    pub id: String,
    pub challenger_fid: i64,
    pub challenged_fid: i64,
    pub status: MatchStatus,
    pub created_at_ms: i64,
    pub accepted_at_ms: Option<i64>,
    pub result_json: Option<String>,
}

/// First-caller-wins cached response for retried client calls.
#[derive(Clone, Debug)]
pub struct Idempotency {
    pub id: String,
    pub endpoint: String,
    pub first_seen_at_ms: i64,
    pub response_json: String,
    pub ttl_until_ms: i64,
}

/// Write-once replay guard keyed by an external transaction reference.
#[derive(Clone, Debug)]
pub struct TransactionUsed {
    pub tx_hash: String,
    pub used_at_ms: i64,
    pub used_by_fid: i64,
    pub endpoint: String,
}

#[derive(Clone, Debug)]
pub struct StarterPlayer {
    pub player_id: String,
    pub name: Option<String>,
    pub position: Option<String>,
    pub rating: Option<i32>,
}

#[derive(Clone, Debug)]
pub struct StarterPackPayload {
    pub players: Vec<StarterPlayer>,
}

} // verus!
