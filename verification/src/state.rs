//! The table state every operation works on, and first-match lookup.
//!
//! The hosting layer owns the real storage; an operation sees a consistent
//! snapshot of all tables, and its writes commit atomically as one unit.
//! Rows are looked up by scanning in storage order, so "the row with key k"
//! always means the first such row.

use vstd::prelude::*;
use crate::rows::{
    User, WalletLink, StarterClaim, InventoryItem, NpcRegistry, NpcAssignment, SquadRegistry,
    Listing, Auction, Bid, Event, Inbox, PvpMatch, Idempotency, TransactionUsed, MatchStatus,
};
use crate::text::str_eq;

verus! {

/// One-time extension of an auction's deadline when a bid lands inside the
/// anti-snipe window.
pub const ANTI_SNIPE_EXTEND_SECONDS: i64 = 180;

pub const ANTI_SNIPE_MS: i64 = 180 * 1000;

/// Hold period on newly granted items: they cannot be listed or auctioned
/// before it passes, except by the privileged account.
pub const HOLD_DAYS: i64 = 7;

pub const HOLD_MS: i64 = 7 * 24 * 60 * 60 * 1000;

/// Engine configuration injected by the host.
pub struct EngineConfig {
    /// The designated account that bypasses hold checks.
    pub privileged_fid: i64,
}

/// A consistent snapshot of every table, mutated in place by one operation
/// and committed atomically by the host.
pub struct GameState {
    pub config: EngineConfig,
    pub users: Vec<User>,
    pub wallet_links: Vec<WalletLink>,
    pub starter_claims: Vec<StarterClaim>,
    pub items: Vec<InventoryItem>,
    pub npcs: Vec<NpcRegistry>,
    pub npc_assignments: Vec<NpcAssignment>,
    pub squads: Vec<SquadRegistry>,
    pub listings: Vec<Listing>,
    pub auctions: Vec<Auction>,
    pub bids: Vec<Bid>,
    pub events: Vec<Event>,
    pub inbox: Vec<Inbox>,
    pub pvp_matches: Vec<PvpMatch>,
    pub idempotency: Vec<Idempotency>,
    pub tx_used: Vec<TransactionUsed>,
}

impl GameState {
    /// An empty state with the given privileged account.
    pub fn new(privileged_fid: i64) -> (s: GameState)
        ensures
            s.config.privileged_fid == privileged_fid,
            s.users@ =~= Seq::<User>::empty(),
            s.wallet_links@ =~= Seq::<WalletLink>::empty(),
            s.starter_claims@ =~= Seq::<StarterClaim>::empty(),
            s.items@ =~= Seq::<InventoryItem>::empty(),
            s.npcs@ =~= Seq::<NpcRegistry>::empty(),
            s.npc_assignments@ =~= Seq::<NpcAssignment>::empty(),
            s.squads@ =~= Seq::<SquadRegistry>::empty(),
            s.listings@ =~= Seq::<Listing>::empty(),
            s.auctions@ =~= Seq::<Auction>::empty(),
            s.bids@ =~= Seq::<Bid>::empty(),
            s.events@ =~= Seq::<Event>::empty(),
            s.inbox@ =~= Seq::<Inbox>::empty(),
            s.pvp_matches@ =~= Seq::<PvpMatch>::empty(),
            s.idempotency@ =~= Seq::<Idempotency>::empty(),
            s.tx_used@ =~= Seq::<TransactionUsed>::empty(),
    {
        GameState {
            config: EngineConfig { privileged_fid },
            users: Vec::new(),
            wallet_links: Vec::new(),
            starter_claims: Vec::new(),
            items: Vec::new(),
            npcs: Vec::new(),
            npc_assignments: Vec::new(),
            squads: Vec::new(),
            listings: Vec::new(),
            auctions: Vec::new(),
            bids: Vec::new(),
            events: Vec::new(),
            inbox: Vec::new(),
            pvp_matches: Vec::new(),
            idempotency: Vec::new(),
            tx_used: Vec::new(),
        }
    }
}

// ---- first-match lookup, generic over a key predicate ----

/// `i` is the first index of `v` whose row satisfies `p`.
pub open spec fn is_first<T>(v: Seq<T>, p: spec_fn(T) -> bool, i: int) -> bool {
    &&& 0 <= i < v.len()
    &&& p(v[i])
    &&& forall|j: int| 0 <= j < i ==> !p(#[trigger] v[j])
}

/// Some row of `v` satisfies `p`.
pub open spec fn has_match<T>(v: Seq<T>, p: spec_fn(T) -> bool) -> bool {
    exists|j: int| 0 <= j < v.len() && p(#[trigger] v[j])
}

/// The first index of `v` whose row satisfies `p`.
pub open spec fn first_at<T>(v: Seq<T>, p: spec_fn(T) -> bool) -> int {
    choose|i: int| is_first(v, p, i)
}

/// The first matching index is unique, so `first_at` names it.
pub proof fn lemma_first<T>(v: Seq<T>, p: spec_fn(T) -> bool, i: int)
    requires
        is_first(v, p, i),
    ensures
        first_at(v, p) == i,
        has_match(v, p),
{
    assert(has_match(v, p));
    let k = first_at(v, p);
    assert(is_first(v, p, k));
    if k < i {
        assert(!p(v[k]));
    }
    if i < k {
        assert(!p(v[i]));
    }
}

// ---- the key predicates of each table ----

pub open spec fn item_key(id: Seq<char>) -> spec_fn(InventoryItem) -> bool {
    |it: InventoryItem| it.item_id@ == id
}

pub open spec fn listing_key(id: Seq<char>) -> spec_fn(Listing) -> bool {
    |l: Listing| l.id@ == id
}

pub open spec fn auction_key(id: Seq<char>) -> spec_fn(Auction) -> bool {
    |a: Auction| a.id@ == id
}

pub open spec fn match_key(id: Seq<char>) -> spec_fn(PvpMatch) -> bool {
    |m: PvpMatch| m.id@ == id
}

/// A pending match between the same unordered pair of accounts.
pub open spec fn pending_pair_key(a: int, b: int) -> spec_fn(PvpMatch) -> bool {
    |m: PvpMatch|
        m.status == MatchStatus::Pending && ((m.challenger_fid == a && m.challenged_fid == b) || (
        m.challenger_fid == b
            && m.challenged_fid == a))
}

pub open spec fn user_key(fid: int) -> spec_fn(User) -> bool {
    |u: User| u.fid == fid
}

pub open spec fn npc_key(fid: int) -> spec_fn(NpcRegistry) -> bool {
    |n: NpcRegistry| n.npc_fid == fid
}

pub open spec fn npc_token_key(tok: Seq<char>) -> spec_fn(NpcRegistry) -> bool {
    |n: NpcRegistry|
        match n.token_id {
            Some(t) => t@ == tok,
            None => false,
        }
}

pub open spec fn squad_token_key(tok: Seq<char>) -> spec_fn(SquadRegistry) -> bool {
    |q: SquadRegistry| q.token_id@ == tok
}

pub open spec fn claim_key(fid: int) -> spec_fn(StarterClaim) -> bool {
    |c: StarterClaim| c.fid == fid
}

pub open spec fn tx_key(h: Seq<char>) -> spec_fn(TransactionUsed) -> bool {
    |t: TransactionUsed| t.tx_hash@ == h
}

pub open spec fn assign_key(user: int, npc: int) -> spec_fn(NpcAssignment) -> bool {
    |a: NpcAssignment| a.user_fid == user && a.npc_fid == npc
}

pub open spec fn wallet_key(addr: Seq<char>) -> spec_fn(WalletLink) -> bool {
    |w: WalletLink| w.address@ == addr
}

pub open spec fn inbox_key(msg: Seq<char>) -> spec_fn(Inbox) -> bool {
    |m: Inbox| m.msg_id@ == msg
}

pub open spec fn idem_key(id: Seq<char>, endpoint: Seq<char>) -> spec_fn(Idempotency) -> bool {
    |r: Idempotency| r.id@ == id && r.endpoint@ == endpoint
}

// ---- the scans ----

pub fn find_item(v: &Vec<InventoryItem>, id: &str) -> (r: Option<usize>)
    ensures
        match r {
            Some(i) => is_first(v@, item_key(id@), i as int),
            None => !has_match(v@, item_key(id@)),
        },
{
    let n = v.len();
    let mut i: usize = 0;
    while i < n
        invariant
            i <= n,
            n == v@.len(),
            forall|j: int| 0 <= j < i ==> !(item_key(id@))(#[trigger] v@[j]),
        decreases n - i,
    {
        if str_eq(v[i].item_id.as_str(), id) {
            return Some(i);
        }
        i = i + 1;
    }
    None
}

pub fn find_listing(v: &Vec<Listing>, id: &str) -> (r: Option<usize>)
    ensures
        match r {
            Some(i) => is_first(v@, listing_key(id@), i as int),
            None => !has_match(v@, listing_key(id@)),
        },
{
    let n = v.len();
    let mut i: usize = 0;
    while i < n
        invariant
            i <= n,
            n == v@.len(),
            forall|j: int| 0 <= j < i ==> !(listing_key(id@))(#[trigger] v@[j]),
        decreases n - i,
    {
        if str_eq(v[i].id.as_str(), id) {
            return Some(i);
        }
        i = i + 1;
    }
    None
}

pub fn find_auction(v: &Vec<Auction>, id: &str) -> (r: Option<usize>)
    ensures
        match r {
            Some(i) => is_first(v@, auction_key(id@), i as int),
            None => !has_match(v@, auction_key(id@)),
        },
{
    let n = v.len();
    let mut i: usize = 0;
    while i < n
        invariant
            i <= n,
            n == v@.len(),
            forall|j: int| 0 <= j < i ==> !(auction_key(id@))(#[trigger] v@[j]),
        decreases n - i,
    {
        if str_eq(v[i].id.as_str(), id) {
            return Some(i);
        }
        i = i + 1;
    }
    None
}

pub fn find_match(v: &Vec<PvpMatch>, id: &str) -> (r: Option<usize>)
    ensures
        match r {
            Some(i) => is_first(v@, match_key(id@), i as int),
            None => !has_match(v@, match_key(id@)),
        },
{
    let n = v.len();
    let mut i: usize = 0;
    while i < n
        invariant
            i <= n,
            n == v@.len(),
            forall|j: int| 0 <= j < i ==> !(match_key(id@))(#[trigger] v@[j]),
        decreases n - i,
    {
        if str_eq(v[i].id.as_str(), id) {
            return Some(i);
        }
        i = i + 1;
    }
    None
}

pub fn find_user(v: &Vec<User>, fid: i64) -> (r: Option<usize>)
    ensures
        match r {
            Some(i) => is_first(v@, user_key(fid as int), i as int),
            None => !has_match(v@, user_key(fid as int)),
        },
{
    let n = v.len();
    let mut i: usize = 0;
    while i < n
        invariant
            i <= n,
            n == v@.len(),
            forall|j: int| 0 <= j < i ==> !(user_key(fid as int))(#[trigger] v@[j]),
        decreases n - i,
    {
        if v[i].fid == fid {
            return Some(i);
        }
        i = i + 1;
    }
    None
}

pub fn find_npc(v: &Vec<NpcRegistry>, fid: i64) -> (r: Option<usize>)
    ensures
        match r {
            Some(i) => is_first(v@, npc_key(fid as int), i as int),
            None => !has_match(v@, npc_key(fid as int)),
        },
{
    let n = v.len();
    let mut i: usize = 0;
    while i < n
        invariant
            i <= n,
            n == v@.len(),
            forall|j: int| 0 <= j < i ==> !(npc_key(fid as int))(#[trigger] v@[j]),
        decreases n - i,
    {
        if v[i].npc_fid == fid {
            return Some(i);
        }
        i = i + 1;
    }
    None
}

pub fn find_npc_by_token(v: &Vec<NpcRegistry>, tok: &str) -> (r: Option<usize>)
    ensures
        match r {
            Some(i) => is_first(v@, npc_token_key(tok@), i as int),
            None => !has_match(v@, npc_token_key(tok@)),
        },
{
    let n = v.len();
    let mut i: usize = 0;
    while i < n
        invariant
            i <= n,
            n == v@.len(),
            forall|j: int| 0 <= j < i ==> !(npc_token_key(tok@))(#[trigger] v@[j]),
        decreases n - i,
    {
        let hit = match &v[i].token_id {
            Some(t) => str_eq(t.as_str(), tok),
            None => false,
        };
        if hit {
            return Some(i);
        }
        i = i + 1;
    }
    None
}

pub fn find_squad_by_token(v: &Vec<SquadRegistry>, tok: &str) -> (r: Option<usize>)
    ensures
        match r {
            Some(i) => is_first(v@, squad_token_key(tok@), i as int),
            None => !has_match(v@, squad_token_key(tok@)),
        },
{
    let n = v.len();
    let mut i: usize = 0;
    while i < n
        invariant
            i <= n,
            n == v@.len(),
            forall|j: int| 0 <= j < i ==> !(squad_token_key(tok@))(#[trigger] v@[j]),
        decreases n - i,
    {
        if str_eq(v[i].token_id.as_str(), tok) {
            return Some(i);
        }
        i = i + 1;
    }
    None
}

pub fn find_claim(v: &Vec<StarterClaim>, fid: i64) -> (r: Option<usize>)
    ensures
        match r {
            Some(i) => is_first(v@, claim_key(fid as int), i as int),
            None => !has_match(v@, claim_key(fid as int)),
        },
{
    let n = v.len();
    let mut i: usize = 0;
    while i < n
        invariant
            i <= n,
            n == v@.len(),
            forall|j: int| 0 <= j < i ==> !(claim_key(fid as int))(#[trigger] v@[j]),
        decreases n - i,
    {
        if v[i].fid == fid {
            return Some(i);
        }
        i = i + 1;
    }
    None
}

pub fn find_tx(v: &Vec<TransactionUsed>, h: &str) -> (r: Option<usize>)
    ensures
        match r {
            Some(i) => is_first(v@, tx_key(h@), i as int),
            None => !has_match(v@, tx_key(h@)),
        },
{
    let n = v.len();
    let mut i: usize = 0;
    while i < n
        invariant
            i <= n,
            n == v@.len(),
            forall|j: int| 0 <= j < i ==> !(tx_key(h@))(#[trigger] v@[j]),
        decreases n - i,
    {
        if str_eq(v[i].tx_hash.as_str(), h) {
            return Some(i);
        }
        i = i + 1;
    }
    None
}

pub fn find_assignment(v: &Vec<NpcAssignment>, user: i64, npc: i64) -> (r: Option<usize>)
    ensures
        match r {
            Some(i) => is_first(v@, assign_key(user as int, npc as int), i as int),
            None => !has_match(v@, assign_key(user as int, npc as int)),
        },
{
    let n = v.len();
    let mut i: usize = 0;
    while i < n
        invariant
            i <= n,
            n == v@.len(),
            forall|j: int|
                0 <= j < i ==> !(assign_key(user as int, npc as int))(#[trigger] v@[j]),
        decreases n - i,
    {
        if v[i].user_fid == user && v[i].npc_fid == npc {
            return Some(i);
        }
        i = i + 1;
    }
    None
}

pub fn find_wallet(v: &Vec<WalletLink>, addr: &str) -> (r: Option<usize>)
    ensures
        match r {
            Some(i) => is_first(v@, wallet_key(addr@), i as int),
            None => !has_match(v@, wallet_key(addr@)),
        },
{
    let n = v.len();
    let mut i: usize = 0;
    while i < n
        invariant
            i <= n,
            n == v@.len(),
            forall|j: int| 0 <= j < i ==> !(wallet_key(addr@))(#[trigger] v@[j]),
        decreases n - i,
    {
        if str_eq(v[i].address.as_str(), addr) {
            return Some(i);
        }
        i = i + 1;
    }
    None
}

pub fn find_inbox(v: &Vec<Inbox>, msg: &str) -> (r: Option<usize>)
    ensures
        match r {
            Some(i) => is_first(v@, inbox_key(msg@), i as int),
            None => !has_match(v@, inbox_key(msg@)),
        },
{
    let n = v.len();
    let mut i: usize = 0;
    while i < n
        invariant
            i <= n,
            n == v@.len(),
            forall|j: int| 0 <= j < i ==> !(inbox_key(msg@))(#[trigger] v@[j]),
        decreases n - i,
    {
        if str_eq(v[i].msg_id.as_str(), msg) {
            return Some(i);
        }
        i = i + 1;
    }
    None
}

pub fn find_idem(v: &Vec<Idempotency>, id: &str, endpoint: &str) -> (r: Option<usize>)
    ensures
        match r {
            Some(i) => is_first(v@, idem_key(id@, endpoint@), i as int),
            None => !has_match(v@, idem_key(id@, endpoint@)),
        },
{
    let n = v.len();
    let mut i: usize = 0;
    while i < n
        invariant
            i <= n,
            n == v@.len(),
            forall|j: int| 0 <= j < i ==> !(idem_key(id@, endpoint@))(#[trigger] v@[j]),
        decreases n - i,
    {
        if str_eq(v[i].id.as_str(), id) && str_eq(v[i].endpoint.as_str(), endpoint) {
            return Some(i);
        }
        i = i + 1;
    }
    None
}

pub fn find_pending_pair(v: &Vec<PvpMatch>, a: i64, b: i64) -> (r: Option<usize>)
    ensures
        match r {
            Some(i) => is_first(v@, pending_pair_key(a as int, b as int), i as int),
            None => !has_match(v@, pending_pair_key(a as int, b as int)),
        },
{
    let n = v.len();
    let mut i: usize = 0;
    while i < n
        invariant
            i <= n,
            n == v@.len(),
            forall|j: int|
                0 <= j < i ==> !(pending_pair_key(a as int, b as int))(#[trigger] v@[j]),
        decreases n - i,
    {
        let m = &v[i];
        let pending = match m.status {
            MatchStatus::Pending => true,
            _ => false,
        };
        if pending && ((m.challenger_fid == a && m.challenged_fid == b) || (m.challenger_fid == b
            && m.challenged_fid == a)) {
            return Some(i);
        }
        i = i + 1;
    }
    None
}

} // verus!
