//! The NPC manager pool: creation of pool entries, token minting, state
//! updates, and the bulk all-or-nothing allocation of unowned pool entries
//! to a user.

use vstd::prelude::*;
use crate::rows::{User, NpcRegistry, NpcAssignment, InventoryItem, ItemKind, OpError};
use crate::state::{
    GameState, has_match, first_at, lemma_first, user_key, npc_key, item_key, assign_key,
    find_user, find_npc, find_item, find_assignment,
};
use crate::ledger::{opt_str, event_id_extra, event_fields, append_event};
use crate::ids::derived_id;
use crate::text::{dec_int, i64_dec};

verus! {

/// The inventory identifier of an NPC's manager token.
pub open spec fn token_of(npc_fid: int) -> Seq<char> {
    "npc-"@ + dec_int(npc_fid)
}

/// The payload of an NPC minting or assignment event.
pub open spec fn npc_payload(npc_fid: int) -> Seq<char> {
    "{\"npc_fid\":"@ + dec_int(npc_fid) + "}"@
}

pub(crate) fn token_string(npc_fid: i64) -> (r: String)
    ensures
        r@ == token_of(npc_fid as int),
{
    let mut t = String::from_str("npc-");
    let d = i64_dec(npc_fid);
    t.append(d.as_str());
    t
}

pub(crate) fn npc_payload_string(npc_fid: i64) -> (r: String)
    ensures
        r@ == npc_payload(npc_fid as int),
{
    let mut p = String::from_str("{\"npc_fid\":");
    let d = i64_dec(npc_fid);
    p.append(d.as_str());
    p.append("}");
    p
}

/// The user table after upserting `fid` as an NPC-flagged user.
pub open spec fn npc_user_upserted(
    pre: Seq<User>,
    post: Seq<User>,
    now: int,
    fid: int,
    display_name: Seq<char>,
    persona: Seq<char>,
) -> bool {
    if has_match(pre, user_key(fid)) {
        let i = first_at(pre, user_key(fid));
        &&& post.len() == pre.len()
        &&& (forall|k: int| 0 <= k < pre.len() && k != i ==> #[trigger] post[k] == pre[k])
        &&& post[i] == (User {
            is_npc: true,
            display_name: post[i].display_name,
            ai_persona_json: post[i].ai_persona_json,
            ..pre[i]
        })
        &&& opt_str(post[i].display_name) == Some(display_name)
        &&& opt_str(post[i].ai_persona_json) == Some(persona)
    } else {
        &&& post.len() == pre.len() + 1
        &&& (forall|k: int| 0 <= k < pre.len() ==> #[trigger] post[k] == pre[k])
        &&& ({
            let u = post.last();
            &&& u.fid == fid
            &&& u.wallet is None
            &&& u.created_at_ms == now
            &&& u.is_npc
            &&& u.elo == 1000
            &&& opt_str(u.display_name) == Some(display_name)
            &&& opt_str(u.ai_persona_json) == Some(persona)
        })
    }
}

/// The registry after upserting the pool entry for `fid`: an existing row
/// keeps its token and owner but has its parameters and emotional state
/// reset; a fresh row starts unowned, with the display name recorded as
/// its persona.
pub open spec fn npc_row_upserted(
    pre: Seq<NpcRegistry>,
    post: Seq<NpcRegistry>,
    now: int,
    fid: int,
    ai_seed: int,
    difficulty_tier: int,
    budget: Seq<char>,
    display_name: Seq<char>,
    persona: Seq<char>,
) -> bool {
    if has_match(pre, npc_key(fid)) {
        let i = first_at(pre, npc_key(fid));
        &&& post.len() == pre.len()
        &&& (forall|k: int| 0 <= k < pre.len() && k != i ==> #[trigger] post[k] == pre[k])
        &&& ({
            let n = post[i];
            &&& n.npc_fid == fid
            &&& n.token_id == pre[i].token_id
            &&& n.owner_fid == pre[i].owner_fid
            &&& n.ai_seed == ai_seed
            &&& n.difficulty_tier == difficulty_tier
            &&& n.budget_fbc_wei@ == budget
            &&& n.persona@ == persona
            &&& n.manager_confidence == 50
            &&& n.pressure_level == 0
            &&& n.mood@ == "calm"@
            &&& n.next_decision_at_ms == now
            &&& n.last_active_ms == now
            &&& n.active
        })
    } else {
        &&& post.len() == pre.len() + 1
        &&& (forall|k: int| 0 <= k < pre.len() ==> #[trigger] post[k] == pre[k])
        &&& ({
            let n = post.last();
            &&& n.npc_fid == fid
            &&& n.token_id is None
            &&& n.owner_fid is None
            &&& n.ai_seed == ai_seed
            &&& n.difficulty_tier == difficulty_tier
            &&& n.budget_fbc_wei@ == budget
            &&& n.persona@ == display_name
            &&& n.manager_confidence == 50
            &&& n.pressure_level == 0
            &&& n.mood@ == "calm"@
            &&& n.next_decision_at_ms == now
            &&& n.last_active_ms == now
            &&& n.active
        })
    }
}

/// Creates or refreshes an NPC: upserts the NPC-flagged user row and the
/// registry pool entry.
pub fn npc_create(
    s: &mut GameState,
    now_ms: i64,
    npc_fid: i64,
    display_name: String,
    ai_seed: i64,
    difficulty_tier: i16,
    budget_fbc_wei: String,
    persona_json: String,
)
    ensures
        npc_user_upserted(
            old(s).users@,
            final(s).users@,
            now_ms as int,
            npc_fid as int,
            display_name@,
            persona_json@,
        ),
        npc_row_upserted(
            old(s).npcs@,
            final(s).npcs@,
            now_ms as int,
            npc_fid as int,
            ai_seed as int,
            difficulty_tier as int,
            budget_fbc_wei@,
            display_name@,
            persona_json@,
        ),
        (*final(s) == GameState { users: final(s).users, npcs: final(s).npcs, ..*old(s) }),
{
    match find_user(&s.users, npc_fid) {
        Some(i) => {
            proof {
                lemma_first(s.users@, user_key(npc_fid as int), i as int);
            }
            s.users[i].is_npc = true;
            s.users[i].display_name = Some(display_name.clone());
            s.users[i].ai_persona_json = Some(persona_json.clone());
        },
        None => {
            let u = User {
                fid: npc_fid,
                wallet: None,
                created_at_ms: now_ms,
                is_npc: true,
                elo: 1000,
                display_name: Some(display_name.clone()),
                ai_persona_json: Some(persona_json.clone()),
            };
            s.users.push(u);
        },
    }
    match find_npc(&s.npcs, npc_fid) {
        Some(i) => {
            proof {
                lemma_first(s.npcs@, npc_key(npc_fid as int), i as int);
            }
            s.npcs[i].ai_seed = ai_seed;
            s.npcs[i].difficulty_tier = difficulty_tier;
            s.npcs[i].budget_fbc_wei = budget_fbc_wei;
            s.npcs[i].persona = persona_json;
            s.npcs[i].manager_confidence = 50;
            s.npcs[i].pressure_level = 0;
            s.npcs[i].mood = String::from_str("calm");
            s.npcs[i].next_decision_at_ms = now_ms;
            s.npcs[i].last_active_ms = now_ms;
            s.npcs[i].active = true;
        },
        None => {
            let n = NpcRegistry {
                npc_fid,
                token_id: None,
                ai_seed,
                difficulty_tier,
                budget_fbc_wei,
                persona: display_name,
                owner_fid: None,
                manager_confidence: 50,
                pressure_level: 0,
                mood: String::from_str("calm"),
                next_decision_at_ms: now_ms,
                last_active_ms: now_ms,
                active: true,
            };
            s.npcs.push(n);
        },
    }
}

/// A freshly minted manager-token inventory row for `npc_fid`, owned by
/// `owner` with no hold period.
pub open spec fn minted_item_fields(
    it: InventoryItem,
    npc_fid: int,
    owner: int,
    now: int,
    kind: Seq<char>,
) -> bool {
    &&& it.item_id@ == token_of(npc_fid)
    &&& it.owner_fid == owner
    &&& it.item_type == ItemKind::NpcManager
    &&& it.acquired_at_ms == now
    &&& it.hold_until_ms == 0
    &&& it.source_event_id@ == derived_id("evt"@, now, event_id_extra(kind, owner))
}

/// The registry row for `fid` (if any) pointed at `owner` and the token.
pub open spec fn npc_row_owned(
    pre: Seq<NpcRegistry>,
    post: Seq<NpcRegistry>,
    fid: int,
    owner: int,
) -> bool {
    if has_match(pre, npc_key(fid)) {
        let i = first_at(pre, npc_key(fid));
        &&& post.len() == pre.len()
        &&& (forall|k: int| 0 <= k < pre.len() && k != i ==> #[trigger] post[k] == pre[k])
        &&& post[i] == (NpcRegistry {
            owner_fid: Some(owner as i64),
            token_id: post[i].token_id,
            ..pre[i]
        })
        &&& opt_str(post[i].token_id) == Some(token_of(fid))
    } else {
        post == pre
    }
}

/// Mints the manager token of `npc_fid` to `owner_fid`, idempotently: an
/// existing token item is left as it is, and in either case the registry
/// row is pointed at the owner and the token.
pub fn npc_mint_token(s: &mut GameState, now_ms: i64, npc_fid: i64, owner_fid: i64)
    ensures
        ({
            let tok = token_of(npc_fid as int);
            if has_match(old(s).items@, item_key(tok)) {
                final(s).items@ == old(s).items@ && final(s).events@ == old(s).events@
            } else {
                &&& final(s).events@ =~= old(s).events@.push(final(s).events@.last())
                &&& event_fields(
                    final(s).events@.last(),
                    now_ms as int,
                    "npc_token_minted"@,
                    owner_fid as int,
                    npc_payload(npc_fid as int),
                    Some(tok),
                )
                &&& final(s).items@ =~= old(s).items@.push(final(s).items@.last())
                &&& minted_item_fields(
                    final(s).items@.last(),
                    npc_fid as int,
                    owner_fid as int,
                    now_ms as int,
                    "npc_token_minted"@,
                )
            }
        }),
        npc_row_owned(old(s).npcs@, final(s).npcs@, npc_fid as int, owner_fid as int),
        (*final(s) == GameState {
            items: final(s).items,
            events: final(s).events,
            npcs: final(s).npcs,
            ..*old(s)
        }),
{
    let token_id = token_string(npc_fid);
    match find_item(&s.items, token_id.as_str()) {
        Some(i) => {
            proof {
                lemma_first(s.items@, item_key(token_id@), i as int);
            }
        },
        None => {
            let payload = npc_payload_string(npc_fid);
            let eid = append_event(
                s,
                now_ms,
                "npc_token_minted",
                owner_fid,
                payload,
                Some(token_id.clone()),
            );
            let it = InventoryItem {
                item_id: token_id.clone(),
                owner_fid,
                item_type: ItemKind::NpcManager,
                acquired_at_ms: now_ms,
                hold_until_ms: 0,
                source_event_id: eid,
            };
            s.items.push(it);
        },
    }
    match find_npc(&s.npcs, npc_fid) {
        Some(i) => {
            proof {
                lemma_first(s.npcs@, npc_key(npc_fid as int), i as int);
            }
            s.npcs[i].owner_fid = Some(owner_fid);
            s.npcs[i].token_id = Some(token_id);
        },
        None => {},
    }
}

/// A pool entry that can still be allocated: active and unowned.
pub open spec fn npc_available(n: NpcRegistry) -> bool {
    n.active && n.owner_fid is None
}

/// The fids of the available pool rows among the first `k`, in storage
/// order.
pub open spec fn avail_fids(npcs: Seq<NpcRegistry>, k: int) -> Seq<i64>
    decreases k,
{
    if k <= 0 {
        Seq::empty()
    } else {
        let m = avail_fids(npcs, k - 1);
        if npc_available(npcs[k - 1]) {
            m.push(npcs[k - 1].npc_fid)
        } else {
            m
        }
    }
}

/// The fids among the first `t` of `fids` that receive a new assignment
/// row: those with no prior `(user, fid)` record and not already granted
/// earlier in the batch.
pub open spec fn assigned_prefix(
    pre: Seq<NpcAssignment>,
    user: int,
    fids: Seq<i64>,
    t: int,
) -> Seq<i64>
    decreases t,
{
    if t <= 0 {
        Seq::empty()
    } else {
        let m = assigned_prefix(pre, user, fids, t - 1);
        let f = fids[t - 1];
        if has_match(pre, assign_key(user, f as int)) || m.contains(f) {
            m
        } else {
            m.push(f)
        }
    }
}

pub open spec fn tokens_of(fids: Seq<i64>) -> Seq<Seq<char>> {
    fids.map_values(|f: i64| token_of(f as int))
}

/// The fids among the first `t` of `fids` whose manager token gets minted:
/// those whose token item is not in the ledger and was not minted earlier
/// in the batch.
pub open spec fn minted_prefix(pre: Seq<InventoryItem>, fids: Seq<i64>, t: int) -> Seq<i64>
    decreases t,
{
    if t <= 0 {
        Seq::empty()
    } else {
        let m = minted_prefix(pre, fids, t - 1);
        let f = fids[t - 1];
        if has_match(pre, item_key(token_of(f as int))) || tokens_of(m).contains(
            token_of(f as int),
        ) {
            m
        } else {
            m.push(f)
        }
    }
}

pub open spec fn assignment_fields(a: NpcAssignment, user: int, npc: int, now: int) -> bool {
    &&& a.id@ == dec_int(user) + ":"@ + dec_int(npc)
    &&& a.user_fid == user
    &&& a.npc_fid == npc
    &&& a.assigned_at_ms == now
}

/// What a successful allocation of `count` pool entries to `user` does:
/// the first `count` available registry rows (in storage order) are owned
/// by `user` and point at their tokens; an idempotent assignment row is
/// appended for each fid not already assigned to `user`; a manager-token
/// item and its event are appended for each token not already in the
/// ledger; nothing else moves.
pub open spec fn pool_assigned(
    pre: GameState,
    post: GameState,
    now: int,
    user: int,
    count: int,
) -> bool {
    let n = pre.npcs@.len() as int;
    let fids = avail_fids(pre.npcs@, n).take(count);
    let added = assigned_prefix(pre.npc_assignments@, user, fids, count);
    let minted = minted_prefix(pre.items@, fids, count);
    &&& post.npcs@.len() == n
    &&& (forall|r: int|
        0 <= r < n ==> #[trigger] post.npcs@[r] == (if npc_available(pre.npcs@[r]) && avail_fids(
            pre.npcs@,
            r,
        ).len() < count {
            (NpcRegistry {
                owner_fid: Some(user as i64),
                token_id: post.npcs@[r].token_id,
                ..pre.npcs@[r]
            })
        } else {
            pre.npcs@[r]
        }))
    &&& (forall|r: int|
        0 <= r < n && npc_available(pre.npcs@[r]) && avail_fids(pre.npcs@, r).len() < count
            ==> opt_str(#[trigger] post.npcs@[r].token_id) == Some(
            token_of(pre.npcs@[r].npc_fid as int),
        ))
    &&& post.npc_assignments@.len() == pre.npc_assignments@.len() + added.len()
    &&& (forall|k: int|
        0 <= k < pre.npc_assignments@.len() ==> #[trigger] post.npc_assignments@[k]
            == pre.npc_assignments@[k])
    &&& (forall|u: int|
        0 <= u < added.len() ==> assignment_fields(
            post.npc_assignments@[pre.npc_assignments@.len() + u],
            user,
            (#[trigger] added[u]) as int,
            now,
        ))
    &&& post.items@.len() == pre.items@.len() + minted.len()
    &&& (forall|k: int| 0 <= k < pre.items@.len() ==> #[trigger] post.items@[k] == pre.items@[k])
    &&& (forall|u: int|
        0 <= u < minted.len() ==> minted_item_fields(
            post.items@[pre.items@.len() + u],
            (#[trigger] minted[u]) as int,
            user,
            now,
            "npc_assigned"@,
        ))
    &&& post.events@.len() == pre.events@.len() + minted.len()
    &&& (forall|k: int| 0 <= k < pre.events@.len() ==> #[trigger] post.events@[k] == pre.events@[k])
    &&& (forall|u: int|
        0 <= u < minted.len() ==> event_fields(
            post.events@[pre.events@.len() + u],
            now,
            "npc_assigned"@,
            user,
            npc_payload((#[trigger] minted[u]) as int),
            Some(token_of(minted[u] as int)),
        ))
    &&& (post == GameState {
        npcs: post.npcs,
        npc_assignments: post.npc_assignments,
        items: post.items,
        events: post.events,
        ..pre
    })
}

/// Allocates `count` unowned pool entries to `user_fid`, strictly
/// all-or-nothing: when fewer are available, nothing at all is written.
pub fn npc_assign_for_user(s: &mut GameState, now_ms: i64, user_fid: i64, count: i16) -> (r:
    Result<(), OpError>)
    ensures
        count <= 0 ==> r is Ok && *final(s) == *old(s),
        count > 0 ==> match r {
            Ok(()) => {
                &&& avail_fids(old(s).npcs@, old(s).npcs@.len() as int).len() >= count
                &&& pool_assigned(
                    *old(s),
                    *final(s),
                    now_ms as int,
                    user_fid as int,
                    count as int,
                )
            },
            Err(e) => {
                &&& e == OpError::InsufficientPool
                &&& *final(s) == *old(s)
                &&& avail_fids(old(s).npcs@, old(s).npcs@.len() as int).len() < count
            },
        },
{
    if count <= 0 {
        return Ok(());
    }
    let n = s.npcs.len();
    // dry-run pass: collect the available rows before any write
    let mut idxs: Vec<usize> = Vec::new();
    let mut k: usize = 0;
    while k < n
        invariant
            k <= n,
            n == s.npcs@.len(),
            *s == *old(s),
            idxs@.len() == avail_fids(s.npcs@, k as int).len(),
            forall|t: int|
                0 <= t < idxs@.len() ==> {
                    &&& (#[trigger] idxs@[t]) < k
                    &&& npc_available(s.npcs@[idxs@[t] as int])
                    &&& avail_fids(s.npcs@, idxs@[t] as int).len() == t
                    &&& s.npcs@[idxs@[t] as int].npc_fid == avail_fids(s.npcs@, k as int)[t]
                },
            forall|r: int|
                0 <= r < k && npc_available(#[trigger] s.npcs@[r]) ==> {
                    &&& avail_fids(s.npcs@, r).len() < idxs@.len()
                    &&& idxs@[avail_fids(s.npcs@, r).len() as int] == r
                },
        decreases n - k,
    {
        let avail_here = s.npcs[k].active && s.npcs[k].owner_fid.is_none();
        if avail_here {
            idxs.push(k);
        }
        proof {
            assert(avail_fids(s.npcs@, k as int + 1).len() == avail_fids(s.npcs@, k as int).len()
                + if npc_available(s.npcs@[k as int]) {
                    1int
                } else {
                    0int
                });
        }
        k = k + 1;
    }
    let avail = idxs.len();
    let cnt = count as usize;
    if avail < cnt {
        return Err(OpError::InsufficientPool);
    }
    let ghost pre = *old(s);
    let ghost nn = pre.npcs@.len() as int;
    let ghost fids = avail_fids(pre.npcs@, nn).take(count as int);
    let mut t: usize = 0;
    while t < cnt
        invariant
            t <= cnt,
            cnt == count as int,
            0 < count,
            nn == pre.npcs@.len(),
            n == nn,
            cnt <= idxs@.len(),
            fids == avail_fids(pre.npcs@, nn).take(count as int),
            idxs@.len() == avail_fids(pre.npcs@, nn).len(),
            forall|u: int|
                0 <= u < idxs@.len() ==> {
                    &&& (#[trigger] idxs@[u]) < nn
                    &&& npc_available(pre.npcs@[idxs@[u] as int])
                    &&& avail_fids(pre.npcs@, idxs@[u] as int).len() == u
                    &&& pre.npcs@[idxs@[u] as int].npc_fid == avail_fids(pre.npcs@, nn)[u]
                },
            forall|r: int|
                0 <= r < nn && npc_available(#[trigger] pre.npcs@[r]) ==> {
                    &&& avail_fids(pre.npcs@, r).len() < idxs@.len()
                    &&& idxs@[avail_fids(pre.npcs@, r).len() as int] == r
                },
            s.npcs@.len() == nn,
            forall|r: int|
                0 <= r < nn ==> #[trigger] s.npcs@[r] == (if npc_available(pre.npcs@[r])
                    && avail_fids(pre.npcs@, r).len() < t {
                    (NpcRegistry {
                        owner_fid: Some(user_fid),
                        token_id: s.npcs@[r].token_id,
                        ..pre.npcs@[r]
                    })
                } else {
                    pre.npcs@[r]
                }),
            forall|r: int|
                0 <= r < nn && npc_available(pre.npcs@[r]) && avail_fids(pre.npcs@, r).len() < t
                    ==> opt_str(#[trigger] s.npcs@[r].token_id) == Some(
                    token_of(pre.npcs@[r].npc_fid as int),
                ),
            s.npc_assignments@.len() == pre.npc_assignments@.len() + assigned_prefix(
                pre.npc_assignments@,
                user_fid as int,
                fids,
                t as int,
            ).len(),
            forall|j: int|
                0 <= j < pre.npc_assignments@.len() ==> #[trigger] s.npc_assignments@[j]
                    == pre.npc_assignments@[j],
            forall|u: int|
                0 <= u < assigned_prefix(pre.npc_assignments@, user_fid as int, fids, t as int).len()
                    ==> assignment_fields(
                    #[trigger] s.npc_assignments@[pre.npc_assignments@.len() + u],
                    user_fid as int,
                    assigned_prefix(pre.npc_assignments@, user_fid as int, fids, t as int)[u] as int,
                    now_ms as int,
                ),
            s.items@.len() == pre.items@.len() + minted_prefix(pre.items@, fids, t as int).len(),
            forall|j: int| 0 <= j < pre.items@.len() ==> #[trigger] s.items@[j] == pre.items@[j],
            forall|u: int|
                0 <= u < minted_prefix(pre.items@, fids, t as int).len() ==> minted_item_fields(
                    #[trigger] s.items@[pre.items@.len() + u],
                    minted_prefix(pre.items@, fids, t as int)[u] as int,
                    user_fid as int,
                    now_ms as int,
                    "npc_assigned"@,
                ),
            s.events@.len() == pre.events@.len() + minted_prefix(pre.items@, fids, t as int).len(),
            forall|j: int| 0 <= j < pre.events@.len() ==> #[trigger] s.events@[j] == pre.events@[j],
            forall|u: int|
                0 <= u < minted_prefix(pre.items@, fids, t as int).len() ==> event_fields(
                    #[trigger] s.events@[pre.events@.len() + u],
                    now_ms as int,
                    "npc_assigned"@,
                    user_fid as int,
                    npc_payload(minted_prefix(pre.items@, fids, t as int)[u] as int),
                    Some(token_of(minted_prefix(pre.items@, fids, t as int)[u] as int)),
                ),
            (*s == GameState {
                npcs: s.npcs,
                npc_assignments: s.npc_assignments,
                items: s.items,
                events: s.events,
                ..pre
            }),
        decreases cnt - t,
    {
        let ghost added_t = assigned_prefix(pre.npc_assignments@, user_fid as int, fids, t as int);
        let ghost minted_t = minted_prefix(pre.items@, fids, t as int);
        let idx = idxs[t];
        proof {
            assert(avail_fids(pre.npcs@, idx as int).len() == t as int);
            assert(s.npcs@[idx as int] == pre.npcs@[idx as int]);
            assert(fids[t as int] == avail_fids(pre.npcs@, nn)[t as int]);
        }
        let fid = s.npcs[idx].npc_fid;
        // idempotent assignment record
        match find_assignment(&s.npc_assignments, user_fid, fid) {
            Some(j) => {
                proof {
                    lemma_first(
                        s.npc_assignments@,
                        assign_key(user_fid as int, fid as int),
                        j as int,
                    );
                    if (j as int) < pre.npc_assignments@.len() {
                        assert(has_match(
                            pre.npc_assignments@,
                            assign_key(user_fid as int, fid as int),
                        ));
                    } else {
                        let u = j as int - pre.npc_assignments@.len();
                        assert(assignment_fields(
                            s.npc_assignments@[pre.npc_assignments@.len() + u],
                            user_fid as int,
                            added_t[u] as int,
                            now_ms as int,
                        ));
                        assert(added_t[u] == fid);
                        assert(added_t.contains(fid));
                    }
                }
            },
            None => {
                proof {
                    assert(!has_match(
                        pre.npc_assignments@,
                        assign_key(user_fid as int, fid as int),
                    )) by {
                        if has_match(
                            pre.npc_assignments@,
                            assign_key(user_fid as int, fid as int),
                        ) {
                            let j = choose|j: int|
                                0 <= j < pre.npc_assignments@.len() && (assign_key(
                                    user_fid as int,
                                    fid as int,
                                ))(pre.npc_assignments@[j]);
                            assert((assign_key(user_fid as int, fid as int))(
                                s.npc_assignments@[j],
                            ));
                        }
                    }
                    assert(!added_t.contains(fid)) by {
                        if added_t.contains(fid) {
                            let u = choose|u: int|
                                0 <= u < added_t.len() && added_t[u] == fid;
                            assert(assignment_fields(
                                s.npc_assignments@[pre.npc_assignments@.len() + u],
                                user_fid as int,
                                added_t[u] as int,
                                now_ms as int,
                            ));
                            assert((assign_key(user_fid as int, fid as int))(
                                s.npc_assignments@[pre.npc_assignments@.len() + u],
                            ));
                        }
                    }
                }
                let mut aid = i64_dec(user_fid);
                aid.append(":");
                let fid_dec = i64_dec(fid);
                aid.append(fid_dec.as_str());
                let a = NpcAssignment { id: aid, user_fid, npc_fid: fid, assigned_at_ms: now_ms };
                s.npc_assignments.push(a);
            },
        }
        // mint the manager token if the ledger does not hold it yet
        let tok = token_string(fid);
        match find_item(&s.items, tok.as_str()) {
            Some(j) => {
                proof {
                    lemma_first(s.items@, item_key(tok@), j as int);
                    if (j as int) < pre.items@.len() {
                        assert(has_match(pre.items@, item_key(token_of(fid as int))));
                    } else {
                        let u = j as int - pre.items@.len();
                        assert(minted_item_fields(
                            s.items@[pre.items@.len() + u],
                            minted_t[u] as int,
                            user_fid as int,
                            now_ms as int,
                            "npc_assigned"@,
                        ));
                        assert(tokens_of(minted_t)[u] == token_of(minted_t[u] as int));
                        assert(tokens_of(minted_t).contains(token_of(fid as int)));
                    }
                }
            },
            None => {
                proof {
                    assert(!has_match(pre.items@, item_key(token_of(fid as int)))) by {
                        if has_match(pre.items@, item_key(token_of(fid as int))) {
                            let j = choose|j: int|
                                0 <= j < pre.items@.len() && (item_key(token_of(fid as int)))(
                                    pre.items@[j],
                                );
                            assert((item_key(tok@))(s.items@[j]));
                        }
                    }
                    assert(!tokens_of(minted_t).contains(token_of(fid as int))) by {
                        if tokens_of(minted_t).contains(token_of(fid as int)) {
                            let u = choose|u: int|
                                0 <= u < tokens_of(minted_t).len() && tokens_of(minted_t)[u]
                                    == token_of(fid as int);
                            assert(minted_item_fields(
                                s.items@[pre.items@.len() + u],
                                minted_t[u] as int,
                                user_fid as int,
                                now_ms as int,
                                "npc_assigned"@,
                            ));
                            assert((item_key(tok@))(s.items@[pre.items@.len() + u]));
                        }
                    }
                }
                let payload = npc_payload_string(fid);
                let eid = append_event(
                    s,
                    now_ms,
                    "npc_assigned",
                    user_fid,
                    payload,
                    Some(tok.clone()),
                );
                let it = InventoryItem {
                    item_id: tok.clone(),
                    owner_fid: user_fid,
                    item_type: ItemKind::NpcManager,
                    acquired_at_ms: now_ms,
                    hold_until_ms: 0,
                    source_event_id: eid,
                };
                s.items.push(it);
            },
        }
        // point the registry row at its new owner and token
        s.npcs[idx].owner_fid = Some(user_fid);
        s.npcs[idx].token_id = Some(tok);
        proof {
            assert forall|r: int|
                0 <= r < nn implies #[trigger] s.npcs@[r] == (if npc_available(pre.npcs@[r])
                && avail_fids(pre.npcs@, r).len() < t + 1 {
                (NpcRegistry {
                    owner_fid: Some(user_fid),
                    token_id: s.npcs@[r].token_id,
                    ..pre.npcs@[r]
                })
            } else {
                pre.npcs@[r]
            }) by {
                if r != idx as int && npc_available(pre.npcs@[r]) && avail_fids(pre.npcs@, r).len()
                    == t as int {
                    assert(idxs@[avail_fids(pre.npcs@, r).len() as int] == r);
                }
            }
        }
        t = t + 1;
    }
    proof {
        assert(avail_fids(pre.npcs@, nn).len() >= count);
    }
    Ok(())
}

/// Updates an NPC's scheduling state and budget; a missing row is a no-op.
pub fn npc_update_state(
    s: &mut GameState,
    now_ms: i64,
    npc_fid: i64,
    next_decision_at_ms: i64,
    budget_fbc_wei: String,
)
    ensures
        ({
            if has_match(old(s).npcs@, npc_key(npc_fid as int)) {
                let i = first_at(old(s).npcs@, npc_key(npc_fid as int));
                &&& final(s).npcs@.len() == old(s).npcs@.len()
                &&& (forall|k: int|
                    0 <= k < old(s).npcs@.len() && k != i ==> #[trigger] final(s).npcs@[k]
                        == old(s).npcs@[k])
                &&& final(s).npcs@[i] == (NpcRegistry {
                    next_decision_at_ms,
                    budget_fbc_wei: final(s).npcs@[i].budget_fbc_wei,
                    last_active_ms: now_ms,
                    ..old(s).npcs@[i]
                })
                &&& final(s).npcs@[i].budget_fbc_wei@ == budget_fbc_wei@
            } else {
                final(s).npcs@ == old(s).npcs@
            }
        }),
        (*final(s) == GameState { npcs: final(s).npcs, ..*old(s) }),
{
    match find_npc(&s.npcs, npc_fid) {
        Some(i) => {
            proof {
                lemma_first(s.npcs@, npc_key(npc_fid as int), i as int);
            }
            s.npcs[i].next_decision_at_ms = next_decision_at_ms;
            s.npcs[i].budget_fbc_wei = budget_fbc_wei;
            s.npcs[i].last_active_ms = now_ms;
        },
        None => {},
    }
}

} // verus!
