//! Wallet linking and the one-shot starter grant: fail-fast payload
//! validation, a per-account claim record, and bulk item issuance with a
//! uniform hold period.

use vstd::prelude::*;
use crate::rows::{
    User, WalletLink, StarterClaim, InventoryItem, ItemKind, StarterPlayer, StarterPackPayload,
    OpError,
};
use crate::state::{
    GameState, is_first, has_match, first_at, lemma_first, user_key, wallet_key, claim_key,
    item_key, find_user, find_wallet, find_claim, find_item, HOLD_MS,
};
use crate::ledger::{opt_str, event_id_extra, event_fields, inbox_fields, append_event, push_inbox};
use crate::ids::derived_id;
use crate::text::{lower_of, normalize};

verus! {

/// The user table after upserting `fid` with wallet `address`.
pub open spec fn wallet_user_upserted(
    pre: Seq<User>,
    post: Seq<User>,
    now: int,
    fid: int,
    address: Seq<char>,
) -> bool {
    if has_match(pre, user_key(fid)) {
        let i = first_at(pre, user_key(fid));
        &&& post.len() == pre.len()
        &&& (forall|k: int| 0 <= k < pre.len() && k != i ==> #[trigger] post[k] == pre[k])
        &&& post[i] == (User { wallet: post[i].wallet, ..pre[i] })
        &&& opt_str(post[i].wallet) == Some(address)
    } else {
        &&& post.len() == pre.len() + 1
        &&& (forall|k: int| 0 <= k < pre.len() ==> #[trigger] post[k] == pre[k])
        &&& ({
            let u = post.last();
            &&& u.fid == fid
            &&& opt_str(u.wallet) == Some(address)
            &&& u.created_at_ms == now
            &&& !u.is_npc
            &&& u.elo == 1000
            &&& u.display_name is None
            &&& u.ai_persona_json is None
        })
    }
}

/// The wallet-link table after re-linking the canonical (lowercase)
/// address to `fid`: an existing link for that address is removed, and a
/// fresh one appended.
pub open spec fn wallet_relinked(
    pre: Seq<WalletLink>,
    post: Seq<WalletLink>,
    now: int,
    fid: int,
    canonical: Seq<char>,
) -> bool {
    let kept = if has_match(pre, wallet_key(canonical)) {
        pre.remove(first_at(pre, wallet_key(canonical)))
    } else {
        pre
    };
    &&& post.len() == kept.len() + 1
    &&& (forall|k: int| 0 <= k < kept.len() ==> #[trigger] post[k] == kept[k])
    &&& post.last().address@ == canonical
    &&& post.last().fid == fid
    &&& post.last().linked_at_ms == now
}

/// Links a wallet address to an account: upserts the user row and makes
/// the canonical lowercase address point at this account, displacing any
/// previous link for the same address.
pub fn link_wallet(s: &mut GameState, now_ms: i64, fid: i64, address: String)
    ensures
        wallet_user_upserted(old(s).users@, final(s).users@, now_ms as int, fid as int, address@),
        wallet_relinked(
            old(s).wallet_links@,
            final(s).wallet_links@,
            now_ms as int,
            fid as int,
            lower_of(address@),
        ),
        (*final(s) == GameState {
            users: final(s).users,
            wallet_links: final(s).wallet_links,
            ..*old(s)
        }),
{
    match find_user(&s.users, fid) {
        Some(i) => {
            proof {
                lemma_first(s.users@, user_key(fid as int), i as int);
            }
            s.users[i].wallet = Some(address.clone());
        },
        None => {
            let u = User {
                fid,
                wallet: Some(address.clone()),
                created_at_ms: now_ms,
                is_npc: false,
                elo: 1000,
                display_name: None,
                ai_persona_json: None,
            };
            s.users.push(u);
        },
    }
    let canonical = normalize(address.as_str());
    match find_wallet(&s.wallet_links, canonical.as_str()) {
        Some(i) => {
            proof {
                lemma_first(s.wallet_links@, wallet_key(canonical@), i as int);
            }
            s.wallet_links.remove(i);
        },
        None => {},
    }
    let link = WalletLink { address: canonical, fid, linked_at_ms: now_ms };
    s.wallet_links.push(link);
}

// ---- the starter grant ----

pub open spec fn player_ids(ps: Seq<StarterPlayer>) -> Seq<Seq<char>> {
    ps.map_values(|p: StarterPlayer| p.player_id@)
}

/// The indices among the first `t` players whose item is appended rather
/// than overwritten: their id is neither in the ledger nor used by an
/// earlier player of the batch.
pub open spec fn appended_players(
    pre_items: Seq<InventoryItem>,
    ps: Seq<StarterPlayer>,
    t: int,
) -> Seq<int>
    decreases t,
{
    if t <= 0 {
        Seq::empty()
    } else {
        let m = appended_players(pre_items, ps, t - 1);
        let idv = ps[t - 1].player_id@;
        if has_match(pre_items, item_key(idv)) || player_ids(ps).take(t - 1).contains(idv) {
            m
        } else {
            m.push(t - 1)
        }
    }
}

/// Every index in `appended_players(.., t)` lies below `t`.
proof fn lemma_appended_range(pre_items: Seq<InventoryItem>, ps: Seq<StarterPlayer>, t: int)
    ensures
        forall|w: int|
            0 <= w < appended_players(pre_items, ps, t).len() ==> 0 <= #[trigger] appended_players(
                pre_items,
                ps,
                t,
            )[w] < t,
    decreases t,
{
    if t > 0 {
        lemma_appended_range(pre_items, ps, t - 1);
        let m = appended_players(pre_items, ps, t - 1);
        let a = appended_players(pre_items, ps, t);
        assert forall|w: int| 0 <= w < a.len() implies 0 <= #[trigger] a[w] < t by {
            if w < m.len() {
                assert(a[w] == m[w]);
            }
        }
    }
}

/// An id granted by the batch but absent from the ledger has an appended
/// row: some batch position in `appended_players` carries it.
proof fn lemma_id_appended(
    pre_items: Seq<InventoryItem>,
    ps: Seq<StarterPlayer>,
    t: int,
    idv: Seq<char>,
)
    requires
        !has_match(pre_items, item_key(idv)),
        0 <= t <= ps.len(),
        player_ids(ps).take(t).contains(idv),
    ensures
        exists|w: int|
            0 <= w < appended_players(pre_items, ps, t).len() && ps[#[trigger] appended_players(
                pre_items,
                ps,
                t,
            )[w]].player_id@ == idv,
    decreases t,
{
    let added = appended_players(pre_items, ps, t);
    let m = appended_players(pre_items, ps, t - 1);
    if player_ids(ps).take(t - 1).contains(idv) {
        lemma_id_appended(pre_items, ps, t - 1, idv);
        let w = choose|w: int| 0 <= w < m.len() && ps[m[w]].player_id@ == idv;
        assert(added[w] == m[w]);
        assert(ps[added[w]].player_id@ == idv);
    } else {
        let u = choose|u: int| 0 <= u < t && #[trigger] player_ids(ps).take(t)[u] == idv;
        assert(u == t - 1) by {
            if u < t - 1 {
                assert(player_ids(ps).take(t - 1)[u] == idv);
            }
        }
        assert(ps[t - 1].player_id@ == idv);
        assert(added == m.push(t - 1));
        assert(ps[added[m.len() as int]].player_id@ == idv);
    }
}

/// A granted inventory row: a player item owned by `fid`, acquired now,
/// held until `now + HOLD_MS`, with the grant event as provenance.
pub open spec fn granted_fields(
    it: InventoryItem,
    idv: Seq<char>,
    fid: int,
    now: int,
    eid: Seq<char>,
) -> bool {
    &&& it.item_id@ == idv
    &&& it.owner_fid == fid
    &&& it.item_type == ItemKind::Player
    &&& it.acquired_at_ms == now
    &&& it.hold_until_ms == now + HOLD_MS
    &&& it.source_event_id@ == eid
}

/// The ledger after granting `ps` to `fid`: for each granted id, the first
/// ledger row with that id is overwritten in place (re-granting replaces
/// rows whoever owned them), and ids new to the ledger are appended in
/// batch order.
pub open spec fn items_granted(
    pre: Seq<InventoryItem>,
    post: Seq<InventoryItem>,
    ps: Seq<StarterPlayer>,
    t: int,
    fid: int,
    now: int,
    eid: Seq<char>,
) -> bool {
    let added = appended_players(pre, ps, t);
    &&& post.len() == pre.len() + added.len()
    &&& (forall|k: int|
        0 <= k < pre.len() ==> #[trigger] post[k] == (if is_first(
            pre,
            item_key(pre[k].item_id@),
            k,
        ) && player_ids(ps).take(t).contains(pre[k].item_id@) {
            (InventoryItem {
                owner_fid: fid as i64,
                item_type: ItemKind::Player,
                acquired_at_ms: now as i64,
                hold_until_ms: (now + HOLD_MS) as i64,
                source_event_id: post[k].source_event_id,
                ..pre[k]
            })
        } else {
            pre[k]
        }))
    &&& (forall|k: int|
        0 <= k < pre.len() && is_first(pre, item_key(pre[k].item_id@), k) && player_ids(
            ps,
        ).take(t).contains(pre[k].item_id@) ==> (#[trigger] post[k]).source_event_id@ == eid)
    &&& (forall|u: int|
        0 <= u < added.len() ==> granted_fields(
            #[trigger] post[pre.len() + u],
            ps[added[u]].player_id@,
            fid,
            now,
            eid,
        ))
}

/// Grants a starter pack once per account: the payload is validated before
/// any write (`InvalidPayload` for a malformed one, `NoPlayers` for an
/// empty list), a prior claim fails the call, and on success the claim is
/// recorded, a canonicalized grant event is appended, one player item per
/// listed player is issued under a uniform hold period, and the account is
/// notified. `canonical_json` is the canonical serialized form of the
/// payload, which the grant event records.
pub fn grant_starter_pack(
    s: &mut GameState,
    now_ms: i64,
    fid: i64,
    payload: Option<StarterPackPayload>,
    canonical_json: String,
) -> (r: Result<(), OpError>)
    requires
        now_ms + HOLD_MS <= i64::MAX,
    ensures
        match r {
            Ok(()) => {
                let ps = payload->0.players@;
                let eid = derived_id(
                    "evt"@,
                    now_ms as int,
                    event_id_extra("starter_pack_granted"@, fid as int),
                );
                &&& payload is Some
                &&& ps.len() > 0
                &&& !has_match(old(s).starter_claims@, claim_key(fid as int))
                &&& final(s).starter_claims@ =~= old(s).starter_claims@.push(
                    final(s).starter_claims@.last(),
                )
                &&& final(s).starter_claims@.last() == (StarterClaim {
                    fid,
                    claimed_at_ms: now_ms,
                })
                &&& final(s).events@ =~= old(s).events@.push(final(s).events@.last())
                &&& event_fields(
                    final(s).events@.last(),
                    now_ms as int,
                    "starter_pack_granted"@,
                    fid as int,
                    canonical_json@,
                    None,
                )
                &&& items_granted(
                    old(s).items@,
                    final(s).items@,
                    ps,
                    ps.len() as int,
                    fid as int,
                    now_ms as int,
                    eid,
                )
                &&& final(s).inbox@ =~= old(s).inbox@.push(final(s).inbox@.last())
                &&& inbox_fields(
                    final(s).inbox@.last(),
                    now_ms as int,
                    fid as int,
                    "starter-"@ + eid,
                    "starter_pack"@,
                    "Starter Pack Granted"@,
                    "You received new players from your starter pack."@,
                )
                &&& (*final(s) == GameState {
                    starter_claims: final(s).starter_claims,
                    events: final(s).events,
                    items: final(s).items,
                    inbox: final(s).inbox,
                    ..*old(s)
                })
            },
            Err(e) => {
                &&& *final(s) == *old(s)
                &&& (match payload {
                    None => e == OpError::InvalidPayload,
                    Some(p) => {
                        if p.players@.len() == 0 {
                            e == OpError::NoPlayers
                        } else {
                            e == OpError::AlreadyClaimed && has_match(
                                old(s).starter_claims@,
                                claim_key(fid as int),
                            )
                        }
                    },
                })
            },
        },
{
    // fail-fast: validate the payload entirely before any write
    let pack = match payload {
        None => {
            return Err(OpError::InvalidPayload);
        },
        Some(p) => p,
    };
    if pack.players.len() == 0 {
        return Err(OpError::NoPlayers);
    }
    match find_claim(&s.starter_claims, fid) {
        Some(i) => {
            proof {
                lemma_first(s.starter_claims@, claim_key(fid as int), i as int);
            }
            return Err(OpError::AlreadyClaimed);
        },
        None => {},
    }
    let ghost pre = *old(s);
    let ghost cj = canonical_json@;
    s.starter_claims.push(StarterClaim { fid, claimed_at_ms: now_ms });
    let eid = append_event(s, now_ms, "starter_pack_granted", fid, canonical_json, None);
    let ghost ps = pack.players@;
    let hold_until = now_ms + HOLD_MS;
    let n = pack.players.len();
    let mut t: usize = 0;
    while t < n
        invariant
            t <= n,
            n == ps.len(),
            ps == pack.players@,
            hold_until == now_ms + HOLD_MS,
            eid@ == derived_id(
                "evt"@,
                now_ms as int,
                event_id_extra("starter_pack_granted"@, fid as int),
            ),
            items_granted(
                pre.items@,
                s.items@,
                ps,
                t as int,
                fid as int,
                now_ms as int,
                eid@,
            ),
            (*s == GameState {
                starter_claims: s.starter_claims,
                events: s.events,
                items: s.items,
                ..pre
            }),
            s.starter_claims@ == pre.starter_claims@.push(
                StarterClaim { fid, claimed_at_ms: now_ms },
            ),
            s.events@ =~= pre.events@.push(s.events@.last()),
            cj == canonical_json@,
            event_fields(
                s.events@.last(),
                now_ms as int,
                "starter_pack_granted"@,
                fid as int,
                cj,
                None,
            ),
        decreases n - t,
    {
        let ghost added_t = appended_players(pre.items@, ps, t as int);
        proof {
            lemma_appended_range(pre.items@, ps, t as int);
        }
        let idv = &pack.players[t].player_id;
        match find_item(&s.items, idv.as_str()) {
            Some(j) => {
                proof {
                    lemma_first(s.items@, item_key(idv@), j as int);
                    lemma_appended_range(pre.items@, ps, t as int);
                    if (j as int) < pre.items@.len() {
                        assert(s.items@[j as int].item_id@ == pre.items@[j as int].item_id@);
                        assert(is_first(pre.items@, item_key(idv@), j as int)) by {
                            assert forall|x: int| 0 <= x < j implies !(item_key(idv@))(
                                pre.items@[x],
                            ) by {
                                assert(s.items@[x].item_id@ == pre.items@[x].item_id@);
                            }
                        }
                        assert(has_match(pre.items@, item_key(idv@)));
                        assert(is_first(pre.items@, item_key(pre.items@[j as int].item_id@), j as int));
                    } else {
                        let u = j as int - pre.items@.len();
                        assert(granted_fields(
                            s.items@[pre.items@.len() + u],
                            ps[added_t[u]].player_id@,
                            fid as int,
                            now_ms as int,
                            eid@,
                        ));
                        assert(player_ids(ps)[added_t[u]] == ps[added_t[u]].player_id@);
                        assert(0 <= added_t[u] < t);
                        assert(player_ids(ps).take(t as int)[added_t[u]] == idv@);
                        assert(player_ids(ps).take(t as int).contains(idv@));
                    }
                }
                s.items[j].owner_fid = fid;
                s.items[j].item_type = ItemKind::Player;
                s.items[j].acquired_at_ms = now_ms;
                s.items[j].hold_until_ms = hold_until;
                s.items[j].source_event_id = eid.clone();
            },
            None => {
                proof {
                    assert(!has_match(pre.items@, item_key(idv@))) by {
                        if has_match(pre.items@, item_key(idv@)) {
                            let j = choose|j: int|
                                0 <= j < pre.items@.len() && (item_key(idv@))(pre.items@[j]);
                            assert(s.items@[j].item_id@ == pre.items@[j].item_id@);
                            assert((item_key(idv@))(s.items@[j]));
                            assert(has_match(s.items@, item_key(idv@)));
                        }
                    }
                    assert(!player_ids(ps).take(t as int).contains(idv@)) by {
                        if player_ids(ps).take(t as int).contains(idv@) {
                            lemma_id_appended(pre.items@, ps, t as int, idv@);
                            let w = choose|w: int|
                                0 <= w < added_t.len() && ps[added_t[w]].player_id@ == idv@;
                            assert(granted_fields(
                                s.items@[pre.items@.len() + w],
                                ps[added_t[w]].player_id@,
                                fid as int,
                                now_ms as int,
                                eid@,
                            ));
                            assert((item_key(idv@))(s.items@[pre.items@.len() + w]));
                            assert(has_match(s.items@, item_key(idv@)));
                        }
                    }
                }
                let it = InventoryItem {
                    item_id: idv.clone(),
                    owner_fid: fid,
                    item_type: ItemKind::Player,
                    acquired_at_ms: now_ms,
                    hold_until_ms: hold_until,
                    source_event_id: eid.clone(),
                };
                s.items.push(it);
            },
        }
        proof {
            let tt = t as int;
            lemma_appended_range(pre.items@, ps, tt + 1);
            assert(player_ids(ps).take(tt + 1) =~= player_ids(ps).take(tt).push(
                ps[tt].player_id@,
            ));
            assert(player_ids(ps).take(tt + 1)[tt] == ps[tt].player_id@);
            assert forall|k: int|
                0 <= k < pre.items@.len() implies #[trigger] s.items@[k] == (if is_first(
                pre.items@,
                item_key(pre.items@[k].item_id@),
                k,
            ) && player_ids(ps).take(tt + 1).contains(pre.items@[k].item_id@) {
                (InventoryItem {
                    owner_fid: fid,
                    item_type: ItemKind::Player,
                    acquired_at_ms: now_ms,
                    hold_until_ms: (now_ms + HOLD_MS) as i64,
                    source_event_id: s.items@[k].source_event_id,
                    ..pre.items@[k]
                })
            } else {
                pre.items@[k]
            }) by {
                let idk = pre.items@[k].item_id@;
                if player_ids(ps).take(tt + 1).contains(idk) && !player_ids(ps).take(tt).contains(
                    idk,
                ) {
                    let u = choose|u: int|
                        0 <= u < tt + 1 && #[trigger] player_ids(ps).take(tt + 1)[u] == idk;
                    if u < tt {
                        assert(player_ids(ps).take(tt)[u] == idk);
                        assert(player_ids(ps).take(tt).contains(idk));
                    }
                    assert(idk == ps[tt].player_id@);
                }
                if player_ids(ps).take(tt).contains(idk) {
                    let u = choose|u: int|
                        0 <= u < tt && #[trigger] player_ids(ps).take(tt)[u] == idk;
                    assert(player_ids(ps).take(tt + 1)[u] == idk);
                    assert(player_ids(ps).take(tt + 1).contains(idk));
                }
            }
        }
        t = t + 1;
    }
    proof {
        assert(player_ids(ps).take(n as int) =~= player_ids(ps));
    }
    let mut msg = String::from_str("starter-");
    msg.append(eid.as_str());
    push_inbox(
        s,
        now_ms,
        fid,
        msg,
        "starter_pack",
        "Starter Pack Granted",
        "You received new players from your starter pack.",
    );
    Ok(())
}

} // verus!
