//! Ledger primitives: the audit-trail event log, notification emission,
//! and the ownership-transfer protocol with its registry mirror sync.

use vstd::prelude::*;
use crate::rows::{Inbox, InventoryItem, ItemKind, NpcRegistry, SquadRegistry, Event, OpError};
use crate::state::{
    GameState, is_first, has_match, first_at, lemma_first, item_key, npc_token_key,
    squad_token_key, inbox_key, find_item, find_npc_by_token, find_squad_by_token, find_inbox,
};
use crate::ids::{derived_id, new_id};
use crate::text::{dec_int, i64_dec};

verus! {

pub open spec fn opt_str(o: Option<String>) -> Option<Seq<char>> {
    match o {
        Some(t) => Some(t@),
        None => None,
    }
}

/// The name an event's identifier is derived from.
pub open spec fn event_id_extra(kind: Seq<char>, actor: int) -> Seq<char> {
    kind + ":"@ + dec_int(actor)
}

pub open spec fn event_fields(
    e: Event,
    now: int,
    kind: Seq<char>,
    actor: int,
    payload: Seq<char>,
    topic: Option<Seq<char>>,
) -> bool {
    &&& e.id@ == derived_id("evt"@, now, event_id_extra(kind, actor))
    &&& e.ts_ms == now
    &&& e.kind@ == kind
    &&& e.actor_fid == actor
    &&& e.payload_json@ == payload
    &&& opt_str(e.topic_id) == topic
}

/// Appends one audit-trail entry and returns its identifier.
pub fn append_event(
    s: &mut GameState,
    now_ms: i64,
    kind: &str,
    actor_fid: i64,
    payload_json: String,
    topic_id: Option<String>,
) -> (eid: String)
    ensures
        eid@ == derived_id("evt"@, now_ms as int, event_id_extra(kind@, actor_fid as int)),
        final(s).events@ =~= old(s).events@.push(final(s).events@.last()),
        event_fields(
            final(s).events@.last(),
            now_ms as int,
            kind@,
            actor_fid as int,
            payload_json@,
            opt_str(topic_id),
        ),
        (*final(s) == GameState { events: final(s).events, ..*old(s) }),
{
    let mut extra = String::from_str(kind);
    extra.append(":");
    let actor_dec = i64_dec(actor_fid);
    extra.append(actor_dec.as_str());
    let id = new_id("evt", now_ms, extra.as_str());
    let eid = id.clone();
    let e = Event {
        id,
        ts_ms: now_ms,
        kind: String::from_str(kind),
        actor_fid,
        topic_id,
        payload_json,
    };
    s.events.push(e);
    eid
}

pub open spec fn inbox_fields(
    m: Inbox,
    now: int,
    fid: int,
    msg_id: Seq<char>,
    kind: Seq<char>,
    title: Seq<char>,
    body: Seq<char>,
) -> bool {
    &&& m.msg_id@ == msg_id
    &&& m.fid == fid
    &&& m.kind@ == kind
    &&& m.title@ == title
    &&& m.body@ == body
    &&& m.created_at_ms == now
    &&& m.read_at_ms is None
}

/// Enqueues one notification for `fid`.
pub fn push_inbox(
    s: &mut GameState,
    now_ms: i64,
    fid: i64,
    msg_id: String,
    kind: &str,
    title: &str,
    body: &str,
)
    ensures
        final(s).inbox@ =~= old(s).inbox@.push(final(s).inbox@.last()),
        inbox_fields(
            final(s).inbox@.last(),
            now_ms as int,
            fid as int,
            msg_id@,
            kind@,
            title@,
            body@,
        ),
        (*final(s) == GameState { inbox: final(s).inbox, ..*old(s) }),
{
    let m = Inbox {
        msg_id,
        fid,
        kind: String::from_str(kind),
        title: String::from_str(title),
        body: String::from_str(body),
        created_at_ms: now_ms,
        read_at_ms: None,
    };
    s.inbox.push(m);
}

/// The item at `i` re-owned by `to`, with a fresh acquisition stamp and
/// provenance event; every other item untouched.
pub open spec fn item_reowned(
    pre: Seq<InventoryItem>,
    post: Seq<InventoryItem>,
    i: int,
    to: int,
    now: int,
    event_id: Seq<char>,
) -> bool {
    &&& post.len() == pre.len()
    &&& (forall|j: int| 0 <= j < pre.len() && j != i ==> #[trigger] post[j] == pre[j])
    &&& post[i].item_id@ == pre[i].item_id@
    &&& post[i].owner_fid == to
    &&& post[i].item_type == pre[i].item_type
    &&& post[i].acquired_at_ms == now
    &&& post[i].hold_until_ms == pre[i].hold_until_ms
    &&& post[i].source_event_id@ == event_id
}

/// Atomic ownership reassignment: succeeds only when the item exists and
/// `from` is its current owner, and then re-stamps it to `to`.
pub fn transfer_item(
    s: &mut GameState,
    now_ms: i64,
    item_id: &str,
    from_fid: i64,
    to_fid: i64,
    event_id: &str,
) -> (r: Result<(), OpError>)
    ensures
        match r {
            Ok(()) => {
                &&& has_match(old(s).items@, item_key(item_id@))
                &&& old(s).items@[first_at(old(s).items@, item_key(item_id@))].owner_fid
                    == from_fid
                &&& item_reowned(
                    old(s).items@,
                    final(s).items@,
                    first_at(old(s).items@, item_key(item_id@)),
                    to_fid as int,
                    now_ms as int,
                    event_id@,
                )
                &&& (*final(s) == GameState { items: final(s).items, ..*old(s) })
            },
            Err(e) => {
                &&& *final(s) == *old(s)
                &&& (e == OpError::ItemNotFound <==> !has_match(old(s).items@, item_key(item_id@)))
                &&& (e == OpError::NotOwner <==> has_match(old(s).items@, item_key(item_id@))
                    && old(s).items@[first_at(old(s).items@, item_key(item_id@))].owner_fid
                    != from_fid)
                &&& (e == OpError::ItemNotFound || e == OpError::NotOwner)
            },
        },
{
    match find_item(&s.items, item_id) {
        None => Err(OpError::ItemNotFound),
        Some(i) => {
            proof {
                lemma_first(s.items@, item_key(item_id@), i as int);
            }
            if s.items[i].owner_fid != from_fid {
                return Err(OpError::NotOwner);
            }
            s.items[i].owner_fid = to_fid;
            s.items[i].acquired_at_ms = now_ms;
            s.items[i].source_event_id = String::from_str(event_id);
            Ok(())
        },
    }
}

/// The NPC registry after re-pointing the owner mirror of token `tok` to
/// `to`: the first row holding that token (if any) carries the new owner,
/// every other row is untouched.
pub open spec fn npc_owner_updated(
    pre: Seq<NpcRegistry>,
    post: Seq<NpcRegistry>,
    tok: Seq<char>,
    to: int,
) -> bool {
    if has_match(pre, npc_token_key(tok)) {
        let j = first_at(pre, npc_token_key(tok));
        &&& post.len() == pre.len()
        &&& (forall|k: int| 0 <= k < pre.len() && k != j ==> #[trigger] post[k] == pre[k])
        &&& post[j] == (NpcRegistry { owner_fid: Some(to as i64), ..pre[j] })
    } else {
        post == pre
    }
}

/// The squad registry counterpart of `npc_owner_updated`.
pub open spec fn squad_owner_updated(
    pre: Seq<SquadRegistry>,
    post: Seq<SquadRegistry>,
    tok: Seq<char>,
    to: int,
) -> bool {
    if has_match(pre, squad_token_key(tok)) {
        let j = first_at(pre, squad_token_key(tok));
        &&& post.len() == pre.len()
        &&& (forall|k: int| 0 <= k < pre.len() && k != j ==> #[trigger] post[k] == pre[k])
        &&& post[j] == (SquadRegistry { owner_fid: to as i64, ..pre[j] })
    } else {
        post == pre
    }
}

/// The registry mirrors after the sync step for a transfer of an item of
/// kind `kind` with id `item_id` to `to`: only the kind's own registry may
/// change, and only by re-pointing the mirrored owner.
pub open spec fn registries_synced(
    pre: GameState,
    post: GameState,
    kind: ItemKind,
    item_id: Seq<char>,
    to: int,
) -> bool {
    match kind {
        ItemKind::Player => post.npcs@ == pre.npcs@ && post.squads@ == pre.squads@,
        ItemKind::NpcManager => post.squads@ == pre.squads@ && npc_owner_updated(
            pre.npcs@,
            post.npcs@,
            item_id,
            to,
        ),
        ItemKind::Squad => post.npcs@ == pre.npcs@ && squad_owner_updated(
            pre.squads@,
            post.squads@,
            item_id,
            to,
        ),
    }
}

/// How the registry mirrors relate to the ledger after the sync step for a
/// transfer of `item_id` to `to`: the kind-specific registry row whose token
/// reference is `item_id` (if any) now carries `to` as its owner, and
/// nothing else moved.
pub open spec fn mirror_synced(pre: GameState, post: GameState, item_id: Seq<char>, to: int) -> bool {
    if !has_match(pre.items@, item_key(item_id)) {
        post == pre
    } else {
        let it = pre.items@[first_at(pre.items@, item_key(item_id))];
        &&& (post == GameState { npcs: post.npcs, squads: post.squads, ..pre })
        &&& registries_synced(pre, post, it.item_type, item_id, to)
    }
}

/// Registry mirror sync: after an ownership change of `item_id`, re-points
/// the denormalized owner copy on the kind-specific registry row. A missing
/// row is a benign no-op, not an error.
pub fn on_item_transferred(s: &mut GameState, item_id: &str, to_fid: i64)
    ensures
        mirror_synced(*old(s), *final(s), item_id@, to_fid as int),
{
    match find_item(&s.items, item_id) {
        None => {},
        Some(i) => {
            proof {
                lemma_first(s.items@, item_key(item_id@), i as int);
            }
            match s.items[i].item_type {
                ItemKind::NpcManager => {
                    match find_npc_by_token(&s.npcs, item_id) {
                        Some(j) => {
                            proof {
                                lemma_first(s.npcs@, npc_token_key(item_id@), j as int);
                            }
                            s.npcs[j].owner_fid = Some(to_fid);
                        },
                        None => {},
                    }
                },
                ItemKind::Squad => {
                    match find_squad_by_token(&s.squads, item_id) {
                        Some(j) => {
                            proof {
                                lemma_first(s.squads@, squad_token_key(item_id@), j as int);
                            }
                            s.squads[j].owner_fid = to_fid;
                        },
                        None => {},
                    }
                },
                ItemKind::Player => {},
            }
        },
    }
}

/// A one-field JSON object `{"key":"id"}`, the payload of settlement
/// events.
pub open spec fn json_id_payload(key: Seq<char>, id: Seq<char>) -> Seq<char> {
    "{\""@ + key + "\":\""@ + id + "\"}"@
}

pub fn id_payload(key: &str, id: &str) -> (r: String)
    ensures
        r@ == json_id_payload(key@, id@),
{
    let mut p = String::from_str("{\"");
    p.append(key);
    p.append("\":\"");
    p.append(id);
    p.append("\"}");
    p
}

/// One message marked read, when it exists and belongs to `fid`.
pub open spec fn mark_read_one(inbox: Seq<Inbox>, msg: Seq<char>, fid: i64, now: i64) -> Seq<Inbox> {
    if has_match(inbox, inbox_key(msg)) {
        let i = first_at(inbox, inbox_key(msg));
        if inbox[i].fid == fid {
            inbox.update(i, Inbox { read_at_ms: Some(now), ..inbox[i] })
        } else {
            inbox
        }
    } else {
        inbox
    }
}

pub open spec fn mark_read_all(
    inbox: Seq<Inbox>,
    msgs: Seq<Seq<char>>,
    fid: i64,
    now: i64,
) -> Seq<Inbox>
    decreases msgs.len(),
{
    if msgs.len() == 0 {
        inbox
    } else {
        mark_read_all(mark_read_one(inbox, msgs[0], fid, now), msgs.drop_first(), fid, now)
    }
}

proof fn lemma_mark_read_all_push(inbox: Seq<Inbox>, msgs: Seq<Seq<char>>, m: Seq<char>, fid: i64, now: i64)
    ensures
        mark_read_all(inbox, msgs.push(m), fid, now) == mark_read_one(
            mark_read_all(inbox, msgs, fid, now),
            m,
            fid,
            now,
        ),
    decreases msgs.len(),
{
    reveal_with_fuel(mark_read_all, 3);
    if msgs.len() == 0 {
        assert(msgs.push(m).drop_first() =~= msgs);
        assert(msgs.push(m)[0] == m);
    } else {
        assert(msgs.push(m).drop_first() =~= msgs.drop_first().push(m));
        assert(msgs.push(m)[0] == msgs[0]);
        lemma_mark_read_all_push(mark_read_one(inbox, msgs[0], fid, now), msgs.drop_first(), m, fid, now);
    }
}

/// Marks each listed message of `fid`'s inbox as read now; messages that do
/// not exist or belong to someone else are skipped.
pub fn inbox_mark_read(s: &mut GameState, now_ms: i64, fid: i64, msg_ids: &Vec<String>)
    ensures
        final(s).inbox@ == mark_read_all(
            old(s).inbox@,
            msg_ids@.map_values(|m: String| m@),
            fid,
            now_ms,
        ),
        (*final(s) == GameState { inbox: final(s).inbox, ..*old(s) }),
{
    let ghost views = msg_ids@.map_values(|m: String| m@);
    let n = msg_ids.len();
    let mut k: usize = 0;
    while k < n
        invariant
            k <= n,
            n == msg_ids@.len(),
            views == msg_ids@.map_values(|m: String| m@),
            s.inbox@ == mark_read_all(old(s).inbox@, views.take(k as int), fid, now_ms),
            (*s == GameState { inbox: s.inbox, ..*old(s) }),
        decreases n - k,
    {
        let ghost pre_inbox = s.inbox@;
        let msg = &msg_ids[k];
        match find_inbox(&s.inbox, msg.as_str()) {
            Some(i) => {
                proof {
                    lemma_first(s.inbox@, inbox_key(msg@), i as int);
                }
                if s.inbox[i].fid == fid {
                    s.inbox[i].read_at_ms = Some(now_ms);
                }
            },
            None => {},
        }
        proof {
            assert(s.inbox@ == mark_read_one(pre_inbox, views[k as int], fid, now_ms));
            lemma_mark_read_all_push(old(s).inbox@, views.take(k as int), views[k as int], fid, now_ms);
            assert(views.take(k as int).push(views[k as int]) =~= views.take(k as int + 1));
        }
        k = k + 1;
    }
    proof {
        assert(views.take(n as int) =~= views);
    }
}

} // verus!
