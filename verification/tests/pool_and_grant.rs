use footballcaster::npc::{npc_create, npc_mint_token, npc_assign_for_user, npc_update_state};
use footballcaster::starter::{link_wallet, grant_starter_pack};
use footballcaster::ledger::{transfer_item, on_item_transferred, inbox_mark_read};
use footballcaster::rows::{
    Inbox, InventoryItem, ItemKind, OpError, SquadRegistry, StarterPackPayload, StarterPlayer,
};
use footballcaster::state::GameState;
use footballcaster::wei::parse_wei;
use footballcaster::text::normalize;

const DEV: i64 = 250704;

fn pack(ids: &[&str]) -> StarterPackPayload {
    StarterPackPayload {
        players: ids
            .iter()
            .map(|id| StarterPlayer {
                player_id: String::from(*id),
                name: None,
                position: None,
                rating: Some(80),
            })
            .collect(),
    }
}

#[test]
fn pool_allocation_is_all_or_nothing() {
    let mut s = GameState::new(DEV);
    for fid in [101, 102, 103] {
        npc_create(
            &mut s,
            0,
            fid,
            format!("npc {fid}"),
            7,
            1,
            String::from("0"),
            String::from("{}"),
        );
    }
    // asking for more than the pool holds writes nothing at all
    let snapshot_items = s.items.len();
    let snapshot_assignments = s.npc_assignments.len();
    assert_eq!(npc_assign_for_user(&mut s, 10, 9, 5), Err(OpError::InsufficientPool));
    assert_eq!(s.items.len(), snapshot_items);
    assert_eq!(s.npc_assignments.len(), snapshot_assignments);
    assert!(s.npcs.iter().all(|n| n.owner_fid.is_none()));
    // an exact fit assigns the first entries in storage order
    assert_eq!(npc_assign_for_user(&mut s, 10, 9, 2), Ok(()));
    assert_eq!(s.npcs[0].owner_fid, Some(9));
    assert_eq!(s.npcs[1].owner_fid, Some(9));
    assert_eq!(s.npcs[2].owner_fid, None);
    assert_eq!(s.npc_assignments.len(), 2);
    assert_eq!(s.npc_assignments[0].id, "9:101");
    assert_eq!(s.items.len(), 2);
    assert_eq!(s.items[0].item_id, "npc-101");
    assert_eq!(s.items[0].owner_fid, 9);
    assert_eq!(s.items[0].item_type, ItemKind::NpcManager);
    assert_eq!(s.events.len(), 2);
    assert_eq!(s.events[0].payload_json, "{\"npc_fid\":101}");
    // only one entry is left for the next user
    assert_eq!(npc_assign_for_user(&mut s, 11, 12, 2), Err(OpError::InsufficientPool));
    assert_eq!(npc_assign_for_user(&mut s, 11, 12, 1), Ok(()));
    assert_eq!(s.npcs[2].owner_fid, Some(12));
}

#[test]
fn minting_a_token_is_idempotent() {
    let mut s = GameState::new(DEV);
    npc_create(&mut s, 0, 55, String::from("m"), 1, 1, String::from("0"), String::from("{}"));
    npc_mint_token(&mut s, 5, 55, 9);
    assert_eq!(s.items.len(), 1);
    assert_eq!(s.items[0].item_id, "npc-55");
    assert_eq!(s.npcs[0].token_id.as_deref(), Some("npc-55"));
    assert_eq!(s.npcs[0].owner_fid, Some(9));
    // minting again re-points the registry without duplicating the item
    npc_mint_token(&mut s, 6, 55, 11);
    assert_eq!(s.items.len(), 1);
    assert_eq!(s.items[0].owner_fid, 9);
    assert_eq!(s.npcs[0].owner_fid, Some(11));
}

#[test]
fn transfer_syncs_the_npc_registry_mirror() {
    let mut s = GameState::new(DEV);
    npc_create(&mut s, 0, 55, String::from("m"), 1, 1, String::from("0"), String::from("{}"));
    npc_mint_token(&mut s, 5, 55, 9);
    assert_eq!(transfer_item(&mut s, 50, "npc-55", 8, 13, "evt-x"), Err(OpError::NotOwner));
    assert_eq!(transfer_item(&mut s, 50, "missing", 9, 13, "evt-x"), Err(OpError::ItemNotFound));
    assert_eq!(transfer_item(&mut s, 50, "npc-55", 9, 13, "evt-x"), Ok(()));
    on_item_transferred(&mut s, "npc-55", 13);
    assert_eq!(s.items[0].owner_fid, 13);
    assert_eq!(s.items[0].acquired_at_ms, 50);
    assert_eq!(s.items[0].source_event_id, "evt-x");
    // the registry mirror moved in the same commit
    assert_eq!(s.npcs[0].owner_fid, Some(13));
}

#[test]
fn transfer_syncs_the_squad_registry_mirror() {
    let mut s = GameState::new(DEV);
    s.items.push(InventoryItem {
        item_id: String::from("squad-7"),
        owner_fid: 9,
        item_type: ItemKind::Squad,
        acquired_at_ms: 0,
        hold_until_ms: 0,
        source_event_id: String::from("genesis"),
    });
    s.squads.push(SquadRegistry {
        squad_id: String::from("squad-7"),
        source_fid: 7,
        followers: 10,
        intelligence_score: 50,
        rank: String::from("B"),
        persona: String::from("{}"),
        token_id: String::from("squad-7"),
        owner_fid: 9,
        active: true,
    });
    assert_eq!(transfer_item(&mut s, 50, "squad-7", 9, 13, "evt-x"), Ok(()));
    on_item_transferred(&mut s, "squad-7", 13);
    assert_eq!(s.items[0].owner_fid, 13);
    assert_eq!(s.squads[0].owner_fid, 13);
}

#[test]
fn starter_pack_is_granted_once() {
    let mut s = GameState::new(DEV);
    assert_eq!(
        grant_starter_pack(&mut s, 100, 7, None, String::from("")),
        Err(OpError::InvalidPayload)
    );
    assert_eq!(
        grant_starter_pack(&mut s, 100, 7, Some(pack(&[])), String::from("{\"players\":[]}")),
        Err(OpError::NoPlayers)
    );
    assert!(s.items.is_empty() && s.starter_claims.is_empty() && s.events.is_empty());
    let canonical = String::from("{\"players\":[{\"player_id\":\"p1\"},{\"player_id\":\"p2\"}]}");
    assert_eq!(
        grant_starter_pack(&mut s, 100, 7, Some(pack(&["p1", "p2"])), canonical.clone()),
        Ok(())
    );
    assert_eq!(s.starter_claims.len(), 1);
    assert_eq!(s.starter_claims[0].claimed_at_ms, 100);
    assert_eq!(s.items.len(), 2);
    assert_eq!(s.items[0].item_id, "p1");
    assert_eq!(s.items[0].owner_fid, 7);
    assert_eq!(s.items[0].item_type, ItemKind::Player);
    assert_eq!(s.items[0].hold_until_ms, 100 + 7 * 24 * 60 * 60 * 1000);
    assert_eq!(s.events.len(), 1);
    assert_eq!(s.events[0].payload_json, canonical);
    assert_eq!(s.inbox.len(), 1);
    // the second grant fails and leaves the first grant's inventory alone
    let items_before: Vec<String> = s.items.iter().map(|i| i.item_id.clone()).collect();
    assert_eq!(
        grant_starter_pack(&mut s, 200, 7, Some(pack(&["p3"])), String::from("{}")),
        Err(OpError::AlreadyClaimed)
    );
    let items_after: Vec<String> = s.items.iter().map(|i| i.item_id.clone()).collect();
    assert_eq!(items_before, items_after);
    assert_eq!(s.items[0].acquired_at_ms, 100);
}

#[test]
fn regranting_a_player_id_overwrites_the_row() {
    let mut s = GameState::new(DEV);
    grant_starter_pack(
        &mut s,
        100,
        7,
        Some(pack(&["p1"])),
        String::from("{\"players\":[{\"player_id\":\"p1\"}]}"),
    )
    .unwrap();
    // another account claims a pack naming the same player id
    grant_starter_pack(
        &mut s,
        200,
        8,
        Some(pack(&["p1", "p9"])),
        String::from("{\"players\":[{\"player_id\":\"p1\"},{\"player_id\":\"p9\"}]}"),
    )
    .unwrap();
    assert_eq!(s.items.len(), 2);
    assert_eq!(s.items[0].item_id, "p1");
    assert_eq!(s.items[0].owner_fid, 8);
    assert_eq!(s.items[0].acquired_at_ms, 200);
    assert_eq!(s.items[1].item_id, "p9");
}

#[test]
fn linking_a_wallet_displaces_the_old_link() {
    let mut s = GameState::new(DEV);
    link_wallet(&mut s, 10, 1, String::from("0xAbC"));
    assert_eq!(s.users.len(), 1);
    assert_eq!(s.users[0].wallet.as_deref(), Some("0xAbC"));
    assert_eq!(s.wallet_links.len(), 1);
    assert_eq!(s.wallet_links[0].address, "0xabc");
    assert_eq!(s.wallet_links[0].fid, 1);
    // the same address linked by another account displaces the first link
    link_wallet(&mut s, 20, 2, String::from("0XABC"));
    assert_eq!(s.wallet_links.len(), 1);
    assert_eq!(s.wallet_links[0].address, "0xabc");
    assert_eq!(s.wallet_links[0].fid, 2);
    assert_eq!(s.users.len(), 2);
}

#[test]
fn npc_update_state_touches_only_the_row() {
    let mut s = GameState::new(DEV);
    npc_create(&mut s, 0, 55, String::from("m"), 1, 1, String::from("0"), String::from("{}"));
    npc_update_state(&mut s, 40, 55, 900, String::from("77"));
    assert_eq!(s.npcs[0].next_decision_at_ms, 900);
    assert_eq!(s.npcs[0].budget_fbc_wei, "77");
    assert_eq!(s.npcs[0].last_active_ms, 40);
    // a missing row is a no-op
    npc_update_state(&mut s, 41, 99, 900, String::from("1"));
    assert_eq!(s.npcs.len(), 1);
}

#[test]
fn inbox_mark_read_skips_foreign_messages() {
    let mut s = GameState::new(DEV);
    s.inbox.push(Inbox {
        msg_id: String::from("m1"),
        fid: 1,
        kind: String::from("k"),
        title: String::from("t"),
        body: String::from("b"),
        created_at_ms: 0,
        read_at_ms: None,
    });
    s.inbox.push(Inbox {
        msg_id: String::from("m2"),
        fid: 2,
        kind: String::from("k"),
        title: String::from("t"),
        body: String::from("b"),
        created_at_ms: 0,
        read_at_ms: None,
    });
    let ids = vec![String::from("m1"), String::from("m2"), String::from("missing")];
    inbox_mark_read(&mut s, 77, 1, &ids);
    assert_eq!(s.inbox[0].read_at_ms, Some(77));
    assert_eq!(s.inbox[1].read_at_ms, None);
}

#[test]
fn parse_wei_reads_decimal_strings_exactly() {
    assert_eq!(parse_wei(Some("123")), 123);
    assert_eq!(parse_wei(Some("+7")), 7);
    assert_eq!(parse_wei(Some("-5")), -5);
    assert_eq!(parse_wei(Some("007")), 7);
    assert_eq!(parse_wei(Some("")), 0);
    assert_eq!(parse_wei(Some("12a")), 0);
    assert_eq!(parse_wei(Some("1.5")), 0);
    assert_eq!(parse_wei(None), 0);
    assert_eq!(
        parse_wei(Some("170141183460469231731687303715884105727")),
        i128::MAX
    );
    assert_eq!(parse_wei(Some("170141183460469231731687303715884105728")), 0);
    assert_eq!(
        parse_wei(Some("-170141183460469231731687303715884105728")),
        i128::MIN
    );
    assert_eq!(parse_wei(Some("-170141183460469231731687303715884105729")), 0);
    assert_eq!(parse_wei(Some("999999999999999999999999999999999999999999999999")), 0);
}

#[test]
fn normalize_lowercases_addresses() {
    assert_eq!(normalize("0xAbCdEf"), "0xabcdef");
    assert_eq!(normalize("plain"), "plain");
}
