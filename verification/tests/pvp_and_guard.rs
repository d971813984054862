use footballcaster::pvp::{
    pvp_create_challenge, pvp_accept, pvp_submit_result, have_pending_pvp_between,
    validate_pvp_result_json,
};
use footballcaster::guard::{mark_tx_used, idempotency_check, idempotency_store};
use footballcaster::rows::{MatchStatus, OpError};
use footballcaster::state::GameState;

const DEV: i64 = 250704;

#[test]
fn duplicate_pending_challenge_is_rejected_in_either_direction() {
    let mut s = GameState::new(DEV);
    assert_eq!(pvp_create_challenge(&mut s, 0, 1, 2), Ok(()));
    assert!(have_pending_pvp_between(&s, 1, 2));
    assert!(have_pending_pvp_between(&s, 2, 1));
    assert_eq!(pvp_create_challenge(&mut s, 1, 2, 1), Err(OpError::DuplicatePending));
    assert_eq!(pvp_create_challenge(&mut s, 1, 1, 2), Err(OpError::DuplicatePending));
    assert_eq!(s.pvp_matches.len(), 1);
    // the challenged party was notified
    assert_eq!(s.inbox.len(), 1);
    assert_eq!(s.inbox[0].fid, 2);
    assert_eq!(s.inbox[0].body, "FID 1 challenged you.");
}

#[test]
fn self_challenge_is_rejected() {
    let mut s = GameState::new(DEV);
    assert_eq!(pvp_create_challenge(&mut s, 0, 3, 3), Err(OpError::SelfChallenge));
    assert!(s.pvp_matches.is_empty());
}

#[test]
fn accept_requires_the_challenged_party() {
    let mut s = GameState::new(DEV);
    pvp_create_challenge(&mut s, 0, 1, 2).unwrap();
    let id = s.pvp_matches[0].id.clone();
    assert_eq!(pvp_accept(&mut s, 5, "missing", 2), Err(OpError::MatchNotFound));
    assert_eq!(pvp_accept(&mut s, 5, &id, 1), Err(OpError::NotChallenged));
    assert_eq!(pvp_accept(&mut s, 5, &id, 2), Ok(()));
    assert_eq!(s.pvp_matches[0].status, MatchStatus::Active);
    assert_eq!(s.pvp_matches[0].accepted_at_ms, Some(5));
    // a second accept finds the match no longer pending
    assert_eq!(pvp_accept(&mut s, 6, &id, 2), Err(OpError::InvalidState));
    // once accepted, a fresh challenge between the same pair is allowed
    assert_eq!(pvp_create_challenge(&mut s, 7, 2, 1), Ok(()));
}

#[test]
fn result_scores_must_be_in_range() {
    let mut s = GameState::new(DEV);
    pvp_create_challenge(&mut s, 0, 1, 2).unwrap();
    let id = s.pvp_matches[0].id.clone();
    assert_eq!(
        pvp_submit_result(&mut s, 5, &id, 1, String::from("{\"home\":2,\"away\":1}")),
        Err(OpError::InvalidState)
    );
    pvp_accept(&mut s, 5, &id, 2).unwrap();
    assert_eq!(
        pvp_submit_result(&mut s, 6, &id, 9, String::from("{\"home\":2,\"away\":1}")),
        Err(OpError::NotParticipant)
    );
    assert_eq!(
        pvp_submit_result(&mut s, 6, &id, 1, String::from("{\"home\":21,\"away\":2}")),
        Err(OpError::ScoreOutOfRange)
    );
    assert_eq!(
        pvp_submit_result(&mut s, 6, &id, 1, String::from("{\"home\":-1,\"away\":2}")),
        Err(OpError::NegativeScore)
    );
    assert_eq!(
        pvp_submit_result(&mut s, 6, &id, 1, String::from("not json")),
        Err(OpError::InvalidJson)
    );
    assert_eq!(
        pvp_submit_result(&mut s, 6, &id, 1, String::from("{\"away\":2}")),
        Err(OpError::MissingHome)
    );
    assert_eq!(
        pvp_submit_result(&mut s, 6, &id, 1, String::from("{\"home\":2}")),
        Err(OpError::MissingAway)
    );
    assert_eq!(
        pvp_submit_result(&mut s, 6, &id, 1, String::from("{\"home\":2,\"away\":1}")),
        Ok(())
    );
    assert_eq!(s.pvp_matches[0].status, MatchStatus::Finalized);
    assert_eq!(
        s.pvp_matches[0].result_json.as_deref(),
        Some("{\"home\":2,\"away\":1}")
    );
    // first valid submission wins: the match is finalized for good
    assert_eq!(
        pvp_submit_result(&mut s, 7, &id, 2, String::from("{\"home\":0,\"away\":0}")),
        Err(OpError::InvalidState)
    );
}

#[test]
fn validate_pvp_result_json_reads_scores() {
    assert_eq!(
        validate_pvp_result_json("{\"home\":3,\"away\":20}"),
        Ok((3, 20))
    );
    assert_eq!(
        validate_pvp_result_json("{\"home\":3,\"away\":21}"),
        Err(OpError::ScoreOutOfRange)
    );
    assert_eq!(validate_pvp_result_json("[]"), Err(OpError::MissingHome));
}

#[test]
fn replaying_a_transaction_reference_fails() {
    let mut s = GameState::new(DEV);
    assert_eq!(
        mark_tx_used(&mut s, 10, String::from("0xabc"), 1, String::from("listing_buy")),
        Ok(())
    );
    let before = s.tx_used.len();
    assert_eq!(
        mark_tx_used(&mut s, 11, String::from("0xabc"), 2, String::from("listing_buy")),
        Err(OpError::TxAlreadyUsed)
    );
    assert_eq!(s.tx_used.len(), before);
    assert_eq!(s.tx_used[0].used_by_fid, 1);
    assert_eq!(s.tx_used[0].used_at_ms, 10);
    assert_eq!(
        mark_tx_used(&mut s, 12, String::from("0xdef"), 2, String::from("listing_buy")),
        Ok(())
    );
}

#[test]
fn cached_response_replays_within_ttl() {
    let mut s = GameState::new(DEV);
    assert!(idempotency_store(
        &mut s,
        100,
        String::from("req-1"),
        String::from("grant"),
        String::from("{\"ok\":true}"),
        1000,
    ));
    // first caller wins
    assert!(!idempotency_store(
        &mut s,
        150,
        String::from("req-1"),
        String::from("grant"),
        String::from("{\"ok\":false}"),
        1000,
    ));
    assert_eq!(
        idempotency_check(&s, 500, "req-1", "grant").as_deref(),
        Some("{\"ok\":true}")
    );
    // after the ttl elapses nothing is replayed
    assert_eq!(idempotency_check(&s, 1100, "req-1", "grant"), None);
    // a different endpoint is a different key
    assert_eq!(idempotency_check(&s, 500, "req-1", "other"), None);
}
