//! The idempotency guard: write-once markers for external transaction
//! references, and first-caller-wins cached responses for retried client
//! calls. Together they give at-most-once side-effecting execution per
//! logical request.

use vstd::prelude::*;
use crate::rows::{TransactionUsed, Idempotency, OpError};
use crate::state::{
    GameState, has_match, first_at, lemma_first, tx_key, idem_key, find_tx, find_idem,
};

verus! {

/// Marks an externally supplied transaction reference as used, exactly
/// once: replaying the same reference always fails `TxAlreadyUsed` and
/// writes nothing. Verifying the transaction's authenticity is the
/// caller's responsibility, not this guard's.
pub fn mark_tx_used(
    s: &mut GameState,
    now_ms: i64,
    tx_hash: String,
    fid: i64,
    endpoint: String,
) -> (r: Result<(), OpError>)
    ensures
        r is Ok <==> !has_match(old(s).tx_used@, tx_key(tx_hash@)),
        match r {
            Ok(()) => {
                &&& final(s).tx_used@ =~= old(s).tx_used@.push(final(s).tx_used@.last())
                &&& ({
                    let t = final(s).tx_used@.last();
                    &&& t.tx_hash@ == tx_hash@
                    &&& t.used_at_ms == now_ms
                    &&& t.used_by_fid == fid
                    &&& t.endpoint@ == endpoint@
                })
                &&& (*final(s) == GameState { tx_used: final(s).tx_used, ..*old(s) })
            },
            Err(e) => {
                &&& *final(s) == *old(s)
                &&& e == OpError::TxAlreadyUsed
                &&& has_match(old(s).tx_used@, tx_key(tx_hash@))
            },
        },
{
    match find_tx(&s.tx_used, tx_hash.as_str()) {
        Some(i) => {
            proof {
                lemma_first(s.tx_used@, tx_key(tx_hash@), i as int);
            }
            Err(OpError::TxAlreadyUsed)
        },
        None => {
            let t = TransactionUsed { tx_hash, used_at_ms: now_ms, used_by_fid: fid, endpoint };
            s.tx_used.push(t);
            Ok(())
        },
    }
}

/// The canonical response to replay for key `(id, endpoint)` at `now`, if
/// one was stored and its ttl has not elapsed.
pub fn idempotency_check(s: &GameState, now_ms: i64, id: &str, endpoint: &str) -> (r: Option<
    String,
>)
    ensures
        match r {
            Some(resp) => {
                let row = s.idempotency@[first_at(s.idempotency@, idem_key(id@, endpoint@))];
                &&& has_match(s.idempotency@, idem_key(id@, endpoint@))
                &&& now_ms < row.ttl_until_ms
                &&& resp@ == row.response_json@
            },
            None => !has_match(s.idempotency@, idem_key(id@, endpoint@)) || now_ms
                >= s.idempotency@[first_at(s.idempotency@, idem_key(id@, endpoint@))].ttl_until_ms,
        },
{
    match find_idem(&s.idempotency, id, endpoint) {
        None => None,
        Some(i) => {
            proof {
                lemma_first(s.idempotency@, idem_key(id@, endpoint@), i as int);
            }
            if now_ms < s.idempotency[i].ttl_until_ms {
                Some(s.idempotency[i].response_json.clone())
            } else {
                None
            }
        },
    }
}

/// Stores the canonical response for key `(id, endpoint)`; the first
/// caller wins, and a later call with the same key stores nothing and
/// returns false.
pub fn idempotency_store(
    s: &mut GameState,
    now_ms: i64,
    id: String,
    endpoint: String,
    response_json: String,
    ttl_ms: i64,
) -> (stored: bool)
    requires
        i64::MIN <= now_ms + ttl_ms <= i64::MAX,
    ensures
        stored <==> !has_match(old(s).idempotency@, idem_key(id@, endpoint@)),
        stored ==> {
            &&& final(s).idempotency@ =~= old(s).idempotency@.push(final(s).idempotency@.last())
            &&& ({
                let row = final(s).idempotency@.last();
                &&& row.id@ == id@
                &&& row.endpoint@ == endpoint@
                &&& row.first_seen_at_ms == now_ms
                &&& row.response_json@ == response_json@
                &&& row.ttl_until_ms == now_ms + ttl_ms
            })
            &&& (*final(s) == GameState { idempotency: final(s).idempotency, ..*old(s) })
        },
        !stored ==> *final(s) == *old(s),
{
    match find_idem(&s.idempotency, id.as_str(), endpoint.as_str()) {
        Some(i) => {
            proof {
                lemma_first(s.idempotency@, idem_key(id@, endpoint@), i as int);
            }
            false
        },
        None => {
            let row = Idempotency {
                id,
                endpoint,
                first_seen_at_ms: now_ms,
                response_json,
                ttl_until_ms: now_ms + ttl_ms,
            };
            s.idempotency.push(row);
            true
        },
    }
}

} // verus!
