//! The PvP challenge engine: a linear pending → active → finalized match
//! lifecycle with a validated result payload, and the guarantee that an
//! unordered pair of accounts never holds two pending matches at once.

use vstd::prelude::*;
use crate::rows::{PvpMatch, MatchStatus, OpError};
use crate::state::{
    GameState, has_match, first_at, lemma_first, match_key, pending_pair_key, find_match,
    find_pending_pair,
};
use crate::ledger::{opt_str, event_id_extra, event_fields, inbox_fields, append_event, push_inbox};
use crate::ids::derived_id;
use crate::text::{dec_int, i64_dec};

verus! {

// ---- result payload validation ----

/// What reading a result payload can yield: a failure to parse, a missing
/// field, or the two scores.
#[derive(Clone, Copy, PartialEq, Eq, Structural, Debug)]
pub enum ScoreParse {
    BadJson,
    MissingHome,
    MissingAway,
    Scores(i64, i64),
}

/// What `parse_scores` extracts from a payload text; a deterministic
/// function of the text alone.
pub uninterp spec fn score_parse_of(s: Seq<char>) -> ScoreParse;

/// Relies on serde_json::from_str::<Value>, Value::get and Value::as_i64:
/// parsing a text is deterministic; `get` reads a named member of a JSON
/// object, and `as_i64` reads a JSON number as an `i64` when it is an
/// integer that fits.
#[verifier::external_body]
fn parse_scores(s: &str) -> (r: ScoreParse)
    ensures
        r == score_parse_of(s@),
{
    let v: serde_json::Value = match serde_json::from_str(s) {
        Ok(v) => v,
        Err(_) => return ScoreParse::BadJson,
    };
    let home = match v.get("home").and_then(|x| x.as_i64()) {
        Some(h) => h,
        None => return ScoreParse::MissingHome,
    };
    let away = match v.get("away").and_then(|x| x.as_i64()) {
        Some(a) => a,
        None => return ScoreParse::MissingAway,
    };
    ScoreParse::Scores(home, away)
}

/// The verdict on an extracted result: both scores must be integers in
/// `[0, 20]`.
pub open spec fn score_verdict(p: ScoreParse) -> Result<(i64, i64), OpError> {
    match p {
        ScoreParse::BadJson => Err(OpError::InvalidJson),
        ScoreParse::MissingHome => Err(OpError::MissingHome),
        ScoreParse::MissingAway => Err(OpError::MissingAway),
        ScoreParse::Scores(h, a) => if h < 0 || a < 0 {
            Err(OpError::NegativeScore)
        } else if h > 20 || a > 20 {
            Err(OpError::ScoreOutOfRange)
        } else {
            Ok((h, a))
        },
    }
}

/// Judges an extracted result.
pub fn check_scores(p: ScoreParse) -> (r: Result<(i64, i64), OpError>)
    ensures
        r == score_verdict(p),
{
    match p {
        ScoreParse::BadJson => Err(OpError::InvalidJson),
        ScoreParse::MissingHome => Err(OpError::MissingHome),
        ScoreParse::MissingAway => Err(OpError::MissingAway),
        ScoreParse::Scores(h, a) => {
            if h < 0 || a < 0 {
                Err(OpError::NegativeScore)
            } else if h > 20 || a > 20 {
                Err(OpError::ScoreOutOfRange)
            } else {
                Ok((h, a))
            }
        },
    }
}

/// Validates a submitted result payload: a JSON object with integer
/// `home`/`away` scores, both in `[0, 20]`.
pub fn validate_pvp_result_json(json: &str) -> (r: Result<(i64, i64), OpError>)
    ensures
        r == score_verdict(score_parse_of(json@)),
{
    check_scores(parse_scores(json))
}

// ---- the pending-pair invariant ----

/// The two matches involve the same unordered pair of accounts.
pub open spec fn same_pair(x: PvpMatch, y: PvpMatch) -> bool {
    ||| (x.challenger_fid == y.challenger_fid && x.challenged_fid == y.challenged_fid)
    ||| (x.challenger_fid == y.challenged_fid && x.challenged_fid == y.challenger_fid)
}

/// At most one pending match exists per unordered pair of accounts.
pub open spec fn at_most_one_pending(ms: Seq<PvpMatch>) -> bool {
    forall|i: int, j: int|
        0 <= i < j < ms.len() && (#[trigger] ms[i]).status == MatchStatus::Pending
            && (#[trigger] ms[j]).status == MatchStatus::Pending ==> !same_pair(ms[i], ms[j])
}

/// Whether some pending match already links `a` and `b`, in either
/// direction.
pub fn have_pending_pvp_between(s: &GameState, a: i64, b: i64) -> (r: bool)
    ensures
        r == has_match(s.pvp_matches@, pending_pair_key(a as int, b as int)),
{
    match find_pending_pair(&s.pvp_matches, a, b) {
        Some(i) => {
            proof {
                lemma_first(s.pvp_matches@, pending_pair_key(a as int, b as int), i as int);
            }
            true
        },
        None => false,
    }
}

// ---- the operations ----

pub open spec fn create_challenge_err(pre: GameState, challenger: int, challenged: int) -> Option<
    OpError,
> {
    if challenger == challenged {
        Some(OpError::SelfChallenge)
    } else if has_match(pre.pvp_matches@, pending_pair_key(challenger, challenged)) {
        Some(OpError::DuplicatePending)
    } else {
        None
    }
}

pub open spec fn challenge_id_extra(challenger: int, challenged: int) -> Seq<char> {
    dec_int(challenger) + ":"@ + dec_int(challenged)
}

pub open spec fn new_match_fields(m: PvpMatch, now: int, challenger: int, challenged: int) -> bool {
    &&& m.id@ == derived_id("pvp"@, now, challenge_id_extra(challenger, challenged))
    &&& m.challenger_fid == challenger
    &&& m.challenged_fid == challenged
    &&& m.status == MatchStatus::Pending
    &&& m.created_at_ms == now
    &&& m.accepted_at_ms is None
    &&& m.result_json is None
}

/// Creates a pending challenge between two distinct accounts, unless one is
/// already pending between them; emits an event and notifies the
/// challenged party. Preserves the one-pending-match-per-pair invariant.
pub fn pvp_create_challenge(
    s: &mut GameState,
    now_ms: i64,
    challenger_fid: i64,
    challenged_fid: i64,
) -> (r: Result<(), OpError>)
    ensures
        match r {
            Ok(()) => {
                let mid = derived_id(
                    "pvp"@,
                    now_ms as int,
                    challenge_id_extra(challenger_fid as int, challenged_fid as int),
                );
                &&& create_challenge_err(*old(s), challenger_fid as int, challenged_fid as int)
                    is None
                &&& final(s).pvp_matches@ =~= old(s).pvp_matches@.push(
                    final(s).pvp_matches@.last(),
                )
                &&& new_match_fields(
                    final(s).pvp_matches@.last(),
                    now_ms as int,
                    challenger_fid as int,
                    challenged_fid as int,
                )
                &&& final(s).events@ =~= old(s).events@.push(final(s).events@.last())
                &&& event_fields(
                    final(s).events@.last(),
                    now_ms as int,
                    "pvp_match_created"@,
                    challenger_fid as int,
                    "{}"@,
                    Some(mid),
                )
                &&& final(s).inbox@ =~= old(s).inbox@.push(final(s).inbox@.last())
                &&& inbox_fields(
                    final(s).inbox@.last(),
                    now_ms as int,
                    challenged_fid as int,
                    "pvp-challenge-"@ + mid,
                    "pvp_challenge"@,
                    "New Challenge"@,
                    "FID "@ + dec_int(challenger_fid as int) + " challenged you."@,
                )
                &&& (*final(s) == GameState {
                    pvp_matches: final(s).pvp_matches,
                    events: final(s).events,
                    inbox: final(s).inbox,
                    ..*old(s)
                })
            },
            Err(e) => {
                &&& *final(s) == *old(s)
                &&& create_challenge_err(*old(s), challenger_fid as int, challenged_fid as int)
                    == Some(e)
            },
        },
        at_most_one_pending(old(s).pvp_matches@) ==> at_most_one_pending(final(s).pvp_matches@),
{
    if challenger_fid == challenged_fid {
        return Err(OpError::SelfChallenge);
    }
    if have_pending_pvp_between(s, challenger_fid, challenged_fid) {
        return Err(OpError::DuplicatePending);
    }
    let mut extra = i64_dec(challenger_fid);
    extra.append(":");
    let challenged_dec = i64_dec(challenged_fid);
    extra.append(challenged_dec.as_str());
    let id = crate::ids::new_id("pvp", now_ms, extra.as_str());
    let m = PvpMatch {
        id: id.clone(),
        challenger_fid,
        challenged_fid,
        status: MatchStatus::Pending,
        created_at_ms: now_ms,
        accepted_at_ms: None,
        result_json: None,
    };
    s.pvp_matches.push(m);
    proof {
        let pre = old(s).pvp_matches@;
        let post = s.pvp_matches@;
        if at_most_one_pending(pre) {
            assert forall|i: int, j: int|
                0 <= i < j < post.len() && (#[trigger] post[i]).status == MatchStatus::Pending
                    && (#[trigger] post[j]).status == MatchStatus::Pending implies !same_pair(
                post[i],
                post[j],
            ) by {
                if j == pre.len() {
                    if same_pair(post[i], post[j]) {
                        assert((pending_pair_key(
                            challenger_fid as int,
                            challenged_fid as int,
                        ))(pre[i]));
                        assert(has_match(
                            pre,
                            pending_pair_key(challenger_fid as int, challenged_fid as int),
                        ));
                    }
                }
            }
        }
    }
    let _eid = append_event(
        s,
        now_ms,
        "pvp_match_created",
        challenger_fid,
        String::from_str("{}"),
        Some(id.clone()),
    );
    let mut msg = String::from_str("pvp-challenge-");
    msg.append(id.as_str());
    let mut body = String::from_str("FID ");
    let challenger_dec = i64_dec(challenger_fid);
    body.append(challenger_dec.as_str());
    body.append(" challenged you.");
    push_inbox(s, now_ms, challenged_fid, msg, "pvp_challenge", "New Challenge", body.as_str());
    Ok(())
}

pub open spec fn accept_err(pre: GameState, match_id: Seq<char>, accepter: int) -> Option<OpError> {
    if !has_match(pre.pvp_matches@, match_key(match_id)) {
        Some(OpError::MatchNotFound)
    } else {
        let m = pre.pvp_matches@[first_at(pre.pvp_matches@, match_key(match_id))];
        if m.status != MatchStatus::Pending {
            Some(OpError::InvalidState)
        } else if m.challenged_fid != accepter {
            Some(OpError::NotChallenged)
        } else {
            None
        }
    }
}

/// The designated challenged party accepts a pending match, which becomes
/// active. Preserves the one-pending-match-per-pair invariant.
pub fn pvp_accept(s: &mut GameState, now_ms: i64, match_id: &str, accepter_fid: i64) -> (r: Result<
    (),
    OpError,
>)
    ensures
        match r {
            Ok(()) => {
                let mi = first_at(old(s).pvp_matches@, match_key(match_id@));
                &&& accept_err(*old(s), match_id@, accepter_fid as int) is None
                &&& final(s).pvp_matches@ == old(s).pvp_matches@.update(
                    mi,
                    (PvpMatch {
                        status: MatchStatus::Active,
                        accepted_at_ms: Some(now_ms),
                        ..old(s).pvp_matches@[mi]
                    }),
                )
                &&& final(s).events@ =~= old(s).events@.push(final(s).events@.last())
                &&& event_fields(
                    final(s).events@.last(),
                    now_ms as int,
                    "pvp_match_accepted"@,
                    accepter_fid as int,
                    "{}"@,
                    Some(match_id@),
                )
                &&& (*final(s) == GameState {
                    pvp_matches: final(s).pvp_matches,
                    events: final(s).events,
                    ..*old(s)
                })
            },
            Err(e) => {
                &&& *final(s) == *old(s)
                &&& accept_err(*old(s), match_id@, accepter_fid as int) == Some(e)
            },
        },
        at_most_one_pending(old(s).pvp_matches@) ==> at_most_one_pending(final(s).pvp_matches@),
{
    let mi = match find_match(&s.pvp_matches, match_id) {
        None => {
            return Err(OpError::MatchNotFound);
        },
        Some(x) => x,
    };
    proof {
        lemma_first(s.pvp_matches@, match_key(match_id@), mi as int);
    }
    if !matches!(s.pvp_matches[mi].status, MatchStatus::Pending) {
        return Err(OpError::InvalidState);
    }
    if s.pvp_matches[mi].challenged_fid != accepter_fid {
        return Err(OpError::NotChallenged);
    }
    s.pvp_matches[mi].status = MatchStatus::Active;
    s.pvp_matches[mi].accepted_at_ms = Some(now_ms);
    proof {
        assert(s.pvp_matches@ =~= old(s).pvp_matches@.update(
            mi as int,
            (PvpMatch {
                status: MatchStatus::Active,
                accepted_at_ms: Some(now_ms),
                ..old(s).pvp_matches@[mi as int]
            }),
        ));
        let pre = old(s).pvp_matches@;
        let post = s.pvp_matches@;
        if at_most_one_pending(pre) {
            assert forall|i: int, j: int|
                0 <= i < j < post.len() && (#[trigger] post[i]).status == MatchStatus::Pending
                    && (#[trigger] post[j]).status == MatchStatus::Pending implies !same_pair(
                post[i],
                post[j],
            ) by {
                assert(post[i] == pre[i] && post[j] == pre[j]);
            }
        }
    }
    let _eid = append_event(
        s,
        now_ms,
        "pvp_match_accepted",
        accepter_fid,
        String::from_str("{}"),
        Some(String::from_str(match_id)),
    );
    Ok(())
}

pub open spec fn submit_result_err(
    pre: GameState,
    match_id: Seq<char>,
    reporter: int,
    json: Seq<char>,
) -> Option<OpError> {
    if !has_match(pre.pvp_matches@, match_key(match_id)) {
        Some(OpError::MatchNotFound)
    } else {
        let m = pre.pvp_matches@[first_at(pre.pvp_matches@, match_key(match_id))];
        if m.status != MatchStatus::Active {
            Some(OpError::InvalidState)
        } else if m.challenger_fid != reporter && m.challenged_fid != reporter {
            Some(OpError::NotParticipant)
        } else {
            match score_verdict(score_parse_of(json)) {
                Ok(_) => None,
                Err(e) => Some(e),
            }
        }
    }
}

/// A participant submits a result for an active match; the first valid
/// submission wins and finalizes the match, storing the raw validated
/// payload. There is no dispute or correction path once finalized.
/// Preserves the one-pending-match-per-pair invariant.
pub fn pvp_submit_result(
    s: &mut GameState,
    now_ms: i64,
    match_id: &str,
    reporter_fid: i64,
    result_json: String,
) -> (r: Result<(), OpError>)
    ensures
        match r {
            Ok(()) => {
                let mi = first_at(old(s).pvp_matches@, match_key(match_id@));
                &&& submit_result_err(*old(s), match_id@, reporter_fid as int, result_json@)
                    is None
                &&& final(s).pvp_matches@.len() == old(s).pvp_matches@.len()
                &&& (forall|k: int|
                    0 <= k < old(s).pvp_matches@.len() && k != mi
                        ==> #[trigger] final(s).pvp_matches@[k] == old(s).pvp_matches@[k])
                &&& final(s).pvp_matches@[mi] == (PvpMatch {
                    status: MatchStatus::Finalized,
                    result_json: final(s).pvp_matches@[mi].result_json,
                    ..old(s).pvp_matches@[mi]
                })
                &&& opt_str(final(s).pvp_matches@[mi].result_json) == Some(result_json@)
                &&& final(s).events@ =~= old(s).events@.push(final(s).events@.last())
                &&& event_fields(
                    final(s).events@.last(),
                    now_ms as int,
                    "pvp_result_submitted"@,
                    reporter_fid as int,
                    result_json@,
                    Some(match_id@),
                )
                &&& (*final(s) == GameState {
                    pvp_matches: final(s).pvp_matches,
                    events: final(s).events,
                    ..*old(s)
                })
            },
            Err(e) => {
                &&& *final(s) == *old(s)
                &&& submit_result_err(*old(s), match_id@, reporter_fid as int, result_json@)
                    == Some(e)
            },
        },
        at_most_one_pending(old(s).pvp_matches@) ==> at_most_one_pending(final(s).pvp_matches@),
{
    let mi = match find_match(&s.pvp_matches, match_id) {
        None => {
            return Err(OpError::MatchNotFound);
        },
        Some(x) => x,
    };
    proof {
        lemma_first(s.pvp_matches@, match_key(match_id@), mi as int);
    }
    if !matches!(s.pvp_matches[mi].status, MatchStatus::Active) {
        return Err(OpError::InvalidState);
    }
    if s.pvp_matches[mi].challenger_fid != reporter_fid && s.pvp_matches[mi].challenged_fid
        != reporter_fid {
        return Err(OpError::NotParticipant);
    }
    match validate_pvp_result_json(result_json.as_str()) {
        Err(e) => {
            return Err(e);
        },
        Ok(_) => {},
    }
    s.pvp_matches[mi].status = MatchStatus::Finalized;
    s.pvp_matches[mi].result_json = Some(result_json.clone());
    proof {
        let pre = old(s).pvp_matches@;
        let post = s.pvp_matches@;
        if at_most_one_pending(pre) {
            assert forall|i: int, j: int|
                0 <= i < j < post.len() && (#[trigger] post[i]).status == MatchStatus::Pending
                    && (#[trigger] post[j]).status == MatchStatus::Pending implies !same_pair(
                post[i],
                post[j],
            ) by {
                assert(post[i] == pre[i] && post[j] == pre[j]);
            }
        }
    }
    let _eid = append_event(
        s,
        now_ms,
        "pvp_result_submitted",
        reporter_fid,
        result_json,
        Some(String::from_str(match_id)),
    );
    Ok(())
}

} // verus!
