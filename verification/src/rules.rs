//! The rules of the game as functions of a session's model: for each kind of
//! command, what is decided and what the session becomes.

use crate::outcome::Outcome;
use crate::session::{ClaimModel, PlayerModel, SessionModel, DEFAULT_VICTORY_TIMEOUT, MAX_POSITION};
use vstd::prelude::*;

verus! {

/// The report tag of a shot that struck a ship.
pub open spec fn hit_tag() -> Seq<char> {
    "Hit"@
}

/// The report tag of a shot that struck water.
pub open spec fn miss_tag() -> Seq<char> {
    "Miss"@
}

/// The session that the first join of an unseen identifier creates, before
/// the player is enrolled: the joiner holds the turn.
pub open spec fn fresh_session(id: Seq<char>, player: Seq<char>) -> SessionModel {
    SessionModel {
        id,
        players: Seq::empty(),
        turn_holder: Some(player),
        report_owed_by: None,
        victory_claim: None,
        victory_timeout: DEFAULT_VICTORY_TIMEOUT,
        locked_for_join: false,
    }
}

/// The decision on a join to an existing session.
pub open spec fn join_outcome(s: SessionModel, player: Seq<char>) -> Outcome {
    if s.locked_for_join {
        Outcome::SessionLocked
    } else if s.has_player(player) {
        Outcome::AlreadyJoined
    } else {
        Outcome::Accepted
    }
}

/// The session after a join: an accepted player is enrolled last, active as
/// of `now`, with no claim.
pub open spec fn join_effect(
    s: SessionModel,
    player: Seq<char>,
    commitment: Seq<u8>,
    key: Seq<u8>,
    now: u64,
) -> SessionModel {
    if join_outcome(s, player) is Accepted {
        SessionModel {
            players: s.players.push(
                PlayerModel {
                    name: player,
                    committed_state: commitment,
                    last_active_at: now,
                    victory_claimed: false,
                    public_key: key,
                },
            ),
            ..s
        }
    } else {
        s
    }
}

/// The decision on a shot. The conditions are tried in this order and the
/// first that fails decides.
pub open spec fn fire_outcome(
    s: SessionModel,
    actor: Seq<char>,
    target: Seq<char>,
    pos: u8,
    commitment: Seq<u8>,
    signed: bool,
    now: u64,
) -> Outcome {
    if !s.has_player(target) {
        Outcome::TargetNotFound
    } else if actor == target {
        Outcome::SelfTarget
    } else if !s.has_player(actor) {
        Outcome::PlayerNotFound
    } else if !signed {
        Outcome::InvalidSignature
    } else if s.window_open(now) {
        Outcome::ClaimWindowOpen { remaining: s.window_remaining(now) }
    } else if s.player(actor).committed_state != commitment {
        Outcome::StateMismatch
    } else if s.turn_holder != Some(actor) {
        Outcome::NotYourTurn
    } else if s.report_owed_by is Some {
        Outcome::ReportOutstanding
    } else if pos > MAX_POSITION {
        Outcome::InvalidPosition
    } else {
        Outcome::Accepted
    }
}

/// The session after a shot: an accepted one marks the actor active at `now`,
/// locks the session against joins, makes the target owe a report and leaves
/// nobody holding the turn.
pub open spec fn fire_effect(
    s: SessionModel,
    actor: Seq<char>,
    target: Seq<char>,
    pos: u8,
    commitment: Seq<u8>,
    signed: bool,
    now: u64,
) -> SessionModel {
    if fire_outcome(s, actor, target, pos, commitment, signed, now) is Accepted {
        SessionModel {
            players: s.players.update(
                s.index_of(actor),
                PlayerModel { last_active_at: now, ..s.player(actor) },
            ),
            turn_holder: None,
            report_owed_by: Some(target),
            locked_for_join: true,
            ..s
        }
    } else {
        s
    }
}

/// The decision on a report. The conditions are tried in this order and the
/// first that fails decides.
pub open spec fn report_outcome(
    s: SessionModel,
    player: Seq<char>,
    tag: Seq<char>,
    pos: u8,
    commitment: Seq<u8>,
    signed: bool,
    now: u64,
) -> Outcome {
    if !s.has_player(player) {
        Outcome::PlayerNotFound
    } else if !signed {
        Outcome::InvalidSignature
    } else if s.window_open(now) {
        Outcome::ClaimWindowOpen { remaining: s.window_remaining(now) }
    } else if s.report_owed_by != Some(player) {
        Outcome::NotYourTurn
    } else if s.player(player).committed_state != commitment {
        Outcome::StateMismatch
    } else if pos > MAX_POSITION {
        Outcome::InvalidPosition
    } else if tag != hit_tag() && tag != miss_tag() {
        Outcome::InvalidReport
    } else {
        Outcome::Accepted
    }
}

/// The session after a report: an accepted one, hit or miss alike, replaces
/// the reporter's commitment by the next one and hands them the turn.
pub open spec fn report_effect(
    s: SessionModel,
    player: Seq<char>,
    tag: Seq<char>,
    pos: u8,
    commitment: Seq<u8>,
    next_commitment: Seq<u8>,
    signed: bool,
    now: u64,
) -> SessionModel {
    if report_outcome(s, player, tag, pos, commitment, signed, now) is Accepted {
        SessionModel {
            players: s.players.update(
                s.index_of(player),
                PlayerModel { committed_state: next_commitment, ..s.player(player) },
            ),
            turn_holder: Some(player),
            report_owed_by: None,
            ..s
        }
    } else {
        s
    }
}

/// Whether the session has a member besides `actor`.
pub open spec fn has_other_player(s: SessionModel, actor: Seq<char>) -> bool {
    exists|j: int| 0 <= j < s.players.len() && (#[trigger] s.players[j]).name != actor
}

/// Whether the member at place `k` is the one a wave by `actor` passes the
/// turn to: of the other members the one idle longest, and of several such
/// the one who joined first.
pub open spec fn is_successor(s: SessionModel, actor: Seq<char>, k: int) -> bool {
    &&& 0 <= k < s.players.len()
    &&& s.players[k].name != actor
    &&& forall|j: int|
        0 <= j < s.players.len() && (#[trigger] s.players[j]).name != actor
            ==> s.players[k].last_active_at <= s.players[j].last_active_at
    &&& forall|j: int|
        0 <= j < k && (#[trigger] s.players[j]).name != actor ==> s.players[k].last_active_at
            < s.players[j].last_active_at
}

/// The place of the member a wave by `actor` passes the turn to.
pub open spec fn successor(s: SessionModel, actor: Seq<char>) -> int {
    choose|k: int| is_successor(s, actor, k)
}

/// At most one member is the successor.
pub proof fn lemma_successor_unique(s: SessionModel, actor: Seq<char>, k: int)
    requires
        is_successor(s, actor, k),
    ensures
        successor(s, actor) == k,
{
    let c = successor(s, actor);
    assert(is_successor(s, actor, c));
    if c < k {
        assert(s.players[c].name != actor);
    } else if k < c {
        assert(s.players[k].name != actor);
    }
}

/// The decision on a wave. The conditions are tried in this order and the
/// first that fails decides.
pub open spec fn wave_outcome(
    s: SessionModel,
    actor: Seq<char>,
    commitment: Seq<u8>,
    signed: bool,
    now: u64,
) -> Outcome {
    if !s.has_player(actor) {
        Outcome::PlayerNotFound
    } else if !signed {
        Outcome::InvalidSignature
    } else if s.player(actor).committed_state != commitment {
        Outcome::StateMismatch
    } else if s.window_open(now) {
        Outcome::ClaimWindowOpen { remaining: s.window_remaining(now) }
    } else if s.report_owed_by is Some {
        Outcome::ReportOutstanding
    } else if s.turn_holder != Some(actor) {
        Outcome::NotYourTurn
    } else if !has_other_player(s, actor) {
        Outcome::NoOtherPlayers
    } else {
        Outcome::Accepted
    }
}

/// The session after a wave: an accepted one passes the turn to the
/// successor and changes nothing else.
pub open spec fn wave_effect(
    s: SessionModel,
    actor: Seq<char>,
    commitment: Seq<u8>,
    signed: bool,
    now: u64,
) -> SessionModel {
    if wave_outcome(s, actor, commitment, signed, now) is Accepted {
        SessionModel { turn_holder: Some(s.players[successor(s, actor)].name), ..s }
    } else {
        s
    }
}

/// The session with the claim flag of `player` up.
pub open spec fn with_claim_flag(s: SessionModel, player: Seq<char>) -> SessionModel {
    SessionModel {
        players: s.players.update(
            s.index_of(player),
            PlayerModel { victory_claimed: true, ..s.player(player) },
        ),
        ..s
    }
}

/// The decision on a victory claim. A claim needs neither the turn nor a
/// settled report.
pub open spec fn claim_outcome(
    s: SessionModel,
    player: Seq<char>,
    commitment: Seq<u8>,
    signed: bool,
    now: u64,
) -> Outcome {
    if !s.has_player(player) {
        Outcome::PlayerNotFound
    } else if !signed {
        Outcome::InvalidSignature
    } else if s.player(player).committed_state != commitment {
        Outcome::StateMismatch
    } else if s.player(player).victory_claimed {
        Outcome::AlreadyClaimed
    } else if s.victory_claim is None {
        Outcome::ClaimStarted
    } else if s.window_open(now) {
        Outcome::ClaimContested { remaining: s.window_remaining(now) }
    } else if with_claim_flag(s, player).claimants().len() == 1 {
        Outcome::Won
    } else {
        Outcome::NoWinner
    }
}

/// The session after a victory claim. A first claim is recorded with its
/// time; a contesting one only raises the contester's flag; one that arrives
/// after the window raises the flag and settles the arbitration: with several
/// claimants every claim is dropped, with one the flags stay as they are (the
/// store then deletes the session).
pub open spec fn claim_effect(
    s: SessionModel,
    player: Seq<char>,
    commitment: Seq<u8>,
    signed: bool,
    now: u64,
) -> SessionModel {
    match claim_outcome(s, player, commitment, signed, now) {
        Outcome::ClaimStarted => SessionModel {
            victory_claim: Some(ClaimModel { claimant: player, since: now }),
            ..with_claim_flag(s, player)
        },
        Outcome::ClaimContested { .. } => with_claim_flag(s, player),
        Outcome::Won => with_claim_flag(s, player),
        Outcome::NoWinner => with_claim_flag(s, player).without_claims(),
        _ => s,
    }
}

/// The claimants that a settling claim found: the flagged members at the
/// moment of settlement, and nobody where the claim settled nothing.
pub open spec fn claim_claimants(
    s: SessionModel,
    player: Seq<char>,
    commitment: Seq<u8>,
    signed: bool,
    now: u64,
) -> Seq<Seq<char>> {
    match claim_outcome(s, player, commitment, signed, now) {
        Outcome::Won => with_claim_flag(s, player).claimants(),
        Outcome::NoWinner => with_claim_flag(s, player).claimants(),
        _ => Seq::empty(),
    }
}

/// What the periodic sweep decides for a session at `now`: nothing while
/// there is no claim or its window is open; after that the single claimant
/// wins, and any other number of claimants voids the claims.
pub open spec fn settle_outcome(s: SessionModel, now: u64) -> Option<Outcome> {
    if !s.window_elapsed(now) {
        None
    } else if s.claimants().len() == 1 {
        Some(Outcome::Won)
    } else {
        Some(Outcome::NoWinner)
    }
}

/// The session after the sweep looked at it: claims voided where there was
/// no winner, else unchanged (the store deletes a session that was won).
pub open spec fn settle_effect(s: SessionModel, now: u64) -> SessionModel {
    if settle_outcome(s, now) == Some(Outcome::NoWinner) {
        s.without_claims()
    } else {
        s
    }
}

} // verus!
