//! Laws of the session rules: what every transition keeps true, when a shot
//! is accepted, what a replayed report meets, and what the sweep settles.

use crate::outcome::Outcome;
use crate::rules::{
    claim_effect, claim_outcome, fire_effect, fire_outcome, fresh_session, is_successor,
    join_effect, join_outcome, report_effect, report_outcome, settle_effect, settle_outcome,
    successor, wave_effect, wave_outcome, with_claim_flag,
};
use crate::command::{BaseJournal, FireJournal, ReportJournal};
use crate::session::{lemma_index_of, SessionModel, MAX_POSITION};
use crate::store::{
    has_session, ids_unique, lemma_session_index, lookup, session_index, signed_by,
    store_claim_effect, store_fire_effect, store_fire_outcome, store_join_effect,
    store_join_outcome, store_report_effect, store_report_outcome, store_wave_effect, swept,
};
use vstd::prelude::*;

verus! {

/// A session as it stands between two commands: no two members share a
/// name, exactly one of "someone holds the turn" and "someone owes a report"
/// is the case, and a recorded victory claim belongs to a flagged member.
pub open spec fn consistent(s: SessionModel) -> bool {
    &&& s.names_unique()
    &&& s.turn_consistent()
    &&& s.claim_consistent()
}

/// Two sessions whose members bear the same names at the same places.
pub open spec fn same_names(a: SessionModel, b: SessionModel) -> bool {
    &&& a.players.len() == b.players.len()
    &&& forall|i: int| 0 <= i < a.players.len() ==> (#[trigger] a.players[i]).name == (
    #[trigger] b.players[i]).name
}

/// Sessions with the same names at the same places have the same members
/// under each name, at the same place.
pub proof fn lemma_same_names(a: SessionModel, b: SessionModel)
    requires
        a.names_unique(),
        same_names(a, b),
    ensures
        b.names_unique(),
        forall|name: Seq<char>| a.has_player(name) == b.has_player(name),
        forall|name: Seq<char>| a.has_player(name) ==> a.index_of(name) == b.index_of(name),
{
    assert forall|i: int, j: int|
        0 <= i < b.players.len() && 0 <= j < b.players.len() && (#[trigger] b.players[i]).name
            == (#[trigger] b.players[j]).name implies i == j by {
        assert(a.players[i].name == a.players[j].name);
    }
    assert forall|name: Seq<char>| a.has_player(name) == b.has_player(name) by {
        if a.has_player(name) {
            let i = a.index_of(name);
            assert(b.players[i].name == name);
        }
        if b.has_player(name) {
            let i = b.index_of(name);
            assert(a.players[i].name == name);
        }
    }
    assert forall|name: Seq<char>| a.has_player(name) implies a.index_of(name) == b.index_of(
        name,
    ) by {
        let i = a.index_of(name);
        assert(b.players[i].name == name);
        lemma_index_of(b, i);
    }
}

/// A session that a first join has just created and filled is consistent.
pub proof fn law_first_join_consistent(
    id: Seq<char>,
    player: Seq<char>,
    commitment: Seq<u8>,
    key: Seq<u8>,
    now: u64,
)
    ensures
        join_outcome(fresh_session(id, player), player) is Accepted,
        consistent(join_effect(fresh_session(id, player), player, commitment, key, now)),
{
    let fresh = fresh_session(id, player);
    assert(!fresh.has_player(player));
    let after = join_effect(fresh, player, commitment, key, now);
    assert(after.players[0].name == player);
    assert(after.has_player(player));
}

/// A join keeps a session consistent.
pub proof fn law_join_consistent(
    s: SessionModel,
    player: Seq<char>,
    commitment: Seq<u8>,
    key: Seq<u8>,
    now: u64,
)
    requires
        consistent(s),
    ensures
        consistent(join_effect(s, player, commitment, key, now)),
{
    let after = join_effect(s, player, commitment, key, now);
    if join_outcome(s, player) is Accepted {
        let n = s.players.len() as int;
        assert forall|i: int, j: int|
            0 <= i < after.players.len() && 0 <= j < after.players.len() && (
            #[trigger] after.players[i]).name == (#[trigger] after.players[j]).name implies i
            == j by {
            if i < n && j < n {
                assert(s.players[i].name == s.players[j].name);
            } else if i < n {
                assert(s.players[i].name == player);
            } else if j < n {
                assert(s.players[j].name == player);
            }
        }
        assert forall|name: Seq<char>| s.has_player(name) implies after.has_player(name)
            && after.player(name) == s.player(name) by {
            let i = s.index_of(name);
            assert(after.players[i].name == name);
            lemma_index_of(after, i);
        }
    }
}

/// A shot keeps a session consistent.
pub proof fn law_fire_consistent(
    s: SessionModel,
    actor: Seq<char>,
    target: Seq<char>,
    pos: u8,
    commitment: Seq<u8>,
    signed: bool,
    now: u64,
)
    requires
        consistent(s),
    ensures
        consistent(fire_effect(s, actor, target, pos, commitment, signed, now)),
{
    let after = fire_effect(s, actor, target, pos, commitment, signed, now);
    if fire_outcome(s, actor, target, pos, commitment, signed, now) is Accepted {
        assert(same_names(s, after));
        lemma_same_names(s, after);
        if s.victory_claim is Some {
            let c = s.victory_claim->0.claimant;
            assert(after.player(c).victory_claimed == s.player(c).victory_claimed);
        }
    }
}

/// A report keeps a session consistent.
pub proof fn law_report_consistent(
    s: SessionModel,
    player: Seq<char>,
    tag: Seq<char>,
    pos: u8,
    commitment: Seq<u8>,
    next_commitment: Seq<u8>,
    signed: bool,
    now: u64,
)
    requires
        consistent(s),
    ensures
        consistent(report_effect(s, player, tag, pos, commitment, next_commitment, signed, now)),
{
    let after = report_effect(s, player, tag, pos, commitment, next_commitment, signed, now);
    if report_outcome(s, player, tag, pos, commitment, signed, now) is Accepted {
        assert(same_names(s, after));
        lemma_same_names(s, after);
        if s.victory_claim is Some {
            let c = s.victory_claim->0.claimant;
            assert(after.player(c).victory_claimed == s.player(c).victory_claimed);
        }
    }
}

/// Where a session has a member besides `actor`, the successor is one.
pub proof fn lemma_successor_exists(s: SessionModel, actor: Seq<char>)
    requires
        crate::rules::has_other_player(s, actor),
    ensures
        is_successor(s, actor, successor(s, actor)),
{
    let n = s.players.len() as int;
    lemma_some_successor(s, actor, n);
    assert(s.players.take(n) =~= s.players);
    let whole = SessionModel { players: s.players.take(n), ..s };
    assert(whole == s);
    let k = choose|k: int| is_successor(whole, actor, k);
    assert(is_successor(s, actor, k));
}

/// A wave keeps a session consistent.
pub proof fn law_wave_consistent(
    s: SessionModel,
    actor: Seq<char>,
    commitment: Seq<u8>,
    signed: bool,
    now: u64,
)
    requires
        consistent(s),
    ensures
        consistent(wave_effect(s, actor, commitment, signed, now)),
{
    let after = wave_effect(s, actor, commitment, signed, now);
    if wave_outcome(s, actor, commitment, signed, now) is Accepted {
        lemma_successor_exists(s, actor);
        let k = successor(s, actor);
        assert(after.players[k].name == s.players[k].name);
        assert(after.has_player(s.players[k].name));
    }
}

/// Among the first `n` members, if any differs from `actor`, one is the
/// successor with respect to those `n`.
proof fn lemma_some_successor(s: SessionModel, actor: Seq<char>, n: int)
    requires
        0 <= n <= s.players.len(),
    ensures
        (exists|j: int| 0 <= j < n && (#[trigger] s.players[j]).name != actor) ==> exists|k: int|
            is_successor(
                SessionModel { players: s.players.take(n), ..s },
                actor,
                k,
            ),
    decreases n,
{
    let prefix = SessionModel { players: s.players.take(n), ..s };
    if exists|j: int| 0 <= j < n && (#[trigger] s.players[j]).name != actor {
        let m = n - 1;
        let shorter = SessionModel { players: s.players.take(m), ..s };
        lemma_some_successor(s, actor, m);
        if exists|j: int| 0 <= j < m && (#[trigger] s.players[j]).name != actor {
            let b = choose|k: int| is_successor(shorter, actor, k);
            assert(shorter.players[b] == s.players[b]);
            if s.players[m].name != actor && s.players[m].last_active_at
                < s.players[b].last_active_at {
                assert forall|j: int|
                    0 <= j < prefix.players.len() && (#[trigger] prefix.players[j]).name
                        != actor implies prefix.players[m].last_active_at
                    <= prefix.players[j].last_active_at by {
                    if j < m {
                        assert(shorter.players[j].name != actor);
                    }
                }
                assert forall|j: int|
                    0 <= j < m && (#[trigger] prefix.players[j]).name != actor implies prefix.players[m].last_active_at
                    < prefix.players[j].last_active_at by {
                    assert(shorter.players[j].name != actor);
                }
                assert(is_successor(prefix, actor, m));
            } else {
                assert forall|j: int|
                    0 <= j < prefix.players.len() && (#[trigger] prefix.players[j]).name
                        != actor implies prefix.players[b].last_active_at
                    <= prefix.players[j].last_active_at by {
                    if j < m {
                        assert(shorter.players[j].name != actor);
                    }
                }
                assert forall|j: int|
                    0 <= j < b && (#[trigger] prefix.players[j]).name != actor implies prefix.players[b].last_active_at
                    < prefix.players[j].last_active_at by {
                    assert(shorter.players[j].name != actor);
                }
                assert(is_successor(prefix, actor, b));
            }
        } else {
            assert(s.players[m].name != actor);
            assert forall|j: int|
                0 <= j < prefix.players.len() && (#[trigger] prefix.players[j]).name
                    != actor implies prefix.players[m].last_active_at
                <= prefix.players[j].last_active_at by {
                if j < m {
                    assert(s.players[j].name == actor);
                }
            }
            assert forall|j: int|
                0 <= j < m && (#[trigger] prefix.players[j]).name != actor implies prefix.players[m].last_active_at
                < prefix.players[j].last_active_at by {
                assert(s.players[j].name == actor);
            }
            assert(is_successor(prefix, actor, m));
        }
    }
}

/// A victory claim keeps a session consistent.
pub proof fn law_claim_consistent(
    s: SessionModel,
    player: Seq<char>,
    commitment: Seq<u8>,
    signed: bool,
    now: u64,
)
    requires
        consistent(s),
    ensures
        consistent(claim_effect(s, player, commitment, signed, now)),
{
    let after = claim_effect(s, player, commitment, signed, now);
    let outcome = claim_outcome(s, player, commitment, signed, now);
    if outcome.changes_state() {
        let flagged = with_claim_flag(s, player);
        assert(same_names(s, flagged));
        lemma_same_names(s, flagged);
        assert(flagged.player(player).victory_claimed);
        if s.victory_claim is Some {
            let c = s.victory_claim->0.claimant;
            assert(flagged.player(c).victory_claimed);
        }
        assert(consistent(flagged));
        if outcome is NoWinner {
            lemma_without_claims_consistent(flagged);
        } else {
            assert(same_names(flagged, after));
            lemma_same_names(flagged, after);
            assert(after.players == flagged.players);
            assert(after.player(player) == flagged.player(player));
            if s.victory_claim is Some {
                let c = s.victory_claim->0.claimant;
                assert(after.player(c) == flagged.player(c));
            }
            if after.turn_holder is Some {
                assert(after.has_player(after.turn_holder->0));
            }
            if after.report_owed_by is Some {
                assert(after.has_player(after.report_owed_by->0));
            }
        }
    }
}

/// Voiding the claims keeps a session consistent.
pub proof fn lemma_without_claims_consistent(s: SessionModel)
    requires
        consistent(s),
    ensures
        consistent(s.without_claims()),
{
    let after = s.without_claims();
    assert(same_names(s, after));
    lemma_same_names(s, after);
}

/// The sweep's settlement keeps a session consistent.
pub proof fn law_settle_consistent(s: SessionModel, now: u64)
    requires
        consistent(s),
    ensures
        consistent(settle_effect(s, now)),
{
    if settle_outcome(s, now) == Some(Outcome::NoWinner) {
        lemma_without_claims_consistent(s);
    }
}

/// Between two commands a session never has both a turn holder and a player
/// who owes a report.
pub proof fn law_turn_exclusive(s: SessionModel)
    requires
        consistent(s),
    ensures
        !(s.turn_holder is Some && s.report_owed_by is Some),
        s.turn_holder is Some || s.report_owed_by is Some,
{
}

/// The ten conditions of a shot, numbered from 1 in the order in which they
/// are tried.
pub open spec fn fire_condition(
    k: int,
    store: Seq<SessionModel>,
    j: FireJournal,
    signed: bool,
    now: u64,
) -> bool {
    let s = store[session_index(store, j.gameid@)];
    if k == 1 {
        has_session(store, j.gameid@)
    } else if k == 2 {
        s.has_player(j.target@)
    } else if k == 3 {
        j.target@ != j.fleet@
    } else if k == 4 {
        s.has_player(j.fleet@)
    } else if k == 5 {
        signed
    } else if k == 6 {
        !s.window_open(now)
    } else if k == 7 {
        s.player(j.fleet@).committed_state == j.board@
    } else if k == 8 {
        s.turn_holder == Some(j.fleet@)
    } else if k == 9 {
        s.report_owed_by is None
    } else {
        j.pos <= MAX_POSITION
    }
}

/// The rejection that belongs to each of the ten conditions of a shot.
pub open spec fn fire_rejection(k: int, store: Seq<SessionModel>, j: FireJournal, now: u64) -> Outcome {
    let s = store[session_index(store, j.gameid@)];
    if k == 1 {
        Outcome::SessionNotFound
    } else if k == 2 {
        Outcome::TargetNotFound
    } else if k == 3 {
        Outcome::SelfTarget
    } else if k == 4 {
        Outcome::PlayerNotFound
    } else if k == 5 {
        Outcome::InvalidSignature
    } else if k == 6 {
        Outcome::ClaimWindowOpen { remaining: s.window_remaining(now) }
    } else if k == 7 {
        Outcome::StateMismatch
    } else if k == 8 {
        Outcome::NotYourTurn
    } else if k == 9 {
        Outcome::ReportOutstanding
    } else {
        Outcome::InvalidPosition
    }
}

/// A shot is accepted if and only if all ten conditions hold.
pub proof fn law_fire_accepted_iff(store: Seq<SessionModel>, j: FireJournal, signed: bool, now: u64)
    ensures
        store_fire_outcome(store, j, signed, now) is Accepted <==> forall|k: int|
            1 <= k <= 10 ==> fire_condition(k, store, j, signed, now),
{
    if store_fire_outcome(store, j, signed, now) is Accepted {
        assert forall|k: int| 1 <= k <= 10 implies fire_condition(k, store, j, signed, now) by {}
    }
    if forall|k: int| 1 <= k <= 10 ==> fire_condition(k, store, j, signed, now) {
        assert(fire_condition(1, store, j, signed, now));
        assert(fire_condition(2, store, j, signed, now));
        assert(fire_condition(3, store, j, signed, now));
        assert(fire_condition(4, store, j, signed, now));
        assert(fire_condition(5, store, j, signed, now));
        assert(fire_condition(6, store, j, signed, now));
        assert(fire_condition(7, store, j, signed, now));
        assert(fire_condition(8, store, j, signed, now));
        assert(fire_condition(9, store, j, signed, now));
        assert(fire_condition(10, store, j, signed, now));
    }
}

/// The first condition of a shot that fails decides the rejection, whatever
/// holds of the later ones; so failing a single condition yields its own
/// rejection.
pub proof fn law_fire_first_failure(
    k: int,
    store: Seq<SessionModel>,
    j: FireJournal,
    signed: bool,
    now: u64,
)
    requires
        1 <= k <= 10,
        forall|m: int| 1 <= m < k ==> fire_condition(m, store, j, signed, now),
        !fire_condition(k, store, j, signed, now),
    ensures
        store_fire_outcome(store, j, signed, now) == fire_rejection(k, store, j, now),
{
    if k > 1 {
        assert(fire_condition(1, store, j, signed, now));
    }
    if k > 2 {
        assert(fire_condition(2, store, j, signed, now));
    }
    if k > 3 {
        assert(fire_condition(3, store, j, signed, now));
    }
    if k > 4 {
        assert(fire_condition(4, store, j, signed, now));
    }
    if k > 5 {
        assert(fire_condition(5, store, j, signed, now));
    }
    if k > 6 {
        assert(fire_condition(6, store, j, signed, now));
    }
    if k > 7 {
        assert(fire_condition(7, store, j, signed, now));
    }
    if k > 8 {
        assert(fire_condition(8, store, j, signed, now));
    }
    if k > 9 {
        assert(fire_condition(9, store, j, signed, now));
    }
}

/// A shot that is not accepted leaves the store as it was.
pub proof fn law_fire_rejection_keeps_store(
    store: Seq<SessionModel>,
    j: FireJournal,
    signed: bool,
    now: u64,
)
    requires
        !(store_fire_outcome(store, j, signed, now) is Accepted),
    ensures
        store_fire_effect(store, j, signed, now) == store,
{
    if has_session(store, j.gameid@) {
        let i = session_index(store, j.gameid@);
        assert(0 <= i < store.len());
        assert(store.update(i, store[i]) =~= store);
    }
}

/// A store whose sessions have distinct identifiers and distinct member
/// names.
pub open spec fn valid_store(store: Seq<SessionModel>) -> bool {
    &&& ids_unique(store)
    &&& forall|i: int| 0 <= i < store.len() ==> (#[trigger] store[i]).names_unique()
}

/// A report that was applied cannot be applied again: sent once more at the
/// same or a later time, with the same bytes and signature, it is turned away
/// because its sender does not owe a report, and the store stays as it is.
pub proof fn law_report_replay_rejected(
    store: Seq<SessionModel>,
    j: ReportJournal,
    message: Seq<u8>,
    signature: Seq<u8>,
    now: u64,
    later: u64,
)
    requires
        valid_store(store),
        now <= later,
        store_report_outcome(
            store,
            j,
            signed_by(store, j.gameid@, j.fleet@, message, signature),
            now,
        ) is Accepted,
    ensures
        ({
            let after = store_report_effect(
                store,
                j,
                signed_by(store, j.gameid@, j.fleet@, message, signature),
                now,
            );
            &&& store_report_outcome(
                after,
                j,
                signed_by(after, j.gameid@, j.fleet@, message, signature),
                later,
            ) == Outcome::NotYourTurn
            &&& store_report_effect(
                after,
                j,
                signed_by(after, j.gameid@, j.fleet@, message, signature),
                later,
            ) == after
        }),
{
    let signed = signed_by(store, j.gameid@, j.fleet@, message, signature);
    let after = store_report_effect(store, j, signed, now);
    let i = session_index(store, j.gameid@);
    assert(has_session(store, j.gameid@));
    let s = store[i];
    let t = after[i];
    assert(after[i].id == j.gameid@);
    crate::store::lemma_ids_kept(store, after, i);
    lemma_session_index(after, i);
    assert(same_names(s, t));
    lemma_same_names(s, t);
    assert(t.player(j.fleet@).public_key == s.player(j.fleet@).public_key);
    assert(after.update(i, t) =~= after);
}

/// Whether `x` is what the sweep at `now` leaves of the session at place `k`.
pub open spec fn left_of(store: Seq<SessionModel>, now: u64, k: int, x: SessionModel) -> bool {
    &&& 0 <= k < store.len()
    &&& settle_outcome(store[k], now) != Some(Outcome::Won)
    &&& x == settle_effect(store[k], now)
}

/// Whether `x` is what the sweep at `now` leaves of one of the first `n`
/// sessions.
pub open spec fn left_of_some(store: Seq<SessionModel>, now: u64, n: nat, x: SessionModel) -> bool {
    exists|k: int| k < n && #[trigger] left_of(store, now, k, x)
}

/// Whether what the sweep at `now` leaves of the session at place `k` is among
/// `after`.
pub open spec fn left_among(store: Seq<SessionModel>, now: u64, k: int, after: Seq<SessionModel>) -> bool {
    exists|a: int| 0 <= a < after.len() && #[trigger] left_of(store, now, k, after[a])
}

/// The sessions that a sweep over the first `n` leaves are those among them
/// that were not won, each as its settlement left it, and their identifiers
/// are distinct.
pub proof fn lemma_swept_sessions(store: Seq<SessionModel>, now: u64, n: nat)
    requires
        ids_unique(store),
        n <= store.len(),
    ensures
        forall|a: int|
            0 <= a < swept(store, now, n).len() ==> left_of_some(
                store,
                now,
                n,
                #[trigger] swept(store, now, n)[a],
            ),
        forall|k: int|
            0 <= k < n && settle_outcome(#[trigger] store[k], now) != Some(Outcome::Won)
                ==> left_among(store, now, k, swept(store, now, n)),
        ids_unique(swept(store, now, n)),
    decreases n,
{
    if n > 0 {
        let m = (n - 1) as nat;
        lemma_swept_sessions(store, now, m);
        let before = swept(store, now, m);
        let after = swept(store, now, n);
        let last = store[n - 1];
        if settle_outcome(last, now) == Some(Outcome::Won) {
            assert(after == before);
            assert forall|a: int| 0 <= a < after.len() implies left_of_some(
                store,
                now,
                n,
                #[trigger] after[a],
            ) by {
                assert(left_of_some(store, now, m, before[a]));
                let k = choose|k: int| k < m && #[trigger] left_of(store, now, k, before[a]);
                assert(left_of(store, now, k, after[a]));
            }
            assert forall|k: int|
                0 <= k < n && settle_outcome(#[trigger] store[k], now) != Some(
                    Outcome::Won,
                ) implies left_among(store, now, k, after) by {
                assert(k < m);
                assert(left_among(store, now, k, before));
            }
        } else {
            let x = settle_effect(last, now);
            assert(after == before.push(x));
            assert(left_of(store, now, n - 1, after[before.len() as int]));
            assert forall|a: int| 0 <= a < after.len() implies left_of_some(
                store,
                now,
                n,
                #[trigger] after[a],
            ) by {
                if a < before.len() {
                    assert(left_of_some(store, now, m, before[a]));
                    let k = choose|k: int| k < m && #[trigger] left_of(store, now, k, before[a]);
                    assert(left_of(store, now, k, after[a]));
                } else {
                    assert(left_of(store, now, n - 1, after[a]));
                }
            }
            assert forall|k: int|
                0 <= k < n && settle_outcome(#[trigger] store[k], now) != Some(
                    Outcome::Won,
                ) implies left_among(store, now, k, after) by {
                if k < m {
                    assert(left_among(store, now, k, before));
                    let a = choose|a: int|
                        0 <= a < before.len() && #[trigger] left_of(store, now, k, before[a]);
                    assert(left_of(store, now, k, after[a]));
                } else {
                    assert(left_of(store, now, k, after[before.len() as int]));
                }
            }
            assert forall|a: int, b: int|
                0 <= a < after.len() && 0 <= b < after.len() && (#[trigger] after[a]).id == (
                #[trigger] after[b]).id implies a == b by {
                if a < before.len() && b < before.len() {
                    assert(before[a].id == before[b].id);
                } else if a < before.len() {
                    assert(left_of_some(store, now, m, before[a]));
                    let k = choose|k: int| k < m && #[trigger] left_of(store, now, k, before[a]);
                    assert(store[k].id == store[n - 1].id);
                } else if b < before.len() {
                    assert(left_of_some(store, now, m, before[b]));
                    let k = choose|k: int| k < m && #[trigger] left_of(store, now, k, before[b]);
                    assert(store[k].id == store[n - 1].id);
                }
            }
        }
    }
}

/// What the sweep does to each session: one that it settles with a winner is
/// gone from the store, any other is found as its settlement left it.
pub proof fn law_sweep_per_session(store: Seq<SessionModel>, i: int, now: u64)
    requires
        ids_unique(store),
        0 <= i < store.len(),
    ensures
        settle_outcome(store[i], now) == Some(Outcome::Won) ==> !has_session(
            swept(store, now, store.len()),
            store[i].id,
        ),
        settle_outcome(store[i], now) != Some(Outcome::Won) ==> lookup(
            swept(store, now, store.len()),
            store[i].id,
        ) == Some(settle_effect(store[i], now)),
{
    let after = swept(store, now, store.len());
    lemma_swept_sessions(store, now, store.len());
    if settle_outcome(store[i], now) == Some(Outcome::Won) {
        if has_session(after, store[i].id) {
            let a = session_index(after, store[i].id);
            assert(left_of_some(store, now, store.len(), after[a]));
            let k = choose|k: int| k < store.len() && #[trigger] left_of(store, now, k, after[a]);
            assert(store[k].id == store[i].id);
        }
    } else {
        assert(left_among(store, now, i, after));
        let a = choose|a: int|
            0 <= a < after.len() && #[trigger] left_of(store, now, i, after[a]);
        lemma_session_index(after, a);
    }
}

/// Victory is settled in the end, without any further command: once a claim
/// has been followed by silence for the length of the contest window, the
/// sweep deletes the session if exactly one member holds a claim, and
/// otherwise voids every claim and keeps the session.
pub proof fn law_sweep_settles_claims(store: Seq<SessionModel>, i: int, now: u64)
    requires
        ids_unique(store),
        0 <= i < store.len(),
        store[i].victory_claim is Some,
        now >= store[i].victory_claim->0.since,
        now - store[i].victory_claim->0.since >= store[i].victory_timeout,
    ensures
        store[i].claimants().len() == 1 ==> !has_session(
            swept(store, now, store.len()),
            store[i].id,
        ),
        store[i].claimants().len() != 1 ==> lookup(swept(store, now, store.len()), store[i].id)
            == Some(store[i].without_claims()),
{
    law_sweep_per_session(store, i, now);
}

/// A session that a shot has locked turns every join away, whoever asks, and
/// stays as it is.
pub proof fn law_locked_session_rejects_join(
    store: Seq<SessionModel>,
    j: BaseJournal,
    key: Seq<u8>,
    key_valid: bool,
    signed: bool,
    now: u64,
)
    requires
        lookup(store, j.gameid@) is Some,
        lookup(store, j.gameid@)->0.locked_for_join,
    ensures
        !(store_join_outcome(store, j, key_valid, signed) is Accepted),
        key_valid && signed ==> store_join_outcome(store, j, key_valid, signed)
            == Outcome::SessionLocked,
        store_join_effect(store, j, key, key_valid, signed, now) == store,
{
    let i = session_index(store, j.gameid@);
    assert(store.update(i, store[i]) =~= store);
}

/// An accepted shot locks the session, and no transition unlocks it.
pub proof fn law_lock_is_permanent(
    s: SessionModel,
    player: Seq<char>,
    other: Seq<char>,
    tag: Seq<char>,
    pos: u8,
    commitment: Seq<u8>,
    next_commitment: Seq<u8>,
    key: Seq<u8>,
    signed: bool,
    now: u64,
)
    ensures
        fire_outcome(s, player, other, pos, commitment, signed, now) is Accepted ==> fire_effect(
            s,
            player,
            other,
            pos,
            commitment,
            signed,
            now,
        ).locked_for_join,
        s.locked_for_join ==> {
            &&& join_effect(s, player, commitment, key, now).locked_for_join
            &&& fire_effect(s, player, other, pos, commitment, signed, now).locked_for_join
            &&& report_effect(
                s,
                player,
                tag,
                pos,
                commitment,
                next_commitment,
                signed,
                now,
            ).locked_for_join
            &&& wave_effect(s, player, commitment, signed, now).locked_for_join
            &&& claim_effect(s, player, commitment, signed, now).locked_for_join
            &&& settle_effect(s, now).locked_for_join
        },
{
}

/// Every session of the store is consistent: at no point between two
/// commands does a session have both a turn holder and a player who owes a
/// report, or neither.
pub open spec fn all_consistent(store: Seq<SessionModel>) -> bool {
    forall|i: int| 0 <= i < store.len() ==> consistent(#[trigger] store[i])
}

/// A join keeps every session of the store consistent.
pub proof fn law_join_keeps_consistent(
    store: Seq<SessionModel>,
    j: BaseJournal,
    key: Seq<u8>,
    key_valid: bool,
    signed: bool,
    now: u64,
)
    requires
        all_consistent(store),
    ensures
        all_consistent(store_join_effect(store, j, key, key_valid, signed, now)),
{
    if has_session(store, j.gameid@) {
        law_join_consistent(store[session_index(store, j.gameid@)], j.fleet@, j.board@, key, now);
    } else {
        law_first_join_consistent(j.gameid@, j.fleet@, j.board@, key, now);
    }
}

/// A shot keeps every session of the store consistent.
pub proof fn law_fire_keeps_consistent(store: Seq<SessionModel>, j: FireJournal, signed: bool, now: u64)
    requires
        all_consistent(store),
    ensures
        all_consistent(store_fire_effect(store, j, signed, now)),
{
    if has_session(store, j.gameid@) {
        let s = store[session_index(store, j.gameid@)];
        law_fire_consistent(s, j.fleet@, j.target@, j.pos, j.board@, signed, now);
    }
}

/// A report keeps every session of the store consistent.
pub proof fn law_report_keeps_consistent(
    store: Seq<SessionModel>,
    j: ReportJournal,
    signed: bool,
    now: u64,
)
    requires
        all_consistent(store),
    ensures
        all_consistent(store_report_effect(store, j, signed, now)),
{
    if has_session(store, j.gameid@) {
        let s = store[session_index(store, j.gameid@)];
        law_report_consistent(
            s,
            j.fleet@,
            j.report@,
            j.pos,
            j.board@,
            j.next_board@,
            signed,
            now,
        );
    }
}

/// A wave keeps every session of the store consistent.
pub proof fn law_wave_keeps_consistent(store: Seq<SessionModel>, j: BaseJournal, signed: bool, now: u64)
    requires
        all_consistent(store),
    ensures
        all_consistent(store_wave_effect(store, j, signed, now)),
{
    if has_session(store, j.gameid@) {
        law_wave_consistent(store[session_index(store, j.gameid@)], j.fleet@, j.board@, signed, now);
    }
}

/// A victory claim keeps every session of the store consistent.
pub proof fn law_claim_keeps_consistent(
    store: Seq<SessionModel>,
    j: BaseJournal,
    signed: bool,
    now: u64,
)
    requires
        all_consistent(store),
    ensures
        all_consistent(store_claim_effect(store, j, signed, now)),
{
    if has_session(store, j.gameid@) {
        law_claim_consistent(
            store[session_index(store, j.gameid@)],
            j.fleet@,
            j.board@,
            signed,
            now,
        );
    }
}

/// The sweep keeps every session of the store consistent.
pub proof fn law_sweep_keeps_consistent(store: Seq<SessionModel>, now: u64)
    requires
        all_consistent(store),
    ensures
        all_consistent(swept(store, now, store.len())),
{
    lemma_swept_consistent(store, now, store.len());
}

/// A sweep over the first `n` sessions of a consistent store leaves
/// consistent sessions.
pub proof fn lemma_swept_consistent(store: Seq<SessionModel>, now: u64, n: nat)
    requires
        all_consistent(store),
        n <= store.len(),
    ensures
        all_consistent(swept(store, now, n)),
    decreases n,
{
    if n > 0 {
        lemma_swept_consistent(store, now, (n - 1) as nat);
        law_settle_consistent(store[n - 1], now);
    }
}

/// Whether every member of `before` is still a member of `after`, at the
/// same place, under the same name and with the same public key.
pub open spec fn identities_kept(before: SessionModel, after: SessionModel) -> bool {
    &&& before.players.len() <= after.players.len()
    &&& forall|i: int|
        0 <= i < before.players.len() ==> (#[trigger] after.players[i]).name
            == before.players[i].name && after.players[i].public_key
            == before.players[i].public_key
}

/// Whether every member of `before` has in `after` the commitment that they
/// had.
pub open spec fn commitments_kept(before: SessionModel, after: SessionModel) -> bool {
    &&& before.players.len() <= after.players.len()
    &&& forall|i: int|
        0 <= i < before.players.len() ==> (#[trigger] after.players[i]).committed_state
            == before.players[i].committed_state
}

/// A player's name and public key never change once they are set, and a
/// player's commitment changes by a report alone.
pub proof fn law_identity_and_commitment(
    s: SessionModel,
    player: Seq<char>,
    other: Seq<char>,
    tag: Seq<char>,
    pos: u8,
    commitment: Seq<u8>,
    next_commitment: Seq<u8>,
    key: Seq<u8>,
    signed: bool,
    now: u64,
)
    requires
        s.names_unique(),
    ensures
        identities_kept(s, join_effect(s, player, commitment, key, now)),
        identities_kept(s, fire_effect(s, player, other, pos, commitment, signed, now)),
        identities_kept(
            s,
            report_effect(s, player, tag, pos, commitment, next_commitment, signed, now),
        ),
        identities_kept(s, wave_effect(s, player, commitment, signed, now)),
        identities_kept(s, claim_effect(s, player, commitment, signed, now)),
        identities_kept(s, settle_effect(s, now)),
        commitments_kept(s, join_effect(s, player, commitment, key, now)),
        commitments_kept(s, fire_effect(s, player, other, pos, commitment, signed, now)),
        commitments_kept(s, wave_effect(s, player, commitment, signed, now)),
        commitments_kept(s, claim_effect(s, player, commitment, signed, now)),
        commitments_kept(s, settle_effect(s, now)),
{
    if s.has_player(player) {
        let flagged = with_claim_flag(s, player);
        assert(identities_kept(s, flagged) && commitments_kept(s, flagged));
        let voided = flagged.without_claims();
        assert(identities_kept(s, voided) && commitments_kept(s, voided));
    }
    let cleared = s.without_claims();
    assert(identities_kept(s, cleared) && commitments_kept(s, cleared));
}

} // verus!
