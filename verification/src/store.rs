//! The session store: every session in progress, and the handlers that apply
//! a command to it.

use crate::command::{BaseJournal, Command, FireJournal, ReportJournal};
use crate::laws::{
    all_consistent, law_claim_keeps_consistent, law_fire_keeps_consistent,
    law_join_keeps_consistent, law_report_keeps_consistent, law_sweep_keeps_consistent,
    law_wave_keeps_consistent,
};
use crate::messages::{event_text, result_text, Details, DetailsModel, Reply};
use crate::outcome::Outcome;
use crate::rules::{
    claim_claimants, claim_effect, claim_outcome, fire_effect, fire_outcome, fresh_session,
    has_other_player, join_effect, join_outcome, report_effect, report_outcome, settle_effect,
    settle_outcome, successor, wave_effect, wave_outcome,
};
use crate::session::{name_views, Session, SessionModel, Verdict};
use crate::signature::{authenticates, check_signature, key_array, key_decodes, key_is_valid};
use vstd::prelude::*;

verus! {

/// Whether a session of that identifier is in the store.
pub open spec fn has_session(store: Seq<SessionModel>, id: Seq<char>) -> bool {
    exists|i: int| 0 <= i < store.len() && (#[trigger] store[i]).id == id
}

/// The place of the session of that identifier.
pub open spec fn session_index(store: Seq<SessionModel>, id: Seq<char>) -> int {
    choose|i: int| 0 <= i < store.len() && (#[trigger] store[i]).id == id
}

/// The session of that identifier, if the store has one.
pub open spec fn lookup(store: Seq<SessionModel>, id: Seq<char>) -> Option<SessionModel> {
    if has_session(store, id) {
        Some(store[session_index(store, id)])
    } else {
        None
    }
}

/// No two sessions share an identifier.
pub open spec fn ids_unique(store: Seq<SessionModel>) -> bool {
    forall|i: int, j: int|
        0 <= i < store.len() && 0 <= j < store.len() && (#[trigger] store[i]).id == (
        #[trigger] store[j]).id ==> i == j
}

/// In a store without duplicate identifiers, the session at place `i` is the
/// one that its identifier finds.
pub proof fn lemma_session_index(store: Seq<SessionModel>, i: int)
    requires
        ids_unique(store),
        0 <= i < store.len(),
    ensures
        has_session(store, store[i].id),
        session_index(store, store[i].id) == i,
        lookup(store, store[i].id) == Some(store[i]),
{
    let id = store[i].id;
    assert(has_session(store, id));
    let k = session_index(store, id);
    assert(0 <= k < store.len() && store[k].id == id);
}

/// Whether a command's signature verifies under the key that the session
/// holds for the player; false where the session or the player is missing.
pub open spec fn signed_by(
    store: Seq<SessionModel>,
    id: Seq<char>,
    player: Seq<char>,
    message: Seq<u8>,
    signature: Seq<u8>,
) -> bool {
    match lookup(store, id) {
        Some(s) => s.has_player(player) && authenticates(
            s.player(player).public_key,
            message,
            signature,
        ),
        None => false,
    }
}

/// The details that every message about a session and a player can draw on:
/// the pending claimant, the player who owes a report and the length of the
/// contest window, as the session has them.
pub open spec fn base_details(found: Option<SessionModel>, id: Seq<char>, player: Seq<char>) -> DetailsModel {
    DetailsModel {
        session: id,
        player,
        target: Seq::empty(),
        pos: 0,
        tag: Seq::empty(),
        claimant: match found {
            Some(s) => match s.victory_claim {
                Some(c) => c.claimant,
                None => Seq::empty(),
            },
            None => Seq::empty(),
        },
        debtor: match found {
            Some(s) => match s.report_owed_by {
                Some(n) => n,
                None => Seq::empty(),
            },
            None => Seq::empty(),
        },
        successor: Seq::empty(),
        idle_since: 0,
        timeout: match found {
            Some(s) => s.victory_timeout,
            None => 0,
        },
        claimants: Seq::empty(),
    }
}

/// The decision on a shot.
pub open spec fn store_fire_outcome(
    store: Seq<SessionModel>,
    j: FireJournal,
    signed: bool,
    now: u64,
) -> Outcome {
    match lookup(store, j.gameid@) {
        Some(s) => fire_outcome(s, j.fleet@, j.target@, j.pos, j.board@, signed, now),
        None => Outcome::SessionNotFound,
    }
}

/// The store after a shot.
pub open spec fn store_fire_effect(
    store: Seq<SessionModel>,
    j: FireJournal,
    signed: bool,
    now: u64,
) -> Seq<SessionModel> {
    match lookup(store, j.gameid@) {
        Some(s) => store.update(
            session_index(store, j.gameid@),
            fire_effect(s, j.fleet@, j.target@, j.pos, j.board@, signed, now),
        ),
        None => store,
    }
}

/// The details of the messages about a shot.
pub open spec fn fire_details(store: Seq<SessionModel>, j: FireJournal) -> DetailsModel {
    DetailsModel {
        target: j.target@,
        pos: j.pos,
        ..base_details(lookup(store, j.gameid@), j.gameid@, j.fleet@)
    }
}

/// The decision on a join whose key is `key`. `key_valid` says whether the
/// key decodes, `signed` whether the signature verified under it.
pub open spec fn store_join_outcome(
    store: Seq<SessionModel>,
    j: BaseJournal,
    key_valid: bool,
    signed: bool,
) -> Outcome {
    if !key_valid {
        Outcome::InvalidKey
    } else if !signed {
        Outcome::InvalidSignature
    } else {
        match lookup(store, j.gameid@) {
            Some(s) => join_outcome(s, j.fleet@),
            None => Outcome::Accepted,
        }
    }
}

/// The store after a join: an accepted player is enrolled in the session of
/// that identifier, which is created last in the store where it is new.
pub open spec fn store_join_effect(
    store: Seq<SessionModel>,
    j: BaseJournal,
    key: Seq<u8>,
    key_valid: bool,
    signed: bool,
    now: u64,
) -> Seq<SessionModel> {
    if !key_valid || !signed {
        store
    } else {
        match lookup(store, j.gameid@) {
            Some(s) => store.update(
                session_index(store, j.gameid@),
                join_effect(s, j.fleet@, j.board@, key, now),
            ),
            None => store.push(
                join_effect(fresh_session(j.gameid@, j.fleet@), j.fleet@, j.board@, key, now),
            ),
        }
    }
}

/// The details of the messages about a join, a wave or a victory claim.
pub open spec fn join_details(store: Seq<SessionModel>, j: BaseJournal) -> DetailsModel {
    base_details(lookup(store, j.gameid@), j.gameid@, j.fleet@)
}

/// The decision on the key of a join, before anything else is looked at:
/// `MissingKey` without a key, `InvalidKey` where it has not 32 bytes.
pub open spec fn key_outcome(public_key: Option<Vec<u8>>) -> Option<Outcome> {
    match public_key {
        None => Some(Outcome::MissingKey),
        Some(k) => if k@.len() != 32 {
            Some(Outcome::InvalidKey)
        } else {
            None
        },
    }
}

/// The decision on a report.
pub open spec fn store_report_outcome(
    store: Seq<SessionModel>,
    j: ReportJournal,
    signed: bool,
    now: u64,
) -> Outcome {
    match lookup(store, j.gameid@) {
        Some(s) => report_outcome(s, j.fleet@, j.report@, j.pos, j.board@, signed, now),
        None => Outcome::SessionNotFound,
    }
}

/// The store after a report.
pub open spec fn store_report_effect(
    store: Seq<SessionModel>,
    j: ReportJournal,
    signed: bool,
    now: u64,
) -> Seq<SessionModel> {
    match lookup(store, j.gameid@) {
        Some(s) => store.update(
            session_index(store, j.gameid@),
            report_effect(s, j.fleet@, j.report@, j.pos, j.board@, j.next_board@, signed, now),
        ),
        None => store,
    }
}

/// The details of the messages about a report.
pub open spec fn report_details(store: Seq<SessionModel>, j: ReportJournal) -> DetailsModel {
    DetailsModel {
        tag: j.report@,
        pos: j.pos,
        ..base_details(lookup(store, j.gameid@), j.gameid@, j.fleet@)
    }
}

/// The decision on a wave.
pub open spec fn store_wave_outcome(
    store: Seq<SessionModel>,
    j: BaseJournal,
    signed: bool,
    now: u64,
) -> Outcome {
    match lookup(store, j.gameid@) {
        Some(s) => wave_outcome(s, j.fleet@, j.board@, signed, now),
        None => Outcome::SessionNotFound,
    }
}

/// The store after a wave.
pub open spec fn store_wave_effect(
    store: Seq<SessionModel>,
    j: BaseJournal,
    signed: bool,
    now: u64,
) -> Seq<SessionModel> {
    match lookup(store, j.gameid@) {
        Some(s) => store.update(
            session_index(store, j.gameid@),
            wave_effect(s, j.fleet@, j.board@, signed, now),
        ),
        None => store,
    }
}

/// The details of the messages about a wave: besides the common ones, the
/// member that the turn would pass to and since when they have been idle.
pub open spec fn wave_details(store: Seq<SessionModel>, j: BaseJournal) -> DetailsModel {
    let base = base_details(lookup(store, j.gameid@), j.gameid@, j.fleet@);
    match lookup(store, j.gameid@) {
        Some(s) => if has_other_player(s, j.fleet@) {
            DetailsModel {
                successor: s.players[successor(s, j.fleet@)].name,
                idle_since: s.players[successor(s, j.fleet@)].last_active_at,
                ..base
            }
        } else {
            base
        },
        None => base,
    }
}

/// The decision on a victory claim.
pub open spec fn store_claim_outcome(
    store: Seq<SessionModel>,
    j: BaseJournal,
    signed: bool,
    now: u64,
) -> Outcome {
    match lookup(store, j.gameid@) {
        Some(s) => claim_outcome(s, j.fleet@, j.board@, signed, now),
        None => Outcome::SessionNotFound,
    }
}

/// The store after a victory claim: a session that was won is deleted.
pub open spec fn store_claim_effect(
    store: Seq<SessionModel>,
    j: BaseJournal,
    signed: bool,
    now: u64,
) -> Seq<SessionModel> {
    match lookup(store, j.gameid@) {
        Some(s) => if claim_outcome(s, j.fleet@, j.board@, signed, now) is Won {
            store.remove(session_index(store, j.gameid@))
        } else {
            store.update(
                session_index(store, j.gameid@),
                claim_effect(s, j.fleet@, j.board@, signed, now),
            )
        },
        None => store,
    }
}

/// The details of the messages about a victory claim: besides the common
/// ones, the claimants found where the claim settled the arbitration.
pub open spec fn claim_details(
    store: Seq<SessionModel>,
    j: BaseJournal,
    signed: bool,
    now: u64,
) -> DetailsModel {
    let base = base_details(lookup(store, j.gameid@), j.gameid@, j.fleet@);
    match lookup(store, j.gameid@) {
        Some(s) => DetailsModel {
            claimants: claim_claimants(s, j.fleet@, j.board@, signed, now),
            ..base
        },
        None => base,
    }
}

/// The details of the event about a session that the sweep settled.
pub open spec fn settle_details(s: SessionModel) -> DetailsModel {
    DetailsModel {
        session: s.id,
        player: Seq::empty(),
        target: Seq::empty(),
        pos: 0,
        tag: Seq::empty(),
        claimant: Seq::empty(),
        debtor: Seq::empty(),
        successor: Seq::empty(),
        idle_since: 0,
        timeout: 0,
        claimants: s.claimants(),
    }
}

/// What a sweep at `now` leaves of the first `n` sessions: a session whose
/// claim is settled with a winner is deleted, one settled without a winner
/// has its claims voided, the others stay as they are.
pub open spec fn swept(store: Seq<SessionModel>, now: u64, n: nat) -> Seq<SessionModel>
    decreases n,
{
    if n == 0 {
        Seq::empty()
    } else if settle_outcome(store[n - 1], now) == Some(Outcome::Won) {
        swept(store, now, (n - 1) as nat)
    } else {
        swept(store, now, (n - 1) as nat).push(settle_effect(store[n - 1], now))
    }
}

/// The events of a sweep at `now` over the first `n` sessions: one for each
/// session that it settled, in the store's order.
pub open spec fn sweep_events(store: Seq<SessionModel>, now: u64, n: nat) -> Seq<Seq<char>>
    decreases n,
{
    if n == 0 {
        Seq::empty()
    } else {
        match settle_outcome(store[n - 1], now) {
            Some(o) => sweep_events(store, now, (n - 1) as nat).push(
                event_text(Command::Win, o, settle_details(store[n - 1])),
            ),
            None => sweep_events(store, now, (n - 1) as nat),
        }
    }
}

/// Deleting a session keeps identifiers unique.
pub proof fn lemma_ids_removed(before: Seq<SessionModel>, idx: int)
    requires
        ids_unique(before),
        0 <= idx < before.len(),
    ensures
        ids_unique(before.remove(idx)),
{
    let after = before.remove(idx);
    assert forall|i: int, j: int|
        0 <= i < after.len() && 0 <= j < after.len() && (#[trigger] after[i]).id == (
        #[trigger] after[j]).id implies i == j by {
        let a = if i < idx {
            i
        } else {
            i + 1
        };
        let b = if j < idx {
            j
        } else {
            j + 1
        };
        assert(before[a].id == before[b].id);
    }
}

/// Every session in progress, in the order of their creation.
pub struct SessionStore {
    pub(crate) sessions: Vec<Session>,
}

impl View for SessionStore {
    type V = Seq<SessionModel>;

    closed spec fn view(&self) -> Seq<SessionModel> {
        Seq::new(self.sessions@.len(), |i: int| self.sessions@[i]@)
    }
}

impl SessionStore {
    /// The invariant of the representation: every session is well formed and
    /// no two share an identifier.
    pub closed spec fn wf(&self) -> bool {
        &&& forall|i: int| 0 <= i < self.sessions@.len() ==> (#[trigger] self.sessions@[i]).wf()
        &&& ids_unique(self@)
    }

    /// A store without sessions.
    pub fn new() -> (store: SessionStore)
        ensures
            store.wf(),
            store@ == Seq::<SessionModel>::empty(),
    {
        let store = SessionStore { sessions: Vec::new() };
        assert(store@ =~= Seq::<SessionModel>::empty());
        store
    }

    /// The number of sessions.
    pub fn len(&self) -> (n: usize)
        ensures
            n == self@.len(),
    {
        self.sessions.len()
    }

    /// The place of the session of that identifier, if there is one.
    pub fn find(&self, id: &String) -> (found: Option<usize>)
        requires
            self.wf(),
        ensures
            found is Some <==> has_session(self@, id@),
            found is Some ==> found->0 == session_index(self@, id@) && found->0 < self@.len(),
    {
        let mut i: usize = 0;
        while i < self.sessions.len()
            invariant
                self.wf(),
                i <= self.sessions.len(),
                forall|j: int| 0 <= j < i ==> (#[trigger] self@[j]).id != id@,
            decreases self.sessions.len() - i,
        {
            if *self.sessions[i].id() == *id {
                proof {
                    assert(self@[i as int].id == id@);
                    lemma_session_index(self@, i as int);
                }
                return Some(i);
            }
            i += 1;
        }
        None
    }

    /// The session at a place.
    pub fn session(&self, idx: usize) -> (s: &Session)
        requires
            self.wf(),
            idx < self@.len(),
        ensures
            s.wf(),
            s@ == self@[idx as int],
    {
        &self.sessions[idx]
    }

    /// The details that the messages about a session and a player draw on.
    pub fn details(&self, found: Option<usize>, id: &String, player: &String) -> (d: Details)
        requires
            self.wf(),
            found is Some <==> has_session(self@, id@),
            found is Some ==> found->0 == session_index(self@, id@) && found->0 < self@.len(),
        ensures
            d@ == base_details(lookup(self@, id@), id@, player@),
    {
        let mut d: Details = Details::of(id, player);
        if let Some(idx) = found {
            let s: &Session = self.session(idx);
            if let Some(claim) = s.victory_claim() {
                d.claimant = claim.claimant;
            }
            if let Some(debtor) = s.report_owed_by() {
                d.debtor = debtor;
            }
            d.timeout = s.victory_timeout();
        }
        d
    }

    /// Whether a command's signature verifies under the key that the session
    /// holds for the player.
    pub fn is_signed_by(&self, id: &String, player: &String, message: &Vec<u8>, signature: &Vec<u8>) -> (signed:
        bool)
        requires
            self.wf(),
        ensures
            signed == signed_by(self@, id@, player@, message@, signature@),
    {
        match self.find(id) {
            Some(idx) => {
                let s: &Session = self.session(idx);
                match s.find_player(player) {
                    Some(p) => {
                        let key: [u8; 32] = s.player_key(p);
                        check_signature(&key, message, signature)
                    },
                    None => false,
                }
            },
            None => false,
        }
    }

    /// Applies a shot. `signed` says whether the command's signature verified
    /// under the actor's key.
    pub fn fire(&mut self, j: &FireJournal, signed: bool, now: u64) -> (reply: Reply)
        requires
            old(self).wf(),
        ensures
            final(self).wf(),
            all_consistent(old(self)@) ==> all_consistent(final(self)@),
            reply.outcome == store_fire_outcome(old(self)@, *j, signed, now),
            reply.result@ == result_text(Command::Fire, reply.outcome, fire_details(old(self)@, *j)),
            reply.event@ == event_text(Command::Fire, reply.outcome, fire_details(old(self)@, *j)),
            final(self)@ == store_fire_effect(old(self)@, *j, signed, now),
    {
        proof {
            if all_consistent(self@) {
                law_fire_keeps_consistent(self@, *j, signed, now);
            }
        }
        let found: Option<usize> = self.find(&j.gameid);
        let mut d: Details = self.details(found, &j.gameid, &j.fleet);
        d.target = j.target.clone();
        d.pos = j.pos;
        let outcome: Outcome = match found {
            Some(idx) => {
                let outcome: Outcome = self.sessions[idx].fire(
                    &j.fleet,
                    &j.target,
                    j.pos,
                    &j.board,
                    signed,
                    now,
                );
                proof {
                    assert(self@ =~= store_fire_effect(old(self)@, *j, signed, now));
                    lemma_ids_kept(old(self)@, self@, idx as int);
                }
                outcome
            },
            None => Outcome::SessionNotFound,
        };
        Reply::compose(Command::Fire, outcome, &d)
    }

    /// Handles a shot: checks the signature over the attested bytes against
    /// the actor's key, then applies the shot.
    pub fn handle_fire(&mut self, j: &FireJournal, message: &Vec<u8>, signature: &Vec<u8>, now: u64) -> (reply:
        Reply)
        requires
            old(self).wf(),
        ensures
            final(self).wf(),
            all_consistent(old(self)@) ==> all_consistent(final(self)@),
            reply.outcome == store_fire_outcome(
                old(self)@,
                *j,
                signed_by(old(self)@, j.gameid@, j.fleet@, message@, signature@),
                now,
            ),
            reply.result@ == result_text(Command::Fire, reply.outcome, fire_details(old(self)@, *j)),
            reply.event@ == event_text(Command::Fire, reply.outcome, fire_details(old(self)@, *j)),
            final(self)@ == store_fire_effect(
                old(self)@,
                *j,
                signed_by(old(self)@, j.gameid@, j.fleet@, message@, signature@),
                now,
            ),
    {
        let signed: bool = self.is_signed_by(&j.gameid, &j.fleet, message, signature);
        self.fire(j, signed, now)
    }

    /// Applies a join with a key of 32 bytes. `key_valid` says whether the
    /// key decodes, `signed` whether the signature verified under it.
    pub fn join(&mut self, j: &BaseJournal, key: &[u8; 32], key_valid: bool, signed: bool, now: u64) -> (reply:
        Reply)
        requires
            old(self).wf(),
        ensures
            final(self).wf(),
            all_consistent(old(self)@) ==> all_consistent(final(self)@),
            reply.outcome == store_join_outcome(old(self)@, *j, key_valid, signed),
            reply.result@ == result_text(Command::Join, reply.outcome, join_details(old(self)@, *j)),
            reply.event@ == event_text(Command::Join, reply.outcome, join_details(old(self)@, *j)),
            final(self)@ == store_join_effect(old(self)@, *j, key@, key_valid, signed, now),
    {
        proof {
            if all_consistent(self@) {
                law_join_keeps_consistent(self@, *j, key@, key_valid, signed, now);
            }
        }
        let found: Option<usize> = self.find(&j.gameid);
        let d: Details = self.details(found, &j.gameid, &j.fleet);
        if !key_valid {
            return Reply::compose(Command::Join, Outcome::InvalidKey, &d);
        }
        if !signed {
            return Reply::compose(Command::Join, Outcome::InvalidSignature, &d);
        }
        let outcome: Outcome = match found {
            Some(idx) => {
                let outcome: Outcome = self.sessions[idx].join(&j.fleet, &j.board, key, now);
                proof {
                    assert(self@ =~= store_join_effect(
                        old(self)@,
                        *j,
                        key@,
                        key_valid,
                        signed,
                        now,
                    ));
                    lemma_ids_kept(old(self)@, self@, idx as int);
                }
                outcome
            },
            None => {
                let mut s: Session = Session::new(j.gameid.clone(), &j.fleet);
                let outcome: Outcome = s.join(&j.fleet, &j.board, key, now);
                proof {
                    let fresh = fresh_session(j.gameid@, j.fleet@);
                    assert(!fresh.has_player(j.fleet@));
                }
                self.sessions.push(s);
                proof {
                    assert(self@ =~= store_join_effect(
                        old(self)@,
                        *j,
                        key@,
                        key_valid,
                        signed,
                        now,
                    ));
                    assert forall|a: int, b: int|
                        0 <= a < self@.len() && 0 <= b < self@.len() && (#[trigger] self@[a]).id
                            == (#[trigger] self@[b]).id implies a == b by {
                        let n = old(self)@.len() as int;
                        if a < n && b < n {
                            assert(old(self)@[a].id == old(self)@[b].id);
                        } else if a < n {
                            assert(old(self)@[a].id == j.gameid@);
                        } else if b < n {
                            assert(old(self)@[b].id == j.gameid@);
                        }
                    }
                }
                outcome
            },
        };
        Reply::compose(Command::Join, outcome, &d)
    }

    /// Handles a join: the key must be present, have 32 bytes and decode, and
    /// the signature over the attested bytes must verify under it; then the
    /// player is enrolled.
    pub fn handle_join(
        &mut self,
        j: &BaseJournal,
        public_key: &Option<Vec<u8>>,
        message: &Vec<u8>,
        signature: &Vec<u8>,
        now: u64,
    ) -> (reply: Reply)
        requires
            old(self).wf(),
        ensures
            final(self).wf(),
            all_consistent(old(self)@) ==> all_consistent(final(self)@),
            reply.result@ == result_text(Command::Join, reply.outcome, join_details(old(self)@, *j)),
            reply.event@ == event_text(Command::Join, reply.outcome, join_details(old(self)@, *j)),
            key_outcome(*public_key) is Some ==> reply.outcome == key_outcome(*public_key)->0
                && final(self)@ == old(self)@,
            key_outcome(*public_key) is None ==> reply.outcome == store_join_outcome(
                old(self)@,
                *j,
                key_decodes(public_key->0@),
                authenticates(public_key->0@, message@, signature@),
            ) && final(self)@ == store_join_effect(
                old(self)@,
                *j,
                public_key->0@,
                key_decodes(public_key->0@),
                authenticates(public_key->0@, message@, signature@),
                now,
            ),
    {
        let bytes: &Vec<u8> = match public_key {
            Some(k) => k,
            None => {
                let found: Option<usize> = self.find(&j.gameid);
                let d: Details = self.details(found, &j.gameid, &j.fleet);
                return Reply::compose(Command::Join, Outcome::MissingKey, &d);
            },
        };
        if bytes.len() != 32 {
            let found: Option<usize> = self.find(&j.gameid);
            let d: Details = self.details(found, &j.gameid, &j.fleet);
            return Reply::compose(Command::Join, Outcome::InvalidKey, &d);
        }
        let key: [u8; 32] = key_array(bytes);
        let key_valid: bool = key_is_valid(&key);
        let signed: bool = check_signature(&key, message, signature);
        self.join(j, &key, key_valid, signed, now)
    }

    /// Applies a report. `signed` says whether the command's signature
    /// verified under the reporter's key.
    pub fn report(&mut self, j: &ReportJournal, signed: bool, now: u64) -> (reply: Reply)
        requires
            old(self).wf(),
        ensures
            final(self).wf(),
            all_consistent(old(self)@) ==> all_consistent(final(self)@),
            reply.outcome == store_report_outcome(old(self)@, *j, signed, now),
            reply.result@ == result_text(
                Command::Report,
                reply.outcome,
                report_details(old(self)@, *j),
            ),
            reply.event@ == event_text(
                Command::Report,
                reply.outcome,
                report_details(old(self)@, *j),
            ),
            final(self)@ == store_report_effect(old(self)@, *j, signed, now),
    {
        proof {
            if all_consistent(self@) {
                law_report_keeps_consistent(self@, *j, signed, now);
            }
        }
        let found: Option<usize> = self.find(&j.gameid);
        let mut d: Details = self.details(found, &j.gameid, &j.fleet);
        d.tag = j.report.clone();
        d.pos = j.pos;
        let outcome: Outcome = match found {
            Some(idx) => {
                let outcome: Outcome = self.sessions[idx].report(
                    &j.fleet,
                    &j.report,
                    j.pos,
                    &j.board,
                    &j.next_board,
                    signed,
                    now,
                );
                proof {
                    assert(self@ =~= store_report_effect(old(self)@, *j, signed, now));
                    lemma_ids_kept(old(self)@, self@, idx as int);
                }
                outcome
            },
            None => Outcome::SessionNotFound,
        };
        Reply::compose(Command::Report, outcome, &d)
    }

    /// Handles a report: checks the signature over the attested bytes against
    /// the reporter's key, then applies the report.
    pub fn handle_report(&mut self, j: &ReportJournal, message: &Vec<u8>, signature: &Vec<u8>, now: u64) -> (reply:
        Reply)
        requires
            old(self).wf(),
        ensures
            final(self).wf(),
            all_consistent(old(self)@) ==> all_consistent(final(self)@),
            reply.outcome == store_report_outcome(
                old(self)@,
                *j,
                signed_by(old(self)@, j.gameid@, j.fleet@, message@, signature@),
                now,
            ),
            reply.result@ == result_text(
                Command::Report,
                reply.outcome,
                report_details(old(self)@, *j),
            ),
            reply.event@ == event_text(
                Command::Report,
                reply.outcome,
                report_details(old(self)@, *j),
            ),
            final(self)@ == store_report_effect(
                old(self)@,
                *j,
                signed_by(old(self)@, j.gameid@, j.fleet@, message@, signature@),
                now,
            ),
    {
        let signed: bool = self.is_signed_by(&j.gameid, &j.fleet, message, signature);
        self.report(j, signed, now)
    }

    /// Applies a wave. `signed` says whether the command's signature verified
    /// under the actor's key.
    pub fn wave(&mut self, j: &BaseJournal, signed: bool, now: u64) -> (reply: Reply)
        requires
            old(self).wf(),
        ensures
            final(self).wf(),
            all_consistent(old(self)@) ==> all_consistent(final(self)@),
            reply.outcome == store_wave_outcome(old(self)@, *j, signed, now),
            reply.result@ == result_text(Command::Wave, reply.outcome, wave_details(old(self)@, *j)),
            reply.event@ == event_text(Command::Wave, reply.outcome, wave_details(old(self)@, *j)),
            final(self)@ == store_wave_effect(old(self)@, *j, signed, now),
    {
        proof {
            if all_consistent(self@) {
                law_wave_keeps_consistent(self@, *j, signed, now);
            }
        }
        let found: Option<usize> = self.find(&j.gameid);
        let mut d: Details = self.details(found, &j.gameid, &j.fleet);
        let outcome: Outcome = match found {
            Some(idx) => {
                if let Some(k) = self.sessions[idx].find_successor(&j.fleet) {
                    d.successor = self.sessions[idx].player_name(k);
                    d.idle_since = self.sessions[idx].player_last_active(k);
                }
                let outcome: Outcome = self.sessions[idx].wave(&j.fleet, &j.board, signed, now);
                proof {
                    assert(self@ =~= store_wave_effect(old(self)@, *j, signed, now));
                    lemma_ids_kept(old(self)@, self@, idx as int);
                }
                outcome
            },
            None => Outcome::SessionNotFound,
        };
        Reply::compose(Command::Wave, outcome, &d)
    }

    /// Handles a wave: checks the signature over the attested bytes against
    /// the actor's key, then applies the wave.
    pub fn handle_wave(&mut self, j: &BaseJournal, message: &Vec<u8>, signature: &Vec<u8>, now: u64) -> (reply:
        Reply)
        requires
            old(self).wf(),
        ensures
            final(self).wf(),
            all_consistent(old(self)@) ==> all_consistent(final(self)@),
            reply.outcome == store_wave_outcome(
                old(self)@,
                *j,
                signed_by(old(self)@, j.gameid@, j.fleet@, message@, signature@),
                now,
            ),
            reply.result@ == result_text(Command::Wave, reply.outcome, wave_details(old(self)@, *j)),
            reply.event@ == event_text(Command::Wave, reply.outcome, wave_details(old(self)@, *j)),
            final(self)@ == store_wave_effect(
                old(self)@,
                *j,
                signed_by(old(self)@, j.gameid@, j.fleet@, message@, signature@),
                now,
            ),
    {
        let signed: bool = self.is_signed_by(&j.gameid, &j.fleet, message, signature);
        self.wave(j, signed, now)
    }

    /// Applies a victory claim. `signed` says whether the command's signature
    /// verified under the claimant's key.
    pub fn win(&mut self, j: &BaseJournal, signed: bool, now: u64) -> (reply: Reply)
        requires
            old(self).wf(),
        ensures
            final(self).wf(),
            all_consistent(old(self)@) ==> all_consistent(final(self)@),
            reply.outcome == store_claim_outcome(old(self)@, *j, signed, now),
            reply.result@ == result_text(
                Command::Win,
                reply.outcome,
                claim_details(old(self)@, *j, signed, now),
            ),
            reply.event@ == event_text(
                Command::Win,
                reply.outcome,
                claim_details(old(self)@, *j, signed, now),
            ),
            final(self)@ == store_claim_effect(old(self)@, *j, signed, now),
    {
        proof {
            if all_consistent(self@) {
                law_claim_keeps_consistent(self@, *j, signed, now);
            }
        }
        let found: Option<usize> = self.find(&j.gameid);
        let mut d: Details = self.details(found, &j.gameid, &j.fleet);
        let outcome: Outcome = match found {
            Some(idx) => {
                let verdict: Verdict = self.sessions[idx].claim_victory(
                    &j.fleet,
                    &j.board,
                    signed,
                    now,
                );
                d.claimants = verdict.claimants;
                let ghost updated = self@;
                proof {
                    assert(updated =~= old(self)@.update(
                        idx as int,
                        claim_effect(old(self)@[idx as int], j.fleet@, j.board@, signed, now),
                    ));
                    lemma_ids_kept(old(self)@, updated, idx as int);
                }
                match verdict.outcome {
                    Outcome::Won => {
                        self.sessions.remove(idx);
                        proof {
                            assert(self@ =~= updated.remove(idx as int));
                            assert(self@ =~= old(self)@.remove(idx as int));
                            lemma_ids_removed(updated, idx as int);
                        }
                    },
                    _ => {},
                }
                verdict.outcome
            },
            None => Outcome::SessionNotFound,
        };
        Reply::compose(Command::Win, outcome, &d)
    }

    /// Handles a victory claim: checks the signature over the attested bytes
    /// against the claimant's key, then applies the claim.
    pub fn handle_win(&mut self, j: &BaseJournal, message: &Vec<u8>, signature: &Vec<u8>, now: u64) -> (reply:
        Reply)
        requires
            old(self).wf(),
        ensures
            final(self).wf(),
            all_consistent(old(self)@) ==> all_consistent(final(self)@),
            reply.outcome == store_claim_outcome(
                old(self)@,
                *j,
                signed_by(old(self)@, j.gameid@, j.fleet@, message@, signature@),
                now,
            ),
            reply.result@ == result_text(
                Command::Win,
                reply.outcome,
                claim_details(
                    old(self)@,
                    *j,
                    signed_by(old(self)@, j.gameid@, j.fleet@, message@, signature@),
                    now,
                ),
            ),
            reply.event@ == event_text(
                Command::Win,
                reply.outcome,
                claim_details(
                    old(self)@,
                    *j,
                    signed_by(old(self)@, j.gameid@, j.fleet@, message@, signature@),
                    now,
                ),
            ),
            final(self)@ == store_claim_effect(
                old(self)@,
                *j,
                signed_by(old(self)@, j.gameid@, j.fleet@, message@, signature@),
                now,
            ),
    {
        let signed: bool = self.is_signed_by(&j.gameid, &j.fleet, message, signature);
        self.win(j, signed, now)
    }

    /// The periodic sweep: settles every victory claim whose contest window
    /// has elapsed at `now`, deletes the sessions that were won, and returns
    /// one event for each session settled, in the store's order.
    pub fn check_victory_timeouts(&mut self, now: u64) -> (events: Vec<String>)
        requires
            old(self).wf(),
        ensures
            final(self).wf(),
            all_consistent(old(self)@) ==> all_consistent(final(self)@),
            final(self)@ == swept(old(self)@, now, old(self)@.len()),
            name_views(events@) == sweep_events(old(self)@, now, old(self)@.len()),
    {
        proof {
            if all_consistent(self@) {
                law_sweep_keeps_consistent(self@, now);
            }
        }
        let mut events: Vec<String> = Vec::new();
        let mut i: usize = 0;
        let ghost mut done: nat = 0;
        assert(name_views(events@) =~= sweep_events(old(self)@, now, 0));
        while i < self.sessions.len()
            invariant
                self.wf(),
                i <= self@.len(),
                done <= old(self)@.len(),
                self@.len() - i == old(self)@.len() - done,
                swept(old(self)@, now, done).len() == i,
                forall|a: int| 0 <= a < i ==> self@[a] == swept(old(self)@, now, done)[a],
                forall|a: int| i <= a < self@.len() ==> self@[a] == old(self)@[a - i + done],
                name_views(events@) == sweep_events(old(self)@, now, done),
            decreases self.sessions.len() - i,
        {
            let ghost before = self@;
            let ghost current = self@[i as int];
            assert(current == old(self)@[done as int]);
            let mut d: Details = Details::of(self.sessions[i].id(), &String::new());
            let verdict: Option<Verdict> = self.sessions[i].settle(now);
            let ghost updated = self@;
            proof {
                assert(updated =~= before.update(i as int, settle_effect(current, now)));
                lemma_ids_kept(before, updated, i as int);
            }
            match verdict {
                Some(v) => {
                    d.claimants = v.claimants;
                    assert(d@ == settle_details(current));
                    let line: String = crate::messages::event_line(Command::Win, v.outcome, &d);
                    events.push(line);
                    match v.outcome {
                        Outcome::Won => {
                            self.sessions.remove(i);
                            proof {
                                assert(self@ =~= updated.remove(i as int));
                                lemma_ids_removed(updated, i as int);
                            }
                        },
                        _ => {
                            i += 1;
                        },
                    }
                },
                None => {
                    i += 1;
                },
            }
            proof {
                done = done + 1;
                assert(name_views(events@) =~= sweep_events(old(self)@, now, done));
            }
        }
        assert(self@ =~= swept(old(self)@, now, old(self)@.len()));
        events
    }
}

/// Replacing a session by one of the same identifier keeps identifiers
/// unique.
pub proof fn lemma_ids_kept(before: Seq<SessionModel>, after: Seq<SessionModel>, idx: int)
    requires
        ids_unique(before),
        0 <= idx < before.len(),
        after.len() == before.len(),
        after[idx].id == before[idx].id,
        forall|i: int| 0 <= i < before.len() && i != idx ==> after[i] == before[i],
    ensures
        ids_unique(after),
{
    assert forall|i: int, j: int|
        0 <= i < after.len() && 0 <= j < after.len() && (#[trigger] after[i]).id == (
        #[trigger] after[j]).id implies i == j by {
        assert(before[i].id == before[j].id);
    }
}

} // verus!
