//! One game in progress: its players, whose turn it is, who owes a report,
//! and the state of victory arbitration.

use crate::commitment::Commitment;
use crate::outcome::Outcome;
use crate::rules::{
    claim_claimants, claim_effect, claim_outcome, fire_effect, fire_outcome, fresh_session,
    has_other_player, is_successor, join_effect, join_outcome, lemma_successor_unique,
    report_effect, report_outcome, settle_effect, settle_outcome, successor, wave_effect,
    wave_outcome, with_claim_flag,
};
use vstd::string::*;
use vstd::prelude::*;

verus! {

/// The contest window of a fresh session, in seconds.
pub const DEFAULT_VICTORY_TIMEOUT: u64 = 30;

/// The highest position of the ten by ten board.
pub const MAX_POSITION: u8 = 99;

/// A member of a session.
pub struct Player {
    pub(crate) name: String,
    pub(crate) committed_state: Commitment,
    pub(crate) last_active_at: u64,
    pub(crate) victory_claimed: bool,
    pub(crate) public_key: [u8; 32],
}

/// A player as a mathematical value.
pub struct PlayerModel {
    pub name: Seq<char>,
    pub committed_state: Seq<u8>,
    pub last_active_at: u64,
    pub victory_claimed: bool,
    pub public_key: Seq<u8>,
}

impl View for Player {
    type V = PlayerModel;

    closed spec fn view(&self) -> PlayerModel {
        PlayerModel {
            name: self.name@,
            committed_state: self.committed_state@,
            last_active_at: self.last_active_at,
            victory_claimed: self.victory_claimed,
            public_key: self.public_key@,
        }
    }
}

/// A victory claim: who made it, and when.
pub struct Claim {
    pub claimant: String,
    pub since: u64,
}

/// A victory claim as a mathematical value.
pub struct ClaimModel {
    pub claimant: Seq<char>,
    pub since: u64,
}

impl View for Claim {
    type V = ClaimModel;

    open spec fn view(&self) -> ClaimModel {
        ClaimModel { claimant: self.claimant@, since: self.since }
    }
}

/// A session.
pub struct Session {
    pub(crate) id: String,
    pub(crate) players: Vec<Player>,
    pub(crate) turn_holder: Option<String>,
    pub(crate) report_owed_by: Option<String>,
    pub(crate) victory_claim: Option<Claim>,
    pub(crate) victory_timeout: u64,
    pub(crate) locked_for_join: bool,
}

/// A session as a mathematical value. The players stand in the order in
/// which they joined.
pub struct SessionModel {
    pub id: Seq<char>,
    pub players: Seq<PlayerModel>,
    pub turn_holder: Option<Seq<char>>,
    pub report_owed_by: Option<Seq<char>>,
    pub victory_claim: Option<ClaimModel>,
    pub victory_timeout: u64,
    pub locked_for_join: bool,
}

/// The view of an optional name.
pub open spec fn name_model(name: Option<String>) -> Option<Seq<char>> {
    match name {
        Some(n) => Some(n@),
        None => None,
    }
}

/// The view of an optional claim.
pub open spec fn claim_model(claim: Option<Claim>) -> Option<ClaimModel> {
    match claim {
        Some(c) => Some(c@),
        None => None,
    }
}

impl View for Session {
    type V = SessionModel;

    closed spec fn view(&self) -> SessionModel {
        SessionModel {
            id: self.id@,
            players: Seq::new(self.players@.len(), |i: int| self.players@[i]@),
            turn_holder: name_model(self.turn_holder),
            report_owed_by: name_model(self.report_owed_by),
            victory_claim: claim_model(self.victory_claim),
            victory_timeout: self.victory_timeout,
            locked_for_join: self.locked_for_join,
        }
    }
}

/// The names of those of the first `n` players whose claim flag is set, in
/// order.
pub open spec fn claimants_among(players: Seq<PlayerModel>, n: nat) -> Seq<Seq<char>>
    decreases n,
{
    if n == 0 {
        Seq::empty()
    } else if players[n - 1].victory_claimed {
        claimants_among(players, (n - 1) as nat).push(players[n - 1].name)
    } else {
        claimants_among(players, (n - 1) as nat)
    }
}

/// The views of a list of names.
pub open spec fn name_views(names: Seq<String>) -> Seq<Seq<char>> {
    Seq::new(names.len(), |i: int| names[i]@)
}

/// Seconds from `since` to `now`; none where the clock stands before `since`.
pub open spec fn elapsed(now: u64, since: u64) -> u64 {
    if now >= since {
        (now - since) as u64
    } else {
        0
    }
}

impl SessionModel {
    /// Whether a player of that name is a member.
    pub open spec fn has_player(self, name: Seq<char>) -> bool {
        exists|i: int| 0 <= i < self.players.len() && (#[trigger] self.players[i]).name == name
    }

    /// The place of the member of that name.
    pub open spec fn index_of(self, name: Seq<char>) -> int {
        choose|i: int| 0 <= i < self.players.len() && (#[trigger] self.players[i]).name == name
    }

    /// The member of that name.
    pub open spec fn player(self, name: Seq<char>) -> PlayerModel {
        self.players[self.index_of(name)]
    }

    /// No two members share a name.
    pub open spec fn names_unique(self) -> bool {
        forall|i: int, j: int|
            0 <= i < self.players.len() && 0 <= j < self.players.len() && (
            #[trigger] self.players[i]).name == (#[trigger] self.players[j]).name ==> i == j
    }

    /// Either someone may act or someone owes a report, never both and never
    /// neither, and whoever it is belongs to the session.
    pub open spec fn turn_consistent(self) -> bool {
        &&& self.turn_holder is Some <==> self.report_owed_by is None
        &&& self.turn_holder is Some ==> self.has_player(self.turn_holder->0)
        &&& self.report_owed_by is Some ==> self.has_player(self.report_owed_by->0)
    }

    /// A recorded claim belongs to a member whose claim flag is set.
    pub open spec fn claim_consistent(self) -> bool {
        self.victory_claim is Some ==> {
            &&& self.has_player(self.victory_claim->0.claimant)
            &&& self.player(self.victory_claim->0.claimant).victory_claimed
        }
    }

    /// Whether a victory claim is inside its contest window at `now`.
    pub open spec fn window_open(self, now: u64) -> bool {
        self.victory_claim is Some && elapsed(now, self.victory_claim->0.since) < self.victory_timeout
    }

    /// Seconds left of the contest window at `now`.
    pub open spec fn window_remaining(self, now: u64) -> u64 {
        (self.victory_timeout - elapsed(now, self.victory_claim->0.since)) as u64
    }

    /// Whether a victory claim has outlasted its contest window at `now`.
    pub open spec fn window_elapsed(self, now: u64) -> bool {
        self.victory_claim is Some && elapsed(now, self.victory_claim->0.since)
            >= self.victory_timeout
    }

    /// The names of the members whose claim flag is set, in joining order.
    pub open spec fn claimants(self) -> Seq<Seq<char>> {
        claimants_among(self.players, self.players.len())
    }

    /// The session with every claim flag down and no recorded claim.
    pub open spec fn without_claims(self) -> SessionModel {
        SessionModel {
            players: self.players.map_values(
                |p: PlayerModel| PlayerModel { victory_claimed: false, ..p },
            ),
            victory_claim: None,
            ..self
        }
    }
}

/// In a session without duplicate names, the member at place `i` is the one
/// that its name finds.
pub proof fn lemma_index_of(s: SessionModel, i: int)
    requires
        s.names_unique(),
        0 <= i < s.players.len(),
    ensures
        s.has_player(s.players[i].name),
        s.index_of(s.players[i].name) == i,
        s.player(s.players[i].name) == s.players[i],
{
    let name = s.players[i].name;
    assert(s.has_player(name));
    let k = s.index_of(name);
    assert(0 <= k < s.players.len() && s.players[k].name == name);
}

impl Session {
    /// The invariant of the representation: no two members share a name.
    pub closed spec fn wf(&self) -> bool {
        self@.names_unique()
    }

    /// The session's identifier.
    pub fn id(&self) -> (id: &String)
        ensures
            id@ == self@.id,
    {
        &self.id
    }

    /// Who may act next, if anyone.
    pub fn turn_holder(&self) -> (name: Option<String>)
        ensures
            name_model(name) == self@.turn_holder,
    {
        match &self.turn_holder {
            Some(n) => Some(n.clone()),
            None => None,
        }
    }

    /// Who must report before play goes on, if anyone.
    pub fn report_owed_by(&self) -> (name: Option<String>)
        ensures
            name_model(name) == self@.report_owed_by,
    {
        match &self.report_owed_by {
            Some(n) => Some(n.clone()),
            None => None,
        }
    }

    /// The first unresolved victory claim: the claimant and the time.
    pub fn victory_claim(&self) -> (claim: Option<Claim>)
        ensures
            claim_model(claim) == self@.victory_claim,
    {
        match &self.victory_claim {
            Some(c) => Some(Claim { claimant: c.claimant.clone(), since: c.since }),
            None => None,
        }
    }

    /// The length of the contest window in seconds.
    pub fn victory_timeout(&self) -> (seconds: u64)
        ensures
            seconds == self@.victory_timeout,
    {
        self.victory_timeout
    }

    /// Whether a shot has been fired, after which nobody can join.
    pub fn locked_for_join(&self) -> (locked: bool)
        ensures
            locked == self@.locked_for_join,
    {
        self.locked_for_join
    }

    /// The number of members.
    pub fn player_count(&self) -> (n: usize)
        ensures
            n == self@.players.len(),
    {
        self.players.len()
    }

    /// The name of the member at a place.
    pub fn player_name(&self, idx: usize) -> (name: String)
        requires
            idx < self@.players.len(),
        ensures
            name@ == self@.players[idx as int].name,
    {
        self.players[idx].name.clone()
    }

    /// Since when the member at a place has been idle.
    pub fn player_last_active(&self, idx: usize) -> (at: u64)
        requires
            idx < self@.players.len(),
        ensures
            at == self@.players[idx as int].last_active_at,
    {
        self.players[idx].last_active_at
    }

    /// The public key of the member at a place.
    pub fn player_key(&self, idx: usize) -> (key: [u8; 32])
        requires
            idx < self@.players.len(),
        ensures
            key@ == self@.players[idx as int].public_key,
    {
        self.players[idx].public_key
    }

    /// The commitment stored for the member at a place.
    pub fn player_commitment(&self, idx: usize) -> (c: Commitment)
        requires
            idx < self@.players.len(),
        ensures
            c@ == self@.players[idx as int].committed_state,
    {
        self.players[idx].committed_state
    }

    /// Whether the member at a place has an unresolved victory claim.
    pub fn player_has_claimed(&self, idx: usize) -> (claimed: bool)
        requires
            idx < self@.players.len(),
        ensures
            claimed == self@.players[idx as int].victory_claimed,
    {
        self.players[idx].victory_claimed
    }

    /// The place of the member of that name, if there is one.
    pub fn find_player(&self, name: &String) -> (found: Option<usize>)
        requires
            self.wf(),
        ensures
            found is Some <==> self@.has_player(name@),
            found is Some ==> found->0 == self@.index_of(name@) && found->0 < self@.players.len(),
    {
        let mut i: usize = 0;
        while i < self.players.len()
            invariant
                self.wf(),
                i <= self.players.len(),
                forall|j: int| 0 <= j < i ==> (#[trigger] self@.players[j]).name != name@,
            decreases self.players.len() - i,
        {
            if self.players[i].name == *name {
                proof {
                    assert(self@.players[i as int].name == name@);
                    lemma_index_of(self@, i as int);
                }
                return Some(i);
            }
            i += 1;
        }
        None
    }

    /// Whether a victory claim is inside its contest window at `now`, and if
    /// so for how many more seconds.
    pub fn contest_window(&self, now: u64) -> (remaining: Option<u64>)
        ensures
            remaining is Some <==> self@.window_open(now),
            remaining is Some ==> remaining->0 == self@.window_remaining(now),
    {
        match &self.victory_claim {
            Some(claim) => {
                let passed: u64 = if now >= claim.since {
                    now - claim.since
                } else {
                    0
                };
                if passed < self.victory_timeout {
                    Some(self.victory_timeout - passed)
                } else {
                    None
                }
            },
            None => None,
        }
    }

    /// Whether the turn is held by the player of that name.
    pub fn holds_turn(&self, name: &String) -> (held: bool)
        ensures
            held == (self@.turn_holder == Some(name@)),
    {
        match &self.turn_holder {
            Some(holder) => *holder == *name,
            None => false,
        }
    }

    /// Whether the player of that name owes the report.
    pub fn owes_report(&self, name: &String) -> (owed: bool)
        ensures
            owed == (self@.report_owed_by == Some(name@)),
    {
        match &self.report_owed_by {
            Some(debtor) => *debtor == *name,
            None => false,
        }
    }

    /// A shot by `actor` at `target`. `signed` says whether the command's
    /// signature verified under the actor's key.
    pub fn fire(
        &mut self,
        actor: &String,
        target: &String,
        pos: u8,
        commitment: &Commitment,
        signed: bool,
        now: u64,
    ) -> (outcome: Outcome)
        requires
            old(self).wf(),
        ensures
            final(self).wf(),
            outcome == fire_outcome(old(self)@, actor@, target@, pos, commitment@, signed, now),
            final(self)@ == fire_effect(old(self)@, actor@, target@, pos, commitment@, signed, now),
    {
        if self.find_player(target).is_none() {
            return Outcome::TargetNotFound;
        }
        if *actor == *target {
            return Outcome::SelfTarget;
        }
        let idx: usize = match self.find_player(actor) {
            Some(i) => i,
            None => {
                return Outcome::PlayerNotFound;
            },
        };
        if !signed {
            return Outcome::InvalidSignature;
        }
        if let Some(remaining) = self.contest_window(now) {
            return Outcome::ClaimWindowOpen { remaining };
        }
        if !self.players[idx].committed_state.same_as(commitment) {
            return Outcome::StateMismatch;
        }
        if !self.holds_turn(actor) {
            return Outcome::NotYourTurn;
        }
        if self.report_owed_by.is_some() {
            return Outcome::ReportOutstanding;
        }
        if pos > MAX_POSITION {
            return Outcome::InvalidPosition;
        }
        self.players[idx].last_active_at = now;
        self.locked_for_join = true;
        self.report_owed_by = Some(target.clone());
        self.turn_holder = None;
        proof {
            let before = old(self)@;
            let after = fire_effect(before, actor@, target@, pos, commitment@, signed, now);
            assert(self@.players =~= after.players);
        }
        Outcome::Accepted
    }

    /// A session without members, in which `player` holds the turn.
    pub fn new(id: String, player: &String) -> (s: Session)
        ensures
            s.wf(),
            s@ == fresh_session(id@, player@),
    {
        let s = Session {
            id,
            players: Vec::new(),
            turn_holder: Some(player.clone()),
            report_owed_by: None,
            victory_claim: None,
            victory_timeout: DEFAULT_VICTORY_TIMEOUT,
            locked_for_join: false,
        };
        assert(s@.players =~= Seq::<PlayerModel>::empty());
        s
    }

    /// Enrols a player whose key and signature were found in order.
    pub fn join(&mut self, player: &String, commitment: &Commitment, key: &[u8; 32], now: u64) -> (outcome:
        Outcome)
        requires
            old(self).wf(),
        ensures
            final(self).wf(),
            outcome == join_outcome(old(self)@, player@),
            final(self)@ == join_effect(old(self)@, player@, commitment@, key@, now),
    {
        if self.locked_for_join {
            return Outcome::SessionLocked;
        }
        if self.find_player(player).is_some() {
            return Outcome::AlreadyJoined;
        }
        self.players.push(
            Player {
                name: player.clone(),
                committed_state: *commitment,
                last_active_at: now,
                victory_claimed: false,
                public_key: *key,
            },
        );
        proof {
            let after = join_effect(old(self)@, player@, commitment@, key@, now);
            assert(self@.players =~= after.players);
            assert forall|i: int, j: int|
                0 <= i < self@.players.len() && 0 <= j < self@.players.len() && (
                #[trigger] self@.players[i]).name == (#[trigger] self@.players[j]).name implies i
                == j by {
                let n = old(self)@.players.len() as int;
                if i < n && j < n {
                    assert(old(self)@.players[i].name == old(self)@.players[j].name);
                } else if i < n {
                    assert(old(self)@.players[i].name == player@);
                } else if j < n {
                    assert(old(self)@.players[j].name == player@);
                }
            }
        }
        Outcome::Accepted
    }

    /// A report by `player` on the shot they received. `signed` says whether
    /// the command's signature verified under the player's key.
    pub fn report(
        &mut self,
        player: &String,
        tag: &String,
        pos: u8,
        commitment: &Commitment,
        next_commitment: &Commitment,
        signed: bool,
        now: u64,
    ) -> (outcome: Outcome)
        requires
            old(self).wf(),
        ensures
            final(self).wf(),
            outcome == report_outcome(old(self)@, player@, tag@, pos, commitment@, signed, now),
            final(self)@ == report_effect(
                old(self)@,
                player@,
                tag@,
                pos,
                commitment@,
                next_commitment@,
                signed,
                now,
            ),
    {
        let idx: usize = match self.find_player(player) {
            Some(i) => i,
            None => {
                return Outcome::PlayerNotFound;
            },
        };
        if !signed {
            return Outcome::InvalidSignature;
        }
        if let Some(remaining) = self.contest_window(now) {
            return Outcome::ClaimWindowOpen { remaining };
        }
        if !self.owes_report(player) {
            return Outcome::NotYourTurn;
        }
        if !self.players[idx].committed_state.same_as(commitment) {
            return Outcome::StateMismatch;
        }
        if pos > MAX_POSITION {
            return Outcome::InvalidPosition;
        }
        let hit: String = String::from_str("Hit");
        let miss: String = String::from_str("Miss");
        if *tag != hit && *tag != miss {
            return Outcome::InvalidReport;
        }
        self.players[idx].committed_state = *next_commitment;
        self.turn_holder = Some(player.clone());
        self.report_owed_by = None;
        proof {
            let after = report_effect(
                old(self)@,
                player@,
                tag@,
                pos,
                commitment@,
                next_commitment@,
                signed,
                now,
            );
            assert(self@.players =~= after.players);
        }
        Outcome::Accepted
    }

    /// The place of the member that a wave by `actor` passes the turn to, if
    /// the session has another member.
    pub fn find_successor(&self, actor: &String) -> (found: Option<usize>)
        ensures
            found is Some <==> has_other_player(self@, actor@),
            found is Some ==> is_successor(self@, actor@, found->0 as int) && found->0 as int
                == successor(self@, actor@),
    {
        let mut best: Option<usize> = None;
        let mut i: usize = 0;
        while i < self.players.len()
            invariant
                i <= self.players.len(),
                best is None ==> forall|j: int|
                    0 <= j < i ==> (#[trigger] self@.players[j]).name == actor@,
                best is Some ==> {
                    &&& best->0 < i
                    &&& self@.players[best->0 as int].name != actor@
                    &&& forall|j: int|
                        0 <= j < i && (#[trigger] self@.players[j]).name != actor@
                            ==> self@.players[best->0 as int].last_active_at
                            <= self@.players[j].last_active_at
                    &&& forall|j: int|
                        0 <= j < best->0 && (#[trigger] self@.players[j]).name != actor@
                            ==> self@.players[best->0 as int].last_active_at
                            < self@.players[j].last_active_at
                },
            decreases self.players.len() - i,
        {
            if self.players[i].name != *actor {
                match best {
                    Some(b) => {
                        if self.players[i].last_active_at < self.players[b].last_active_at {
                            best = Some(i);
                        }
                    },
                    None => {
                        best = Some(i);
                    },
                }
            }
            i += 1;
        }
        proof {
            if best is Some {
                lemma_successor_unique(self@, actor@, best->0 as int);
                assert(self@.players[best->0 as int].name != actor@);
            }
        }
        best
    }

    /// A wave by `actor`, who passes the turn on. `signed` says whether the
    /// command's signature verified under the actor's key.
    pub fn wave(&mut self, actor: &String, commitment: &Commitment, signed: bool, now: u64) -> (outcome:
        Outcome)
        requires
            old(self).wf(),
        ensures
            final(self).wf(),
            outcome == wave_outcome(old(self)@, actor@, commitment@, signed, now),
            final(self)@ == wave_effect(old(self)@, actor@, commitment@, signed, now),
    {
        let idx: usize = match self.find_player(actor) {
            Some(i) => i,
            None => {
                return Outcome::PlayerNotFound;
            },
        };
        if !signed {
            return Outcome::InvalidSignature;
        }
        if !self.players[idx].committed_state.same_as(commitment) {
            return Outcome::StateMismatch;
        }
        if let Some(remaining) = self.contest_window(now) {
            return Outcome::ClaimWindowOpen { remaining };
        }
        if self.report_owed_by.is_some() {
            return Outcome::ReportOutstanding;
        }
        if !self.holds_turn(actor) {
            return Outcome::NotYourTurn;
        }
        let next: usize = match self.find_successor(actor) {
            Some(k) => k,
            None => {
                return Outcome::NoOtherPlayers;
            },
        };
        self.turn_holder = Some(self.players[next].name.clone());
        Outcome::Accepted
    }

    /// The names of the members whose claim flag is set, in joining order.
    pub fn claimants(&self) -> (names: Vec<String>)
        ensures
            name_views(names@) == self@.claimants(),
    {
        let mut names: Vec<String> = Vec::new();
        let mut i: usize = 0;
        while i < self.players.len()
            invariant
                i <= self.players.len(),
                name_views(names@) == claimants_among(self@.players, i as nat),
            decreases self.players.len() - i,
        {
            if self.players[i].victory_claimed {
                names.push(self.players[i].name.clone());
            }
            i += 1;
            assert(name_views(names@) =~= claimants_among(self@.players, i as nat));
        }
        names
    }

    /// Lowers every claim flag and forgets the recorded claim.
    fn clear_claims(&mut self)
        requires
            old(self).wf(),
        ensures
            final(self).wf(),
            final(self)@ == old(self)@.without_claims(),
    {
        let mut i: usize = 0;
        while i < self.players.len()
            invariant
                i <= self.players.len(),
                self.players.len() == old(self).players.len(),
                self.id == old(self).id,
                self.turn_holder == old(self).turn_holder,
                self.report_owed_by == old(self).report_owed_by,
                self.victory_timeout == old(self).victory_timeout,
                self.locked_for_join == old(self).locked_for_join,
                forall|j: int|
                    0 <= j < i ==> (#[trigger] self.players[j])@ == (PlayerModel {
                        victory_claimed: false,
                        ..old(self).players[j]@
                    }),
                forall|j: int|
                    i <= j < self.players.len() ==> (#[trigger] self.players[j]) == old(
                        self,
                    ).players[j],
            decreases self.players.len() - i,
        {
            self.players[i].victory_claimed = false;
            i += 1;
        }
        self.victory_claim = None;
        proof {
            let after = old(self)@.without_claims();
            assert(self@.players =~= after.players);
            assert forall|i: int, j: int|
                0 <= i < self@.players.len() && 0 <= j < self@.players.len() && (
                #[trigger] self@.players[i]).name == (#[trigger] self@.players[j]).name implies i
                == j by {
                assert(old(self)@.players[i].name == old(self)@.players[j].name);
            }
        }
    }

    /// A victory claim by `player`. `signed` says whether the command's
    /// signature verified under the player's key. Where the claim settled the
    /// arbitration, the claimants found are returned with the decision.
    pub fn claim_victory(&mut self, player: &String, commitment: &Commitment, signed: bool, now: u64) -> (verdict:
        Verdict)
        requires
            old(self).wf(),
        ensures
            final(self).wf(),
            verdict.outcome == claim_outcome(old(self)@, player@, commitment@, signed, now),
            name_views(verdict.claimants@) == claim_claimants(
                old(self)@,
                player@,
                commitment@,
                signed,
                now,
            ),
            final(self)@ == claim_effect(old(self)@, player@, commitment@, signed, now),
    {
        let idx: usize = match self.find_player(player) {
            Some(i) => i,
            None => {
                return Verdict::of(Outcome::PlayerNotFound);
            },
        };
        if !signed {
            return Verdict::of(Outcome::InvalidSignature);
        }
        if !self.players[idx].committed_state.same_as(commitment) {
            return Verdict::of(Outcome::StateMismatch);
        }
        if self.players[idx].victory_claimed {
            return Verdict::of(Outcome::AlreadyClaimed);
        }
        self.players[idx].victory_claimed = true;
        proof {
            assert(self@.players =~= with_claim_flag(old(self)@, player@).players);
            assert(self@ == with_claim_flag(old(self)@, player@));
            assert forall|i: int, j: int|
                0 <= i < self@.players.len() && 0 <= j < self@.players.len() && (
                #[trigger] self@.players[i]).name == (#[trigger] self@.players[j]).name implies i
                == j by {
                assert(old(self)@.players[i].name == old(self)@.players[j].name);
            }
        }
        if self.victory_claim.is_none() {
            self.victory_claim = Some(Claim { claimant: player.clone(), since: now });
            return Verdict::of(Outcome::ClaimStarted);
        }
        if let Some(remaining) = self.contest_window(now) {
            return Verdict::of(Outcome::ClaimContested { remaining });
        }
        let claimants: Vec<String> = self.claimants();
        assert(claimants@.len() == name_views(claimants@).len());
        if claimants.len() == 1 {
            Verdict { outcome: Outcome::Won, claimants }
        } else {
            self.clear_claims();
            Verdict { outcome: Outcome::NoWinner, claimants }
        }
    }

    /// The sweep's look at the session at `now`: settles a claim whose window
    /// has elapsed, and returns the decision with the claimants found.
    pub fn settle(&mut self, now: u64) -> (verdict: Option<Verdict>)
        requires
            old(self).wf(),
        ensures
            final(self).wf(),
            verdict is Some <==> settle_outcome(old(self)@, now) is Some,
            verdict is Some ==> Some(verdict->0.outcome) == settle_outcome(old(self)@, now)
                && name_views(verdict->0.claimants@) == old(self)@.claimants(),
            final(self)@ == settle_effect(old(self)@, now),
    {
        if self.victory_claim.is_none() {
            return None;
        }
        if self.contest_window(now).is_some() {
            return None;
        }
        let claimants: Vec<String> = self.claimants();
        assert(claimants@.len() == name_views(claimants@).len());
        if claimants.len() == 1 {
            Some(Verdict { outcome: Outcome::Won, claimants })
        } else {
            self.clear_claims();
            Some(Verdict { outcome: Outcome::NoWinner, claimants })
        }
    }
}

/// A decision on a victory claim, with the claimants that a settlement found.
pub struct Verdict {
    pub outcome: Outcome,
    pub claimants: Vec<String>,
}

impl Verdict {
    /// A decision that settled nothing.
    pub fn of(outcome: Outcome) -> (v: Verdict)
        ensures
            v.outcome == outcome,
            v.claimants@.len() == 0,
    {
        Verdict { outcome, claimants: Vec::new() }
    }
}

} // verus!
