use fleetcore::command::{BaseJournal, FireJournal, ReportJournal};
use fleetcore::commitment::Commitment;
use fleetcore::outcome::Outcome;
use fleetcore::store::SessionStore;

fn commitment(seed: u8) -> Commitment {
    Commitment::new([seed; 32])
}

fn base(game: &str, fleet: &str, seed: u8) -> BaseJournal {
    BaseJournal { gameid: game.to_string(), fleet: fleet.to_string(), board: commitment(seed) }
}

fn shot(game: &str, fleet: &str, seed: u8, target: &str, pos: u8) -> FireJournal {
    FireJournal {
        gameid: game.to_string(),
        fleet: fleet.to_string(),
        board: commitment(seed),
        target: target.to_string(),
        pos,
    }
}

fn report(game: &str, fleet: &str, tag: &str, pos: u8, seed: u8, next: u8) -> ReportJournal {
    ReportJournal {
        gameid: game.to_string(),
        fleet: fleet.to_string(),
        report: tag.to_string(),
        pos,
        board: commitment(seed),
        next_board: commitment(next),
    }
}

fn two_players() -> SessionStore {
    let mut store = SessionStore::new();
    let key = [0u8; 32];
    assert_eq!(store.join(&base("g1", "alice", 1), &key, true, true, 100).outcome, Outcome::Accepted);
    assert_eq!(store.join(&base("g1", "bob", 2), &key, true, true, 101).outcome, Outcome::Accepted);
    store
}

fn after_first_shot() -> SessionStore {
    let mut store = two_players();
    let reply = store.fire(&shot("g1", "alice", 1, "bob", 5), true, 110);
    assert_eq!(reply.outcome, Outcome::Accepted);
    store
}

#[test]
fn first_shot_is_accepted() {
    let mut store = two_players();
    let reply = store.fire(&shot("g1", "alice", 1, "bob", 5), true, 110);
    assert_eq!(reply.outcome, Outcome::Accepted);
    assert_eq!(reply.result, "OK");
    assert_eq!(reply.event, "alice fired at bob in game g1 at position F0");
    let session = store.session(0);
    assert_eq!(session.report_owed_by(), Some("bob".to_string()));
    assert_eq!(session.turn_holder(), None);
    assert!(session.locked_for_join());
}

#[test]
fn shot_before_report_is_rejected() {
    let mut store = after_first_shot();
    let reply = store.fire(&shot("g1", "bob", 2, "alice", 6), true, 111);
    assert_eq!(reply.outcome, Outcome::NotYourTurn);
    assert_eq!(reply.result, "Not your turn");
    let session = store.session(0);
    assert_eq!(session.report_owed_by(), Some("bob".to_string()));
    assert_eq!(session.turn_holder(), None);
}

#[test]
fn report_hands_over_the_turn() {
    let mut store = after_first_shot();
    let reply = store.report(&report("g1", "bob", "Hit", 5, 2, 3), true, 112);
    assert_eq!(reply.outcome, Outcome::Accepted);
    assert_eq!(reply.result, "OK");
    assert_eq!(reply.event, "bob reported Hit at position F0 in game g1");
    let session = store.session(0);
    assert_eq!(session.turn_holder(), Some("bob".to_string()));
    assert_eq!(session.report_owed_by(), None);
    assert_eq!(session.player_commitment(1).bytes, [3u8; 32]);
}

#[test]
fn contested_claim_is_voided() {
    let mut store = two_players();
    let first = store.win(&base("g1", "alice", 1), true, 200);
    assert_eq!(first.outcome, Outcome::ClaimStarted);
    assert_eq!(first.result, "Victory claimed - timeout started.");
    let claim = store.session(0).victory_claim().unwrap();
    assert_eq!(claim.claimant, "alice");
    assert_eq!(claim.since, 200);
    let second = store.win(&base("g1", "bob", 2), true, 210);
    assert_eq!(second.outcome, Outcome::ClaimContested { remaining: 20 });
    assert_eq!(second.result, "Victory contested. Game continues.");
    assert_eq!(
        second.event,
        "bob contests victory of player alice in game g1! Game will resume after 20 seconds."
    );
    let events = store.check_victory_timeouts(229);
    assert!(events.is_empty());
    let events = store.check_victory_timeouts(230);
    assert_eq!(
        events,
        vec![
            "Victory timeout expired in game g1 with multiple claimants: alice, bob. No winner declared. Game continues as normal."
                .to_string()
        ]
    );
    assert_eq!(store.len(), 1);
    let session = store.session(0);
    assert!(session.victory_claim().is_none());
    assert!(!session.player_has_claimed(0));
    assert!(!session.player_has_claimed(1));
    assert_eq!(session.turn_holder(), Some("alice".to_string()));
}

#[test]
fn join_after_a_shot_is_rejected() {
    let mut store = after_first_shot();
    let key = [0u8; 32];
    for name in ["carol", "alice", "bob", ""] {
        let reply = store.join(&base("g1", name, 9), &key, true, true, 120);
        assert_eq!(reply.outcome, Outcome::SessionLocked);
        assert_eq!(reply.result, "Cannot join - game already started");
        assert_eq!(store.session(0).player_count(), 2);
    }
}
