use fleetcore::command::{BaseJournal, Command, FireJournal, Journal, ReportJournal};
use fleetcore::commitment::Commitment;
use fleetcore::outcome::Outcome;
use fleetcore::receipt::{CommunicationData, ImageIds};
use fleetcore::signature::{generate_keys_from_random, sign_with_random};
use fleetcore::store::SessionStore;
use risc0_zkvm::{FakeReceipt, InnerReceipt, Receipt, ReceiptClaim};

fn base_journal(fleet: &str, seed: u8) -> Journal {
    Journal::Base(BaseJournal { gameid: "g".to_string(), fleet: fleet.to_string(), board: Commitment::new([seed; 32]) })
}

fn fire_journal(fleet: &str, seed: u8, target: &str, pos: u8) -> Journal {
    Journal::Fire(FireJournal {
        gameid: "g".to_string(),
        fleet: fleet.to_string(),
        board: Commitment::new([seed; 32]),
        target: target.to_string(),
        pos,
    })
}

fn report_journal(fleet: &str, seed: u8, next: u8, pos: u8) -> Journal {
    Journal::Report(ReportJournal {
        gameid: "g".to_string(),
        fleet: fleet.to_string(),
        report: "Hit".to_string(),
        pos,
        board: Commitment::new([seed; 32]),
        next_board: Commitment::new([next; 32]),
    })
}

fn send(store: &mut SessionStore, cmd: Command, journal: Journal, who: &str, now: u64) -> Outcome {
    let message = format!("{:?} by {}", cmd, who).into_bytes();
    let signature = sign_with_random(who, &message);
    let key = Some(generate_keys_from_random(who).1.to_vec());
    store.dispatch(cmd, true, &Some(journal), &message, &signature, &key, now).outcome
}

fn ids() -> ImageIds {
    ImageIds { join: [1; 8], fire: [2; 8], report: [3; 8], wave: [4; 8], win: [5; 8] }
}

#[test]
fn each_kind_reaches_its_handler() {
    let mut store = SessionStore::new();
    assert_eq!(send(&mut store, Command::Join, base_journal("ann", 1), "ann", 1), Outcome::Accepted);
    assert_eq!(send(&mut store, Command::Join, base_journal("ben", 2), "ben", 2), Outcome::Accepted);
    assert_eq!(send(&mut store, Command::Wave, base_journal("ann", 1), "ann", 3), Outcome::Accepted);
    assert_eq!(send(&mut store, Command::Fire, fire_journal("ben", 2, "ann", 8), "ben", 4), Outcome::Accepted);
    assert_eq!(send(&mut store, Command::Report, report_journal("ann", 1, 11, 8), "ann", 5), Outcome::Accepted);
    assert_eq!(send(&mut store, Command::Win, base_journal("ann", 11), "ann", 6), Outcome::ClaimStarted);
    assert_eq!(store.check_victory_timeouts(36), vec!["Victory timeout expired. ann wins game g! Game ended.".to_string()]);
    assert_eq!(store.len(), 0);
}

#[test]
fn a_failed_attestation_stops_the_command() {
    let mut store = SessionStore::new();
    let message: Vec<u8> = b"m".to_vec();
    let signature = sign_with_random("ann", &message);
    let key = Some(generate_keys_from_random("ann").1.to_vec());
    let cases = [
        (Command::Join, "Attempting to join game with invalid receipt"),
        (Command::Fire, "Attempting to fire with invalid receipt"),
        (Command::Report, "Attempting to report with invalid receipt"),
        (Command::Wave, "Attempting to wave with invalid receipt"),
        (Command::Win, "Attempting to win with invalid receipt"),
    ];
    for (cmd, event) in cases {
        for journal in [Some(base_journal("ann", 1)), Some(fire_journal("ann", 1, "ben", 1)), Some(report_journal("ann", 1, 2, 1)), None] {
            let reply = store.dispatch(cmd, false, &journal, &message, &signature, &key, 1);
            assert_eq!(reply.outcome, Outcome::ReceiptInvalid);
            assert_eq!(reply.result, "Could not verify receipt");
            assert_eq!(reply.event, event);
            assert_eq!(store.len(), 0);
        }
    }
}

#[test]
fn a_journal_of_another_kind_stops_the_command() {
    let mut store = SessionStore::new();
    assert_eq!(send(&mut store, Command::Join, base_journal("ann", 1), "ann", 1), Outcome::Accepted);
    assert_eq!(send(&mut store, Command::Join, base_journal("ben", 2), "ben", 2), Outcome::Accepted);
    let message: Vec<u8> = b"m".to_vec();
    let signature = sign_with_random("ann", &message);
    let mismatches = [
        (Command::Fire, base_journal("ann", 1)),
        (Command::Fire, report_journal("ann", 1, 2, 3)),
        (Command::Report, base_journal("ann", 1)),
        (Command::Report, fire_journal("ann", 1, "ben", 3)),
        (Command::Join, fire_journal("ann", 1, "ben", 3)),
        (Command::Wave, fire_journal("ann", 1, "ben", 3)),
        (Command::Win, report_journal("ann", 1, 2, 3)),
    ];
    for (cmd, journal) in mismatches {
        let reply = store.dispatch(cmd, true, &Some(journal), &message, &signature, &None, 5);
        assert_eq!(reply.outcome, Outcome::ReceiptInvalid);
        assert_eq!(reply.result, "Could not verify receipt");
    }
    for cmd in [Command::Join, Command::Fire, Command::Report, Command::Wave, Command::Win] {
        let reply = store.dispatch(cmd, true, &None, &message, &signature, &None, 5);
        assert_eq!(reply.outcome, Outcome::ReceiptInvalid);
    }
    let s = store.session(0);
    assert_eq!(s.turn_holder(), Some("ann".to_string()));
    assert!(!s.locked_for_join());
}

#[test]
fn an_attestation_of_another_program_is_refused() {
    let journal_bytes: Vec<u8> = vec![1, 2, 3, 4];
    let receipt = Receipt::new(
        InnerReceipt::Fake(FakeReceipt::new(ReceiptClaim::ok([1u32; 8], journal_bytes.clone()))),
        journal_bytes.clone(),
    );
    let signature = sign_with_random("ann", &journal_bytes);
    let data = CommunicationData { cmd: Command::Fire, receipt, signature, public_key: None };
    let mut store = SessionStore::new();
    let reply = store.smart_contract(&data, &Some(fire_journal("ann", 1, "ben", 3)), &ids(), 10);
    assert_eq!(reply.outcome, Outcome::ReceiptInvalid);
    assert_eq!(reply.result, "Could not verify receipt");
    assert_eq!(reply.event, "Attempting to fire with invalid receipt");
    assert_eq!(store.len(), 0);
}

#[test]
fn image_ids_go_by_kind() {
    let ids = ids();
    assert_eq!(ids.of(Command::Join), [1; 8]);
    assert_eq!(ids.of(Command::Fire), [2; 8]);
    assert_eq!(ids.of(Command::Report), [3; 8]);
    assert_eq!(ids.of(Command::Wave), [4; 8]);
    assert_eq!(ids.of(Command::Win), [5; 8]);
}
