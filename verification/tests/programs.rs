use fleetcore::command::{BaseInputs, FireInputs};
use fleetcore::guest::{fire_journal, is_hit, join_journal, remove_square, report_journal, wave_journal};
use fleetcore::hashing::commit_board;

fn fleet() -> Vec<u8> {
    vec![0, 1, 2, 3, 4, 6, 8, 20, 21, 22, 23, 25, 26, 27, 40, 41, 43, 44]
}

fn base(board: Vec<u8>) -> BaseInputs {
    BaseInputs { gameid: "g".to_string(), fleet: "ann".to_string(), board, random: "r4nd".to_string() }
}

fn shot(board: Vec<u8>, target: &str, pos: u8) -> FireInputs {
    FireInputs {
        gameid: "g".to_string(),
        fleet: "ann".to_string(),
        board,
        random: "r4nd".to_string(),
        target: target.to_string(),
        pos,
    }
}

#[test]
fn join_commits_to_a_fleet() {
    let journal = join_journal(&base(fleet())).unwrap();
    assert_eq!(journal.gameid, "g");
    assert_eq!(journal.fleet, "ann");
    assert_eq!(journal.board.bytes, commit_board(&fleet(), &"r4nd".to_string()).bytes);
}

#[test]
fn join_refuses_what_is_no_fleet() {
    let mut short = fleet();
    short.pop();
    assert_eq!(join_journal(&base(short)).err(), Some("Not enough squares by boats".to_string()));
    assert_eq!(join_journal(&base(vec![])).err(), Some("Not enough squares by boats".to_string()));
    let mut long = fleet();
    long.push(60);
    assert_eq!(
        join_journal(&base(long)).err(),
        Some("VALIDATION ERROR: Invalid number of ship squares: expected 18, got 19".to_string())
    );
    let mut twice = fleet();
    twice[17] = 0;
    assert_eq!(join_journal(&base(twice)).err(), Some("VALIDATION ERROR: Duplicate squares found".to_string()));
    let mut off = fleet();
    off[17] = 144;
    assert_eq!(join_journal(&base(off)).err(), Some("VALIDATION ERROR: Invalid square coordinates".to_string()));
    let mut sizes = fleet();
    sizes[5] = 5;
    assert_eq!(join_journal(&base(sizes)).err(), Some("VALIDATION ERROR: Invalid ship configuration".to_string()));
    let mut bent = fleet();
    bent[13] = 36;
    assert_eq!(
        join_journal(&base(bent)).err(),
        Some("VALIDATION ERROR: Ships must be straight lines (no L-shapes allowed)".to_string())
    );
    let mut close = fleet();
    close[5] = 19;
    assert_eq!(
        join_journal(&base(close)).err(),
        Some("VALIDATION ERROR: Ships cannot touch each other either directly or diagonally".to_string())
    );
}

#[test]
fn wave_commits_to_any_board() {
    let journal = wave_journal(&base(vec![3, 4]));
    assert_eq!((journal.gameid.as_str(), journal.fleet.as_str()), ("g", "ann"));
    assert_eq!(journal.board.bytes, commit_board(&vec![3, 4], &"r4nd".to_string()).bytes);
    let journal = wave_journal(&base(vec![]));
    assert_eq!(journal.board.bytes, commit_board(&vec![], &"r4nd".to_string()).bytes);
}

#[test]
fn fire_checks_the_shot() {
    let journal = fire_journal(&shot(vec![3, 4], "ben", 99)).unwrap();
    assert_eq!((journal.gameid.as_str(), journal.fleet.as_str(), journal.target.as_str()), ("g", "ann", "ben"));
    assert_eq!(journal.pos, 99);
    assert_eq!(journal.board.bytes, commit_board(&vec![3, 4], &"r4nd".to_string()).bytes);
    assert_eq!(fire_journal(&shot(vec![], "ann", 100)).err(), Some("Cannot fire at yourself".to_string()));
    assert_eq!(fire_journal(&shot(vec![], "ben", 100)).err(), Some("Position out of bounds".to_string()));
    assert_eq!(fire_journal(&shot(vec![], "ben", 99)).err(), Some("Your fleet is already sunk".to_string()));
}

#[test]
fn report_strikes_a_hit_off_the_board() {
    let journal = report_journal(&shot(vec![3, 4, 5], "Hit", 4)).unwrap();
    assert_eq!((journal.gameid.as_str(), journal.fleet.as_str(), journal.report.as_str()), ("g", "ann", "Hit"));
    assert_eq!(journal.pos, 4);
    assert_eq!(journal.board.bytes, commit_board(&vec![3, 4, 5], &"r4nd".to_string()).bytes);
    assert_eq!(journal.next_board.bytes, commit_board(&vec![3, 5], &"r4nd".to_string()).bytes);
    let last = report_journal(&shot(vec![4], "Hit", 4)).unwrap();
    assert_eq!(last.next_board.bytes, commit_board(&vec![], &"r4nd".to_string()).bytes);
}

#[test]
fn report_keeps_the_board_on_a_miss() {
    let journal = report_journal(&shot(vec![3, 4, 5], "Miss", 6)).unwrap();
    assert_eq!(journal.report, "Miss");
    assert_eq!(journal.board.bytes, journal.next_board.bytes);
    assert_eq!(journal.board.bytes, commit_board(&vec![3, 4, 5], &"r4nd".to_string()).bytes);
}

#[test]
fn report_must_be_true() {
    assert_eq!(
        report_journal(&shot(vec![3, 4, 5], "Miss", 4)).err(),
        Some("Report does not match the actual board state".to_string())
    );
    assert_eq!(
        report_journal(&shot(vec![3, 4, 5], "Hit", 6)).err(),
        Some("Report does not match the actual board state".to_string())
    );
    for tag in ["hit", "", "Sunk", "ben"] {
        assert_eq!(
            report_journal(&shot(vec![3, 4, 5], tag, 4)).err(),
            Some("Report must be 'Hit' or 'Miss'".to_string())
        );
    }
}

#[test]
fn squares_are_found_and_removed() {
    assert!(is_hit(&vec![1, 2, 3], 2));
    assert!(!is_hit(&vec![1, 2, 3], 4));
    assert!(!is_hit(&vec![], 0));
    assert_eq!(remove_square(&vec![1, 2, 3], 2), vec![1, 3]);
    assert_eq!(remove_square(&vec![1, 2, 3], 4), vec![1, 2, 3]);
    assert_eq!(remove_square(&vec![2, 1, 2, 2], 2), vec![1]);
    assert_eq!(remove_square(&vec![], 2), Vec::<u8>::new());
}
