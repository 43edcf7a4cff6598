use fleetcore::command::{BaseJournal, Command, FireJournal, ReportJournal};
use fleetcore::commitment::Commitment;
use fleetcore::messages::{event_line, list_names, result_line, Details, Reply};
use fleetcore::outcome::Outcome;
use fleetcore::text::{decimal, xy_pos};

fn details() -> Details {
    Details {
        session: "g".to_string(),
        player: "ann".to_string(),
        target: "ben".to_string(),
        pos: 37,
        tag: "Miss".to_string(),
        claimant: "cat".to_string(),
        debtor: "dan".to_string(),
        successor: "eve".to_string(),
        idle_since: 1234,
        timeout: 30,
        claimants: vec!["fay".to_string(), "gus".to_string(), "hal".to_string()],
    }
}

#[test]
fn decimal_writes_numbers() {
    assert_eq!(decimal(0), "0");
    assert_eq!(decimal(9), "9");
    assert_eq!(decimal(10), "10");
    assert_eq!(decimal(1905), "1905");
    assert_eq!(decimal(1_000_000), "1000000");
    assert_eq!(decimal(u64::MAX), "18446744073709551615");
    for n in [1u64, 42, 99, 100, 101, 12345678901234567] {
        assert_eq!(decimal(n), n.to_string());
    }
}

#[test]
fn xy_pos_names_the_square() {
    assert_eq!(xy_pos(0), "A0");
    assert_eq!(xy_pos(5), "F0");
    assert_eq!(xy_pos(9), "J0");
    assert_eq!(xy_pos(10), "A1");
    assert_eq!(xy_pos(42), "C4");
    assert_eq!(xy_pos(99), "J9");
    assert_eq!(xy_pos(100), "A10");
    assert_eq!(xy_pos(255), "F25");
    for pos in 0u8..=255 {
        assert_eq!(xy_pos(pos), format!("{}{}", (pos % 10 + 65) as char, pos / 10));
    }
}

#[test]
fn list_names_separates_by_comma() {
    assert_eq!(list_names(&vec![]), "");
    assert_eq!(list_names(&vec!["a".to_string()]), "a");
    assert_eq!(list_names(&vec!["a".to_string(), "b".to_string(), "c".to_string()]), "a, b, c");
    assert_eq!(list_names(&vec!["".to_string(), "".to_string()]), ", ");
}

#[test]
fn result_lines_are_worded_as_specified() {
    let d = details();
    let cases: Vec<(Command, Outcome, &str)> = vec![
        (Command::Join, Outcome::Accepted, "OK"),
        (Command::Fire, Outcome::ReceiptInvalid, "Could not verify receipt"),
        (Command::Join, Outcome::MissingKey, "Missing verifying key"),
        (Command::Join, Outcome::InvalidKey, "Invalid verifying key"),
        (Command::Wave, Outcome::InvalidSignature, "Invalid signature"),
        (Command::Join, Outcome::SessionLocked, "Cannot join - game already started"),
        (Command::Join, Outcome::AlreadyJoined, "Player already in session"),
        (Command::Fire, Outcome::SessionNotFound, "Game not found"),
        (Command::Fire, Outcome::TargetNotFound, "Target not found"),
        (Command::Fire, Outcome::SelfTarget, "Cannot fire at yourself"),
        (Command::Win, Outcome::PlayerNotFound, "Player not found"),
        (Command::Fire, Outcome::ClaimWindowOpen { remaining: 3 }, "Cannot fire during victory claim period"),
        (Command::Report, Outcome::ClaimWindowOpen { remaining: 3 }, "Cannot report during victory claim period"),
        (Command::Wave, Outcome::ClaimWindowOpen { remaining: 3 }, "Cannot wave during victory claim period"),
        (Command::Report, Outcome::StateMismatch, "Board hash mismatch"),
        (Command::Fire, Outcome::NotYourTurn, "Not your turn"),
        (Command::Report, Outcome::NotYourTurn, "Not your turn to report"),
        (Command::Wave, Outcome::NotYourTurn, "Not your turn to wave"),
        (Command::Fire, Outcome::ReportOutstanding, "Cannot fire until player dan has reported"),
        (Command::Wave, Outcome::ReportOutstanding, "Cannot wave until player dan has reported"),
        (Command::Fire, Outcome::InvalidPosition, "Invalid target position"),
        (Command::Report, Outcome::InvalidPosition, "Invalid position"),
        (Command::Report, Outcome::InvalidReport, "Invalid report"),
        (Command::Wave, Outcome::NoOtherPlayers, "There are no other players to pass to"),
        (Command::Win, Outcome::AlreadyClaimed, "Victory already claimed"),
        (Command::Win, Outcome::ClaimStarted, "Victory claimed - timeout started."),
        (Command::Win, Outcome::ClaimContested { remaining: 9 }, "Victory contested. Game continues."),
        (Command::Win, Outcome::Won, "fay wins - Game ended"),
        (Command::Win, Outcome::NoWinner, "Multiple victory claims - no winner. Game continues as normal."),
    ];
    for (cmd, outcome, expected) in cases {
        assert_eq!(result_line(cmd, outcome, &d), expected);
    }
}

#[test]
fn event_lines_are_worded_as_specified() {
    let d = details();
    let cases: Vec<(Command, Outcome, &str)> = vec![
        (Command::Join, Outcome::Accepted, "ann joined session g"),
        (Command::Fire, Outcome::Accepted, "ann fired at ben in game g at position H3"),
        (Command::Report, Outcome::Accepted, "ann reported Miss at position H3 in game g"),
        (Command::Wave, Outcome::Accepted, "ann waved in game g and passed turn to eve (who hasn't played since timestamp 1234)"),
        (Command::Join, Outcome::ReceiptInvalid, "Attempting to join game with invalid receipt"),
        (Command::Fire, Outcome::ReceiptInvalid, "Attempting to fire with invalid receipt"),
        (Command::Report, Outcome::ReceiptInvalid, "Attempting to report with invalid receipt"),
        (Command::Wave, Outcome::ReceiptInvalid, "Attempting to wave with invalid receipt"),
        (Command::Win, Outcome::ReceiptInvalid, "Attempting to win with invalid receipt"),
        (Command::Join, Outcome::MissingKey, "Verifying key is missing in join request"),
        (Command::Join, Outcome::InvalidKey, "Invalid verifying key in join request"),
        (Command::Join, Outcome::InvalidSignature, "Invalid signature in join request"),
        (Command::Fire, Outcome::InvalidSignature, "Invalid signature in fire request"),
        (Command::Report, Outcome::InvalidSignature, "Invalid signature in report request"),
        (Command::Wave, Outcome::InvalidSignature, "Invalid signature in wave request"),
        (Command::Win, Outcome::InvalidSignature, "Invalid signature in win request"),
        (Command::Join, Outcome::SessionLocked, "Cannot join session g - game already started (first shot fired)"),
        (Command::Join, Outcome::AlreadyJoined, "Player ann already in session g"),
        (Command::Fire, Outcome::SessionNotFound, "Game g not found"),
        (Command::Fire, Outcome::TargetNotFound, "Target ben not found in game g"),
        (Command::Fire, Outcome::SelfTarget, "Cannot fire at yourself in game g"),
        (Command::Fire, Outcome::PlayerNotFound, "Player ann not found in game g"),
        (Command::Report, Outcome::ClaimWindowOpen { remaining: 12 }, "Cannot report during victory claim period. cat claimed victory. 12 seconds remaining to contest by clicking on 'Win' button."),
        (Command::Fire, Outcome::StateMismatch, "Player ann's board hash does not match the current state in game g"),
        (Command::Fire, Outcome::NotYourTurn, "Not ann's turn in game g"),
        (Command::Report, Outcome::NotYourTurn, "Not ann's turn to report in game g"),
        (Command::Wave, Outcome::NotYourTurn, "Not ann's turn to wave in game g"),
        (Command::Fire, Outcome::ReportOutstanding, "Cannot fire until player dan has reported in game g"),
        (Command::Wave, Outcome::ReportOutstanding, "Cannot wave until player dan has reported in game g"),
        (Command::Fire, Outcome::InvalidPosition, "Invalid target position H3 in game g"),
        (Command::Report, Outcome::InvalidPosition, "Invalid position H3 in game g"),
        (Command::Report, Outcome::InvalidReport, "Invalid report Miss in game g"),
        (Command::Wave, Outcome::NoOtherPlayers, "Player ann has no other players to pass to in game g"),
        (Command::Win, Outcome::AlreadyClaimed, "Player ann has already claimed victory in game g"),
        (Command::Win, Outcome::ClaimStarted, "ann claims victory in game g. Other players have 30 seconds to contest by clicking on 'Win' button."),
        (Command::Win, Outcome::ClaimContested { remaining: 7 }, "ann contests victory of player cat in game g! Game will resume after 7 seconds."),
        (Command::Win, Outcome::Won, "Victory timeout expired. fay wins game g! Game ended."),
        (Command::Win, Outcome::NoWinner, "Victory timeout expired in game g with multiple claimants: fay, gus, hal. No winner declared. Game continues as normal."),
    ];
    for (cmd, outcome, expected) in cases {
        assert_eq!(event_line(cmd, outcome, &d), expected);
    }
}

#[test]
fn a_reply_holds_both_lines() {
    let reply = Reply::compose(Command::Fire, Outcome::ReportOutstanding, &details());
    assert_eq!(reply.outcome, Outcome::ReportOutstanding);
    assert_eq!(reply.result, "Cannot fire until player dan has reported");
    assert_eq!(reply.event, "Cannot fire until player dan has reported in game g");
}

#[test]
fn details_start_out_blank() {
    let d = Details::of(&"g".to_string(), &"ann".to_string());
    assert_eq!((d.session.as_str(), d.player.as_str()), ("g", "ann"));
    assert_eq!((d.target.as_str(), d.tag.as_str(), d.claimant.as_str()), ("", "", ""));
    assert_eq!((d.debtor.as_str(), d.successor.as_str()), ("", ""));
    assert_eq!((d.pos, d.idle_since, d.timeout), (0, 0, 0));
    assert!(d.claimants.is_empty());
}

#[test]
fn journals_start_out_empty() {
    assert_eq!(Commitment::default().bytes, [0u8; 32]);
    let base = BaseJournal::default();
    assert_eq!((base.gameid.as_str(), base.fleet.as_str(), base.board), ("", "", Commitment::new([0; 32])));
    let fire = FireJournal::default();
    assert_eq!((fire.gameid.as_str(), fire.fleet.as_str(), fire.target.as_str(), fire.pos), ("", "", "", 0));
    assert_eq!(fire.board.bytes, [0u8; 32]);
    let report = ReportJournal::default();
    assert_eq!((report.gameid.as_str(), report.fleet.as_str(), report.report.as_str(), report.pos), ("", "", "", 0));
    assert_eq!((report.board.bytes, report.next_board.bytes), ([0u8; 32], [0u8; 32]));
    assert_eq!(report, ReportJournal::default());
}
