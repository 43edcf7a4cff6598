//! The wording of the arbiter's answers: the line returned to the caller and
//! the line appended to the event log.

use crate::command::Command;
use crate::outcome::Outcome;
use crate::session::name_views;
use crate::text::{coordinate_text, decimal, decimal_digits, xy_pos};
use vstd::prelude::*;
use vstd::string::*;

verus! {

/// What the wording of an answer draws on besides the decision itself. A
/// field that a message does not mention may hold anything.
pub struct Details {
    /// The session's identifier.
    pub session: String,
    /// The acting player.
    pub player: String,
    /// The target of a shot.
    pub target: String,
    /// The position of a shot or a report.
    pub pos: u8,
    /// The tag of a report.
    pub tag: String,
    /// The player whose victory claim is pending.
    pub claimant: String,
    /// The player who owes a report.
    pub debtor: String,
    /// The player to whom a wave passed the turn.
    pub successor: String,
    /// Since when the successor has been idle.
    pub idle_since: u64,
    /// The length of the contest window.
    pub timeout: u64,
    /// The claimants found when a claim was settled.
    pub claimants: Vec<String>,
}

/// The details as mathematical values.
pub struct DetailsModel {
    pub session: Seq<char>,
    pub player: Seq<char>,
    pub target: Seq<char>,
    pub pos: u8,
    pub tag: Seq<char>,
    pub claimant: Seq<char>,
    pub debtor: Seq<char>,
    pub successor: Seq<char>,
    pub idle_since: u64,
    pub timeout: u64,
    pub claimants: Seq<Seq<char>>,
}

impl View for Details {
    type V = DetailsModel;

    open spec fn view(&self) -> DetailsModel {
        DetailsModel {
            session: self.session@,
            player: self.player@,
            target: self.target@,
            pos: self.pos,
            tag: self.tag@,
            claimant: self.claimant@,
            debtor: self.debtor@,
            successor: self.successor@,
            idle_since: self.idle_since,
            timeout: self.timeout,
            claimants: name_views(self.claimants@),
        }
    }
}

impl Details {
    /// Details that name a session and a player and leave the rest empty.
    pub fn of(session: &String, player: &String) -> (d: Details)
        ensures
            d@ == (DetailsModel {
                session: session@,
                player: player@,
                target: Seq::empty(),
                pos: 0,
                tag: Seq::empty(),
                claimant: Seq::empty(),
                debtor: Seq::empty(),
                successor: Seq::empty(),
                idle_since: 0,
                timeout: 0,
                claimants: Seq::empty(),
            }),
    {
        let d = Details {
            session: session.clone(),
            player: player.clone(),
            target: String::new(),
            pos: 0,
            tag: String::new(),
            claimant: String::new(),
            debtor: String::new(),
            successor: String::new(),
            idle_since: 0,
            timeout: 0,
            claimants: Vec::new(),
        };
        assert(name_views(d.claimants@) =~= Seq::<Seq<char>>::empty());
        d
    }
}

/// The verb of a kind of command.
pub open spec fn verb_text(cmd: Command) -> Seq<char> {
    match cmd {
        Command::Join => "join"@,
        Command::Fire => "fire"@,
        Command::Report => "report"@,
        Command::Wave => "wave"@,
        Command::Win => "win"@,
    }
}

/// What a kind of command attempts, as the event of a failed attestation
/// words it.
pub open spec fn attempt_text(cmd: Command) -> Seq<char> {
    match cmd {
        Command::Join => "join game"@,
        _ => verb_text(cmd),
    }
}

/// What the turn was for, in the words that follow "turn".
pub open spec fn turn_suffix(cmd: Command) -> Seq<char> {
    match cmd {
        Command::Report => " to report"@,
        Command::Wave => " to wave"@,
        _ => ""@,
    }
}

/// What kind of position a command carries.
pub open spec fn position_noun(cmd: Command) -> Seq<char> {
    match cmd {
        Command::Fire => "target position"@,
        _ => "position"@,
    }
}

/// The first `n` names, separated by a comma and a space.
pub open spec fn listed(names: Seq<Seq<char>>, n: nat) -> Seq<char>
    decreases n,
{
    if n == 0 {
        Seq::empty()
    } else if n == 1 {
        names[0]
    } else {
        listed(names, (n - 1) as nat) + ", "@ + names[n - 1]
    }
}

/// The first of the names, or nothing where there is none.
pub open spec fn first_name(names: Seq<Seq<char>>) -> Seq<char> {
    if names.len() > 0 {
        names[0]
    } else {
        Seq::empty()
    }
}

/// The line returned to the caller.
pub open spec fn result_text(cmd: Command, outcome: Outcome, d: DetailsModel) -> Seq<char> {
    match outcome {
        Outcome::Accepted => "OK"@,
        Outcome::ReceiptInvalid => "Could not verify receipt"@,
        Outcome::MissingKey => "Missing verifying key"@,
        Outcome::InvalidKey => "Invalid verifying key"@,
        Outcome::InvalidSignature => "Invalid signature"@,
        Outcome::SessionLocked => "Cannot join - game already started"@,
        Outcome::AlreadyJoined => "Player already in session"@,
        Outcome::SessionNotFound => "Game not found"@,
        Outcome::TargetNotFound => "Target not found"@,
        Outcome::SelfTarget => "Cannot fire at yourself"@,
        Outcome::PlayerNotFound => "Player not found"@,
        Outcome::ClaimWindowOpen { .. } => "Cannot "@ + verb_text(cmd)
            + " during victory claim period"@,
        Outcome::StateMismatch => "Board hash mismatch"@,
        Outcome::NotYourTurn => "Not your turn"@ + turn_suffix(cmd),
        Outcome::ReportOutstanding => "Cannot "@ + verb_text(cmd) + " until player "@ + d.debtor
            + " has reported"@,
        Outcome::InvalidPosition => "Invalid "@ + position_noun(cmd),
        Outcome::InvalidReport => "Invalid report"@,
        Outcome::NoOtherPlayers => "There are no other players to pass to"@,
        Outcome::AlreadyClaimed => "Victory already claimed"@,
        Outcome::ClaimStarted => "Victory claimed - timeout started."@,
        Outcome::ClaimContested { .. } => "Victory contested. Game continues."@,
        Outcome::Won => first_name(d.claimants) + " wins - Game ended"@,
        Outcome::NoWinner => "Multiple victory claims - no winner. Game continues as normal."@,
    }
}

/// The event of an accepted command.
pub open spec fn accepted_text(cmd: Command, d: DetailsModel) -> Seq<char> {
    match cmd {
        Command::Join => d.player + " joined session "@ + d.session,
        Command::Fire => d.player + " fired at "@ + d.target + " in game "@ + d.session
            + " at position "@ + coordinate_text(d.pos),
        Command::Report => d.player + " reported "@ + d.tag + " at position "@ + coordinate_text(
            d.pos,
        ) + " in game "@ + d.session,
        Command::Wave => d.player + " waved in game "@ + d.session + " and passed turn to "@
            + d.successor + " (who hasn't played since timestamp "@ + decimal_digits(
            d.idle_since as nat,
        ) + ")"@,
        Command::Win => d.player + " claims victory in game "@ + d.session,
    }
}

/// The line appended to the event log.
pub open spec fn event_text(cmd: Command, outcome: Outcome, d: DetailsModel) -> Seq<char> {
    match outcome {
        Outcome::Accepted => accepted_text(cmd, d),
        Outcome::ReceiptInvalid => "Attempting to "@ + attempt_text(cmd)
            + " with invalid receipt"@,
        Outcome::MissingKey => "Verifying key is missing in join request"@,
        Outcome::InvalidKey => "Invalid verifying key in join request"@,
        Outcome::InvalidSignature => "Invalid signature in "@ + verb_text(cmd) + " request"@,
        Outcome::SessionLocked => "Cannot join session "@ + d.session
            + " - game already started (first shot fired)"@,
        Outcome::AlreadyJoined => "Player "@ + d.player + " already in session "@ + d.session,
        Outcome::SessionNotFound => "Game "@ + d.session + " not found"@,
        Outcome::TargetNotFound => "Target "@ + d.target + " not found in game "@ + d.session,
        Outcome::SelfTarget => "Cannot fire at yourself in game "@ + d.session,
        Outcome::PlayerNotFound => "Player "@ + d.player + " not found in game "@ + d.session,
        Outcome::ClaimWindowOpen { remaining } => "Cannot "@ + verb_text(cmd)
            + " during victory claim period. "@ + d.claimant + " claimed victory. "@
            + decimal_digits(remaining as nat)
            + " seconds remaining to contest by clicking on 'Win' button."@,
        Outcome::StateMismatch => "Player "@ + d.player
            + "'s board hash does not match the current state in game "@ + d.session,
        Outcome::NotYourTurn => "Not "@ + d.player + "'s turn"@ + turn_suffix(cmd) + " in game "@
            + d.session,
        Outcome::ReportOutstanding => "Cannot "@ + verb_text(cmd) + " until player "@ + d.debtor
            + " has reported in game "@ + d.session,
        Outcome::InvalidPosition => "Invalid "@ + position_noun(cmd) + " "@ + coordinate_text(
            d.pos,
        ) + " in game "@ + d.session,
        Outcome::InvalidReport => "Invalid report "@ + d.tag + " in game "@ + d.session,
        Outcome::NoOtherPlayers => "Player "@ + d.player
            + " has no other players to pass to in game "@ + d.session,
        Outcome::AlreadyClaimed => "Player "@ + d.player + " has already claimed victory in game "@
            + d.session,
        Outcome::ClaimStarted => d.player + " claims victory in game "@ + d.session
            + ". Other players have "@ + decimal_digits(d.timeout as nat)
            + " seconds to contest by clicking on 'Win' button."@,
        Outcome::ClaimContested { remaining } => d.player + " contests victory of player "@
            + d.claimant + " in game "@ + d.session + "! Game will resume after "@
            + decimal_digits(remaining as nat) + " seconds."@,
        Outcome::Won => "Victory timeout expired. "@ + first_name(d.claimants) + " wins game "@
            + d.session + "! Game ended."@,
        Outcome::NoWinner => "Victory timeout expired in game "@ + d.session
            + " with multiple claimants: "@ + listed(d.claimants, d.claimants.len())
            + ". No winner declared. Game continues as normal."@,
    }
}

fn verb(cmd: Command) -> (s: &'static str)
    ensures
        s@ == verb_text(cmd),
{
    match cmd {
        Command::Join => "join",
        Command::Fire => "fire",
        Command::Report => "report",
        Command::Wave => "wave",
        Command::Win => "win",
    }
}

fn attempt(cmd: Command) -> (s: &'static str)
    ensures
        s@ == attempt_text(cmd),
{
    match cmd {
        Command::Join => "join game",
        _ => verb(cmd),
    }
}

fn suffix(cmd: Command) -> (s: &'static str)
    ensures
        s@ == turn_suffix(cmd),
{
    match cmd {
        Command::Report => " to report",
        Command::Wave => " to wave",
        _ => "",
    }
}

fn noun(cmd: Command) -> (s: &'static str)
    ensures
        s@ == position_noun(cmd),
{
    match cmd {
        Command::Fire => "target position",
        _ => "position",
    }
}

/// The names separated by a comma and a space.
pub fn list_names(names: &Vec<String>) -> (s: String)
    ensures
        s@ == listed(name_views(names@), names@.len()),
{
    let mut s: String = String::new();
    let mut i: usize = 0;
    while i < names.len()
        invariant
            i <= names.len(),
            s@ == listed(name_views(names@), i as nat),
        decreases names.len() - i,
    {
        if i > 0 {
            s.append(", ");
        }
        s.append(names[i].as_str());
        i += 1;
        assert(s@ =~= listed(name_views(names@), i as nat));
    }
    s
}

fn first(names: &Vec<String>) -> (s: String)
    ensures
        s@ == first_name(name_views(names@)),
{
    if names.len() > 0 {
        names[0].clone()
    } else {
        String::new()
    }
}

/// Words the line returned to the caller.
pub fn result_line(cmd: Command, outcome: Outcome, d: &Details) -> (s: String)
    ensures
        s@ == result_text(cmd, outcome, d@),
{
    match outcome {
        Outcome::Accepted => String::from_str("OK"),
        Outcome::ReceiptInvalid => String::from_str("Could not verify receipt"),
        Outcome::MissingKey => String::from_str("Missing verifying key"),
        Outcome::InvalidKey => String::from_str("Invalid verifying key"),
        Outcome::InvalidSignature => String::from_str("Invalid signature"),
        Outcome::SessionLocked => String::from_str("Cannot join - game already started"),
        Outcome::AlreadyJoined => String::from_str("Player already in session"),
        Outcome::SessionNotFound => String::from_str("Game not found"),
        Outcome::TargetNotFound => String::from_str("Target not found"),
        Outcome::SelfTarget => String::from_str("Cannot fire at yourself"),
        Outcome::PlayerNotFound => String::from_str("Player not found"),
        Outcome::ClaimWindowOpen { .. } => {
            let mut s: String = String::from_str("Cannot ");
            s.append(verb(cmd));
            s.append(" during victory claim period");
            s
        },
        Outcome::StateMismatch => String::from_str("Board hash mismatch"),
        Outcome::NotYourTurn => {
            let mut s: String = String::from_str("Not your turn");
            s.append(suffix(cmd));
            s
        },
        Outcome::ReportOutstanding => {
            let mut s: String = String::from_str("Cannot ");
            s.append(verb(cmd));
            s.append(" until player ");
            s.append(d.debtor.as_str());
            s.append(" has reported");
            s
        },
        Outcome::InvalidPosition => {
            let mut s: String = String::from_str("Invalid ");
            s.append(noun(cmd));
            s
        },
        Outcome::InvalidReport => String::from_str("Invalid report"),
        Outcome::NoOtherPlayers => String::from_str("There are no other players to pass to"),
        Outcome::AlreadyClaimed => String::from_str("Victory already claimed"),
        Outcome::ClaimStarted => String::from_str("Victory claimed - timeout started."),
        Outcome::ClaimContested { .. } => String::from_str("Victory contested. Game continues."),
        Outcome::Won => {
            let mut s: String = first(&d.claimants);
            s.append(" wins - Game ended");
            s
        },
        Outcome::NoWinner => String::from_str(
            "Multiple victory claims - no winner. Game continues as normal.",
        ),
    }
}

fn accepted_line(cmd: Command, d: &Details) -> (s: String)
    ensures
        s@ == accepted_text(cmd, d@),
{
    let mut s: String = d.player.clone();
    match cmd {
        Command::Join => {
            s.append(" joined session ");
            s.append(d.session.as_str());
        },
        Command::Fire => {
            s.append(" fired at ");
            s.append(d.target.as_str());
            s.append(" in game ");
            s.append(d.session.as_str());
            s.append(" at position ");
            s.append(xy_pos(d.pos).as_str());
        },
        Command::Report => {
            s.append(" reported ");
            s.append(d.tag.as_str());
            s.append(" at position ");
            s.append(xy_pos(d.pos).as_str());
            s.append(" in game ");
            s.append(d.session.as_str());
        },
        Command::Wave => {
            s.append(" waved in game ");
            s.append(d.session.as_str());
            s.append(" and passed turn to ");
            s.append(d.successor.as_str());
            s.append(" (who hasn't played since timestamp ");
            s.append(decimal(d.idle_since).as_str());
            s.append(")");
        },
        Command::Win => {
            s.append(" claims victory in game ");
            s.append(d.session.as_str());
        },
    }
    s
}

/// Words the line appended to the event log.
pub fn event_line(cmd: Command, outcome: Outcome, d: &Details) -> (s: String)
    ensures
        s@ == event_text(cmd, outcome, d@),
{
    match outcome {
        Outcome::Accepted => accepted_line(cmd, d),
        Outcome::ReceiptInvalid => {
            let mut s: String = String::from_str("Attempting to ");
            s.append(attempt(cmd));
            s.append(" with invalid receipt");
            s
        },
        Outcome::MissingKey => String::from_str("Verifying key is missing in join request"),
        Outcome::InvalidKey => String::from_str("Invalid verifying key in join request"),
        Outcome::InvalidSignature => {
            let mut s: String = String::from_str("Invalid signature in ");
            s.append(verb(cmd));
            s.append(" request");
            s
        },
        Outcome::SessionLocked => {
            let mut s: String = String::from_str("Cannot join session ");
            s.append(d.session.as_str());
            s.append(" - game already started (first shot fired)");
            s
        },
        Outcome::AlreadyJoined => {
            let mut s: String = String::from_str("Player ");
            s.append(d.player.as_str());
            s.append(" already in session ");
            s.append(d.session.as_str());
            s
        },
        Outcome::SessionNotFound => {
            let mut s: String = String::from_str("Game ");
            s.append(d.session.as_str());
            s.append(" not found");
            s
        },
        Outcome::TargetNotFound => {
            let mut s: String = String::from_str("Target ");
            s.append(d.target.as_str());
            s.append(" not found in game ");
            s.append(d.session.as_str());
            s
        },
        Outcome::SelfTarget => {
            let mut s: String = String::from_str("Cannot fire at yourself in game ");
            s.append(d.session.as_str());
            s
        },
        Outcome::PlayerNotFound => {
            let mut s: String = String::from_str("Player ");
            s.append(d.player.as_str());
            s.append(" not found in game ");
            s.append(d.session.as_str());
            s
        },
        Outcome::ClaimWindowOpen { remaining } => {
            let mut s: String = String::from_str("Cannot ");
            s.append(verb(cmd));
            s.append(" during victory claim period. ");
            s.append(d.claimant.as_str());
            s.append(" claimed victory. ");
            s.append(decimal(remaining).as_str());
            s.append(" seconds remaining to contest by clicking on 'Win' button.");
            s
        },
        Outcome::StateMismatch => {
            let mut s: String = String::from_str("Player ");
            s.append(d.player.as_str());
            s.append("'s board hash does not match the current state in game ");
            s.append(d.session.as_str());
            s
        },
        Outcome::NotYourTurn => {
            let mut s: String = String::from_str("Not ");
            s.append(d.player.as_str());
            s.append("'s turn");
            s.append(suffix(cmd));
            s.append(" in game ");
            s.append(d.session.as_str());
            s
        },
        Outcome::ReportOutstanding => {
            let mut s: String = String::from_str("Cannot ");
            s.append(verb(cmd));
            s.append(" until player ");
            s.append(d.debtor.as_str());
            s.append(" has reported in game ");
            s.append(d.session.as_str());
            s
        },
        Outcome::InvalidPosition => {
            let mut s: String = String::from_str("Invalid ");
            s.append(noun(cmd));
            s.append(" ");
            s.append(xy_pos(d.pos).as_str());
            s.append(" in game ");
            s.append(d.session.as_str());
            s
        },
        Outcome::InvalidReport => {
            let mut s: String = String::from_str("Invalid report ");
            s.append(d.tag.as_str());
            s.append(" in game ");
            s.append(d.session.as_str());
            s
        },
        Outcome::NoOtherPlayers => {
            let mut s: String = String::from_str("Player ");
            s.append(d.player.as_str());
            s.append(" has no other players to pass to in game ");
            s.append(d.session.as_str());
            s
        },
        Outcome::AlreadyClaimed => {
            let mut s: String = String::from_str("Player ");
            s.append(d.player.as_str());
            s.append(" has already claimed victory in game ");
            s.append(d.session.as_str());
            s
        },
        Outcome::ClaimStarted => {
            let mut s: String = d.player.clone();
            s.append(" claims victory in game ");
            s.append(d.session.as_str());
            s.append(". Other players have ");
            s.append(decimal(d.timeout).as_str());
            s.append(" seconds to contest by clicking on 'Win' button.");
            s
        },
        Outcome::ClaimContested { remaining } => {
            let mut s: String = d.player.clone();
            s.append(" contests victory of player ");
            s.append(d.claimant.as_str());
            s.append(" in game ");
            s.append(d.session.as_str());
            s.append("! Game will resume after ");
            s.append(decimal(remaining).as_str());
            s.append(" seconds.");
            s
        },
        Outcome::Won => {
            let mut s: String = String::from_str("Victory timeout expired. ");
            s.append(first(&d.claimants).as_str());
            s.append(" wins game ");
            s.append(d.session.as_str());
            s.append("! Game ended.");
            s
        },
        Outcome::NoWinner => {
            let mut s: String = String::from_str("Victory timeout expired in game ");
            s.append(d.session.as_str());
            s.append(" with multiple claimants: ");
            s.append(list_names(&d.claimants).as_str());
            s.append(". No winner declared. Game continues as normal.");
            s
        },
    }
}

/// The arbiter's answer to one command.
pub struct Reply {
    /// The decision.
    pub outcome: Outcome,
    /// The line for the caller.
    pub result: String,
    /// The line for the event log.
    pub event: String,
}

impl Reply {
    /// The answer that a decision and its details come to.
    pub fn compose(cmd: Command, outcome: Outcome, d: &Details) -> (r: Reply)
        ensures
            r.outcome == outcome,
            r.result@ == result_text(cmd, outcome, d@),
            r.event@ == event_text(cmd, outcome, d@),
    {
        Reply { outcome, result: result_line(cmd, outcome, d), event: event_line(cmd, outcome, d) }
    }
}

} // verus!
