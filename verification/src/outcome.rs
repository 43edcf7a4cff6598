//! What the arbiter decided about a command.

use vstd::prelude::*;

verus! {

/// The decision on one command. Every variant but `Accepted`, `ClaimStarted`,
/// `ClaimContested`, `Won` and `NoWinner` leaves the store as it was.
#[derive(Clone, Copy, Debug, PartialEq, Eq, Structural)]
pub enum Outcome {
    /// The command was applied.
    Accepted,
    /// The attestation did not verify for the command's kind, or its output
    /// has the shape of another kind.
    ReceiptInvalid,
    /// A join came without a public key.
    MissingKey,
    /// A join came with bytes that are no public key.
    InvalidKey,
    /// The signature does not verify over the attested bytes.
    InvalidSignature,
    /// A join came after the first shot of the session.
    SessionLocked,
    /// A join named a player who is in the session already.
    AlreadyJoined,
    /// No session has the identifier.
    SessionNotFound,
    /// The target of a shot is no member of the session.
    TargetNotFound,
    /// A player aimed at themself.
    SelfTarget,
    /// The acting player is no member of the session.
    PlayerNotFound,
    /// A victory claim is inside its contest window, which lasts for
    /// `remaining` more seconds.
    ClaimWindowOpen { remaining: u64 },
    /// The commitment presented is not the one stored for the player.
    StateMismatch,
    /// The acting player does not hold the turn, or does not owe the report.
    NotYourTurn,
    /// A report is outstanding.
    ReportOutstanding,
    /// The position is off the board.
    InvalidPosition,
    /// The report is neither `Hit` nor `Miss`.
    InvalidReport,
    /// The turn holder is alone in the session.
    NoOtherPlayers,
    /// The player has an unresolved victory claim already.
    AlreadyClaimed,
    /// A first victory claim opened the contest window.
    ClaimStarted,
    /// A further claim contested the first one, whose window lasts for
    /// `remaining` more seconds.
    ClaimContested { remaining: u64 },
    /// The window had elapsed with a single claimant: the session is over.
    Won,
    /// The window had elapsed with several claimants: all claims are void.
    NoWinner,
}

impl Outcome {
    /// Whether the command changed the store.
    pub open spec fn changes_state(self) -> bool {
        self is Accepted || self is ClaimStarted || self is ClaimContested || self is Won
            || self is NoWinner
    }
}

} // verus!
