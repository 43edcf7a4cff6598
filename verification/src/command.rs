//! The kinds of command, the private inputs of a proof, and the public
//! outputs that an attestation carries.

use crate::commitment::Commitment;
use vstd::prelude::*;

verus! {

/// What a command asks for.
#[derive(Clone, Copy, Debug, PartialEq, Eq, Structural)]
pub enum Command {
    Join,
    Fire,
    Report,
    Wave,
    Win,
}

/// Private inputs of the proofs for joining, waving and claiming victory.
#[derive(Clone, Debug, PartialEq, Eq)]
pub struct BaseInputs {
    pub gameid: String,
    pub fleet: String,
    pub board: Vec<u8>,
    pub random: String,
}

/// Private inputs of the proofs for firing and reporting. For a report,
/// `target` holds the report tag.
#[derive(Clone, Debug, PartialEq, Eq)]
pub struct FireInputs {
    pub gameid: String,
    pub fleet: String,
    pub board: Vec<u8>,
    pub random: String,
    pub target: String,
    pub pos: u8,
}

/// Public output of the proofs for joining, waving and claiming victory.
#[derive(Clone, Debug, PartialEq, Eq)]
pub struct BaseJournal {
    pub gameid: String,
    pub fleet: String,
    pub board: Commitment,
}

/// Public output of the proof for firing.
#[derive(Clone, Debug, PartialEq, Eq)]
pub struct FireJournal {
    pub gameid: String,
    pub fleet: String,
    pub board: Commitment,
    pub target: String,
    pub pos: u8,
}

/// Public output of the proof for reporting.
#[derive(Clone, Debug, PartialEq, Eq)]
pub struct ReportJournal {
    pub gameid: String,
    pub fleet: String,
    pub report: String,
    pub pos: u8,
    pub board: Commitment,
    pub next_board: Commitment,
}

/// The public output of an attestation, in one of its three shapes.
#[derive(Clone, Debug, PartialEq, Eq)]
pub enum Journal {
    Base(BaseJournal),
    Fire(FireJournal),
    Report(ReportJournal),
}

impl Command {
    /// Whether a journal has the shape that this kind of command carries.
    pub open spec fn fits(self, journal: Journal) -> bool {
        match self {
            Command::Join | Command::Wave | Command::Win => journal is Base,
            Command::Fire => journal is Fire,
            Command::Report => journal is Report,
        }
    }
}

impl Default for BaseJournal {
    /// A journal of empty names and the zero commitment.
    fn default() -> (j: BaseJournal)
        ensures
            j.gameid@.len() == 0,
            j.fleet@.len() == 0,
            j.board@ == Seq::new(32, |i: int| 0u8),
    {
        BaseJournal { gameid: String::new(), fleet: String::new(), board: Commitment::default() }
    }
}

impl Default for FireJournal {
    /// A journal of empty names, the zero commitment and position 0.
    fn default() -> (j: FireJournal)
        ensures
            j.gameid@.len() == 0,
            j.fleet@.len() == 0,
            j.target@.len() == 0,
            j.pos == 0,
            j.board@ == Seq::new(32, |i: int| 0u8),
    {
        FireJournal {
            gameid: String::new(),
            fleet: String::new(),
            board: Commitment::default(),
            target: String::new(),
            pos: 0,
        }
    }
}

impl Default for ReportJournal {
    /// A journal of empty names, zero commitments and position 0.
    fn default() -> (j: ReportJournal)
        ensures
            j.gameid@.len() == 0,
            j.fleet@.len() == 0,
            j.report@.len() == 0,
            j.pos == 0,
            j.board@ == Seq::new(32, |i: int| 0u8),
            j.next_board@ == Seq::new(32, |i: int| 0u8),
    {
        ReportJournal {
            gameid: String::new(),
            fleet: String::new(),
            report: String::new(),
            pos: 0,
            board: Commitment::default(),
            next_board: Commitment::default(),
        }
    }
}

} // verus!
