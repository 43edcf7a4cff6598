//! What the five proof programs compute from their private inputs: the
//! checks on the inputs, and the public output that is attested.

use crate::command::{BaseInputs, BaseJournal, FireInputs, FireJournal, ReportJournal};
use crate::commitment::Commitment;
use crate::fleet::{
    is_placement_verdict, law_placement_verdict_unique, validate_fleet_placement, FleetError,
    FLEET_SQUARES,
};
use crate::hashing::{commit_board, commitment_of};
use crate::rules::{hit_tag, miss_tag};
use crate::session::MAX_POSITION;
use vstd::prelude::*;
use vstd::string::*;

verus! {

/// The first `n` squares of a board without those equal to `pos`.
pub open spec fn without(board: Seq<u8>, pos: u8, n: int) -> Seq<u8>
    decreases n,
{
    if n <= 0 {
        Seq::empty()
    } else if board[n - 1] == pos {
        without(board, pos, n - 1)
    } else {
        without(board, pos, n - 1).push(board[n - 1])
    }
}

/// A board without the squares equal to `pos`.
pub fn remove_square(board: &Vec<u8>, pos: u8) -> (rest: Vec<u8>)
    ensures
        rest@ == without(board@, pos, board@.len() as int),
{
    let mut rest: Vec<u8> = Vec::new();
    let mut i: usize = 0;
    while i < board.len()
        invariant
            i <= board@.len(),
            rest@ == without(board@, pos, i as int),
        decreases board.len() - i,
    {
        if board[i] != pos {
            rest.push(board[i]);
        }
        i += 1;
    }
    rest
}

/// Whether a square is one of a board's.
pub fn is_hit(board: &Vec<u8>, pos: u8) -> (hit: bool)
    ensures
        hit == board@.contains(pos),
{
    let mut i: usize = 0;
    while i < board.len()
        invariant
            i <= board@.len(),
            forall|j: int| 0 <= j < i ==> board@[j] != pos,
        decreases board.len() - i,
    {
        if board[i] == pos {
            return true;
        }
        i += 1;
    }
    false
}

/// Whether a result is what the join program makes of its inputs, given the
/// verdict on the placement: a placement of fewer than 18 squares and one
/// that is no fleet are refused; a fleet is committed to.
pub open spec fn is_join_result(
    input: BaseInputs,
    verdict: Result<(), FleetError>,
    r: Result<BaseJournal, String>,
) -> bool {
    if input.board@.len() < FLEET_SQUARES {
        r is Err && r->Err_0@ == "Not enough squares by boats"@
    } else {
        match verdict {
            Err(e) => r is Err && r->Err_0@ == "VALIDATION ERROR: "@ + e.message_text(),
            Ok(_) => r is Ok && r->Ok_0.gameid@ == input.gameid@ && r->Ok_0.fleet@
                == input.fleet@ && r->Ok_0.board@ == commitment_of(input.board@, input.random@),
        }
    }
}

/// The join program: checks the placement and commits to it.
pub fn join_journal(input: &BaseInputs) -> (r: Result<BaseJournal, String>)
    ensures
        exists|verdict: Result<(), FleetError>| #[trigger]
            is_placement_verdict(input.board@, verdict),
        forall|verdict: Result<(), FleetError>| #[trigger]
            is_placement_verdict(input.board@, verdict) ==> is_join_result(*input, verdict, r),
{
    let verdict: Result<(), FleetError> = validate_fleet_placement(&input.board);
    if input.board.len() < FLEET_SQUARES {
        return Err(String::from_str("Not enough squares by boats"));
    }
    let r: Result<BaseJournal, String> = match verdict {
        Err(e) => {
            let mut s: String = String::from_str("VALIDATION ERROR: ");
            s.append(e.message().as_str());
            Err(s)
        },
        Ok(_) => Ok(
            BaseJournal {
                gameid: input.gameid.clone(),
                fleet: input.fleet.clone(),
                board: commit_board(&input.board, &input.random),
            },
        ),
    };
    proof {
        assert(is_join_result(*input, verdict, r));
        assert forall|other: Result<(), FleetError>| #[trigger]
            is_placement_verdict(input.board@, other) implies is_join_result(*input, other, r) by {
            law_placement_verdict_unique(input.board@, verdict, other);
        }
    }
    r
}

/// The program for a wave and for a victory claim: commits to the board.
pub fn wave_journal(input: &BaseInputs) -> (j: BaseJournal)
    ensures
        j.gameid@ == input.gameid@,
        j.fleet@ == input.fleet@,
        j.board@ == commitment_of(input.board@, input.random@),
{
    BaseJournal {
        gameid: input.gameid.clone(),
        fleet: input.fleet.clone(),
        board: commit_board(&input.board, &input.random),
    }
}

/// Why the fire program refuses its inputs, if it does: the target is the
/// shooter, the position is off the board, or the shooter has no square left.
pub open spec fn fire_refusal(input: FireInputs) -> Option<Seq<char>> {
    if input.fleet@ == input.target@ {
        Some("Cannot fire at yourself"@)
    } else if input.pos > MAX_POSITION {
        Some("Position out of bounds"@)
    } else if input.board@.len() < 1 {
        Some("Your fleet is already sunk"@)
    } else {
        None
    }
}

/// The fire program: checks the shot and commits to the shooter's board.
pub fn fire_journal(input: &FireInputs) -> (r: Result<FireJournal, String>)
    ensures
        match r {
            Err(e) => fire_refusal(*input) == Some(e@),
            Ok(j) => fire_refusal(*input) is None && j.gameid@ == input.gameid@ && j.fleet@
                == input.fleet@ && j.target@ == input.target@ && j.pos == input.pos && j.board@
                == commitment_of(input.board@, input.random@),
        },
{
    if input.fleet == input.target {
        return Err(String::from_str("Cannot fire at yourself"));
    }
    if input.pos > MAX_POSITION {
        return Err(String::from_str("Position out of bounds"));
    }
    if input.board.len() < 1 {
        return Err(String::from_str("Your fleet is already sunk"));
    }
    Ok(
        FireJournal {
            gameid: input.gameid.clone(),
            fleet: input.fleet.clone(),
            board: commit_board(&input.board, &input.random),
            target: input.target.clone(),
            pos: input.pos,
        },
    )
}

/// Why the report program refuses its inputs, if it does: the report, which
/// the inputs carry as `target`, is neither `Hit` nor `Miss`, or it is not
/// true of the board.
pub open spec fn report_refusal(input: FireInputs) -> Option<Seq<char>> {
    if input.target@ != hit_tag() && input.target@ != miss_tag() {
        Some("Report must be 'Hit' or 'Miss'"@)
    } else if (input.target@ == hit_tag()) != input.board@.contains(input.pos) {
        Some("Report does not match the actual board state"@)
    } else {
        None
    }
}

/// The report program: checks the report against the board, commits to the
/// board, and commits to what is left of it once the square is struck off.
pub fn report_journal(input: &FireInputs) -> (r: Result<ReportJournal, String>)
    ensures
        match r {
            Err(e) => report_refusal(*input) == Some(e@),
            Ok(j) => report_refusal(*input) is None && j.gameid@ == input.gameid@ && j.fleet@
                == input.fleet@ && j.report@ == input.target@ && j.pos == input.pos && j.board@
                == commitment_of(input.board@, input.random@) && j.next_board@ == commitment_of(
                without(input.board@, input.pos, input.board@.len() as int),
                input.random@,
            ),
        },
{
    proof {
        reveal_strlit("Hit");
        reveal_strlit("Miss");
    }
    let hit: bool = is_hit(&input.board, input.pos);
    let says_hit: bool = input.target == String::from_str("Hit");
    let says_miss: bool = input.target == String::from_str("Miss");
    if !says_hit && !says_miss {
        return Err(String::from_str("Report must be 'Hit' or 'Miss'"));
    }
    if says_hit != hit {
        return Err(String::from_str("Report does not match the actual board state"));
    }
    let rest: Vec<u8> = remove_square(&input.board, input.pos);
    let board: Commitment = commit_board(&input.board, &input.random);
    let next_board: Commitment = commit_board(&rest, &input.random);
    Ok(
        ReportJournal {
            gameid: input.gameid.clone(),
            fleet: input.fleet.clone(),
            report: input.target.clone(),
            pos: input.pos,
            board,
            next_board,
        },
    )
}

} // verus!
