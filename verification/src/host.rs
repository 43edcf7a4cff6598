//! The player's side: the private inputs that a submitted form gives for each
//! action, and what is shown for the arbiter's answer.

use crate::command::{BaseInputs, FireInputs};
use crate::form::{
    unmarshal_data, unmarshal_data_spec, unmarshal_fire, unmarshal_fire_spec, unmarshal_report,
    unmarshal_report_spec, FormData,
};
use vstd::prelude::*;
use vstd::string::*;

verus! {

/// The position of the square in a column and a row: ten times the row, plus
/// the column.
pub open spec fn position_of(col: u8, row: u8) -> int {
    row * 10 + col
}

/// The inputs of the proof for a join, a wave or a victory claim, or the
/// complaint about the form.
pub fn base_inputs(idata: &FormData) -> (r: Result<BaseInputs, String>)
    ensures
        match r {
            Ok(i) => unmarshal_data_spec(*idata) == Ok::<
                (Seq<char>, Seq<char>, Seq<u8>, Seq<char>),
                Seq<char>,
            >((i.gameid@, i.fleet@, i.board@, i.random@)),
            Err(e) => unmarshal_data_spec(*idata) == Err::<
                (Seq<char>, Seq<char>, Seq<u8>, Seq<char>),
                Seq<char>,
            >(e@),
        },
{
    match unmarshal_data(idata) {
        Ok((gameid, fleet, board, random)) => Ok(BaseInputs { gameid, fleet, board, random }),
        Err(e) => Err(e),
    }
}

/// The inputs of the proof for a shot, or the complaint about the form. The
/// position is that of the column and the row.
pub fn fire_inputs(idata: &FormData) -> (r: Result<FireInputs, String>)
    ensures
        match unmarshal_fire_spec(*idata) {
            Ok((gameid, fleet, board, random, target, col, row)) => r is Ok && r->Ok_0.gameid@
                == gameid && r->Ok_0.fleet@ == fleet && r->Ok_0.board@ == board
                && r->Ok_0.random@ == random && r->Ok_0.target@ == target && r->Ok_0.pos
                == position_of(col, row),
            Err(e) => r is Err && r->Err_0@ == e,
        },
{
    match unmarshal_fire(idata) {
        Ok((gameid, fleet, board, random, target, col, row)) => {
            let pos: u8 = row * 10 + col;
            Ok(FireInputs { gameid, fleet, board, random, target, pos })
        },
        Err(e) => Err(e),
    }
}

/// The inputs of the proof for a report, or the complaint about the form. The
/// report takes the place of the target.
pub fn report_inputs(idata: &FormData) -> (r: Result<FireInputs, String>)
    ensures
        match unmarshal_report_spec(*idata) {
            Ok((gameid, fleet, board, random, report, col, row)) => r is Ok && r->Ok_0.gameid@
                == gameid && r->Ok_0.fleet@ == fleet && r->Ok_0.board@ == board
                && r->Ok_0.random@ == random && r->Ok_0.target@ == report && r->Ok_0.pos
                == position_of(col, row),
            Err(e) => r is Err && r->Err_0@ == e,
        },
{
    match unmarshal_report(idata) {
        Ok((gameid, fleet, board, random, report, col, row)) => {
            let pos: u8 = row * 10 + col;
            Ok(FireInputs { gameid, fleet, board, random, target: report, pos })
        },
        Err(e) => Err(e),
    }
}

/// Whether a form brings a random seed of its own: one that is not empty.
pub open spec fn has_random(input: FormData) -> bool {
    input.random is Some && input.random->0@.len() > 0
}

/// Gives a form a random seed where it brings none: a form with a seed that
/// is not empty is handed back as it is, any other gets `fresh`.
pub fn process_input_data(input: FormData, fresh: String) -> (r: FormData)
    ensures
        has_random(input) ==> r == input,
        !has_random(input) ==> r == (FormData { random: Some(fresh), ..input }),
{
    let keep: bool = match &input.random {
        Some(random) => !random.as_str().is_empty(),
        None => false,
    };
    if keep {
        input
    } else {
        FormData { random: Some(fresh), ..input }
    }
}

/// What the page shows for an answer: nothing without one; for `OK` the game
/// and the fleet being played, or "Not in game" where the game is not named;
/// for anything else the answer itself, in red.
pub open spec fn response_text(
    gameid: Option<String>,
    fleetid: Option<String>,
    response: Option<String>,
) -> Seq<char> {
    let game = match gameid {
        Some(g) => g@,
        None => Seq::empty(),
    };
    let fleet = match fleetid {
        Some(f) => f@,
        None => Seq::empty(),
    };
    match response {
        None => Seq::empty(),
        Some(r) => if r@ == "OK"@ {
            if game.len() > 0 {
                "Playing Game: <b>"@ + game + "</b> with fleet's ID: <b>"@ + fleet + "</b> "@
            } else {
                "Not in game"@
            }
        } else {
            "<p style='color:red'>"@ + r@ + "</p>"@
        },
    }
}

/// Words what the page shows for an answer.
pub fn response_html(gameid: &Option<String>, fleetid: &Option<String>, response: &Option<String>) -> (s:
    String)
    ensures
        s@ == response_text(*gameid, *fleetid, *response),
{
    let game: String = match gameid {
        Some(g) => g.clone(),
        None => String::new(),
    };
    let fleet: String = match fleetid {
        Some(f) => f.clone(),
        None => String::new(),
    };
    match response {
        None => String::new(),
        Some(r) => {
            if *r == String::from_str("OK") {
                if !game.as_str().is_empty() {
                    let mut s: String = String::from_str("Playing Game: <b>");
                    s.append(game.as_str());
                    s.append("</b> with fleet's ID: <b>");
                    s.append(fleet.as_str());
                    s.append("</b> ");
                    s
                } else {
                    String::from_str("Not in game")
                }
            } else {
                let mut s: String = String::from_str("<p style='color:red'>");
                s.append(r.as_str());
                s.append("</p>");
                s
            }
        },
    }
}

} // verus!
