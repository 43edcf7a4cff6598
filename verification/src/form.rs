//! The player's form: what a submitted form must hold for each action, and
//! what is read out of it.

use crate::parse::{parse_board, parsed_board, percent_decode, percent_decoded};
use crate::rules::{hit_tag, miss_tag};
use vstd::prelude::*;
use vstd::string::*;

verus! {

/// A submitted form. A field that was left out is `None`.
pub struct FormData {
    pub button: String,
    pub gameid: Option<String>,
    pub fleetid: Option<String>,
    pub targetfleet: Option<String>,
    pub x: Option<String>,
    pub y: Option<String>,
    pub rx: Option<String>,
    pub ry: Option<String>,
    pub report: Option<String>,
    pub board: Option<String>,
    pub shots: Option<String>,
    pub random: Option<String>,
}

/// What every action reads out of a form: the game, the fleet, the board
/// placement and the random seed; or the complaint about the first field that
/// is not in order.
pub open spec fn unmarshal_data_spec(f: FormData) -> Result<
    (Seq<char>, Seq<char>, Seq<u8>, Seq<char>),
    Seq<char>,
> {
    if f.gameid is None {
        Err("You must provide a Game ID"@)
    } else if f.gameid->0@.len() == 0 {
        Err("Game ID cannot be an empty string"@)
    } else if f.fleetid is None {
        Err("You must provide a Fleet ID"@)
    } else if f.fleetid->0@.len() == 0 {
        Err("Fleet ID cannot be an empty string"@)
    } else if f.random is None {
        Err("You must provide a Random Seed"@)
    } else if f.board is None {
        Err("You must provide a Board Placement"@)
    } else if percent_decoded(f.board->0@) is None {
        Err("Invalid Board Placement"@)
    } else if parsed_board(percent_decoded(f.board->0@)->0) is None {
        Err("Invalid number in Board Placement"@)
    } else {
        Ok(
            (
                f.gameid->0@,
                f.fleetid->0@,
                parsed_board(percent_decoded(f.board->0@)->0)->0,
                f.random->0@,
            ),
        )
    }
}

/// What a board placement comes to once it is percent-decoded: the list of
/// its numbers, or the complaint about it.
pub open spec fn decoded_board_spec(decoded: Option<Seq<char>>) -> Result<Seq<u8>, Seq<char>> {
    match decoded {
        None => Err("Invalid Board Placement"@),
        Some(text) => match parsed_board(text) {
            None => Err("Invalid number in Board Placement"@),
            Some(board) => Ok(board),
        },
    }
}

/// Reads the board out of a placement that was percent-decoded; `None` stands
/// for a placement that did not decode.
pub fn decoded_board(decoded: &Option<String>) -> (r: Result<Vec<u8>, String>)
    ensures
        match r {
            Ok(board) => decoded_board_spec(crate::session::name_model(*decoded)) == Ok::<
                Seq<u8>,
                Seq<char>,
            >(board@),
            Err(e) => decoded_board_spec(crate::session::name_model(*decoded)) == Err::<
                Seq<u8>,
                Seq<char>,
            >(e@),
        },
{
    match decoded {
        None => Err(String::from_str("Invalid Board Placement")),
        Some(text) => match parse_board(text.as_str()) {
            None => Err(String::from_str("Invalid number in Board Placement")),
            Some(board) => Ok(board),
        },
    }
}

/// Reads the game, the fleet, the board placement and the random seed out of
/// a form.
pub fn unmarshal_data(idata: &FormData) -> (r: Result<(String, String, Vec<u8>, String), String>)
    ensures
        match r {
            Ok((gameid, fleetid, board, random)) => unmarshal_data_spec(*idata) == Ok::<
                (Seq<char>, Seq<char>, Seq<u8>, Seq<char>),
                Seq<char>,
            >((gameid@, fleetid@, board@, random@)),
            Err(e) => unmarshal_data_spec(*idata) == Err::<
                (Seq<char>, Seq<char>, Seq<u8>, Seq<char>),
                Seq<char>,
            >(e@),
        },
{
    let gameid: String = match &idata.gameid {
        None => {
            return Err(String::from_str("You must provide a Game ID"));
        },
        Some(id) => {
            if id.as_str().is_empty() {
                return Err(String::from_str("Game ID cannot be an empty string"));
            }
            id.clone()
        },
    };
    let fleetid: String = match &idata.fleetid {
        None => {
            return Err(String::from_str("You must provide a Fleet ID"));
        },
        Some(id) => {
            if id.as_str().is_empty() {
                return Err(String::from_str("Fleet ID cannot be an empty string"));
            }
            id.clone()
        },
    };
    let random: String = match &idata.random {
        None => {
            return Err(String::from_str("You must provide a Random Seed"));
        },
        Some(r) => r.clone(),
    };
    let placement: &String = match &idata.board {
        None => {
            return Err(String::from_str("You must provide a Board Placement"));
        },
        Some(b) => b,
    };
    let decoded: Option<String> = percent_decode(placement.as_str());
    match decoded_board(&decoded) {
        Ok(board) => Ok((gameid, fleetid, board, random)),
        Err(e) => Err(e),
    }
}

/// The column and the row that two form fields give: the first character of
/// each counts, a letter from `A` to `J` for the column and a digit for the
/// row.
pub open spec fn coordinates_spec(x: Option<String>, y: Option<String>) -> Result<
    (u8, u8),
    Seq<char>,
> {
    if x is None {
        Err("You must provide an X coordinate"@)
    } else if x->0@.len() == 0 {
        Err("Invalid X coordinate"@)
    } else if !('A' <= x->0@[0] <= 'J') {
        Err("X coordinate must be between A and J"@)
    } else if y is None {
        Err("You must provide a Y coordinate"@)
    } else if y->0@.len() == 0 {
        Err("Invalid Y coordinate"@)
    } else if !('0' <= y->0@[0] <= '9') {
        Err("Y coordinate must be between 0 and 9"@)
    } else {
        Ok(((x->0@[0] as u8 - 'A' as u8) as u8, (y->0@[0] as u8 - '0' as u8) as u8))
    }
}

/// Reads a column and a row out of two form fields.
pub fn get_coordinates(x: &Option<String>, y: &Option<String>) -> (r: Result<(u8, u8), String>)
    ensures
        match r {
            Ok((col, row)) => coordinates_spec(*x, *y) == Ok::<(u8, u8), Seq<char>>((col, row))
                && col <= 9 && row <= 9,
            Err(e) => coordinates_spec(*x, *y) == Err::<(u8, u8), Seq<char>>(e@),
        },
{
    let col: u8 = match x {
        None => {
            return Err(String::from_str("You must provide an X coordinate"));
        },
        Some(text) => {
            if text.as_str().is_empty() {
                return Err(String::from_str("Invalid X coordinate"));
            }
            let c: char = text.as_str().get_char(0);
            if !(c >= 'A' && c <= 'J') {
                return Err(String::from_str("X coordinate must be between A and J"));
            }
            c as u8 - 'A' as u8
        },
    };
    let row: u8 = match y {
        None => {
            return Err(String::from_str("You must provide a Y coordinate"));
        },
        Some(text) => {
            if text.as_str().is_empty() {
                return Err(String::from_str("Invalid Y coordinate"));
            }
            let c: char = text.as_str().get_char(0);
            if !(c >= '0' && c <= '9') {
                return Err(String::from_str("Y coordinate must be between 0 and 9"));
            }
            c as u8 - '0' as u8
        },
    };
    Ok((col, row))
}

/// What a shot reads out of a form: the common fields, the column and the row
/// from `x` and `y`, and the target fleet.
pub open spec fn unmarshal_fire_spec(f: FormData) -> Result<
    (Seq<char>, Seq<char>, Seq<u8>, Seq<char>, Seq<char>, u8, u8),
    Seq<char>,
> {
    match unmarshal_data_spec(f) {
        Err(e) => Err(e),
        Ok((gameid, fleetid, board, random)) => match coordinates_spec(f.x, f.y) {
            Err(e) => Err(e),
            Ok((col, row)) => if f.targetfleet is None {
                Err("You must provide a Target Fleet ID"@)
            } else {
                Ok((gameid, fleetid, board, random, f.targetfleet->0@, col, row))
            },
        },
    }
}

/// Reads a shot out of a form.
pub fn unmarshal_fire(idata: &FormData) -> (r: Result<
    (String, String, Vec<u8>, String, String, u8, u8),
    String,
>)
    ensures
        match r {
            Ok((gameid, fleetid, board, random, target, col, row)) => unmarshal_fire_spec(*idata)
                == Ok::<(Seq<char>, Seq<char>, Seq<u8>, Seq<char>, Seq<char>, u8, u8), Seq<char>>(
                (gameid@, fleetid@, board@, random@, target@, col, row),
            ) && col <= 9 && row <= 9,
            Err(e) => unmarshal_fire_spec(*idata) == Err::<
                (Seq<char>, Seq<char>, Seq<u8>, Seq<char>, Seq<char>, u8, u8),
                Seq<char>,
            >(e@),
        },
{
    let (gameid, fleetid, board, random) = match unmarshal_data(idata) {
        Ok(values) => values,
        Err(e) => {
            return Err(e);
        },
    };
    let (col, row) = match get_coordinates(&idata.x, &idata.y) {
        Ok(xy) => xy,
        Err(e) => {
            return Err(e);
        },
    };
    let target: String = match &idata.targetfleet {
        None => {
            return Err(String::from_str("You must provide a Target Fleet ID"));
        },
        Some(t) => t.clone(),
    };
    Ok((gameid, fleetid, board, random, target, col, row))
}

/// What a report reads out of a form: the common fields, the column and the
/// row from `rx` and `ry`, and the report, which is `Hit` or `Miss`.
pub open spec fn unmarshal_report_spec(f: FormData) -> Result<
    (Seq<char>, Seq<char>, Seq<u8>, Seq<char>, Seq<char>, u8, u8),
    Seq<char>,
> {
    match unmarshal_data_spec(f) {
        Err(e) => Err(e),
        Ok((gameid, fleetid, board, random)) => match coordinates_spec(f.rx, f.ry) {
            Err(e) => Err(e),
            Ok((col, row)) => if f.report is None {
                Err("You must provide a Report value"@)
            } else if f.report->0@ != hit_tag() && f.report->0@ != miss_tag() {
                Err("Report must be either 'Hit' or 'Miss'"@)
            } else {
                Ok((gameid, fleetid, board, random, f.report->0@, col, row))
            },
        },
    }
}

/// Reads a report out of a form.
pub fn unmarshal_report(idata: &FormData) -> (r: Result<
    (String, String, Vec<u8>, String, String, u8, u8),
    String,
>)
    ensures
        match r {
            Ok((gameid, fleetid, board, random, report, col, row)) => unmarshal_report_spec(
                *idata,
            ) == Ok::<(Seq<char>, Seq<char>, Seq<u8>, Seq<char>, Seq<char>, u8, u8), Seq<char>>(
                (gameid@, fleetid@, board@, random@, report@, col, row),
            ) && col <= 9 && row <= 9,
            Err(e) => unmarshal_report_spec(*idata) == Err::<
                (Seq<char>, Seq<char>, Seq<u8>, Seq<char>, Seq<char>, u8, u8),
                Seq<char>,
            >(e@),
        },
{
    let (gameid, fleetid, board, random) = match unmarshal_data(idata) {
        Ok(values) => values,
        Err(e) => {
            return Err(e);
        },
    };
    let (col, row) = match get_coordinates(&idata.rx, &idata.ry) {
        Ok(xy) => xy,
        Err(e) => {
            return Err(e);
        },
    };
    let report: String = match &idata.report {
        None => {
            return Err(String::from_str("You must provide a Report value"));
        },
        Some(r) => {
            let hit: String = String::from_str("Hit");
            let miss: String = String::from_str("Miss");
            if *r != hit && *r != miss {
                return Err(String::from_str("Report must be either 'Hit' or 'Miss'"));
            }
            r.clone()
        },
    };
    Ok((gameid, fleetid, board, random, report, col, row))
}

} // verus!
