use fleetcore::form::{get_coordinates, unmarshal_data, unmarshal_fire, unmarshal_report, FormData};
use fleetcore::host::{base_inputs, fire_inputs, process_input_data, report_inputs, response_html};
use fleetcore::parse::{parse_board, parse_u8};

fn text(s: &str) -> Option<String> {
    Some(s.to_string())
}

fn filled() -> FormData {
    FormData {
        button: "Fire".to_string(),
        gameid: text("g1"),
        fleetid: text("alice"),
        targetfleet: text("bob"),
        x: text("F"),
        y: text("0"),
        rx: text("C"),
        ry: text("4"),
        report: text("Hit"),
        board: text("0,1,2"),
        shots: text(""),
        random: text("seed"),
    }
}

#[test]
fn parse_u8_reads_decimal_numbers() {
    assert_eq!(parse_u8("0"), Some(0));
    assert_eq!(parse_u8("7"), Some(7));
    assert_eq!(parse_u8("99"), Some(99));
    assert_eq!(parse_u8("255"), Some(255));
    assert_eq!(parse_u8("007"), Some(7));
    assert_eq!(parse_u8("+5"), Some(5));
    assert_eq!(parse_u8("0000000000000000000255"), Some(255));
}

#[test]
fn parse_u8_refuses_what_is_no_number() {
    for bad in ["", "+", "-", "-1", "256", "1000", "99999999999999999999", " 1", "1 ", "1a", "a", "++1", "1+", "1.0", "٣"] {
        assert_eq!(parse_u8(bad), None);
    }
}

#[test]
fn parse_u8_agrees_with_the_standard_parser() {
    for n in 0u32..=300 {
        for s in [n.to_string(), format!("+{}", n), format!("0{}", n), format!("{}x", n), format!("-{}", n)] {
            assert_eq!(parse_u8(&s), s.parse::<u8>().ok());
        }
    }
}

#[test]
fn parse_board_reads_a_list() {
    assert_eq!(parse_board("5"), Some(vec![5]));
    assert_eq!(parse_board("0,1,2"), Some(vec![0, 1, 2]));
    assert_eq!(parse_board("99,+3,007,255"), Some(vec![99, 3, 7, 255]));
    assert_eq!(parse_board("1,1,1"), Some(vec![1, 1, 1]));
}

#[test]
fn parse_board_refuses_a_bad_field() {
    for bad in ["", ",", "1,", ",1", "1,,2", "1, 2", "1,256", "a,b", "1;2"] {
        assert_eq!(parse_board(bad), None);
    }
}

#[test]
fn unmarshal_data_reads_the_common_fields() {
    let form = filled();
    assert_eq!(
        unmarshal_data(&form),
        Ok(("g1".to_string(), "alice".to_string(), vec![0, 1, 2], "seed".to_string()))
    );
}

#[test]
fn unmarshal_data_decodes_the_board() {
    let mut form = filled();
    form.board = text("10%2C20%2C30");
    assert_eq!(unmarshal_data(&form).unwrap().2, vec![10, 20, 30]);
    form.board = text("%31%32,7");
    assert_eq!(unmarshal_data(&form).unwrap().2, vec![12, 7]);
    form.board = text("1%2c2");
    assert_eq!(unmarshal_data(&form).unwrap().2, vec![1, 2]);
}

#[test]
fn unmarshal_data_complains_about_the_first_bad_field() {
    let mut form = filled();
    form.board = text("1,x");
    assert_eq!(unmarshal_data(&form), Err("Invalid number in Board Placement".to_string()));
    form.board = text("");
    assert_eq!(unmarshal_data(&form), Err("Invalid number in Board Placement".to_string()));
    form.board = text("1%2");
    assert_eq!(unmarshal_data(&form), Err("Invalid number in Board Placement".to_string()));
    form.board = text("%FF");
    assert_eq!(unmarshal_data(&form), Err("Invalid Board Placement".to_string()));
    form.board = None;
    assert_eq!(unmarshal_data(&form), Err("You must provide a Board Placement".to_string()));
    form.random = None;
    assert_eq!(unmarshal_data(&form), Err("You must provide a Random Seed".to_string()));
    form.fleetid = text("");
    assert_eq!(unmarshal_data(&form), Err("Fleet ID cannot be an empty string".to_string()));
    form.fleetid = None;
    assert_eq!(unmarshal_data(&form), Err("You must provide a Fleet ID".to_string()));
    form.gameid = text("");
    assert_eq!(unmarshal_data(&form), Err("Game ID cannot be an empty string".to_string()));
    form.gameid = None;
    assert_eq!(unmarshal_data(&form), Err("You must provide a Game ID".to_string()));
}

#[test]
fn unmarshal_data_takes_an_empty_seed() {
    let mut form = filled();
    form.random = text("");
    assert_eq!(unmarshal_data(&form).unwrap().3, "");
}

#[test]
fn get_coordinates_reads_the_first_characters() {
    assert_eq!(get_coordinates(&text("A"), &text("0")), Ok((0, 0)));
    assert_eq!(get_coordinates(&text("J"), &text("9")), Ok((9, 9)));
    assert_eq!(get_coordinates(&text("F"), &text("3")), Ok((5, 3)));
    assert_eq!(get_coordinates(&text("Cxyz"), &text("42")), Ok((2, 4)));
}

#[test]
fn get_coordinates_complains_about_the_first_bad_field() {
    let e = |s: &str| Err(s.to_string());
    assert_eq!(get_coordinates(&None, &None), e("You must provide an X coordinate"));
    assert_eq!(get_coordinates(&text(""), &None), e("Invalid X coordinate"));
    for bad in ["K", "a", "@", "5", " A", "É"] {
        assert_eq!(get_coordinates(&text(bad), &None), e("X coordinate must be between A and J"));
    }
    assert_eq!(get_coordinates(&text("A"), &None), e("You must provide a Y coordinate"));
    assert_eq!(get_coordinates(&text("A"), &text("")), e("Invalid Y coordinate"));
    for bad in ["A", "/", ":", "-1", " 1"] {
        assert_eq!(get_coordinates(&text("A"), &text(bad)), e("Y coordinate must be between 0 and 9"));
    }
}

#[test]
fn unmarshal_fire_reads_a_shot() {
    let form = filled();
    assert_eq!(
        unmarshal_fire(&form),
        Ok((
            "g1".to_string(),
            "alice".to_string(),
            vec![0, 1, 2],
            "seed".to_string(),
            "bob".to_string(),
            5,
            0
        ))
    );
}

#[test]
fn unmarshal_fire_complains_in_order() {
    let mut form = filled();
    form.targetfleet = None;
    assert_eq!(unmarshal_fire(&form), Err("You must provide a Target Fleet ID".to_string()));
    form.y = text("x");
    assert_eq!(unmarshal_fire(&form), Err("Y coordinate must be between 0 and 9".to_string()));
    form.x = None;
    assert_eq!(unmarshal_fire(&form), Err("You must provide an X coordinate".to_string()));
    form.gameid = None;
    assert_eq!(unmarshal_fire(&form), Err("You must provide a Game ID".to_string()));
}

#[test]
fn unmarshal_fire_takes_an_empty_target() {
    let mut form = filled();
    form.targetfleet = text("");
    assert_eq!(unmarshal_fire(&form).unwrap().4, "");
}

#[test]
fn unmarshal_report_reads_a_report() {
    let mut form = filled();
    assert_eq!(
        unmarshal_report(&form),
        Ok((
            "g1".to_string(),
            "alice".to_string(),
            vec![0, 1, 2],
            "seed".to_string(),
            "Hit".to_string(),
            2,
            4
        ))
    );
    form.report = text("Miss");
    assert_eq!(unmarshal_report(&form).unwrap().4, "Miss");
}

#[test]
fn unmarshal_report_complains_in_order() {
    let mut form = filled();
    for bad in ["hit", "HIT", "Hit ", "", "Sunk"] {
        form.report = text(bad);
        assert_eq!(unmarshal_report(&form), Err("Report must be either 'Hit' or 'Miss'".to_string()));
    }
    form.report = None;
    assert_eq!(unmarshal_report(&form), Err("You must provide a Report value".to_string()));
    form.ry = None;
    assert_eq!(unmarshal_report(&form), Err("You must provide a Y coordinate".to_string()));
    form.rx = text("Z");
    assert_eq!(unmarshal_report(&form), Err("X coordinate must be between A and J".to_string()));
    form.board = None;
    assert_eq!(unmarshal_report(&form), Err("You must provide a Board Placement".to_string()));
}

#[test]
fn inputs_carry_the_position() {
    let mut form = filled();
    form.x = text("J");
    form.y = text("9");
    let shot = fire_inputs(&form).unwrap();
    assert_eq!(shot.pos, 99);
    assert_eq!(shot.target, "bob");
    assert_eq!(shot.gameid, "g1");
    assert_eq!(shot.fleet, "alice");
    assert_eq!(shot.board, vec![0, 1, 2]);
    assert_eq!(shot.random, "seed");
    form.x = text("D");
    form.y = text("7");
    assert_eq!(fire_inputs(&form).unwrap().pos, 73);
    let report = report_inputs(&form).unwrap();
    assert_eq!(report.pos, 42);
    assert_eq!(report.target, "Hit");
    let base = base_inputs(&form).unwrap();
    assert_eq!((base.gameid.as_str(), base.fleet.as_str(), base.random.as_str()), ("g1", "alice", "seed"));
    assert_eq!(base.board, vec![0, 1, 2]);
    form.gameid = None;
    assert_eq!(base_inputs(&form).err(), Some("You must provide a Game ID".to_string()));
    assert_eq!(fire_inputs(&form).err(), Some("You must provide a Game ID".to_string()));
    assert_eq!(report_inputs(&form).err(), Some("You must provide a Game ID".to_string()));
}

#[test]
fn a_missing_seed_is_filled_in() {
    let form = process_input_data(filled(), "fresh".to_string());
    assert_eq!(form.random, text("seed"));
    let mut blank = filled();
    blank.random = text("");
    let form = process_input_data(blank, "fresh".to_string());
    assert_eq!(form.random, text("fresh"));
    assert_eq!(form.gameid, text("g1"));
    assert_eq!(form.board, text("0,1,2"));
    let mut none = filled();
    none.random = None;
    let form = process_input_data(none, "fresh".to_string());
    assert_eq!(form.random, text("fresh"));
    assert_eq!(form.button, "Fire");
}

#[test]
fn the_page_shows_the_answer() {
    assert_eq!(response_html(&text("g1"), &text("alice"), &None), "");
    assert_eq!(
        response_html(&text("g1"), &text("alice"), &text("OK")),
        "Playing Game: <b>g1</b> with fleet's ID: <b>alice</b> "
    );
    assert_eq!(response_html(&text("g1"), &None, &text("OK")), "Playing Game: <b>g1</b> with fleet's ID: <b></b> ");
    assert_eq!(response_html(&text(""), &text("alice"), &text("OK")), "Not in game");
    assert_eq!(response_html(&None, &text("alice"), &text("OK")), "Not in game");
    assert_eq!(
        response_html(&text("g1"), &text("alice"), &text("Not your turn")),
        "<p style='color:red'>Not your turn</p>"
    );
}
