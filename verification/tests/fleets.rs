use fleetcore::fleet::{
    check_ships, find_ships, is_straight_line, ships_touch_each_other, validate_fleet_placement,
    FleetError,
};

fn fleet() -> Vec<u8> {
    vec![0, 1, 2, 3, 4, 6, 8, 20, 21, 22, 23, 25, 26, 27, 40, 41, 43, 44]
}

fn with(mut board: Vec<u8>, from: u8, to: u8) -> Vec<u8> {
    let at = board.iter().position(|&p| p == from).unwrap();
    board[at] = to;
    board
}

#[test]
fn a_proper_fleet_is_accepted() {
    assert_eq!(validate_fleet_placement(&fleet()), Ok(()));
    let mut shuffled = fleet();
    shuffled.reverse();
    assert_eq!(validate_fleet_placement(&shuffled), Ok(()));
    let upright: Vec<u8> = vec![0, 10, 20, 30, 40, 60, 80, 2, 12, 22, 32, 52, 62, 72, 4, 14, 34, 44];
    assert_eq!(validate_fleet_placement(&upright), Ok(()));
    let corner: Vec<u8> = vec![99, 98, 97, 96, 95, 79, 78, 77, 76, 59, 58, 57, 39, 38, 36, 35, 19, 17];
    assert_eq!(validate_fleet_placement(&corner), Ok(()));
}

#[test]
fn the_number_of_squares_is_looked_at_first() {
    assert_eq!(validate_fleet_placement(&vec![]), Err(FleetError::WrongSquareCount { found: 0 }));
    let mut short = fleet();
    short.pop();
    assert_eq!(validate_fleet_placement(&short), Err(FleetError::WrongSquareCount { found: 17 }));
    let mut long = fleet();
    long.push(200);
    long.push(200);
    assert_eq!(validate_fleet_placement(&long), Err(FleetError::WrongSquareCount { found: 20 }));
}

#[test]
fn duplicates_are_looked_at_before_the_range() {
    assert_eq!(validate_fleet_placement(&with(fleet(), 44, 0)), Err(FleetError::DuplicateSquares));
    assert_eq!(
        validate_fleet_placement(&with(with(fleet(), 44, 200), 43, 200)),
        Err(FleetError::DuplicateSquares)
    );
    assert_eq!(validate_fleet_placement(&with(fleet(), 44, 100)), Err(FleetError::SquareOffBoard));
    assert_eq!(validate_fleet_placement(&with(fleet(), 0, 255)), Err(FleetError::SquareOffBoard));
}

#[test]
fn ships_must_come_in_the_right_sizes() {
    assert_eq!(validate_fleet_placement(&with(fleet(), 6, 5)), Err(FleetError::WrongShips));
    assert_eq!(validate_fleet_placement(&with(fleet(), 44, 46)), Err(FleetError::WrongShips));
    assert_eq!(validate_fleet_placement(&with(fleet(), 6, 30)), Err(FleetError::WrongShips));
    assert_eq!(validate_fleet_placement(&with(fleet(), 23, 30)), Err(FleetError::WrongShips));
    assert_eq!(validate_fleet_placement(&with(fleet(), 8, 34)), Err(FleetError::WrongShips));
    let row_end: Vec<u8> = with(with(fleet(), 40, 9), 41, 10);
    assert_eq!(validate_fleet_placement(&row_end), Err(FleetError::WrongShips));
}

#[test]
fn ships_must_be_straight() {
    assert_eq!(validate_fleet_placement(&with(fleet(), 27, 36)), Err(FleetError::BentShip));
    assert_eq!(validate_fleet_placement(&with(fleet(), 23, 32)), Err(FleetError::BentShip));
}

#[test]
fn ships_must_not_touch() {
    assert_eq!(validate_fleet_placement(&with(fleet(), 6, 19)), Err(FleetError::TouchingShips));
    assert_eq!(validate_fleet_placement(&with(fleet(), 8, 38)), Err(FleetError::TouchingShips));
    assert_eq!(validate_fleet_placement(&with(fleet(), 8, 52)), Err(FleetError::TouchingShips));
}

#[test]
fn complaints_are_worded() {
    assert_eq!(
        FleetError::WrongSquareCount { found: 17 }.message(),
        "Invalid number of ship squares: expected 18, got 17"
    );
    assert_eq!(FleetError::DuplicateSquares.message(), "Duplicate squares found");
    assert_eq!(FleetError::SquareOffBoard.message(), "Invalid square coordinates");
    assert_eq!(FleetError::WrongShips.message(), "Invalid ship configuration");
    assert_eq!(FleetError::BentShip.message(), "Ships must be straight lines (no L-shapes allowed)");
    assert_eq!(
        FleetError::TouchingShips.message(),
        "Ships cannot touch each other either directly or diagonally"
    );
}

#[test]
fn find_ships_follows_the_search_in_breadth() {
    assert_eq!(
        find_ships(&fleet()),
        vec![
            vec![0, 1, 2, 3, 4],
            vec![6],
            vec![8],
            vec![20, 21, 22, 23],
            vec![25, 26, 27],
            vec![40, 41],
            vec![43, 44],
        ]
    );
    assert_eq!(find_ships(&vec![]), Vec::<Vec<u8>>::new());
    assert_eq!(find_ships(&vec![55]), vec![vec![55]]);
    assert_eq!(find_ships(&vec![12, 11, 13, 2, 22]), vec![vec![12, 2, 22, 11, 13]]);
    assert_eq!(find_ships(&vec![9, 10]), vec![vec![9], vec![10]]);
    assert_eq!(find_ships(&vec![3, 3, 4]), vec![vec![3, 4]]);
    assert_eq!(find_ships(&vec![0, 11, 22]), vec![vec![0], vec![11], vec![22]]);
    assert_eq!(find_ships(&vec![90, 99, 89, 80]), vec![vec![90, 80], vec![99, 89]]);
}

#[test]
fn straight_lines_are_recognised() {
    assert!(is_straight_line(&[]));
    assert!(is_straight_line(&[7]));
    assert!(is_straight_line(&[200]));
    assert!(is_straight_line(&[3, 4]));
    assert!(is_straight_line(&[4, 3]));
    assert!(is_straight_line(&[13, 23, 33]));
    assert!(is_straight_line(&[33, 13, 23]));
    assert!(is_straight_line(&[50, 51, 52, 53, 54]));
    assert!(is_straight_line(&[52, 50, 54, 51, 53]));
}

#[test]
fn bent_and_broken_lines_are_refused() {
    assert!(!is_straight_line(&[3, 5]));
    assert!(!is_straight_line(&[13, 33]));
    assert!(!is_straight_line(&[3, 14]));
    assert!(!is_straight_line(&[3, 4, 14]));
    assert!(!is_straight_line(&[3, 3]));
    assert!(!is_straight_line(&[3, 4, 4]));
    assert!(!is_straight_line(&[9, 10]));
    assert!(!is_straight_line(&[50, 51, 53]));
    assert!(!is_straight_line(&[10, 20, 40]));
}

#[test]
fn touching_ships_are_found() {
    assert!(!ships_touch_each_other(&[]));
    assert!(!ships_touch_each_other(&[vec![0, 1, 2]]));
    assert!(!ships_touch_each_other(&[vec![0, 1], vec![3, 4]]));
    assert!(!ships_touch_each_other(&[vec![0], vec![20]]));
    assert!(!ships_touch_each_other(&[vec![9], vec![10]]));
    assert!(!ships_touch_each_other(&[vec![0], vec![0]]));
    assert!(ships_touch_each_other(&[vec![0, 1], vec![2, 3]]));
    assert!(ships_touch_each_other(&[vec![0], vec![11]]));
    assert!(ships_touch_each_other(&[vec![11], vec![0]]));
    assert!(ships_touch_each_other(&[vec![45], vec![54]]));
    assert!(ships_touch_each_other(&[vec![45], vec![35]]));
    assert!(ships_touch_each_other(&[vec![99], vec![88]]));
    assert!(ships_touch_each_other(&[vec![5, 6], vec![40], vec![16, 26]]));
    assert!(!ships_touch_each_other(&[vec![100], vec![99]]));
    assert!(ships_touch_each_other(&[vec![100], vec![90]]));
    assert!(ships_touch_each_other(&[vec![91], vec![100]]));
    assert!(!ships_touch_each_other(&[vec![110], vec![100]]));
}

#[test]
fn check_ships_judges_sizes_first() {
    let ships = find_ships(&fleet());
    assert_eq!(check_ships(&ships), Ok(()));
    assert_eq!(check_ships(&vec![]), Err(FleetError::WrongShips));
    let mut fewer = ships.clone();
    fewer.pop();
    assert_eq!(check_ships(&fewer), Err(FleetError::WrongShips));
    let mut empty_one = ships.clone();
    empty_one.push(vec![]);
    assert_eq!(check_ships(&empty_one), Err(FleetError::WrongShips));
    let mut bent = ships.clone();
    bent[4] = vec![25, 26, 36];
    assert_eq!(check_ships(&bent), Err(FleetError::BentShip));
    let mut close = ships.clone();
    close[1] = vec![19];
    assert_eq!(check_ships(&close), Err(FleetError::TouchingShips));
    let mut bent_and_close = bent.clone();
    bent_and_close[1] = vec![19];
    assert_eq!(check_ships(&bent_and_close), Err(FleetError::BentShip));
}
