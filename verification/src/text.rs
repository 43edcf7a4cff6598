//! Text pieces shared by the messages: decimal numbers and grid coordinates.

use vstd::prelude::*;
use vstd::string::*;

verus! {

/// The character of a decimal digit; `'0'` for anything above nine.
pub open spec fn digit_char(d: nat) -> char {
    if d == 1 {
        '1'
    } else if d == 2 {
        '2'
    } else if d == 3 {
        '3'
    } else if d == 4 {
        '4'
    } else if d == 5 {
        '5'
    } else if d == 6 {
        '6'
    } else if d == 7 {
        '7'
    } else if d == 8 {
        '8'
    } else if d == 9 {
        '9'
    } else {
        '0'
    }
}

/// The decimal notation of a number, most significant digit first, without
/// leading zeros.
pub open spec fn decimal_digits(n: nat) -> Seq<char>
    decreases n,
{
    if n < 10 {
        seq![digit_char(n)]
    } else {
        decimal_digits(n / 10).push(digit_char(n % 10))
    }
}

/// The letter of a column: `A` for column 0 up to `J` for column 9.
pub open spec fn column_letter(x: nat) -> char {
    if x == 1 {
        'B'
    } else if x == 2 {
        'C'
    } else if x == 3 {
        'D'
    } else if x == 4 {
        'E'
    } else if x == 5 {
        'F'
    } else if x == 6 {
        'G'
    } else if x == 7 {
        'H'
    } else if x == 8 {
        'I'
    } else if x == 9 {
        'J'
    } else {
        'A'
    }
}

/// The grid coordinate of a position: the column letter of `pos % 10`, then
/// the row `pos / 10` in decimal.
pub open spec fn coordinate_text(pos: u8) -> Seq<char> {
    seq![column_letter((pos % 10) as nat)] + decimal_digits((pos / 10) as nat)
}

fn digit_str(d: u64) -> (s: &'static str)
    requires
        d < 10,
    ensures
        s@ == seq![digit_char(d as nat)],
{
    proof {
        reveal_strlit("0");
        reveal_strlit("1");
        reveal_strlit("2");
        reveal_strlit("3");
        reveal_strlit("4");
        reveal_strlit("5");
        reveal_strlit("6");
        reveal_strlit("7");
        reveal_strlit("8");
        reveal_strlit("9");
    }
    let s: &'static str = if d == 0 {
        "0"
    } else if d == 1 {
        "1"
    } else if d == 2 {
        "2"
    } else if d == 3 {
        "3"
    } else if d == 4 {
        "4"
    } else if d == 5 {
        "5"
    } else if d == 6 {
        "6"
    } else if d == 7 {
        "7"
    } else if d == 8 {
        "8"
    } else {
        "9"
    };
    assert(s@ =~= seq![digit_char(d as nat)]);
    s
}

fn column_str(x: u8) -> (s: &'static str)
    requires
        x < 10,
    ensures
        s@ == seq![column_letter(x as nat)],
{
    proof {
        reveal_strlit("A");
        reveal_strlit("B");
        reveal_strlit("C");
        reveal_strlit("D");
        reveal_strlit("E");
        reveal_strlit("F");
        reveal_strlit("G");
        reveal_strlit("H");
        reveal_strlit("I");
        reveal_strlit("J");
    }
    let s: &'static str = if x == 0 {
        "A"
    } else if x == 1 {
        "B"
    } else if x == 2 {
        "C"
    } else if x == 3 {
        "D"
    } else if x == 4 {
        "E"
    } else if x == 5 {
        "F"
    } else if x == 6 {
        "G"
    } else if x == 7 {
        "H"
    } else if x == 8 {
        "I"
    } else {
        "J"
    };
    assert(s@ =~= seq![column_letter(x as nat)]);
    s
}

/// Writes a number in decimal.
pub fn decimal(n: u64) -> (s: String)
    ensures
        s@ == decimal_digits(n as nat),
    decreases n,
{
    if n < 10 {
        String::from_str(digit_str(n))
    } else {
        let mut s: String = decimal(n / 10);
        s.append(digit_str(n % 10));
        assert(s@ =~= decimal_digits(n as nat));
        s
    }
}

/// The grid coordinate of a position, such as `F0` for position 5 and `A1`
/// for position 10.
pub fn xy_pos(pos: u8) -> (s: String)
    ensures
        s@ == coordinate_text(pos),
{
    let x: u8 = pos % 10;
    let y: u8 = pos / 10;
    let mut s: String = String::from_str(column_str(x));
    let row: String = decimal(y as u64);
    s.append(row.as_str());
    s
}

} // verus!
