//! Calendar dates and their fixed wire form `YYYY-MM-DD`.
//!
//! A `Date` is a plain year/month/day triple whose validity (month range,
//! day range including leap years) is a spec-level predicate. The codec
//! below parses and writes the ten-character wire form exactly.

use vstd::prelude::*;
use vstd::string::StrSliceExecFns;
use vstd::string::StringExecFns;

verus! {

/// Leap years of the Gregorian calendar.
pub open spec fn is_leap_year(year: int) -> bool {
    year % 4 == 0 && (year % 100 != 0 || year % 400 == 0)
}

/// Number of days of the given month in the given year.
pub open spec fn days_in_month(year: int, month: int) -> int {
    if month == 2 {
        if is_leap_year(year) {
            29
        } else {
            28
        }
    } else if month == 4 || month == 6 || month == 9 || month == 11 {
        30
    } else {
        31
    }
}

/// A calendar date. Valid values are characterised by [`Date::valid`];
/// the constructors and the parser only ever hand out valid dates.
#[derive(Clone, Copy, PartialEq, Eq, Structural, Debug)]
pub struct Date {
    pub year: u16,
    pub month: u8,
    pub day: u8,
}

impl Date {
    /// A real calendar date that the four-digit wire form can carry.
    pub open spec fn valid(self) -> bool {
        &&& self.year <= 9999
        &&& 1 <= self.month <= 12
        &&& 1 <= self.day <= days_in_month(self.year as int, self.month as int)
    }

    /// Builds a date from its parts, accepting exactly the valid ones.
    pub fn new(year: u16, month: u8, day: u8) -> (r: Option<Date>)
        ensures
            match r {
                Some(d) => d == (Date { year, month, day }) && d.valid(),
                None => !(Date { year, month, day }).valid(),
            },
    {
        let d = Date { year, month, day };
        if year <= 9999 && 1 <= month && month <= 12 && 1 <= day && day <= month_days(year, month)
        {
            Some(d)
        } else {
            None
        }
    }
}

/// Executable form of [`days_in_month`].
fn month_days(year: u16, month: u8) -> (n: u8)
    requires
        1 <= month <= 12,
    ensures
        n as int == days_in_month(year as int, month as int),
{
    if month == 2 {
        if year % 4 == 0 && (year % 100 != 0 || year % 400 == 0) {
            29
        } else {
            28
        }
    } else if month == 4 || month == 6 || month == 9 || month == 11 {
        30
    } else {
        31
    }
}

/// The ten decimal digits.
pub open spec fn is_digit(c: char) -> bool {
    c == '0' || c == '1' || c == '2' || c == '3' || c == '4' || c == '5' || c == '6' || c == '7'
        || c == '8' || c == '9'
}

/// Value of a decimal digit character; meaningful only under [`is_digit`].
pub open spec fn digit_val(c: char) -> int {
    if c == '0' {
        0
    } else if c == '1' {
        1
    } else if c == '2' {
        2
    } else if c == '3' {
        3
    } else if c == '4' {
        4
    } else if c == '5' {
        5
    } else if c == '6' {
        6
    } else if c == '7' {
        7
    } else if c == '8' {
        8
    } else {
        9
    }
}

/// Character of a decimal digit value; meaningful only for 0 through 9.
pub open spec fn digit_char(v: int) -> char {
    if v == 0 {
        '0'
    } else if v == 1 {
        '1'
    } else if v == 2 {
        '2'
    } else if v == 3 {
        '3'
    } else if v == 4 {
        '4'
    } else if v == 5 {
        '5'
    } else if v == 6 {
        '6'
    } else if v == 7 {
        '7'
    } else if v == 8 {
        '8'
    } else {
        '9'
    }
}

/// The wire form of a valid date: four year digits, a dash, two month
/// digits, a dash, two day digits.
pub open spec fn date_chars(d: Date) -> Seq<char> {
    seq![
        digit_char(d.year as int / 1000),
        digit_char(d.year as int / 100 % 10),
        digit_char(d.year as int / 10 % 10),
        digit_char(d.year as int % 10),
        '-',
        digit_char(d.month as int / 10),
        digit_char(d.month as int % 10),
        '-',
        digit_char(d.day as int / 10),
        digit_char(d.day as int % 10),
    ]
}

/// The date written in a well-shaped wire text (meaningful only under
/// the shape part of [`is_date_chars`]).
pub open spec fn parsed_date(s: Seq<char>) -> Date {
    Date {
        year: (digit_val(s[0]) * 1000 + digit_val(s[1]) * 100 + digit_val(s[2]) * 10 + digit_val(
            s[3],
        )) as u16,
        month: (digit_val(s[5]) * 10 + digit_val(s[6])) as u8,
        day: (digit_val(s[8]) * 10 + digit_val(s[9])) as u8,
    }
}

/// Exactly the texts that the parser accepts: ten characters in the
/// digit-and-dash shape, naming a valid calendar date.
pub open spec fn is_date_chars(s: Seq<char>) -> bool {
    &&& s.len() == 10
    &&& is_digit(s[0]) && is_digit(s[1]) && is_digit(s[2]) && is_digit(s[3])
    &&& s[4] == '-'
    &&& is_digit(s[5]) && is_digit(s[6])
    &&& s[7] == '-'
    &&& is_digit(s[8]) && is_digit(s[9])
    &&& parsed_date(s).valid()
}

/// Reads one decimal digit, accepting exactly the digit characters.
fn digit_of(c: char) -> (r: Option<u8>)
    ensures
        match r {
            Some(v) => is_digit(c) && v as int == digit_val(c) && v <= 9,
            None => !is_digit(c),
        },
{
    match c {
        '0' => Some(0),
        '1' => Some(1),
        '2' => Some(2),
        '3' => Some(3),
        '4' => Some(4),
        '5' => Some(5),
        '6' => Some(6),
        '7' => Some(7),
        '8' => Some(8),
        '9' => Some(9),
        _ => None,
    }
}

/// One-character text of a decimal digit value.
fn digit_str(v: u8) -> (s: &'static str)
    requires
        v <= 9,
    ensures
        s@ =~= seq![digit_char(v as int)],
{
    proof {
        reveal_strlit("0");
        reveal_strlit("1");
        reveal_strlit("2");
        reveal_strlit("3");
        reveal_strlit("4");
        reveal_strlit("5");
        reveal_strlit("6");
        reveal_strlit("7");
        reveal_strlit("8");
        reveal_strlit("9");
    }
    match v {
        0 => "0",
        1 => "1",
        2 => "2",
        3 => "3",
        4 => "4",
        5 => "5",
        6 => "6",
        7 => "7",
        8 => "8",
        _ => "9",
    }
}

/// Parses the wire form of a date, accepting exactly the texts under
/// [`is_date_chars`] and rejecting every other text.
pub fn parse_date(s: &str) -> (r: Result<Date, &'static str>)
    ensures
        match r {
            Ok(d) => is_date_chars(s@) && d == parsed_date(s@) && d.valid(),
            Err(e) => !is_date_chars(s@) && e@ == "birthdate is not a valid date"@,
        },
{
    if s.unicode_len() != 10 {
        return Err("birthdate is not a valid date");
    }
    if s.get_char(4) != '-' || s.get_char(7) != '-' {
        return Err("birthdate is not a valid date");
    }
    let y0 = match digit_of(s.get_char(0)) {
        Some(v) => v,
        None => {
            return Err("birthdate is not a valid date");
        },
    };
    let y1 = match digit_of(s.get_char(1)) {
        Some(v) => v,
        None => {
            return Err("birthdate is not a valid date");
        },
    };
    let y2 = match digit_of(s.get_char(2)) {
        Some(v) => v,
        None => {
            return Err("birthdate is not a valid date");
        },
    };
    let y3 = match digit_of(s.get_char(3)) {
        Some(v) => v,
        None => {
            return Err("birthdate is not a valid date");
        },
    };
    let m0 = match digit_of(s.get_char(5)) {
        Some(v) => v,
        None => {
            return Err("birthdate is not a valid date");
        },
    };
    let m1 = match digit_of(s.get_char(6)) {
        Some(v) => v,
        None => {
            return Err("birthdate is not a valid date");
        },
    };
    let d0 = match digit_of(s.get_char(8)) {
        Some(v) => v,
        None => {
            return Err("birthdate is not a valid date");
        },
    };
    let d1 = match digit_of(s.get_char(9)) {
        Some(v) => v,
        None => {
            return Err("birthdate is not a valid date");
        },
    };
    let year: u16 = y0 as u16 * 1000 + y1 as u16 * 100 + y2 as u16 * 10 + y3 as u16;
    let month: u8 = m0 * 10 + m1;
    let day: u8 = d0 * 10 + d1;
    match Date::new(year, month, day) {
        Some(d) => Ok(d),
        None => Err("birthdate is not a valid date"),
    }
}

/// Writes a valid date in its wire form, exactly [`date_chars`].
pub fn format_date(d: &Date) -> (r: String)
    requires
        d.valid(),
    ensures
        r@ == date_chars(*d),
{
    proof {
        reveal_strlit("-");
    }
    let mut out = String::new();
    out.append(digit_str((d.year / 1000) as u8));
    out.append(digit_str((d.year / 100 % 10) as u8));
    out.append(digit_str((d.year / 10 % 10) as u8));
    out.append(digit_str((d.year % 10) as u8));
    out.append("-");
    out.append(digit_str(d.month / 10));
    out.append(digit_str(d.month % 10));
    out.append("-");
    out.append(digit_str(d.day / 10));
    out.append(digit_str(d.day % 10));
    proof {
        assert(out@ =~= date_chars(*d));
    }
    out
}

/// A digit character carries its own value back.
proof fn lemma_digit_round_trip(v: int)
    requires
        0 <= v <= 9,
    ensures
        is_digit(digit_char(v)),
        digit_val(digit_char(v)) == v,
{
}

/// The wire form is lossless: writing a valid date and parsing the text
/// back yields the same date, and the text is one the parser accepts.
#[verifier::rlimit(100)]
pub proof fn lemma_date_round_trip(d: Date)
    requires
        d.valid(),
    ensures
        is_date_chars(date_chars(d)),
        parsed_date(date_chars(d)) == d,
{
    let y = d.year as int;
    let m = d.month as int;
    let dy = d.day as int;
    let s = date_chars(d);
    assert(s[0] == digit_char(y / 1000));
    assert(s[1] == digit_char(y / 100 % 10));
    assert(s[2] == digit_char(y / 10 % 10));
    assert(s[3] == digit_char(y % 10));
    assert(s[5] == digit_char(m / 10));
    assert(s[6] == digit_char(m % 10));
    assert(s[8] == digit_char(dy / 10));
    assert(s[9] == digit_char(dy % 10));
    lemma_digit_round_trip(y / 1000);
    lemma_digit_round_trip(y / 100 % 10);
    lemma_digit_round_trip(y / 10 % 10);
    lemma_digit_round_trip(y % 10);
    lemma_digit_round_trip(m / 10);
    lemma_digit_round_trip(m % 10);
    lemma_digit_round_trip(dy / 10);
    lemma_digit_round_trip(dy % 10);
    assert(y / 1000 * 1000 + y / 100 % 10 * 100 + y / 10 % 10 * 10 + y % 10 == y) by (nonlinear_arith)
        requires
            0 <= y <= 9999,
    ;
    assert(m / 10 * 10 + m % 10 == m) by (nonlinear_arith)
        requires
            0 <= m <= 12,
    ;
    assert(dy / 10 * 10 + dy % 10 == dy) by (nonlinear_arith)
        requires
            0 <= dy <= 31,
    ;
    assert(parsed_date(s).year == d.year);
    assert(parsed_date(s).month == d.month);
    assert(parsed_date(s).day == d.day);
}

} // verus!
