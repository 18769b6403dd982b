//! Calendar dates and UTC instants, with the fixed-width text forms that the
//! calendar interchange format requires: `YYYYMMDD` for a bare date and
//! `YYYYMMDDTHHMMSSZ` for an absolute UTC instant.

use vstd::arithmetic::div_mod::{
    lemma_div_denominator, lemma_fundamental_div_mod, lemma_mod_division_less_than_divisor,
};
use vstd::prelude::*;

verus! {

/// A calendar date: year, month and day, with no time-of-day component.
#[derive(Clone, Copy, PartialEq, Eq, Structural, Debug)]
pub struct Date {
    pub year: u32,
    pub month: u32,
    pub day: u32,
}

impl Date {
    /// A date fits the eight-digit text form when its year has at most four
    /// digits and month and day lie in the calendar ranges.
    pub open spec fn valid(self) -> bool {
        &&& self.year <= 9999
        &&& 1 <= self.month <= 12
        &&& 1 <= self.day <= 31
    }

    /// Decide `valid`.
    pub fn is_valid(&self) -> (r: bool)
        ensures
            r == self.valid(),
    {
        self.year <= 9999 && 1 <= self.month && self.month <= 12 && 1 <= self.day && self.day <= 31
    }
}

/// An absolute instant in UTC, at second precision.
#[derive(Clone, Copy, PartialEq, Eq, Structural, Debug)]
pub struct Timestamp {
    pub date: Date,
    pub hour: u32,
    pub minute: u32,
    pub second: u32,
}

impl Timestamp {
    pub open spec fn valid(self) -> bool {
        &&& self.date.valid()
        &&& self.hour <= 23
        &&& self.minute <= 59
        &&& self.second <= 59
    }

    /// Decide `valid`.
    pub fn is_valid(&self) -> (r: bool)
        ensures
            r == self.valid(),
    {
        self.date.is_valid() && self.hour <= 23 && self.minute <= 59 && self.second <= 59
    }
}

/// The decimal digit character for `d`, for `d` between 0 and 9.
pub open spec fn digit_char(d: int) -> char {
    if d == 0 {
        '0'
    } else if d == 1 {
        '1'
    } else if d == 2 {
        '2'
    } else if d == 3 {
        '3'
    } else if d == 4 {
        '4'
    } else if d == 5 {
        '5'
    } else if d == 6 {
        '6'
    } else if d == 7 {
        '7'
    } else if d == 8 {
        '8'
    } else {
        '9'
    }
}

/// The value of a decimal digit character; 10 marks a character that is no digit.
pub open spec fn digit_val(c: char) -> int {
    if c == '0' {
        0
    } else if c == '1' {
        1
    } else if c == '2' {
        2
    } else if c == '3' {
        3
    } else if c == '4' {
        4
    } else if c == '5' {
        5
    } else if c == '6' {
        6
    } else if c == '7' {
        7
    } else if c == '8' {
        8
    } else if c == '9' {
        9
    } else {
        10
    }
}

pub open spec fn is_digit(c: char) -> bool {
    digit_val(c) <= 9
}

/// The two-digit, zero-padded text of `n`, for `n` below 100.
pub open spec fn two_digits(n: int) -> Seq<char> {
    seq![digit_char(n / 10), digit_char(n % 10)]
}

/// The four-digit, zero-padded text of `n`, for `n` below 10000.
pub open spec fn four_digits(n: int) -> Seq<char> {
    seq![
        digit_char(n / 1000),
        digit_char((n / 100) % 10),
        digit_char((n / 10) % 10),
        digit_char(n % 10),
    ]
}

/// The `YYYYMMDD` text of a date.
pub open spec fn date_text(d: Date) -> Seq<char> {
    four_digits(d.year as int) + two_digits(d.month as int) + two_digits(d.day as int)
}

/// The `YYYYMMDDTHHMMSS` text of an instant: its wall-clock form, with no
/// UTC marker, as the calendar format's `TZID`-qualified values require.
pub open spec fn local_text(t: Timestamp) -> Seq<char> {
    date_text(t.date) + seq!['T'] + two_digits(t.hour as int) + two_digits(t.minute as int)
        + two_digits(t.second as int)
}

/// The `YYYYMMDDTHHMMSSZ` text of a UTC instant.
pub open spec fn utc_text(t: Timestamp) -> Seq<char> {
    local_text(t) + seq!['Z']
}

fn digit_str(d: u32) -> (r: &'static str)
    requires
        d <= 9,
    ensures
        r@.len() == 1,
        r@[0] == digit_char(d as int),
{
    proof {
        reveal_strlit("0");
        reveal_strlit("1");
        reveal_strlit("2");
        reveal_strlit("3");
        reveal_strlit("4");
        reveal_strlit("5");
        reveal_strlit("6");
        reveal_strlit("7");
        reveal_strlit("8");
        reveal_strlit("9");
    }
    match d {
        0 => "0",
        1 => "1",
        2 => "2",
        3 => "3",
        4 => "4",
        5 => "5",
        6 => "6",
        7 => "7",
        8 => "8",
        _ => "9",
    }
}

/// Append the two-digit, zero-padded text of `n` to `s`.
fn push_two_digits(s: &mut String, n: u32)
    requires
        n <= 99,
    ensures
        final(s)@ == old(s)@ + two_digits(n as int),
{
    let ghost s0 = s@;
    s.append(digit_str(n / 10));
    s.append(digit_str(n % 10));
    proof {
        assert(s@ =~= s0 + two_digits(n as int));
    }
}

/// Format a date in its eight-digit `YYYYMMDD` form.
pub fn fmt_date(d: &Date) -> (r: String)
    requires
        d.valid(),
    ensures
        r@ == date_text(*d),
{
    let mut s = String::new();
    let y = d.year;
    s.append(digit_str(y / 1000));
    s.append(digit_str((y / 100) % 10));
    s.append(digit_str((y / 10) % 10));
    s.append(digit_str(y % 10));
    push_two_digits(&mut s, d.month);
    push_two_digits(&mut s, d.day);
    proof {
        assert(s@ =~= date_text(*d));
    }
    s
}

/// Format an instant in its wall-clock `YYYYMMDDTHHMMSS` form.
pub fn fmt_timestamp_local(t: &Timestamp) -> (r: String)
    requires
        t.valid(),
    ensures
        r@ == local_text(*t),
{
    let mut s = fmt_date(&t.date);
    s.append("T");
    proof {
        reveal_strlit("T");
    }
    push_two_digits(&mut s, t.hour);
    push_two_digits(&mut s, t.minute);
    push_two_digits(&mut s, t.second);
    proof {
        assert(s@ =~= local_text(*t));
    }
    s
}

/// Format a UTC instant in its `YYYYMMDDTHHMMSSZ` form.
pub fn fmt_timestamp_utc(t: &Timestamp) -> (r: String)
    requires
        t.valid(),
    ensures
        r@ == utc_text(*t),
{
    let mut s = fmt_timestamp_local(t);
    s.append("Z");
    proof {
        reveal_strlit("Z");
        assert(s@ =~= utc_text(*t));
    }
    s
}

/// What parsing an eight-character `YYYYMMDD` text yields: the date, when
/// every character is a digit and month and day lie in the calendar ranges.
pub open spec fn parse_date_chars(s: Seq<char>) -> Option<Date> {
    if s.len() == 8 && (forall|i: int| 0 <= i < 8 ==> is_digit(#[trigger] s[i])) {
        let y = digit_val(s[0]) * 1000 + digit_val(s[1]) * 100 + digit_val(s[2]) * 10 + digit_val(
            s[3],
        );
        let m = digit_val(s[4]) * 10 + digit_val(s[5]);
        let d = digit_val(s[6]) * 10 + digit_val(s[7]);
        if 1 <= m <= 12 && 1 <= d <= 31 {
            Some(Date { year: y as u32, month: m as u32, day: d as u32 })
        } else {
            None
        }
    } else {
        None
    }
}

/// What parsing a sixteen-character `YYYYMMDDTHHMMSSZ` text yields.
pub open spec fn parse_utc_chars(s: Seq<char>) -> Option<Timestamp> {
    if s.len() == 16 && s[8] == 'T' && s[15] == 'Z' {
        match parse_date_chars(s.subrange(0, 8)) {
            Some(date) => {
                if (forall|i: int| 9 <= i < 15 ==> is_digit(#[trigger] s[i])) {
                    let h = digit_val(s[9]) * 10 + digit_val(s[10]);
                    let mi = digit_val(s[11]) * 10 + digit_val(s[12]);
                    let sec = digit_val(s[13]) * 10 + digit_val(s[14]);
                    if h <= 23 && mi <= 59 && sec <= 59 {
                        Some(
                            Timestamp {
                                date,
                                hour: h as u32,
                                minute: mi as u32,
                                second: sec as u32,
                            },
                        )
                    } else {
                        None
                    }
                } else {
                    None
                }
            },
            None => None,
        }
    } else {
        None
    }
}

/// The value of a digit character, or 10 for any other character.
fn digit_of_char(c: char) -> (r: u32)
    ensures
        r == digit_val(c),
{
    match c {
        '0' => 0,
        '1' => 1,
        '2' => 2,
        '3' => 3,
        '4' => 4,
        '5' => 5,
        '6' => 6,
        '7' => 7,
        '8' => 8,
        '9' => 9,
        _ => 10,
    }
}

/// Parse a bare `YYYYMMDD` date; `None` on any text of another shape.
pub fn parse_date(s: &str) -> (r: Option<Date>)
    ensures
        r == parse_date_chars(s@),
        r matches Some(d) ==> d.valid(),
{
    if s.unicode_len() != 8 {
        return None;
    }
    let d0 = digit_of_char(s.get_char(0));
    let d1 = digit_of_char(s.get_char(1));
    let d2 = digit_of_char(s.get_char(2));
    let d3 = digit_of_char(s.get_char(3));
    let d4 = digit_of_char(s.get_char(4));
    let d5 = digit_of_char(s.get_char(5));
    let d6 = digit_of_char(s.get_char(6));
    let d7 = digit_of_char(s.get_char(7));
    if d0 > 9 || d1 > 9 || d2 > 9 || d3 > 9 || d4 > 9 || d5 > 9 || d6 > 9 || d7 > 9 {
        proof {
            assert(!(forall|i: int| 0 <= i < 8 ==> is_digit(#[trigger] s@[i])));
        }
        return None;
    }
    proof {
        assert forall|i: int| 0 <= i < 8 implies is_digit(#[trigger] s@[i]) by {
            if i == 0 {
            } else if i == 1 {
            } else if i == 2 {
            } else if i == 3 {
            } else if i == 4 {
            } else if i == 5 {
            } else if i == 6 {
            } else {
                assert(i == 7);
            }
        }
    }
    let y = d0 * 1000 + d1 * 100 + d2 * 10 + d3;
    let m = d4 * 10 + d5;
    let d = d6 * 10 + d7;
    if 1 <= m && m <= 12 && 1 <= d && d <= 31 {
        Some(Date { year: y, month: m, day: d })
    } else {
        None
    }
}

/// Parse a `YYYYMMDDTHHMMSSZ` UTC instant; `None` on any text of another shape.
pub fn parse_timestamp_utc(s: &str) -> (r: Option<Timestamp>)
    ensures
        r == parse_utc_chars(s@),
        r matches Some(t) ==> t.valid(),
{
    if s.unicode_len() != 16 {
        return None;
    }
    if s.get_char(8) != 'T' || s.get_char(15) != 'Z' {
        return None;
    }
    let date_part = s.substring_char(0, 8);
    let date = match parse_date(date_part) {
        Some(date) => date,
        None => {
            return None;
        },
    };
    let d9 = digit_of_char(s.get_char(9));
    let d10 = digit_of_char(s.get_char(10));
    let d11 = digit_of_char(s.get_char(11));
    let d12 = digit_of_char(s.get_char(12));
    let d13 = digit_of_char(s.get_char(13));
    let d14 = digit_of_char(s.get_char(14));
    if d9 > 9 || d10 > 9 || d11 > 9 || d12 > 9 || d13 > 9 || d14 > 9 {
        proof {
            assert(!(forall|i: int| 9 <= i < 15 ==> is_digit(#[trigger] s@[i])));
        }
        return None;
    }
    proof {
        assert forall|i: int| 9 <= i < 15 implies is_digit(#[trigger] s@[i]) by {
            if i == 9 {
            } else if i == 10 {
            } else if i == 11 {
            } else if i == 12 {
            } else if i == 13 {
            } else {
                assert(i == 14);
            }
        }
    }
    let h = d9 * 10 + d10;
    let mi = d11 * 10 + d12;
    let sec = d13 * 10 + d14;
    if h <= 23 && mi <= 59 && sec <= 59 {
        Some(Timestamp { date, hour: h, minute: mi, second: sec })
    } else {
        None
    }
}

/// A digit character carries its digit's value back.
proof fn lemma_digit_inverse(x: int)
    requires
        0 <= x <= 9,
    ensures
        digit_val(digit_char(x)) == x,
{
}

/// A number below 10000 is recovered from its four zero-padded digits.
proof fn lemma_four_digit_decompose(y: int)
    requires
        0 <= y <= 9999,
    ensures
        0 <= y / 1000 <= 9,
        0 <= (y / 100) % 10 <= 9,
        0 <= (y / 10) % 10 <= 9,
        0 <= y % 10 <= 9,
        (y / 1000) * 1000 + ((y / 100) % 10) * 100 + ((y / 10) % 10) * 10 + y % 10 == y,
{
    lemma_fundamental_div_mod(y, 10);
    lemma_mod_division_less_than_divisor(y, 10);
    lemma_div_denominator(y, 10, 10);
    lemma_fundamental_div_mod(y / 10, 10);
    lemma_mod_division_less_than_divisor(y / 10, 10);
    lemma_div_denominator(y, 100, 10);
    lemma_fundamental_div_mod(y / 100, 10);
    lemma_mod_division_less_than_divisor(y / 100, 10);
    lemma_fundamental_div_mod(y, 1000);
    lemma_mod_division_less_than_divisor(y, 1000);
    assert((y / 10) / 10 == y / 100);
    assert((y / 100) / 10 == y / 1000);
}

/// A number below 100 is recovered from its two zero-padded digits.
proof fn lemma_two_digit_decompose(n: int)
    requires
        0 <= n <= 99,
    ensures
        0 <= n / 10 <= 9,
        0 <= n % 10 <= 9,
        (n / 10) * 10 + n % 10 == n,
{
    lemma_fundamental_div_mod(n, 10);
    lemma_mod_division_less_than_divisor(n, 10);
}

/// Round trip on the eight-digit form: formatting a valid date and parsing
/// the text back yields the same date.
pub proof fn lemma_date_round_trip(d: Date)
    requires
        d.valid(),
    ensures
        parse_date_chars(date_text(d)) == Some(d),
{
    let s = date_text(d);
    let y = d.year as int;
    let m = d.month as int;
    let dd = d.day as int;
    lemma_four_digit_decompose(y);
    lemma_two_digit_decompose(m);
    lemma_two_digit_decompose(dd);
    assert(s.len() == 8);
    assert(s[0] == digit_char(y / 1000));
    assert(s[1] == digit_char((y / 100) % 10));
    assert(s[2] == digit_char((y / 10) % 10));
    assert(s[3] == digit_char(y % 10));
    assert(s[4] == digit_char(m / 10));
    assert(s[5] == digit_char(m % 10));
    assert(s[6] == digit_char(dd / 10));
    assert(s[7] == digit_char(dd % 10));
    lemma_digit_inverse(y / 1000);
    lemma_digit_inverse((y / 100) % 10);
    lemma_digit_inverse((y / 10) % 10);
    lemma_digit_inverse(y % 10);
    lemma_digit_inverse(m / 10);
    lemma_digit_inverse(m % 10);
    lemma_digit_inverse(dd / 10);
    lemma_digit_inverse(dd % 10);
    assert(forall|i: int| 0 <= i < 8 ==> is_digit(#[trigger] s[i]));
}

/// Round trip on the `YYYYMMDDTHHMMSSZ` form: formatting a valid UTC instant
/// and parsing the text back yields the same instant, to the second.
pub proof fn lemma_timestamp_round_trip(t: Timestamp)
    requires
        t.valid(),
    ensures
        parse_utc_chars(utc_text(t)) == Some(t),
{
    let s = utc_text(t);
    let h = t.hour as int;
    let mi = t.minute as int;
    let sec = t.second as int;
    lemma_date_round_trip(t.date);
    assert(s.len() == 16);
    assert(s.subrange(0, 8) =~= date_text(t.date));
    assert(s[8] == 'T');
    assert(s[15] == 'Z');
    lemma_two_digit_decompose(h);
    lemma_two_digit_decompose(mi);
    lemma_two_digit_decompose(sec);
    assert(s[9] == digit_char(h / 10));
    assert(s[10] == digit_char(h % 10));
    assert(s[11] == digit_char(mi / 10));
    assert(s[12] == digit_char(mi % 10));
    assert(s[13] == digit_char(sec / 10));
    assert(s[14] == digit_char(sec % 10));
    lemma_digit_inverse(h / 10);
    lemma_digit_inverse(h % 10);
    lemma_digit_inverse(mi / 10);
    lemma_digit_inverse(mi % 10);
    lemma_digit_inverse(sec / 10);
    lemma_digit_inverse(sec % 10);
    assert(forall|i: int| 9 <= i < 15 ==> is_digit(#[trigger] s[i]));
}

/// The wall-clock texts of two valid instants agree only when the instants do.
pub proof fn lemma_local_text_injective(a: Timestamp, b: Timestamp)
    requires
        a.valid(),
        b.valid(),
        local_text(a) == local_text(b),
    ensures
        a == b,
{
    assert(utc_text(a) =~= utc_text(b));
    lemma_timestamp_round_trip(a);
    lemma_timestamp_round_trip(b);
}

} // verus!
