//! The `Date` scalar: a string in an RFC 3339 full-date or date-time form.
use vstd::prelude::*;
use crate::value::Value;

verus! {

/// Whether `chrono` accepts `s` as an RFC 3339 date-time.
pub uninterp spec fn rfc3339_valid(s: Seq<char>) -> bool;

/// `chrono::DateTime::parse_from_rfc3339(s).is_ok()`; its contract claims
/// only that the answer is whether chrono's RFC 3339 parser accepts `s`,
/// which depends on `s` alone. The grammar itself is left unstated.
#[verifier::external_body]
fn parses_as_rfc3339(s: &str) -> (r: bool)
    ensures
        r == rfc3339_valid(s@),
{
    chrono::DateTime::parse_from_rfc3339(s).is_ok()
}

/// A character is a decimal digit.
pub open spec fn is_digit(c: char) -> bool {
    '0' as int <= c as int <= '9' as int
}

/// The value of a decimal digit.
pub open spec fn digit_value(c: char) -> int {
    c as int - '0' as int
}

/// A Gregorian leap year.
pub open spec fn leap_year(y: int) -> bool {
    y % 4 == 0 && (y % 100 != 0 || y % 400 == 0)
}

/// The number of days in month `m` of year `y` (RFC 3339, section 5.7).
pub open spec fn days_in_month(y: int, m: int) -> int {
    if m == 2 {
        if leap_year(y) {
            29
        } else {
            28
        }
    } else if m == 4 || m == 6 || m == 9 || m == 11 {
        30
    } else {
        31
    }
}

/// The months of a year add up to 365 days, or 366 in a leap year.
pub proof fn law_days_in_year(y: int)
    ensures
        days_in_month(y, 1) + days_in_month(y, 2) + days_in_month(y, 3) + days_in_month(y, 4)
            + days_in_month(y, 5) + days_in_month(y, 6) + days_in_month(y, 7) + days_in_month(y, 8)
            + days_in_month(y, 9) + days_in_month(y, 10) + days_in_month(y, 11) + days_in_month(
            y,
            12,
        ) == if leap_year(y) {
            366int
        } else {
            365int
        },
{
}

/// Thirty days have September, April, June and November; February has 28,
/// or 29 in a leap year; every other month has 31. So day 31 of those four
/// months, and day 30 of February, do not exist.
pub proof fn law_month_lengths(y: int, m: int)
    requires
        1 <= m <= 12,
    ensures
        (days_in_month(y, m) == 30) <==> (m == 9 || m == 4 || m == 6 || m == 11),
        (days_in_month(y, m) == 31) <==> (m == 1 || m == 3 || m == 5 || m == 7 || m == 8 || m
            == 10 || m == 12),
        m == 2 ==> days_in_month(y, m) == 28 || days_in_month(y, m) == 29,
        (days_in_month(y, m) == 29) <==> (m == 2 && leap_year(y)),
        (m == 4 || m == 6 || m == 9 || m == 11) ==> 31 > days_in_month(y, m),
        days_in_month(y, m) < 30 ==> m == 2,
{
}

/// `s` is an RFC 3339 full-date, `YYYY-MM-DD`, naming a day that exists.
pub open spec fn full_date_valid(s: Seq<char>) -> bool {
    &&& s.len() == 10
    &&& is_digit(s[0]) && is_digit(s[1]) && is_digit(s[2]) && is_digit(s[3])
    &&& s[4] == '-'
    &&& is_digit(s[5]) && is_digit(s[6])
    &&& s[7] == '-'
    &&& is_digit(s[8]) && is_digit(s[9])
    &&& {
        let y = 1000 * digit_value(s[0]) + 100 * digit_value(s[1]) + 10 * digit_value(s[2])
            + digit_value(s[3]);
        let m = 10 * digit_value(s[5]) + digit_value(s[6]);
        let d = 10 * digit_value(s[8]) + digit_value(s[9]);
        1 <= m <= 12 && 1 <= d <= days_in_month(y, m)
    }
}

/// Leap years: every fourth year, except the years of a century that 400
/// does not divide.
pub proof fn law_leap_years(y: int)
    ensures
        y % 4 != 0 ==> !leap_year(y),
        y % 4 == 0 && y % 100 != 0 ==> leap_year(y),
        y % 100 == 0 && y % 400 != 0 ==> !leap_year(y),
        y % 400 == 0 ==> leap_year(y),
{
    assert(y % 400 == 0 ==> y % 4 == 0 && y % 100 == 0) by (nonlinear_arith);
}

/// The character of a decimal digit.
pub open spec fn digit_of(d: int) -> char {
    ('0' as int + d) as char
}

/// `n`, from 0 to 99, in two digits.
pub open spec fn two_digits(n: int) -> Seq<char> {
    seq![digit_of(n / 10), digit_of(n % 10)]
}

/// `n`, from 0 to 9999, in four digits.
pub open spec fn four_digits(n: int) -> Seq<char> {
    seq![digit_of(n / 1000), digit_of((n / 100) % 10), digit_of((n / 10) % 10), digit_of(n % 10)]
}

/// The full-date `YYYY-MM-DD` of year `y`, month `m` and day `d`.
pub open spec fn format_full_date(y: int, m: int, d: int) -> Seq<char> {
    four_digits(y) + seq!['-'] + two_digits(m) + seq!['-'] + two_digits(d)
}

/// A day that exists: a year of four digits, a month of the year, and a day
/// of that month.
pub open spec fn existing_day(y: int, m: int, d: int) -> bool {
    0 <= y <= 9999 && 1 <= m <= 12 && 1 <= d <= days_in_month(y, m)
}

proof fn lemma_digit_roundtrip(c: char)
    requires
        is_digit(c),
    ensures
        digit_of(digit_value(c)) == c,
        0 <= digit_value(c) <= 9,
{
}

proof fn lemma_digit_of(d: int)
    requires
        0 <= d <= 9,
    ensures
        is_digit(digit_of(d)),
        digit_value(digit_of(d)) == d,
{
}

proof fn lemma_four(a: int, b: int, c: int, d: int)
    requires
        0 <= a <= 9,
        0 <= b <= 9,
        0 <= c <= 9,
        0 <= d <= 9,
    ensures
        ({
            let n = 1000 * a + 100 * b + 10 * c + d;
            &&& 0 <= n <= 9999
            &&& n / 1000 == a
            &&& (n / 100) % 10 == b
            &&& (n / 10) % 10 == c
            &&& n % 10 == d
        }),
{
    assert({
        let n = 1000 * a + 100 * b + 10 * c + d;
        &&& n / 1000 == a
        &&& (n / 100) % 10 == b
        &&& (n / 10) % 10 == c
        &&& n % 10 == d
    }) by (nonlinear_arith)
        requires
            0 <= a <= 9,
            0 <= b <= 9,
            0 <= c <= 9,
            0 <= d <= 9,
    ;
}

proof fn lemma_four_back(n: int)
    requires
        0 <= n <= 9999,
    ensures
        0 <= n / 1000 <= 9,
        0 <= (n / 100) % 10 <= 9,
        0 <= (n / 10) % 10 <= 9,
        0 <= n % 10 <= 9,
        1000 * (n / 1000) + 100 * ((n / 100) % 10) + 10 * ((n / 10) % 10) + n % 10 == n,
{
    assert(0 <= n / 1000 <= 9 && 0 <= (n / 100) % 10 <= 9 && 0 <= (n / 10) % 10 <= 9 && 0 <= n
        % 10 <= 9 && 1000 * (n / 1000) + 100 * ((n / 100) % 10) + 10 * ((n / 10) % 10) + n % 10
        == n) by (nonlinear_arith)
        requires
            0 <= n <= 9999,
    ;
}

proof fn lemma_two(a: int, b: int)
    requires
        0 <= a <= 9,
        0 <= b <= 9,
    ensures
        (10 * a + b) / 10 == a,
        (10 * a + b) % 10 == b,
{
    assert((10 * a + b) / 10 == a && (10 * a + b) % 10 == b) by (nonlinear_arith)
        requires
            0 <= a <= 9,
            0 <= b <= 9,
    ;
}

proof fn lemma_two_back(n: int)
    requires
        0 <= n <= 99,
    ensures
        0 <= n / 10 <= 9,
        0 <= n % 10 <= 9,
        10 * (n / 10) + n % 10 == n,
{
    assert(0 <= n / 10 <= 9 && 0 <= n % 10 <= 9 && 10 * (n / 10) + n % 10 == n) by (nonlinear_arith)
        requires
            0 <= n <= 99,
    ;
}

/// The full-dates are exactly the `YYYY-MM-DD` texts of the days that
/// exist.
pub proof fn law_full_dates(s: Seq<char>)
    ensures
        full_date_valid(s) <==> exists|y: int, m: int, d: int|
            existing_day(y, m, d) && s == #[trigger] format_full_date(y, m, d),
{
    if full_date_valid(s) {
        lemma_digit_roundtrip(s[0]);
        lemma_digit_roundtrip(s[1]);
        lemma_digit_roundtrip(s[2]);
        lemma_digit_roundtrip(s[3]);
        lemma_digit_roundtrip(s[5]);
        lemma_digit_roundtrip(s[6]);
        lemma_digit_roundtrip(s[8]);
        lemma_digit_roundtrip(s[9]);
        let y = 1000 * digit_value(s[0]) + 100 * digit_value(s[1]) + 10 * digit_value(s[2])
            + digit_value(s[3]);
        let m = 10 * digit_value(s[5]) + digit_value(s[6]);
        let d = 10 * digit_value(s[8]) + digit_value(s[9]);
        lemma_four(digit_value(s[0]), digit_value(s[1]), digit_value(s[2]), digit_value(s[3]));
        lemma_two(digit_value(s[5]), digit_value(s[6]));
        lemma_two(digit_value(s[8]), digit_value(s[9]));
        assert(s =~= format_full_date(y, m, d));
        assert(existing_day(y, m, d));
    }
    if exists|y: int, m: int, d: int| existing_day(y, m, d) && s == #[trigger] format_full_date(y, m, d) {
        let (y, m, d) = choose|y: int, m: int, d: int|
            existing_day(y, m, d) && s == #[trigger] format_full_date(y, m, d);
        lemma_four_back(y);
        lemma_two_back(m);
        lemma_two_back(d);
        lemma_digit_of(y / 1000);
        lemma_digit_of((y / 100) % 10);
        lemma_digit_of((y / 10) % 10);
        lemma_digit_of(y % 10);
        lemma_digit_of(m / 10);
        lemma_digit_of(m % 10);
        lemma_digit_of(d / 10);
        lemma_digit_of(d % 10);
        assert(s[0] == digit_of(y / 1000));
        assert(s[1] == digit_of((y / 100) % 10));
        assert(s[2] == digit_of((y / 10) % 10));
        assert(s[3] == digit_of(y % 10));
        assert(s[4] == '-');
        assert(s[5] == digit_of(m / 10));
        assert(s[6] == digit_of(m % 10));
        assert(s[7] == '-');
        assert(s[8] == digit_of(d / 10));
        assert(s[9] == digit_of(d % 10));
        assert(full_date_valid(s));
    }
}

/// A valid `Date` string: an RFC 3339 full-date, or a date-time that
/// chrono's RFC 3339 parser accepts.
pub open spec fn date_valid(s: Seq<char>) -> bool {
    full_date_valid(s) || rfc3339_valid(s)
}

/// The digit `c` stands for, where it is one.
fn digit(c: char) -> (r: Option<u32>)
    ensures
        r == (if is_digit(c) {
            Some(digit_value(c) as u32)
        } else {
            None::<u32>
        }),
{
    if '0' <= c && c <= '9' {
        Some((c as u32) - ('0' as u32))
    } else {
        None
    }
}

/// Whether `s` is an RFC 3339 full-date, `YYYY-MM-DD`, naming a day that
/// exists.
pub fn is_full_date(s: &str) -> (r: bool)
    ensures
        r == full_date_valid(s@),
{
    if s.unicode_len() != 10 {
        return false;
    }
    if s.get_char(4) != '-' || s.get_char(7) != '-' {
        return false;
    }
    let (y0, y1, y2, y3, m0, m1, d0, d1) = match (
        digit(s.get_char(0)),
        digit(s.get_char(1)),
        digit(s.get_char(2)),
        digit(s.get_char(3)),
        digit(s.get_char(5)),
        digit(s.get_char(6)),
        digit(s.get_char(8)),
        digit(s.get_char(9)),
    ) {
        (Some(a), Some(b), Some(c), Some(d), Some(e), Some(f), Some(g), Some(h)) => (
            a,
            b,
            c,
            d,
            e,
            f,
            g,
            h,
        ),
        _ => {
            return false;
        },
    };
    let y: u32 = 1000 * y0 + 100 * y1 + 10 * y2 + y3;
    let m: u32 = 10 * m0 + m1;
    let d: u32 = 10 * d0 + d1;
    let leap = y % 4 == 0 && (y % 100 != 0 || y % 400 == 0);
    let days: u32 = if m == 2 {
        if leap {
            29
        } else {
            28
        }
    } else if m == 4 || m == 6 || m == 9 || m == 11 {
        30
    } else {
        31
    };
    1 <= m && m <= 12 && 1 <= d && d <= days
}

/// A date string, such as 2007-12-03, is compliant with the full-date
/// format outlined in section 5.6 of RFC 3339
/// (https://datatracker.ietf.org/doc/html/rfc3339); a full date-time such
/// as 2007-12-03T10:15:30Z is accepted too.
#[derive(Debug, PartialEq, Eq)]
pub struct Date {
    pub date: String,
}

impl Default for Date {
    fn default() -> (r: Date)
        ensures
            r.date@ == Seq::<char>::empty(),
    {
        Date { date: String::new() }
    }
}

impl Date {
    /// Whether `value` is a valid `Date`: a string that is an RFC 3339
    /// full-date or parses as an RFC 3339 date-time.
    pub fn validate(&self, value: &Value) -> (r: bool)
        ensures
            r == (match value {
                Value::String(s) => date_valid(s@),
                _ => false,
            }),
    {
        match value {
            Value::String(s) => is_full_date(s.as_str()) || parses_as_rfc3339(s.as_str()),
            _ => false,
        }
    }
}

} // verus!
