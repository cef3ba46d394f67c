//! UTC calendar days of the proleptic Gregorian calendar, counted from
//! 1970-01-01, and dates written `YYYY-MM-DD`.

use vstd::prelude::*;

verus! {

pub const SECONDS_PER_DAY: i64 = 86400;

pub open spec fn is_leap_year(year: int) -> bool {
    (year % 4 == 0 && year % 100 != 0) || year % 400 == 0
}

pub open spec fn year_length(year: int) -> int {
    if is_leap_year(year) {
        366
    } else {
        365
    }
}

pub open spec fn month_length(year: int, month: int) -> int {
    if month == 2 {
        if is_leap_year(year) {
            29
        } else {
            28
        }
    } else if month == 4 || month == 6 || month == 9 || month == 11 {
        30
    } else {
        31
    }
}

/// Days from 1970-01-01 to the first of January of `year`.
pub open spec fn days_before_year(year: int) -> int
    decreases (if year >= 1970 {
        year - 1970
    } else {
        1970 - year
    }),
{
    if year == 1970 {
        0
    } else if year > 1970 {
        days_before_year(year - 1) + year_length(year - 1)
    } else {
        days_before_year(year + 1) - year_length(year)
    }
}

/// Days from the first of January of `year` to the first of `month`.
pub open spec fn days_before_month(year: int, month: int) -> int
    decreases month,
{
    if month <= 1 {
        0
    } else {
        days_before_month(year, month - 1) + month_length(year, month - 1)
    }
}

/// The day number of a date: days from 1970-01-01.
pub open spec fn day_number(year: int, month: int, day: int) -> int {
    days_before_year(year) + days_before_month(year, month) + day - 1
}

/// The UTC day a Unix timestamp falls on.
pub open spec fn utc_day(timestamp: int) -> int {
    timestamp / 86400
}

pub open spec fn is_digit(c: char) -> bool {
    '0' <= c && c <= '9'
}

pub open spec fn digit_value(c: char) -> int {
    c as int - '0' as int
}

/// The number written by the decimal digits of `s` from `from` to `to`.
pub open spec fn decimal(s: Seq<char>, from: int, to: int) -> int
    decreases to - from,
{
    if to <= from {
        0
    } else {
        decimal(s, from, to - 1) * 10 + digit_value(s[to - 1])
    }
}

/// The date that `text` writes as `YYYY-MM-DD`, where it is a valid date.
pub open spec fn parse_date(text: Seq<char>) -> Option<(int, int, int)> {
    if text.len() == 10 && is_digit(text[0]) && is_digit(text[1]) && is_digit(text[2]) && is_digit(
        text[3],
    ) && text[4] == '-' && is_digit(text[5]) && is_digit(text[6]) && text[7] == '-' && is_digit(
        text[8],
    ) && is_digit(text[9]) {
        let year = decimal(text, 0, 4);
        let month = decimal(text, 5, 7);
        let day = decimal(text, 8, 10);
        if 1 <= month <= 12 && 1 <= day <= month_length(year, month) {
            Some((year, month, day))
        } else {
            None
        }
    } else {
        None
    }
}

/// The day number of the date `text` writes, where it writes one.
pub open spec fn date_day_number(text: Seq<char>) -> Option<int> {
    match parse_date(text) {
        Some((year, month, day)) => Some(day_number(year, month, day)),
        None => None,
    }
}

/// Consecutive months of the Gregorian calendar: from the first of a month
/// to the first of the next are 31 days, 30 in April, June, September and
/// November, and 28 in February, 29 in a year divisible by 4 but not by 100,
/// or by 400.
pub proof fn law_month_lengths(year: int, month: int)
    requires
        1 <= month <= 11,
    ensures
        day_number(year, month + 1, 1) - day_number(year, month, 1) == if month == 2 {
            if (year % 4 == 0 && year % 100 != 0) || year % 400 == 0 {
                29int
            } else {
                28int
            }
        } else if month == 4 || month == 6 || month == 9 || month == 11 {
            30int
        } else {
            31int
        },
{
}

/// December has 31 days, and a year has 366 days where it is a leap year and
/// 365 otherwise; days are counted from 1970-01-01, which is day 0.
pub proof fn law_year_lengths(year: int)
    ensures
        day_number(1970, 1, 1) == 0,
        day_number(year + 1, 1, 1) - day_number(year, 12, 1) == 31,
        day_number(year + 1, 1, 1) - day_number(year, 1, 1) == if (year % 4 == 0 && year % 100
            != 0) || year % 400 == 0 {
            366int
        } else {
            365int
        },
{
    reveal_with_fuel(days_before_month, 13);
    assert(days_before_month(year + 1, 1) == 0);
    assert(days_before_month(year, 1) == 0);
    if year + 1 > 1970 {
        assert(days_before_year(year + 1) == days_before_year(year) + year_length(year));
    } else {
        assert(days_before_year(year) == days_before_year(year + 1) - year_length(year));
    }
}

/// Within a month, consecutive days have consecutive numbers.
pub proof fn law_days_within_month(year: int, month: int, day: int)
    ensures
        day_number(year, month, day) == day_number(year, month, 1) + day - 1,
{
}

/// A text read as a date names a day that exists: a month from 1 to 12 and a
/// day from 1 to the length of that month in that year.
pub proof fn law_parsed_dates_exist(text: Seq<char>)
    requires
        parse_date(text) is Some,
    ensures
        ({
            let (year, month, day) = parse_date(text).unwrap();
            &&& 1 <= month <= 12
            &&& 1 <= day
            &&& day <= if month == 2 {
                if (year % 4 == 0 && year % 100 != 0) || year % 400 == 0 {
                    29int
                } else {
                    28int
                }
            } else if month == 4 || month == 6 || month == 9 || month == 11 {
                30int
            } else {
                31int
            }
        }),
{
}

fn is_leap(year: i64) -> (leap: bool)
    requires
        0 <= year,
    ensures
        leap == is_leap_year(year as int),
{
    (year % 4 == 0 && year % 100 != 0) || year % 400 == 0
}

fn days_in_month(year: i64, month: i64) -> (days: i64)
    requires
        0 <= year,
    ensures
        days == month_length(year as int, month as int),
{
    if month == 2 {
        if is_leap(year) {
            29
        } else {
            28
        }
    } else if month == 4 || month == 6 || month == 9 || month == 11 {
        30
    } else {
        31
    }
}

/// The day number of a date whose year has at most four digits.
pub fn day_number_of(year: i64, month: i64, day: i64) -> (days: i64)
    requires
        0 <= year <= 9999,
        1 <= month <= 12,
        1 <= day <= 31,
    ensures
        days == day_number(year as int, month as int, day as int),
{
    let mut before_year: i64 = 0;
    if year >= 1970 {
        let mut y: i64 = 1970;
        while y < year
            invariant
                1970 <= y <= year <= 9999,
                before_year == days_before_year(y as int),
                0 <= before_year <= (y - 1970) * 366,
            decreases year - y,
        {
            let len: i64 = if is_leap(y) {
                366
            } else {
                365
            };
            before_year = before_year + len;
            y = y + 1;
        }
    } else {
        let mut y: i64 = 1970;
        while y > year
            invariant
                0 <= year <= y <= 1970,
                before_year == days_before_year(y as int),
                -(1970 - y) * 366 <= before_year <= 0,
            decreases y - year,
        {
            let len: i64 = if is_leap(y - 1) {
                366
            } else {
                365
            };
            before_year = before_year - len;
            y = y - 1;
            assert(days_before_year(y as int) == days_before_year(y + 1) - year_length(y as int));
        }
    }
    let mut before_month: i64 = 0;
    let mut m: i64 = 1;
    while m < month
        invariant
            1 <= m <= month <= 12,
            0 <= year <= 9999,
            before_month == days_before_month(year as int, m as int),
            0 <= before_month <= (m - 1) * 31,
        decreases month - m,
    {
        before_month = before_month + days_in_month(year, m);
        m = m + 1;
    }
    before_year + before_month + day - 1
}

/// The UTC day a Unix timestamp falls on.
pub fn utc_day_of(timestamp: i64) -> (day: i64)
    ensures
        day == utc_day(timestamp as int),
{
    if timestamp >= 0 {
        let q = timestamp / SECONDS_PER_DAY;
        proof {
            vstd::arithmetic::div_mod::lemma_fundamental_div_mod(timestamp as int, 86400);
        }
        q
    } else {
        let flipped: i64 = -(timestamp + 1);
        let q = flipped / SECONDS_PER_DAY;
        let r = flipped % SECONDS_PER_DAY;
        proof {
            vstd::arithmetic::div_mod::lemma_fundamental_div_mod(flipped as int, 86400);
            assert(timestamp == (-q - 1) * 86400 + (86400 - r - 1)) by (nonlinear_arith)
                requires
                    flipped == -(timestamp + 1),
                    flipped == 86400 * q + r,
            ;
            vstd::arithmetic::div_mod::lemma_fundamental_div_mod_converse(
                timestamp as int,
                86400,
                -q - 1,
                86400 - r - 1,
            );
        }
        -q - 1
    }
}

fn digit_at(text: &str, i: usize) -> (digit: Option<i64>)
    requires
        i < text@.len(),
    ensures
        digit is Some <==> is_digit(text@[i as int]),
        digit matches Some(v) ==> v == digit_value(text@[i as int]),
{
    let c = text.get_char(i);
    if '0' <= c && c <= '9' {
        Some((c as u32 - '0' as u32) as i64)
    } else {
        None
    }
}

/// The day number of the date `text` writes as `YYYY-MM-DD`; `None` where it
/// writes no valid date.
pub fn parse_day_number(text: &str) -> (days: Option<i64>)
    ensures
        days matches Some(n) ==> date_day_number(text@) == Some(n as int),
        days is None ==> date_day_number(text@) is None,
{
    if text.unicode_len() != 10 {
        return None;
    }
    let mut values: Vec<i64> = Vec::new();
    let mut i: usize = 0;
    while i < 10
        invariant
            text@.len() == 10,
            i <= 10,
            values@.len() == i,
            forall|j: int| 0 <= j < i && j != 4 && j != 7 ==> is_digit(text@[j]),
            forall|j: int| 0 <= j < i && j != 4 && j != 7 ==> values@[j] == digit_value(text@[j]),
            forall|j: int| 0 <= j < i && (j == 4 || j == 7) ==> text@[j] == '-',
        decreases 10 - i,
    {
        if i == 4 || i == 7 {
            if text.get_char(i) != '-' {
                return None;
            }
            values.push(0);
        } else {
            match digit_at(text, i) {
                Some(v) => values.push(v),
                None => {
                    return None;
                },
            }
        }
        i = i + 1;
    }
    let year = ((values[0] * 10 + values[1]) * 10 + values[2]) * 10 + values[3];
    let month = values[5] * 10 + values[6];
    let day = values[8] * 10 + values[9];
    proof {
        let t = text@;
        assert(decimal(t, 0, 4) == year) by {
            assert(decimal(t, 0, 0) == 0);
            assert(decimal(t, 0, 1) == digit_value(t[0]));
            assert(decimal(t, 0, 2) == digit_value(t[0]) * 10 + digit_value(t[1]));
            assert(decimal(t, 0, 3) == decimal(t, 0, 2) * 10 + digit_value(t[2]));
        }
        assert(decimal(t, 5, 7) == month) by {
            assert(decimal(t, 5, 5) == 0);
            assert(decimal(t, 5, 6) == digit_value(t[5]));
        }
        assert(decimal(t, 8, 10) == day) by {
            assert(decimal(t, 8, 8) == 0);
            assert(decimal(t, 8, 9) == digit_value(t[8]));
        }
    }
    if month < 1 || month > 12 {
        return None;
    }
    if day < 1 || day > days_in_month(year, month) {
        return None;
    }
    Some(day_number_of(year, month, day))
}

} // verus!
