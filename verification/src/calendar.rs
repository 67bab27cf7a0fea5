//! Days of the UTC calendar, moments and lengths of time, and their written forms.
//!
//! A date is the number of days since the first day of the year 0, up to the last day of
//! the year 9999.

use crate::domain::{MonotonicDuration, UtcTimestamp};
use crate::text::{all_digits, decimal, decimal_text, digit, digits_value, lemma_decimal_digits};
use vstd::prelude::*;
use vstd::string::*;

verus! {

/// The number of the day on which time begins to count.
pub const EPOCH_DAY: i64 = 719_528;

/// The number of the first day after the last year.
pub const DAYS_COVERED: u32 = 3_652_425;

/// The nanoseconds of a day.
pub const DAY_NANOS: i64 = 86_400_000_000_000;

/// Whether a year has a day more.
pub open spec fn leap(year: int) -> bool {
    (year % 4 == 0 && year % 100 != 0) || year % 400 == 0
}

/// How many days come before a year.
pub open spec fn days_before_year(year: int) -> int {
    365 * year + (year + 3) / 4 - (year + 99) / 100 + (year + 399) / 400
}

/// How many days a month has.
pub open spec fn month_length(year: int, month: int) -> int {
    if month == 2 {
        if leap(year) {
            29
        } else {
            28
        }
    } else if month == 4 || month == 6 || month == 9 || month == 11 {
        30
    } else {
        31
    }
}

/// How many days of a year come before a month.
pub open spec fn days_before_month(year: int, month: int) -> int
    decreases month,
{
    if month <= 1 {
        0
    } else {
        days_before_month(year, month - 1) + month_length(year, month - 1)
    }
}

/// Whether there is such a day.
pub open spec fn is_day(year: int, month: int, day: int) -> bool {
    0 <= year <= 9999 && 1 <= month <= 12 && 1 <= day <= month_length(year, month)
}

/// The number of a day.
pub open spec fn day_number(year: int, month: int, day: int) -> int {
    days_before_year(year) + days_before_month(year, month) + day - 1
}

/// A number below one hundred in two digits.
pub open spec fn two_digits(n: int) -> Seq<char> {
    seq![digit(n / 10), digit(n % 10)]
}

/// How a day is written.
pub open spec fn day_text(year: int, month: int, day: int) -> Seq<char> {
    two_digits(year / 100) + two_digits(year % 100) + "-"@ + two_digits(month) + "-"@ + two_digits(
        day,
    )
}

/// The number that two digits at a position denote.
pub open spec fn two_at(s: Seq<char>, i: int) -> Option<int> {
    if 0 <= i && i + 2 <= s.len() && all_digits(s.subrange(i, i + 2)) {
        Some((s[i] as int - 48) * 10 + (s[i + 1] as int - 48))
    } else {
        None
    }
}

/// The number of the day that text denotes, in the form `YYYY-MM-DD`.
pub open spec fn day_written(s: Seq<char>) -> Option<int> {
    if s.len() != 10 || s[4] != '-' || s[7] != '-' {
        None
    } else {
        match (two_at(s, 0), two_at(s, 2), two_at(s, 5), two_at(s, 8)) {
            (Some(century), Some(short), Some(month), Some(day)) => {
                let year = 100 * century + short;
                if is_day(year, month, day) {
                    Some(day_number(year, month, day))
                } else {
                    None
                }
            },
            _ => None,
        }
    }
}

/// A year is as long as its days; no year is shorter than another by more than a day.
proof fn lemma_year_length(year: int)
    requires
        year >= 0,
    ensures
        days_before_year(year + 1) - days_before_year(year) == if leap(year) {
            366int
        } else {
            365int
        },
        0 <= days_before_year(year) <= 366 * year,
{
}

/// Later years have more days before them.
proof fn lemma_years_grow(a: int, b: int)
    requires
        0 <= a <= b,
    ensures
        days_before_year(a) + 365 * (b - a) <= days_before_year(b),
    decreases b - a,
{
    if a < b {
        lemma_years_grow(a, b - 1);
        lemma_year_length(b - 1);
    }
}

/// The months of a year make up its days.
proof fn lemma_months(year: int)
    ensures
        days_before_month(year, 1) == 0,
        days_before_month(year, 2) == 31,
        days_before_month(year, 3) == 31 + month_length(year, 2),
        days_before_month(year, 4) == 62 + month_length(year, 2),
        days_before_month(year, 5) == 92 + month_length(year, 2),
        days_before_month(year, 6) == 123 + month_length(year, 2),
        days_before_month(year, 7) == 153 + month_length(year, 2),
        days_before_month(year, 8) == 184 + month_length(year, 2),
        days_before_month(year, 9) == 215 + month_length(year, 2),
        days_before_month(year, 10) == 245 + month_length(year, 2),
        days_before_month(year, 11) == 276 + month_length(year, 2),
        days_before_month(year, 12) == 306 + month_length(year, 2),
        days_before_month(year, 13) == 337 + month_length(year, 2),
{
    reveal_with_fuel(days_before_month, 14);
}

/// The number of a day lies within the days of its year, and within all days covered.
proof fn lemma_day_number(year: int, month: int, day: int)
    requires
        is_day(year, month, day),
    ensures
        days_before_year(year) <= day_number(year, month, day) < days_before_year(year + 1),
        0 <= day_number(year, month, day) < DAYS_COVERED,
{
    lemma_months(year);
    lemma_year_length(year);
    lemma_years_grow(year + 1, 10_000);
    assert(days_before_year(10_000) == 3_652_425);
}

/// The day a number belongs to.
pub open spec fn calendar_day(number: int) -> (int, int, int) {
    choose|year: int, month: int, day: int| #[trigger]
        is_day(year, month, day) && day_number(year, month, day) == number
}

/// How the day of a number is written.
pub open spec fn number_text(number: int) -> Seq<char> {
    let (year, month, day) = calendar_day(number);
    day_text(year, month, day)
}

/// Each number belongs to one day only.
pub proof fn law_one_day_per_number(
    year: int,
    month: int,
    day: int,
    other_year: int,
    other_month: int,
    other_day: int,
)
    requires
        is_day(year, month, day),
        is_day(other_year, other_month, other_day),
        day_number(year, month, day) == day_number(other_year, other_month, other_day),
    ensures
        year == other_year && month == other_month && day == other_day,
{
    lemma_day_number(year, month, day);
    lemma_day_number(other_year, other_month, other_day);
    if year < other_year {
        lemma_years_grow(year + 1, other_year);
    }
    if other_year < year {
        lemma_years_grow(other_year + 1, year);
    }
    lemma_months(year);
}

/// A written day reads back as itself.
pub proof fn law_days_read_back(year: int, month: int, day: int)
    requires
        is_day(year, month, day),
    ensures
        day_written(day_text(year, month, day)) == Some(day_number(year, month, day)),
{
    let s = day_text(year, month, day);
    reveal_strlit("-");
    lemma_two_digits(year / 100);
    lemma_two_digits(year % 100);
    lemma_two_digits(month);
    lemma_two_digits(day);
    assert(s.subrange(0, 2) =~= two_digits(year / 100));
    assert(s.subrange(2, 4) =~= two_digits(year % 100));
    assert(s.subrange(5, 7) =~= two_digits(month));
    assert(s.subrange(8, 10) =~= two_digits(day));
    assert(s[0] == two_digits(year / 100)[0] && s[1] == two_digits(year / 100)[1]);
    assert(s[2] == two_digits(year % 100)[0] && s[3] == two_digits(year % 100)[1]);
    assert(s[5] == two_digits(month)[0] && s[6] == two_digits(month)[1]);
    assert(s[8] == two_digits(day)[0] && s[9] == two_digits(day)[1]);
}

proof fn lemma_two_digits(n: int)
    requires
        0 <= n < 100,
    ensures
        all_digits(two_digits(n)),
        (two_digits(n)[0] as int - 48) * 10 + (two_digits(n)[1] as int - 48) == n,
{
}

/// A day of the calendar.
#[derive(Debug, Clone, Copy, PartialEq, Eq, PartialOrd, Ord, Hash, Structural)]
pub struct UtcDate {
    number: u32,
}

impl View for UtcDate {
    type V = int;

    closed spec fn view(&self) -> int {
        self.number as int
    }
}

fn leap_year(year: u32) -> (is_leap: bool)
    ensures
        is_leap == leap(year as int),
{
    (year % 4 == 0 && year % 100 != 0) || year % 400 == 0
}

fn before_year(year: u32) -> (days: u32)
    requires
        year <= 10_000,
    ensures
        days == days_before_year(year as int),
{
    365 * year + (year + 3) / 4 - (year + 99) / 100 + (year + 399) / 400
}

fn length_of_month(year: u32, month: u32) -> (days: u32)
    ensures
        days == month_length(year as int, month as int),
        28 <= days <= 31,
{
    if month == 2 {
        if leap_year(year) {
            29
        } else {
            28
        }
    } else if month == 4 || month == 6 || month == 9 || month == 11 {
        30
    } else {
        31
    }
}

/// The number of two digits at a position.
fn number_at(s: &str, i: usize) -> (n: Option<u32>)
    requires
        i < s@.len(),
    ensures
        match n {
            Some(v) => two_at(s@, i as int) == Some(v as int) && v < 100,
            None => two_at(s@, i as int) is None,
        },
{
    let len: usize = s.unicode_len();
    if len - i < 2 {
        return None;
    }
    let tens: u32 = s.get_char(i) as u32;
    let ones: u32 = s.get_char(i + 1) as u32;
    let ghost pair = s@.subrange(i as int, i + 2);
    assert(pair[0] == s@[i as int] && pair[1] == s@[i + 1]);
    if tens < 48 || tens > 57 || ones < 48 || ones > 57 {
        return None;
    }
    Some((tens - 48) * 10 + (ones - 48))
}

fn push_two_digits(text: &mut String, n: u32)
    requires
        n < 100,
    ensures
        final(text)@ == old(text)@ + two_digits(n as int),
{
    let ghost before = text@;
    text.append(decimal_text((n / 10) as u128).as_str());
    text.append(decimal_text((n % 10) as u128).as_str());
    proof {
        reveal_with_fuel(decimal, 2);
        assert(text@ =~= before + two_digits(n as int));
    }
}

impl UtcDate {
    #[verifier::type_invariant]
    spec fn covered(self) -> bool {
        self.number < DAYS_COVERED
    }

    /// The day some days after the first, where it is covered.
    pub fn from_number(number: i64) -> (date: Option<Self>)
        ensures
            date is Some <==> 0 <= number < DAYS_COVERED,
            date matches Some(d) ==> d@ == number,
    {
        if 0 <= number && number < 3_652_425 {
            Some(UtcDate { number: number as u32 })
        } else {
            None
        }
    }

    /// How many days come before this one.
    pub fn number(self) -> (number: u32)
        ensures
            number == self@,
            number < DAYS_COVERED,
    {
        proof {
            use_type_invariant(&self);
        }
        self.number
    }

    /// The day that text denotes, in the form `YYYY-MM-DD`.
    pub fn parse(s: &str) -> (date: Option<Self>)
        ensures
            match date {
                Some(d) => day_written(s@) == Some(d@),
                None => day_written(s@) is None,
            },
    {
        if s.unicode_len() != 10 {
            return None;
        }
        if s.get_char(4) != '-' || s.get_char(7) != '-' {
            return None;
        }
        match (number_at(s, 0), number_at(s, 2), number_at(s, 5), number_at(s, 8)) {
            (Some(century), Some(short), Some(month), Some(day)) => {
                let year: u32 = 100 * century + short;
                if month < 1 || month > 12 || day < 1 || day > length_of_month(year, month) {
                    return None;
                }
                proof {
                    lemma_months(year as int);
                    lemma_day_number(year as int, month as int, day as int);
                    lemma_year_length(year as int);
                }
                let mut number: u32 = before_year(year);
                let mut m: u32 = 1;
                while m < month
                    invariant
                        1 <= m <= month <= 12,
                        number == days_before_year(year as int) + days_before_month(
                            year as int,
                            m as int,
                        ),
                        number <= 366 * 9999 + 31 * (m - 1),
                    decreases month - m,
                {
                    number = number + length_of_month(year, m);
                    m = m + 1;
                }
                Some(UtcDate { number: number + day - 1 })
            },
            _ => None,
        }
    }

    /// This day, as it is written.
    pub fn iso(self) -> (text: String)
        ensures
            text@ == number_text(self@),
            ({
                let (year, month, day) = calendar_day(self@);
                is_day(year, month, day) && day_number(year, month, day) == self@
            }),
    {
        proof {
            use_type_invariant(&self);
        }
        let n: u32 = self.number;
        let mut year: u32 = n / 366;
        proof {
            lemma_year_length(year as int);
            assert(days_before_year(10_000) == 3_652_425);
        }
        while year < 9999 && before_year(year + 1) <= n
            invariant
                year <= 9999,
                n < DAYS_COVERED,
                days_before_year(year as int) <= n,
            ensures
                year <= 9999,
                days_before_year(year as int) <= n,
                n < days_before_year(year + 1),
            decreases 9999 - year,
        {
            year = year + 1;
        }
        proof {
            lemma_year_length(year as int);
            lemma_months(year as int);
        }
        let within: u32 = n - before_year(year);
        let mut month: u32 = 1;
        let mut start: u32 = 0;
        while month < 12 && start + length_of_month(year, month) <= within
            invariant
                1 <= month <= 12,
                start == days_before_month(year as int, month as int),
                start <= within <= 366,
            ensures
                1 <= month <= 12,
                start == days_before_month(year as int, month as int),
                start <= within,
                month < 12 ==> within < start + month_length(year as int, month as int),
            decreases 12 - month,
        {
            start = start + length_of_month(year, month);
            month = month + 1;
        }
        let day: u32 = within - start + 1;
        assert(is_day(year as int, month as int, day as int));
        let mut text: String = String::new();
        push_two_digits(&mut text, year / 100);
        push_two_digits(&mut text, year % 100);
        text.append("-");
        push_two_digits(&mut text, month);
        text.append("-");
        push_two_digits(&mut text, day);
        proof {
            assert(text@ =~= day_text(year as int, month as int, day as int));
            let (y, m, d) = calendar_day(self@);
            assert(is_day(year as int, month as int, day as int) && day_number(
                year as int,
                month as int,
                day as int,
            ) == self@);
            law_one_day_per_number(year as int, month as int, day as int, y, m, d);
        }
        text
    }
}

/// The number of the day a moment belongs to.
pub open spec fn day_of(nanos: int) -> int {
    nanos / (DAY_NANOS as int) + EPOCH_DAY
}

impl UtcTimestamp {
    /// The day this moment belongs to.
    pub fn utc_date(self) -> (date: UtcDate)
        ensures
            date@ == day_of(self.nanos as int),
    {
        let nanos: i128 = self.nanos as i128;
        let shifted: i128 = nanos + 86_400_000_000_000i128 * 719_528;
        assert(shifted > 0);
        let number: i128 = shifted / 86_400_000_000_000;
        assert(number == day_of(self.nanos as int));
        UtcDate { number: number as u32 }
    }
}

/// How many nanoseconds a unit of time has.
pub open spec fn unit_nanos(unit: Seq<char>) -> Option<nat> {
    if unit == "ms"@ {
        Some(1_000_000)
    } else if unit == "s"@ {
        Some(1_000_000_000)
    } else if unit == "m"@ {
        Some(60_000_000_000)
    } else if unit == "h"@ {
        Some(3_600_000_000_000)
    } else if unit == "d"@ {
        Some(86_400_000_000_000)
    } else {
        None
    }
}

/// How many digits text begins with, from a position on.
pub open spec fn digits_end(s: Seq<char>, from: int) -> int
    decreases s.len() - from,
{
    if 0 <= from < s.len() && 48 <= s[from] as int <= 57 {
        digits_end(s, from + 1)
    } else {
        from
    }
}

/// How many nanoseconds text denotes: a whole number and its unit.
pub open spec fn duration_written(s: Seq<char>) -> Option<nat> {
    let end = digits_end(s, 0);
    match unit_nanos(s.skip(end)) {
        Some(unit) => if end > 0 && digits_value(s.take(end)) * unit <= u64::MAX {
            Some(digits_value(s.take(end)) * unit)
        } else {
            None
        },
        None => None,
    }
}

proof fn lemma_digits_end(s: Seq<char>, from: int)
    requires
        0 <= from <= s.len(),
        all_digits(s.take(from)),
    ensures
        from <= digits_end(s, from) <= s.len(),
        all_digits(s.take(digits_end(s, from))),
    decreases s.len() - from,
{
    if from < s.len() && 48 <= s[from] as int <= 57 {
        assert forall|k: int| 0 <= k < s.take(from + 1).len() implies 48 <= (#[trigger] s.take(
            from + 1,
        )[k]) as int <= 57 by {
            if k < from {
                assert(s.take(from)[k] == s.take(from + 1)[k]);
            }
        }
        lemma_digits_end(s, from + 1);
    }
}

/// Reads a length of time: a whole number of milliseconds, seconds, minutes, hours or
/// days.
pub fn parse_duration(s: &str) -> (duration: Option<MonotonicDuration>)
    ensures
        match duration {
            Some(d) => duration_written(s@) == Some(d.nanos as nat),
            None => duration_written(s@) is None,
        },
{
    let len: usize = s.unicode_len();
    let mut end: usize = 0;
    while end < len && s.get_char(end) as u32 >= 48 && s.get_char(end) as u32 <= 57
        invariant
            end <= len,
            len == s@.len(),
            digits_end(s@, 0) == digits_end(s@, end as int),
        ensures
            end <= len,
            digits_end(s@, 0) == end,
        decreases len - end,
    {
        end = end + 1;
    }
    assert(s@.subrange(end as int, len as int) =~= s@.skip(end as int));
    assert(s@.subrange(0, end as int) =~= s@.take(end as int));
    let unit_text: &str = s.substring_char(end, len);
    let unit: u64 = if crate::text::same_text(unit_text, "ms") {
        1_000_000
    } else if crate::text::same_text(unit_text, "s") {
        1_000_000_000
    } else if crate::text::same_text(unit_text, "m") {
        60_000_000_000
    } else if crate::text::same_text(unit_text, "h") {
        3_600_000_000_000
    } else if crate::text::same_text(unit_text, "d") {
        86_400_000_000_000
    } else {
        return None;
    };
    if end == 0 {
        return None;
    }
    let count_text: &str = s.substring_char(0, end);
    proof {
        assert(s@.take(0) =~= Seq::<char>::empty());
        lemma_digits_end(s@, 0);
        assert(48 <= s@.take(end as int)[0] as int <= 57);
        assert(count_text@ == s@.take(end as int));
        lemma_bounds(digits_value(s@.take(end as int)), unit as nat);
    }
    match crate::text::parse_u64(count_text) {
        Some(count) => match count.checked_mul(unit) {
            Some(nanos) => Some(MonotonicDuration { nanos }),
            None => None,
        },
        None => None,
    }
}

proof fn lemma_bounds(count: nat, unit: nat)
    requires
        unit >= 1,
    ensures
        count > u64::MAX ==> count * unit > u64::MAX,
{
    assert(count > u64::MAX ==> count * unit > u64::MAX) by (nonlinear_arith)
        requires
            unit >= 1,
    ;
}

/// A fraction of a second behind a point, in nanoseconds: up to nine digits.
pub open spec fn fraction_nanos(digits: Seq<char>) -> Option<nat> {
    if digits.len() == 1 {
        Some(digits_value(digits) * 100_000_000)
    } else if digits.len() == 2 {
        Some(digits_value(digits) * 10_000_000)
    } else if digits.len() == 3 {
        Some(digits_value(digits) * 1_000_000)
    } else if digits.len() == 4 {
        Some(digits_value(digits) * 100_000)
    } else if digits.len() == 5 {
        Some(digits_value(digits) * 10_000)
    } else if digits.len() == 6 {
        Some(digits_value(digits) * 1_000)
    } else if digits.len() == 7 {
        Some(digits_value(digits) * 100)
    } else if digits.len() == 8 {
        Some(digits_value(digits) * 10)
    } else if digits.len() == 9 {
        Some(digits_value(digits))
    } else {
        None
    }
}

/// How far a zone is ahead of UTC, in seconds: `Z`, or an offset in hours and minutes.
pub open spec fn zone_seconds(zone: Seq<char>) -> Option<int> {
    if zone.len() == 1 && zone[0] == 'Z' {
        Some(0)
    } else if zone.len() == 6 && (zone[0] == '+' || zone[0] == '-') && zone[3] == ':' {
        match (two_at(zone, 1), two_at(zone, 4)) {
            (Some(hours), Some(minutes)) => if hours <= 23 && minutes <= 59 {
                if zone[0] == '+' {
                    Some(3600 * hours + 60 * minutes)
                } else {
                    Some(-(3600 * hours + 60 * minutes))
                }
            } else {
                None
            },
            _ => None,
        }
    } else {
        None
    }
}

/// The seconds of a day up to a time of it, in the form `HH:MM:SS`.
pub open spec fn time_seconds(s: Seq<char>) -> Option<int> {
    if s.len() != 8 || s[2] != ':' || s[5] != ':' {
        None
    } else {
        match (two_at(s, 0), two_at(s, 3), two_at(s, 6)) {
            (Some(hours), Some(minutes), Some(seconds)) => if hours <= 23 && minutes <= 59
                && seconds <= 59 {
                Some(3600 * hours + 60 * minutes + seconds)
            } else {
                None
            },
            _ => None,
        }
    }
}

/// The moment that text denotes: a day, `T`, a time of it, perhaps a fraction of a
/// second, and a zone.
pub open spec fn moment_written(s: Seq<char>) -> Option<int> {
    if s.len() < 20 || s[10] != 'T' {
        None
    } else {
        let end = if s[19] == '.' {
            digits_end(s, 20)
        } else {
            19
        };
        let fraction = if s[19] == '.' {
            fraction_nanos(s.subrange(20, end))
        } else {
            Some(0nat)
        };
        match (
            day_written(s.take(10)),
            time_seconds(s.subrange(11, 19)),
            fraction,
            zone_seconds(s.skip(end)),
        ) {
            (Some(day), Some(seconds), Some(nanos), Some(ahead)) => {
                let moment = (day - EPOCH_DAY) * DAY_NANOS + (seconds - ahead) * 1_000_000_000
                    + nanos;
                if i64::MIN <= moment <= i64::MAX {
                    Some(moment)
                } else {
                    None
                }
            },
            _ => None,
        }
    }
}

fn time_of_day(s: &str) -> (seconds: Option<i128>)
    ensures
        match seconds {
            Some(n) => time_seconds(s@) == Some(n as int) && 0 <= n < 86_400,
            None => time_seconds(s@) is None,
        },
{
    if s.unicode_len() != 8 {
        return None;
    }
    if s.get_char(2) != ':' || s.get_char(5) != ':' {
        return None;
    }
    match (number_at(s, 0), number_at(s, 3), number_at(s, 6)) {
        (Some(hours), Some(minutes), Some(seconds)) => {
            if hours > 23 || minutes > 59 || seconds > 59 {
                return None;
            }
            Some(3600 * (hours as i128) + 60 * (minutes as i128) + (seconds as i128))
        },
        _ => None,
    }
}

fn zone_offset(s: &str) -> (ahead: Option<i128>)
    ensures
        match ahead {
            Some(n) => zone_seconds(s@) == Some(n as int) && -86_400 < n < 86_400,
            None => zone_seconds(s@) is None,
        },
{
    let len: usize = s.unicode_len();
    if len == 1 && s.get_char(0) == 'Z' {
        return Some(0);
    }
    if len != 6 {
        return None;
    }
    let sign: char = s.get_char(0);
    if (sign != '+' && sign != '-') || s.get_char(3) != ':' {
        return None;
    }
    match (number_at(s, 1), number_at(s, 4)) {
        (Some(hours), Some(minutes)) => {
            if hours > 23 || minutes > 59 {
                return None;
            }
            let seconds: i128 = 3600 * (hours as i128) + 60 * (minutes as i128);
            if sign == '+' {
                Some(seconds)
            } else {
                Some(-seconds)
            }
        },
        _ => None,
    }
}

proof fn lemma_digits_are_bounded(s: Seq<char>)
    requires
        all_digits(s),
        s.len() <= 9,
    ensures
        s.len() == 0 ==> digits_value(s) == 0,
        s.len() == 1 ==> digits_value(s) < 10,
        s.len() == 2 ==> digits_value(s) < 100,
        s.len() == 3 ==> digits_value(s) < 1_000,
        s.len() == 4 ==> digits_value(s) < 10_000,
        s.len() == 5 ==> digits_value(s) < 100_000,
        s.len() == 6 ==> digits_value(s) < 1_000_000,
        s.len() == 7 ==> digits_value(s) < 10_000_000,
        s.len() == 8 ==> digits_value(s) < 100_000_000,
        s.len() == 9 ==> digits_value(s) < 1_000_000_000,
    decreases s.len(),
{
    if s.len() > 0 {
        assert(48 <= s[s.len() - 1] as int <= 57);
        assert forall|k: int| 0 <= k < s.drop_last().len() implies 48 <= (#[trigger] s.drop_last()[k]) as int
            <= 57 by {
            assert(s[k] == s.drop_last()[k]);
        }
        lemma_digits_are_bounded(s.drop_last());
    }
}

fn fraction_of(digits: &str) -> (nanos: Option<i128>)
    requires
        all_digits(digits@),
    ensures
        match nanos {
            Some(n) => fraction_nanos(digits@) == Some(n as nat) && 0 <= n < 1_000_000_000,
            None => fraction_nanos(digits@) is None,
        },
{
    let len: usize = digits.unicode_len();
    if len == 0 || len > 9 {
        return None;
    }
    proof {
        lemma_digits_are_bounded(digits@);
        assert(48 <= digits@[0] as int <= 57);
    }
    let value: i128 = match crate::text::parse_u64(digits) {
        Some(value) => value as i128,
        None => {
            return None;
        },
    };
    let scale: i128 = if len == 1 {
        100_000_000
    } else if len == 2 {
        10_000_000
    } else if len == 3 {
        1_000_000
    } else if len == 4 {
        100_000
    } else if len == 5 {
        10_000
    } else if len == 6 {
        1_000
    } else if len == 7 {
        100
    } else if len == 8 {
        10
    } else {
        1
    };
    assert(value * scale < 1_000_000_000 && value * scale >= 0) by (nonlinear_arith)
        requires
            0 <= value,
            (scale == 100_000_000 && value < 10) || (scale == 10_000_000 && value < 100) || (scale
                == 1_000_000 && value < 1_000) || (scale == 100_000 && value < 10_000) || (scale
                == 10_000 && value < 100_000) || (scale == 1_000 && value < 1_000_000) || (scale
                == 100 && value < 10_000_000) || (scale == 10 && value < 100_000_000) || (scale
                == 1 && value < 1_000_000_000),
    ;
    Some(value * scale)
}

impl UtcTimestamp {
    /// Reads a moment in the form of RFC 3339.
    pub fn parse_rfc3339(s: &str) -> (at: Option<Self>)
        ensures
            match at {
                Some(moment) => moment_written(s@) == Some(moment.nanos as int),
                None => moment_written(s@) is None,
            },
    {
        let len: usize = s.unicode_len();
        if len < 20 || s.get_char(10) != 'T' {
            return None;
        }
        let mut end: usize = 19;
        let mut nanos: i128 = 0;
        if s.get_char(19) == '.' {
            end = 20;
            while end < len && s.get_char(end) as u32 >= 48 && s.get_char(end) as u32 <= 57
                invariant
                    20 <= end <= len,
                    len == s@.len(),
                    digits_end(s@, 20) == digits_end(s@, end as int),
                    forall|k: int| 20 <= k < end ==> 48 <= (#[trigger] s@[k]) as int <= 57,
                ensures
                    20 <= end <= len,
                    digits_end(s@, 20) == end,
                    forall|k: int| 20 <= k < end ==> 48 <= (#[trigger] s@[k]) as int <= 57,
                decreases len - end,
            {
                end = end + 1;
            }
            match fraction_of(s.substring_char(20, end)) {
                Some(n) => {
                    nanos = n;
                },
                None => {
                    return None;
                },
            }
        }
        assert(s@.subrange(0, 10) =~= s@.take(10));
        assert(s@.subrange(end as int, len as int) =~= s@.skip(end as int));
        match (
            UtcDate::parse(s.substring_char(0, 10)),
            time_of_day(s.substring_char(11, 19)),
            zone_offset(s.substring_char(end, len)),
        ) {
            (Some(date), Some(seconds), Some(ahead)) => {
                let day: i128 = date.number() as i128;
                let moment: i128 = (day - 719_528) * 86_400_000_000_000 + (seconds - ahead)
                    * 1_000_000_000 + nanos;
                if moment < i64::MIN as i128 || moment > i64::MAX as i128 {
                    return None;
                }
                Some(UtcTimestamp { nanos: moment as i64 })
            },
            _ => None,
        }
    }
}

/// Days are numbered one after another: within a month, from its last day to the first of
/// the next, and from the last of a year to the first of the next; the first of January
/// 1970 has the number that moments are counted from.
pub proof fn law_days_follow_one_another(year: int, month: int, day: int)
    requires
        0 <= year <= 9999,
        1 <= month <= 12,
    ensures
        day_number(year, month, day + 1) == day_number(year, month, day) + 1,
        month < 12 ==> day_number(year, month + 1, 1) == day_number(
            year,
            month,
            month_length(year, month),
        ) + 1,
        day_number(year + 1, 1, 1) == day_number(year, 12, 31) + 1,
        day_number(0, 1, 1) == 0,
        day_number(1970, 1, 1) == 719_528,
        day_number(10_000, 1, 1) == 3_652_425,
        EPOCH_DAY == 719_528,
        DAYS_COVERED == 3_652_425,
{
    lemma_months(year);
    lemma_months(year + 1);
    lemma_year_length(year);
    lemma_months(0);
    lemma_months(1970);
    lemma_months(10_000);
    reveal_with_fuel(days_before_month, 2);
}

/// Months have the days they have: February one more in every fourth year, but for the
/// centuries that four hundred does not divide.
pub proof fn law_months_have_their_days(year: int)
    ensures
        month_length(year, 1) == 31,
        month_length(year, 3) == 31,
        month_length(year, 4) == 30,
        month_length(year, 5) == 31,
        month_length(year, 6) == 30,
        month_length(year, 7) == 31,
        month_length(year, 8) == 31,
        month_length(year, 9) == 30,
        month_length(year, 10) == 31,
        month_length(year, 11) == 30,
        month_length(year, 12) == 31,
        year % 400 == 0 ==> month_length(year, 2) == 29,
        year % 100 == 0 && year % 400 != 0 ==> month_length(year, 2) == 28,
        year % 4 == 0 && year % 100 != 0 ==> month_length(year, 2) == 29,
        year % 4 != 0 ==> month_length(year, 2) == 28,
{
}

/// There is a day exactly where its year, its month and its day are there; and whatever is
/// read as a day is one.
pub proof fn law_what_reads_as_a_day_is_one(s: Seq<char>)
    ensures
        day_written(s) matches Some(number) ==> exists|year: int, month: int, day: int|
            {
                &&& #[trigger] day_number(year, month, day) == number
                &&& 0 <= year <= 9999
                &&& 1 <= month <= 12
                &&& 1 <= day <= month_length(year, month)
            },
        day_written(s) is Some ==> s.len() == 10 && s[4] == '-' && s[7] == '-',
        day_written(s) matches Some(number) ==> 0 <= number < 3_652_425,
{
    if day_written(s) is Some {
        let year = 100 * two_at(s, 0)->0 + two_at(s, 2)->0;
        let month = two_at(s, 5)->0;
        let day = two_at(s, 8)->0;
        lemma_day_number(year, month, day);
        assert(day_number(year, month, day) == day_written(s)->0);
    }
}

/// A moment belongs to the day it falls in, counted in days of 24 hours from the epoch.
pub proof fn law_a_moment_falls_in_its_day(nanos: int)
    ensures
        (day_of(nanos) - 719_528) * 86_400_000_000_000 <= nanos < (day_of(nanos) - 719_528 + 1)
            * 86_400_000_000_000,
{
    vstd::arithmetic::div_mod::lemma_fundamental_div_mod(nanos, DAY_NANOS as int);
}

proof fn lemma_digits_end_at(s: Seq<char>, from: int, end: int)
    requires
        0 <= from <= end <= s.len(),
        forall|i: int| from <= i < end ==> 48 <= (#[trigger] s[i]) as int <= 57,
        end < s.len() ==> !(48 <= s[end] as int <= 57),
    ensures
        digits_end(s, from) == end,
    decreases end - from,
{
    if from < end {
        lemma_digits_end_at(s, from + 1, end);
    }
}

/// A duration is written as a number and a unit, and lasts that many of it: milliseconds,
/// seconds, minutes, hours or days.
pub proof fn law_durations_read_back(n: nat, unit: Seq<char>, nanos: nat)
    requires
        (unit == "ms"@ && nanos == 1_000_000) || (unit == "s"@ && nanos == 1_000_000_000) || (unit
            == "m"@ && nanos == 60 * 1_000_000_000) || (unit == "h"@ && nanos == 60 * 60
            * 1_000_000_000) || (unit == "d"@ && nanos == 24 * 60 * 60 * 1_000_000_000),
    ensures
        n * nanos <= u64::MAX ==> duration_written(decimal(n) + unit) == Some(n * nanos),
        n * nanos > u64::MAX ==> duration_written(decimal(n) + unit) is None,
        duration_written(unit) is None,
{
    reveal_strlit("ms");
    reveal_strlit("s");
    reveal_strlit("m");
    reveal_strlit("h");
    reveal_strlit("d");
    lemma_decimal_digits(n);
    let s = decimal(n) + unit;
    let end = decimal(n).len() as int;
    assert forall|i: int| 0 <= i < end implies 48 <= (#[trigger] s[i]) as int <= 57 by {
        assert(s[i] == decimal(n)[i]);
    }
    assert(s[end] == unit[0]);
    lemma_digits_end_at(s, 0, end);
    assert(s.skip(end) =~= unit);
    assert(s.take(end) =~= decimal(n));
    lemma_digits_end_at(unit, 0, 0);
    assert("ms"@.len() == 2 && "s"@.len() == 1 && "m"@.len() == 1 && "h"@.len() == 1
        && "d"@.len() == 1);
    assert("s"@[0] == 's' && "m"@[0] == 'm' && "h"@[0] == 'h' && "d"@[0] == 'd');
}

/// Fractions of a second are read to the nanosecond: from one to nine digits, a zero
/// behind them changing nothing, and nine being nanoseconds themselves.
pub proof fn law_fractions_are_of_a_second(digits: Seq<char>)
    ensures
        fraction_nanos(digits) is Some <==> 1 <= digits.len() <= 9,
        digits.len() == 9 ==> fraction_nanos(digits) == Some(digits_value(digits)),
        1 <= digits.len() < 9 ==> fraction_nanos(digits.push('0')) == fraction_nanos(digits),
{
    assert(digits.push('0').drop_last() =~= digits);
}

/// A zone is ahead of UTC by its hours and minutes, or behind where it says minus.
pub proof fn law_zones_are_hours_and_minutes(hours: int, minutes: int)
    requires
        0 <= hours <= 23,
        0 <= minutes <= 59,
    ensures
        zone_seconds("Z"@) == Some(0int),
        zone_seconds("+"@ + two_digits(hours) + ":"@ + two_digits(minutes)) == Some(
            60 * (60 * hours + minutes),
        ),
        zone_seconds("-"@ + two_digits(hours) + ":"@ + two_digits(minutes)) == Some(
            -(60 * (60 * hours + minutes)),
        ),
{
    reveal_strlit("Z");
    reveal_strlit("+");
    reveal_strlit("-");
    reveal_strlit(":");
    lemma_two_digits(hours);
    lemma_two_digits(minutes);
    let plus = "+"@ + two_digits(hours) + ":"@ + two_digits(minutes);
    let minus = "-"@ + two_digits(hours) + ":"@ + two_digits(minutes);
    assert(plus.subrange(1, 3) =~= two_digits(hours));
    assert(plus.subrange(4, 6) =~= two_digits(minutes));
    assert(minus.subrange(1, 3) =~= two_digits(hours));
    assert(minus.subrange(4, 6) =~= two_digits(minutes));
    assert(plus[1] == two_digits(hours)[0] && plus[2] == two_digits(hours)[1]);
    assert(plus[4] == two_digits(minutes)[0] && plus[5] == two_digits(minutes)[1]);
    assert(minus[1] == two_digits(hours)[0] && minus[2] == two_digits(hours)[1]);
    assert(minus[4] == two_digits(minutes)[0] && minus[5] == two_digits(minutes)[1]);
}

proof fn lemma_time_of_day(hours: int, minutes: int, seconds: int)
    requires
        0 <= hours <= 23,
        0 <= minutes <= 59,
        0 <= seconds <= 59,
    ensures
        (two_digits(hours) + ":"@ + two_digits(minutes) + ":"@ + two_digits(seconds)).len() == 8,
        time_seconds(
            two_digits(hours) + ":"@ + two_digits(minutes) + ":"@ + two_digits(seconds),
        ) == Some(3600 * hours + 60 * minutes + seconds),
{
    reveal_strlit(":");
    lemma_two_digits(hours);
    lemma_two_digits(minutes);
    lemma_two_digits(seconds);
    let s = two_digits(hours) + ":"@ + two_digits(minutes) + ":"@ + two_digits(seconds);
    assert(s.subrange(0, 2) =~= two_digits(hours));
    assert(s.subrange(3, 5) =~= two_digits(minutes));
    assert(s.subrange(6, 8) =~= two_digits(seconds));
    assert(s[0] == two_digits(hours)[0] && s[1] == two_digits(hours)[1]);
    assert(s[3] == two_digits(minutes)[0] && s[4] == two_digits(minutes)[1]);
    assert(s[6] == two_digits(seconds)[0] && s[7] == two_digits(seconds)[1]);
}

/// A moment written in UTC, to the second, reads back as the day it names, counted from
/// the epoch, and the time of that day.
pub proof fn law_moments_read_back(
    year: int,
    month: int,
    day: int,
    hours: int,
    minutes: int,
    seconds: int,
)
    requires
        is_day(year, month, day),
        0 <= hours <= 23,
        0 <= minutes <= 59,
        0 <= seconds <= 59,
    ensures
        ({
            let text = day_text(year, month, day) + "T"@ + (two_digits(hours) + ":"@ + two_digits(
                minutes,
            ) + ":"@ + two_digits(seconds)) + "Z"@;
            let nanos = (day_number(year, month, day) - 719_528) * 86_400_000_000_000 + (3600
                * hours + 60 * minutes + seconds) * 1_000_000_000;
            moment_written(text) == if i64::MIN <= nanos <= i64::MAX {
                Some(nanos)
            } else {
                None
            }
        }),
{
    reveal_strlit("T");
    reveal_strlit("Z");
    reveal_strlit("-");
    law_days_read_back(year, month, day);
    lemma_time_of_day(hours, minutes, seconds);
    lemma_two_digits(month);
    let date = day_text(year, month, day);
    let time = two_digits(hours) + ":"@ + two_digits(minutes) + ":"@ + two_digits(seconds);
    let text = date + "T"@ + time + "Z"@;
    assert(date.len() == 10);
    assert(text.len() == 20);
    assert(text[10] == 'T');
    assert(text[19] == 'Z');
    assert(text.take(10) =~= date);
    assert(text.subrange(11, 19) =~= time);
    assert(text.skip(19) =~= "Z"@);
}

} // verus!
