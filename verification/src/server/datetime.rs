//! The times at which messages came in, out of the form in which the database
//! writes them.

use crate::text::chars_of;
use vstd::prelude::*;

verus! {

/// A character that separates the parts of a date.
pub open spec fn is_separator(c: char) -> bool {
    c == '-' || c == ' ' || c == ':'
}

/// The parts of a text between separators.
pub open spec fn date_parts(text: Seq<char>) -> Seq<Seq<char>>
    decreases text.len(),
{
    if text.len() == 0 {
        seq![Seq::empty()]
    } else {
        let before = date_parts(text.drop_last());
        if is_separator(text.last()) {
            before.push(Seq::empty())
        } else {
            before.drop_last().push(before.last().push(text.last()))
        }
    }
}

/// A decimal digit.
pub open spec fn is_digit(c: char) -> bool {
    '0' <= c && c <= '9'
}

/// The value of decimal digits, or nothing if there are other characters.
pub open spec fn digits_value(digits: Seq<char>) -> Option<nat>
    decreases digits.len(),
{
    if digits.len() == 0 {
        Some(0)
    } else {
        match digits_value(digits.drop_last()) {
            Some(before) => if is_digit(digits.last()) {
                Some(before * 10 + (digits.last() as nat - 48) as nat)
            } else {
                None
            },
            None => None,
        }
    }
}

/// The number that a part of a date stands for: decimal digits, perhaps after
/// a plus sign, within 63 bits.
pub open spec fn part_value(part: Seq<char>) -> Option<nat> {
    let digits = if part.len() > 0 && part[0] == '+' {
        part.skip(1)
    } else {
        part
    };
    if digits.len() == 0 {
        None
    } else {
        match digits_value(digits) {
            Some(value) => if value <= i64::MAX {
                Some(value)
            } else {
                None
            },
            None => None,
        }
    }
}

/// Division that rounds towards zero.
pub open spec fn quotient(a: int, b: int) -> int {
    if a >= 0 {
        a / b
    } else {
        -((-a) / b)
    }
}

/// A leap year of the Gregorian calendar.
pub open spec fn is_leap(year: int) -> bool {
    (year % 4 == 0 && year % 100 != 0) || year % 400 == 0
}

/// The days of the year before a month, outside leap years.
pub open spec fn days_before_month(month: int) -> int {
    if month <= 1 {
        0
    } else if month == 2 {
        31
    } else if month == 3 {
        59
    } else if month == 4 {
        90
    } else if month == 5 {
        120
    } else if month == 6 {
        151
    } else if month == 7 {
        181
    } else if month == 8 {
        212
    } else if month == 9 {
        243
    } else if month == 10 {
        273
    } else if month == 11 {
        304
    } else {
        334
    }
}

/// The days from the Unix epoch to a date.
pub open spec fn epoch_days(year: int, month: int, day: int) -> int {
    (year - 1970) * 365 + quotient(year - 1969, 4) - quotient(year - 1901, 100) + quotient(
        year - 1601,
        400,
    ) + days_before_month(month) + day - 1 + (if is_leap(year) && month > 2 {
        1int
    } else {
        0int
    })
}

/// The seconds from the Unix epoch to a date and time.
pub open spec fn epoch_seconds(
    year: int,
    month: int,
    day: int,
    hour: int,
    minute: int,
    second: int,
) -> int {
    epoch_days(year, month, day) * 86400 + hour * 3600 + minute * 60 + second
}

/// The six numbers of a date and time, if the text has that form.
pub open spec fn date_numbers(text: Seq<char>) -> Option<Seq<nat>> {
    let parts = date_parts(text);
    if parts.len() == 6 && forall|i: int|
        0 <= i < 6 ==> part_value(#[trigger] parts[i]) is Some {
        Some(Seq::new(6, |i: int| part_value(parts[i])->0))
    } else {
        None
    }
}

/// The time that a text stands for, as the database writes it; 0 if it stands
/// for none, or for one that 63 bits do not hold. A time before the epoch
/// counts down from 2^64.
pub open spec fn spec_datetime(text: Seq<char>) -> int {
    match date_numbers(text) {
        None => 0,
        Some(n) => {
            let total = epoch_seconds(
                n[0] as int,
                n[1] as int,
                n[2] as int,
                n[3] as int,
                n[4] as int,
                n[5] as int,
            );
            if i64::MIN <= total <= i64::MAX {
                if total >= 0 {
                    total
                } else {
                    total + 0x1_0000_0000_0000_0000
                }
            } else {
                0
            }
        },
    }
}

fn separates(c: char) -> (out: bool)
    ensures
        out == is_separator(c),
{
    c == '-' || c == ' ' || c == ':'
}

/// The views of a list of parts.
pub open spec fn part_views(parts: Seq<Vec<char>>) -> Seq<Seq<char>> {
    parts.map_values(|part: Vec<char>| part@)
}

fn split_date(chars: &Vec<char>) -> (out: Vec<Vec<char>>)
    ensures
        part_views(out@) == date_parts(chars@),
{
    let mut out: Vec<Vec<char>> = Vec::new();
    let mut current: Vec<char> = Vec::new();
    let mut i: usize = 0;
    assert(part_views(out@).push(current@) =~= date_parts(chars@.take(0)));
    while i < chars.len()
        invariant
            i <= chars@.len(),
            part_views(out@).push(current@) == date_parts(chars@.take(i as int)),
        decreases chars@.len() - i,
    {
        let ghost more = chars@.take(i + 1);
        let ghost before = part_views(out@).push(current@);
        assert(more.drop_last() =~= chars@.take(i as int));
        assert(before.drop_last() =~= part_views(out@));
        assert(before.last() == current@);
        let c = chars[i];
        if separates(c) {
            let ghost finished = out@;
            let ghost part = current@;
            out.push(current);
            current = Vec::new();
            assert(part_views(out@) =~= part_views(finished).push(part));
        } else {
            current.push(c);
        }
        assert(part_views(out@).push(current@) =~= date_parts(more));
        i += 1;
    }
    assert(chars@.take(i as int) =~= chars@);
    let ghost finished = out@;
    let ghost part = current@;
    out.push(current);
    assert(part_views(out@) =~= part_views(finished).push(part));
    out
}

proof fn lemma_digits_grow(digits: Seq<char>, n: int)
    requires
        0 <= n <= digits.len(),
        digits_value(digits) is Some,
    ensures
        digits_value(digits.take(n)) is Some,
        digits_value(digits.take(n))->0 <= digits_value(digits)->0,
    decreases digits.len(),
{
    if n < digits.len() {
        lemma_digits_grow(digits.drop_last(), n);
        assert(digits.drop_last().take(n) =~= digits.take(n));
    } else {
        assert(digits.take(n) =~= digits);
    }
}

fn parse_part(part: &Vec<char>) -> (out: Option<i64>)
    ensures
        match part_value(part@) {
            Some(value) => out matches Some(number) && number == value,
            None => out is None,
        },
{
    let start: usize = if part.len() > 0 && part[0] == '+' {
        1
    } else {
        0
    };
    let ghost digits = if part@.len() > 0 && part@[0] == '+' {
        part@.skip(1)
    } else {
        part@
    };
    assert(digits =~= part@.skip(start as int));
    if part.len() == start {
        return None;
    }
    let mut value: i64 = 0;
    let mut i: usize = start;
    assert(digits.take(0) =~= Seq::<char>::empty());
    while i < part.len()
        invariant
            start <= i <= part@.len(),
            start <= 1,
            digits == part@.skip(start as int),
            part_value(part@) is Some ==> digits_value(digits) is Some,
            digits_value(digits) is Some && digits_value(digits)->0 > i64::MAX ==> part_value(part@)
                is None,
            value >= 0,
            digits_value(digits.take(i - start)) == Some(value as nat),
        decreases part@.len() - i,
    {
        let c = part[i];
        let ghost more = digits.take(i - start + 1);
        assert(more.drop_last() =~= digits.take(i - start));
        assert(more.last() == c);
        proof {
            if digits_value(digits) is Some {
                lemma_digits_grow(digits, i - start + 1);
            }
        }
        if !(c >= '0' && c <= '9') {
            return None;
        }
        let digit: i64 = (c as u32 - 48) as i64;
        if value > (i64::MAX - digit) / 10 {
            return None;
        }
        value = value * 10 + digit;
        i += 1;
    }
    assert(digits.take(i - start) =~= digits);
    Some(value)
}

fn rounded_quotient(a: i128, b: i128) -> (out: i128)
    requires
        b == 4 || b == 100 || b == 400,
        -10_000 <= a <= i64::MAX,
    ensures
        out == quotient(a as int, b as int),
        -10_000 <= out <= i64::MAX,
{
    if a >= 0 {
        a / b
    } else {
        -((-a) / b)
    }
}

fn month_offset(month: i64) -> (out: i128)
    ensures
        out == days_before_month(month as int),
        0 <= out <= 334,
{
    if month <= 1 {
        0
    } else if month == 2 {
        31
    } else if month == 3 {
        59
    } else if month == 4 {
        90
    } else if month == 5 {
        120
    } else if month == 6 {
        151
    } else if month == 7 {
        181
    } else if month == 8 {
        212
    } else if month == 9 {
        243
    } else if month == 10 {
        273
    } else if month == 11 {
        304
    } else {
        334
    }
}

/// The time that a text stands for, as the database writes it: `YYYY-MM-DD
/// HH:MM:SS`. It is 0 if the text stands for none.
pub fn parse_sqlite_datetime(text: &str) -> (out: u64)
    ensures
        out == spec_datetime(text@),
{
    let chars = chars_of(text);
    let parts = split_date(&chars);
    assert(parts@.len() == part_views(parts@).len());
    if parts.len() != 6 {
        return 0;
    }
    let mut numbers: Vec<i64> = Vec::new();
    let mut i: usize = 0;
    while i < 6
        invariant
            i <= 6,
            parts@.len() == 6,
            chars@ == text@,
            part_views(parts@) == date_parts(chars@),
            numbers@.len() == i,
            forall|j: int|
                0 <= j < i ==> {
                    &&& part_value(#[trigger] date_parts(text@)[j]) is Some
                    &&& numbers@[j] == part_value(date_parts(text@)[j])->0
                },
        decreases 6 - i,
    {
        assert(date_parts(text@)[i as int] == parts@[i as int]@);
        match parse_part(&parts[i]) {
            Some(number) => numbers.push(number),
            None => {
                assert(part_value(date_parts(text@)[i as int]) is None);
                assert(date_numbers(text@) is None);
                return 0;
            },
        }
        i += 1;
    }
    let ghost n = date_numbers(text@)->0;
    assert(date_numbers(text@) is Some);
    assert(forall|j: int| 0 <= j < 6 ==> numbers@[j] == #[trigger] n[j]) by {
        assert forall|j: int| 0 <= j < 6 implies numbers@[j] == #[trigger] n[j] by {
            assert(part_value(date_parts(text@)[j]) is Some);
        }
    }
    assert(n[0] == numbers@[0] && n[1] == numbers@[1] && n[2] == numbers@[2] && n[3] == numbers@[3]
        && n[4] == numbers@[4] && n[5] == numbers@[5]);
    assert(0 <= numbers@[0] && 0 <= numbers@[2] && 0 <= numbers@[3] && 0 <= numbers@[4] && 0
        <= numbers@[5]);
    let year: i128 = numbers[0] as i128;
    let month: i64 = numbers[1];
    let leap = (year % 4 == 0 && year % 100 != 0) || year % 400 == 0;
    let days: i128 = (year - 1970) * 365 + rounded_quotient(year - 1969, 4) - rounded_quotient(
        year - 1901,
        100,
    ) + rounded_quotient(year - 1601, 400) + month_offset(month) + numbers[2] as i128 - 1 + (
    if leap && month > 2 {
        1
    } else {
        0
    });
    let total: i128 = days * 86400 + numbers[3] as i128 * 3600 + numbers[4] as i128 * 60
        + numbers[5] as i128;
    if total < i64::MIN as i128 || total > i64::MAX as i128 {
        return 0;
    }
    if total >= 0 {
        total as u64
    } else {
        (total + 0x1_0000_0000_0000_0000) as u64
    }
}

/// The days of a month of the Gregorian calendar.
pub open spec fn days_in_month(year: int, month: int) -> int {
    if month == 2 {
        if is_leap(year) {
            29
        } else {
            28
        }
    } else if month == 4 || month == 6 || month == 9 || month == 11 {
        30
    } else {
        31
    }
}

/// A date and time of the Gregorian calendar, as six numbers.
pub open spec fn is_moment(n: Seq<nat>) -> bool {
    &&& n.len() == 6
    &&& 1 <= n[1] <= 12
    &&& 1 <= n[2] <= days_in_month(n[0] as int, n[1] as int)
    &&& n[3] < 24
    &&& n[4] < 60
    &&& n[5] < 60
}

/// The moment one second after another.
pub open spec fn next_moment(n: Seq<nat>) -> Seq<nat> {
    if n[5] < 59 {
        seq![n[0], n[1], n[2], n[3], n[4], n[5] + 1]
    } else if n[4] < 59 {
        seq![n[0], n[1], n[2], n[3], n[4] + 1, 0]
    } else if n[3] < 23 {
        seq![n[0], n[1], n[2], n[3] + 1, 0, 0]
    } else if n[2] < days_in_month(n[0] as int, n[1] as int) {
        seq![n[0], n[1], n[2] + 1, 0, 0, 0]
    } else if n[1] < 12 {
        seq![n[0], n[1] + 1, 1, 0, 0, 0]
    } else {
        seq![n[0] + 1, 1, 1, 0, 0, 0]
    }
}

/// The seconds from the Unix epoch to a moment.
pub open spec fn moment_seconds(n: Seq<nat>) -> int {
    epoch_seconds(
        n[0] as int,
        n[1] as int,
        n[2] as int,
        n[3] as int,
        n[4] as int,
        n[5] as int,
    )
}

/// The last second of a year.
pub open spec fn is_year_end(n: Seq<nat>) -> bool {
    n[1] == 12 && n[2] == 31 && n[3] == 23 && n[4] == 59 && n[5] == 59
}

/// A year over whose end the days are counted without a gap: all of them from
/// 1969 on. Before that the leap days are counted by division that rounds
/// towards zero, which puts most of them a year late.
pub open spec fn is_counted_through(year: int) -> bool {
    ||| year >= 1969
    ||| !is_leap(year) && (year % 4 != 1 || (year % 100 == 1 && year != 1901 && (year % 400 != 1
        || year == 1601)))
}

/// The seconds are counted by the calendar: from one moment to the next they
/// grow by one, over the ends of minutes, hours, days, months and leap
/// Februaries, and over the ends of exactly those years that are counted
/// through.
pub proof fn law_seconds_follow_the_calendar(n: Seq<nat>)
    requires
        is_moment(n),
    ensures
        is_moment(next_moment(n)),
        (moment_seconds(next_moment(n)) == moment_seconds(n) + 1) <==> (!is_year_end(n)
            || is_counted_through(n[0] as int)),
{
    let year = n[0] as int;
    if is_year_end(n) {
        let gained = quotient(year - 1968, 4) - quotient(year - 1969, 4) - (quotient(
            year - 1900,
            100,
        ) - quotient(year - 1901, 100)) + quotient(year - 1600, 400) - quotient(year - 1601, 400);
        lemma_leap_days(year);
        assert(moment_seconds(next_moment(n)) == moment_seconds(n) + 1 + 86400 * (gained - (
        if is_leap(year) {
            1int
        } else {
            0int
        })));
    }
}

proof fn lemma_leap_days(year: int)
    requires
        year >= 0,
    ensures
        (quotient(year - 1968, 4) - quotient(year - 1969, 4) - (quotient(year - 1900, 100)
            - quotient(year - 1901, 100)) + quotient(year - 1600, 400) - quotient(year - 1601, 400)
            == (if is_leap(year) {
            1int
        } else {
            0int
        })) <==> is_counted_through(year),
{
}

/// A second later is one more: of the texts of two moments, one second apart,
/// the second is read as a time one greater. This leaves out the ends of the
/// years that are not counted through, the epoch itself, before which times
/// count down from 2^64, and what 63 bits do not hold.
pub proof fn law_later_text_is_later(text: Seq<char>, later: Seq<char>)
    requires
        date_numbers(text) matches Some(n) && is_moment(n) && date_numbers(later) == Some(
            next_moment(n),
        ) && (!is_year_end(n) || is_counted_through(n[0] as int)) && moment_seconds(n) != -1
            && moment_seconds(n) < i64::MAX,
    ensures
        spec_datetime(later) == spec_datetime(text) + 1,
{
    let n = date_numbers(text)->0;
    law_seconds_follow_the_calendar(n);
    assert(moment_seconds(n) >= i64::MIN);
}

} // verus!
