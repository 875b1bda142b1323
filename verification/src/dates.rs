//! Dates: a calendar date, alone or with a time of day and its offset from UTC (RFC 3339).

use vstd::prelude::*;

use crate::text;

verus! {

/// Whether the characters of `s` from `from` up to `to` are decimal digits.
pub open spec fn has_digits(s: Seq<char>, from: int, to: int) -> bool {
    text::is_digits(s.subrange(from, to))
}

/// The number that the characters of `s` from `from` up to `to` write.
pub open spec fn number(s: Seq<char>, from: int, to: int) -> int {
    text::digits_value(s.subrange(from, to))
}

/// Whether February has 29 days in this year.
pub open spec fn is_leap_year(year: int) -> bool {
    year % 4 == 0 && (year % 100 != 0 || year % 400 == 0)
}

/// How many days a month has.
pub open spec fn days_in_month(year: int, month: int) -> int {
    if month == 2 {
        if is_leap_year(year) { 29 } else { 28 }
    } else if month == 4 || month == 6 || month == 9 || month == 11 {
        30
    } else {
        31
    }
}

/// Whether `s` begins with a day of the calendar, written YYYY-MM-DD.
pub open spec fn starts_with_day(s: Seq<char>) -> bool {
    &&& s.len() >= 10
    &&& has_digits(s, 0, 4) && s[4] == '-' && has_digits(s, 5, 7) && s[7] == '-' && has_digits(
        s,
        8,
        10,
    )
    &&& 1 <= number(s, 5, 7) <= 12
    &&& 1 <= number(s, 8, 10) <= days_in_month(number(s, 0, 4), number(s, 5, 7))
}

/// Whether hours and minutes, written HH:MM, stand in `s` from `at` on.
pub open spec fn has_clock(s: Seq<char>, at: int) -> bool {
    &&& s.len() >= at + 5
    &&& has_digits(s, at, at + 2) && s[at + 2] == ':' && has_digits(s, at + 3, at + 5)
    &&& number(s, at, at + 2) <= 23
    &&& number(s, at + 3, at + 5) <= 59
}

/// Whether `T` and a time of day, written HH:MM:SS, follow the day in `s`.
pub open spec fn has_time(s: Seq<char>) -> bool {
    &&& s.len() >= 19
    &&& s[10] == 'T'
    &&& has_clock(s, 11) && s[16] == ':' && has_digits(s, 17, 19) && number(s, 17, 19) <= 59
}

/// Whether `s` ends with the letter that stands for no offset from UTC, in either case.
pub open spec fn is_utc(s: Seq<char>) -> bool {
    s.last() == 'Z' || s.last() == 'z'
}

/// Where the offset of a timestamp begins: that letter is one character, and any other offset six.
pub open spec fn offset_start(s: Seq<char>) -> int {
    if is_utc(s) { s.len() - 1 } else { s.len() - 6 }
}

/// Whether what follows the day in `s` is `T`, a time of day, with or without a fraction of a second,
/// and an offset: `Z` or `z`, or a sign and HH:MM.
pub open spec fn ends_with_time(s: Seq<char>) -> bool {
    let end = offset_start(s);
    &&& end >= 19
    &&& has_time(s)
    &&& end == 19 || end > 20 && s[19] == '.' && has_digits(s, 20, end)
    &&& is_utc(s) || (s[end] == '+' || s[end] == '-') && has_clock(s, end + 1)
}

/// Whether `text` is a date: a day of the calendar, alone or with a time of day and its offset.
pub open spec fn is_date(text: Seq<char>) -> bool {
    starts_with_day(text) && (text.len() == 10 || text.len() > 10 && ends_with_time(text))
}

/// Whether `text` passes the check on the date of a stored transaction: it is a day of the calendar,
/// or begins with one and a time of day. What follows the time is not looked at.
pub open spec fn passes_check(text: Seq<char>) -> bool {
    starts_with_day(text) && (text.len() == 10 || has_time(text))
}

/// Every date passes the check on stored ones.
pub proof fn law_dates_pass_the_check(text: Seq<char>)
    requires
        is_date(text),
    ensures
        passes_check(text),
{
}

/// Whether the characters from `from` up to `to` are decimal digits.
fn are_digits(chars: &Vec<char>, from: usize, to: usize) -> (digits: bool)
    requires
        from < to <= chars@.len(),
    ensures
        digits == has_digits(chars@, from as int, to as int),
{
    let ghost run = chars@.subrange(from as int, to as int);
    let mut i: usize = from;
    while i < to
        invariant
            from <= i <= to <= chars@.len(),
            run == chars@.subrange(from as int, to as int),
            forall|k: int| 0 <= k < i - from ==> text::is_digit(#[trigger] run[k]),
        decreases to - i,
    {
        let c: char = chars[i];
        assert(run[i - from] == c);
        if !('0' <= c && c <= '9') {
            assert(!text::is_digit(run[i - from]));
            return false;
        }
        i = i + 1;
    }
    true
}

/// Reads the number that two digits write.
fn two_digits(chars: &Vec<char>, at: usize) -> (value: Option<u32>)
    requires
        at + 2 <= chars.len(),
    ensures
        match value {
            Some(value) => has_digits(chars@, at as int, at + 2) && value == number(
                chars@,
                at as int,
                at + 2,
            ) && value <= 99,
            None => !has_digits(chars@, at as int, at + 2),
        },
{
    if !are_digits(chars, at, at + 2) {
        return None;
    }
    proof {
        let run = chars@.subrange(at as int, at + 2);
        assert(text::is_digit(run[0]) && text::is_digit(run[1]));
        assert(run.drop_last().drop_last() =~= Seq::<char>::empty());
        reveal_with_fuel(text::digits_value, 3);
    }
    Some(10 * (chars[at] as u32 - '0' as u32) + (chars[at + 1] as u32 - '0' as u32))
}

/// Looks for hours and minutes.
fn reads_clock(chars: &Vec<char>, at: usize) -> (found: bool)
    requires
        at + 5 <= chars.len(),
    ensures
        found == has_clock(chars@, at as int),
{
    match (two_digits(chars, at), two_digits(chars, at + 3)) {
        (Some(hours), Some(minutes)) => chars[at + 2] == ':' && hours <= 23 && minutes <= 59,
        _ => false,
    }
}

/// Looks for the day at the beginning.
fn reads_day(chars: &Vec<char>) -> (found: bool)
    requires
        chars@.len() >= 10,
    ensures
        found == starts_with_day(chars@),
{
    let century: Option<u32> = two_digits(chars, 0);
    let of_century: Option<u32> = two_digits(chars, 2);
    proof {
        let run = chars@.subrange(0, 4);
        assert(run[0] == chars@[0] && run[1] == chars@[1] && run[2] == chars@[2] && run[3]
            == chars@[3]);
        let high = chars@.subrange(0, 2);
        let low = chars@.subrange(2, 4);
        assert(run =~= high + low);
        assert(high[0] == run[0] && high[1] == run[1] && low[0] == run[2] && low[1] == run[3]);
        if text::is_digits(high) && text::is_digits(low) {
            assert(text::is_digits(run));
        }
        if text::is_digits(run) {
            assert(text::is_digit(run[0]) && text::is_digit(run[1]) && text::is_digit(run[2])
                && text::is_digit(run[3]));
            assert(text::is_digits(high) && text::is_digits(low));
        }
        assert(run.drop_last().drop_last() =~= high);
        assert(low.drop_last().drop_last() =~= Seq::<char>::empty());
        reveal_with_fuel(text::digits_value, 3);
        assert(text::digits_value(run) == 100 * text::digits_value(high) + text::digits_value(low));
    }
    match (century, of_century, two_digits(chars, 5), two_digits(chars, 8)) {
        (Some(century), Some(of_century), Some(month), Some(day)) => {
            let year: u32 = 100 * century + of_century;
            let leap: bool = year % 4 == 0 && (year % 100 != 0 || year % 400 == 0);
            let days: u32 = if month == 2 {
                if leap { 29 } else { 28 }
            } else if month == 4 || month == 6 || month == 9 || month == 11 {
                30
            } else {
                31
            };
            chars[4] == '-' && chars[7] == '-' && 1 <= month && month <= 12 && 1 <= day && day
                <= days
        },
        _ => false,
    }
}

/// Looks for a time and an offset after the day.
fn reads_time(chars: &Vec<char>) -> (found: bool)
    requires
        chars@.len() > 10,
    ensures
        found == ends_with_time(chars@),
{
    let last: char = chars[chars.len() - 1];
    let utc: bool = last == 'Z' || last == 'z';
    let size: usize = if utc { 1 } else { 6 };
    if chars.len() < 19 + size {
        return false;
    }
    let end: usize = chars.len() - size;
    if chars[10] != 'T' || !reads_clock(chars, 11) || chars[16] != ':' {
        return false;
    }
    match two_digits(chars, 17) {
        Some(seconds) => if seconds > 59 {
            return false;
        },
        None => {
            return false;
        },
    }
    if end > 19 && !(end > 20 && chars[19] == '.' && are_digits(chars, 20, end)) {
        return false;
    }
    utc || ((chars[end] == '+' || chars[end] == '-') && reads_clock(chars, end + 1))
}

/// Whether a text is a date.
pub fn is_rfc3339(date: &str) -> (valid: bool)
    ensures
        valid == is_date(date@),
{
    let chars: Vec<char> = text::characters(date);
    if chars.len() < 10 || !reads_day(&chars) {
        false
    } else {
        chars.len() == 10 || reads_time(&chars)
    }
}

// The calendar.

/// Thirty days hath September, April, June and November; all the rest have thirty-one, but for
/// February, which has twenty-eight, and twenty-nine in each year that 4 divides and 100 does not, or
/// that 400 divides. The months make 365 days, or 366.
pub proof fn law_calendar(year: int)
    ensures
        forall|month: int|
            month == 1 || month == 3 || month == 5 || month == 7 || month == 8 || month == 10 || month
                == 12 ==> #[trigger] days_in_month(year, month) == 31,
        forall|month: int|
            month == 4 || month == 6 || month == 9 || month == 11 ==> #[trigger] days_in_month(
                year,
                month,
            ) == 30,
        days_in_month(year, 2) == 29 <==> year % 400 == 0 || (year % 4 == 0 && year % 100 != 0),
        days_in_month(year, 2) == 28 || days_in_month(year, 2) == 29,
        days_in_month(year, 1) + days_in_month(year, 2) + days_in_month(year, 3) + days_in_month(
            year,
            4,
        ) + days_in_month(year, 5) + days_in_month(year, 6) + days_in_month(year, 7) + days_in_month(
            year,
            8,
        ) + days_in_month(year, 9) + days_in_month(year, 10) + days_in_month(year, 11)
            + days_in_month(year, 12) == 337 + days_in_month(year, 2),
{
}

proof fn lemma_two_digits(s: Seq<char>, at: int)
    requires
        0 <= at,
        at + 2 <= s.len(),
    ensures
        has_digits(s, at, at + 2) <==> 48 <= s[at] as int <= 57 && 48 <= s[at + 1] as int <= 57,
        number(s, at, at + 2) == 10 * (s[at] as int - 48) + (s[at + 1] as int - 48),
{
    let run = s.subrange(at, at + 2);
    assert(run[0] == s[at] && run[1] == s[at + 1]);
    if has_digits(s, at, at + 2) {
        assert(text::is_digit(run[0]) && text::is_digit(run[1]));
    }
    assert(run.drop_last().drop_last() =~= Seq::<char>::empty());
    reveal_with_fuel(text::digits_value, 3);
}

proof fn lemma_four_digits(s: Seq<char>)
    requires
        s.len() >= 4,
    ensures
        has_digits(s, 0, 4) <==> 48 <= s[0] as int <= 57 && 48 <= s[1] as int <= 57 && 48
            <= s[2] as int <= 57 && 48 <= s[3] as int <= 57,
        number(s, 0, 4) == 1000 * (s[0] as int - 48) + 100 * (s[1] as int - 48) + 10 * (s[2] as int
            - 48) + (s[3] as int - 48),
{
    let run = s.subrange(0, 4);
    assert(run[0] == s[0] && run[1] == s[1] && run[2] == s[2] && run[3] == s[3]);
    if has_digits(s, 0, 4) {
        assert(text::is_digit(run[0]) && text::is_digit(run[1]) && text::is_digit(run[2])
            && text::is_digit(run[3]));
    }
    assert(run.drop_last().drop_last().drop_last().drop_last() =~= Seq::<char>::empty());
    assert(run.drop_last().drop_last().drop_last().last() == s[0]);
    assert(run.drop_last().drop_last().last() == s[1]);
    assert(run.drop_last().last() == s[2]);
    reveal_with_fuel(text::digits_value, 5);
}

/// A text of ten characters is a date exactly where it writes, in decimal digits, four for the year,
/// a hyphen, two for the month, a hyphen and two for the day, a month from 1 to 12 and a day that this
/// month has in that year. A shorter text is none.
pub proof fn law_date_without_time(s: Seq<char>)
    requires
        s.len() <= 10,
    ensures
        is_date(s) <==> s.len() == 10 && s[4] == '-' && s[7] == '-' && (forall|i: int|
            0 <= i < 10 && i != 4 && i != 7 ==> '0' <= #[trigger] s[i] && s[i] <= '9') && {
            let year = 1000 * (s[0] as int - '0' as int) + 100 * (s[1] as int - '0' as int) + 10 * (
            s[2] as int - '0' as int) + (s[3] as int - '0' as int);
            let month = 10 * (s[5] as int - '0' as int) + (s[6] as int - '0' as int);
            let day = 10 * (s[8] as int - '0' as int) + (s[9] as int - '0' as int);
            &&& 1 <= month <= 12
            &&& 1 <= day
            &&& day <= 28 || (day <= 30 && month != 2) || (day == 31 && (month == 1 || month == 3
                || month == 5 || month == 7 || month == 8 || month == 10 || month == 12)) || (day
                == 29 && (year % 400 == 0 || (year % 4 == 0 && year % 100 != 0)))
        },
{
    if s.len() == 10 {
        lemma_four_digits(s);
        lemma_two_digits(s, 5);
        lemma_two_digits(s, 8);
        if is_date(s) {
            assert forall|i: int| 0 <= i < 10 && i != 4 && i != 7 implies '0' <= #[trigger] s[i]
                && s[i] <= '9' by {}
        }
    }
}

/// A longer text is a date exactly where its first ten characters are one, and then come `T`, the
/// hour, from 00 to 23, the minute and the second, from 00 to 59, two digits each and with colons
/// between them, a point and one digit or more if there is a fraction, and at the end `Z` or `z`, or a
/// sign, an hour, a colon and a minute.
pub proof fn law_date_with_time(s: Seq<char>)
    requires
        s.len() > 10,
    ensures
        is_date(s) <==> is_date(s.take(10)) && s.len() >= 20 && s[10] == 'T' && s[13] == ':' && s[16]
            == ':' && (forall|i: int|
            11 <= i < 19 && i != 13 && i != 16 ==> '0' <= #[trigger] s[i] && s[i] <= '9') && 10 * (
        s[11] as int - '0' as int) + (s[12] as int - '0' as int) <= 23 && s[14] <= '5' && s[17] <= '5'
            && {
            let utc = s.last() == 'Z' || s.last() == 'z';
            let end = if utc { s.len() - 1 } else { s.len() - 6 };
            &&& end >= 19
            &&& end == 19 || (end >= 21 && s[19] == '.' && forall|i: int|
                20 <= i < end ==> '0' <= #[trigger] s[i] && s[i] <= '9')
            &&& utc || ((s[end] == '+' || s[end] == '-') && s[end + 3] == ':' && '0' <= s[end + 1]
                && s[end + 1] <= '9' && '0' <= s[end + 2] && s[end + 2] <= '9' && '0' <= s[end + 4]
                && s[end + 4] <= '5' && '0' <= s[end + 5] && s[end + 5] <= '9' && 10 * (s[end
                + 1] as int - '0' as int) + (s[end + 2] as int - '0' as int) <= 23)
        },
{
    let day = s.take(10);
    assert(day.subrange(0, 4) =~= s.subrange(0, 4));
    assert(day.subrange(5, 7) =~= s.subrange(5, 7));
    assert(day.subrange(8, 10) =~= s.subrange(8, 10));
    assert(starts_with_day(day) == starts_with_day(s));
    assert(is_date(day) == starts_with_day(s));
    if s.len() >= 20 {
        lemma_two_digits(s, 11);
        lemma_two_digits(s, 14);
        lemma_two_digits(s, 17);
        let end = offset_start(s);
        if end >= 19 {
            if end + 6 == s.len() {
                lemma_two_digits(s, end + 1);
                lemma_two_digits(s, end + 4);
            }
            if end > 20 {
                let run = s.subrange(20, end);
                if has_digits(s, 20, end) {
                    assert forall|i: int| 20 <= i < end implies '0' <= #[trigger] s[i] && s[i]
                        <= '9' by {
                        assert(text::is_digit(run[i - 20]));
                    }
                }
                if forall|i: int| 20 <= i < end ==> '0' <= #[trigger] s[i] && s[i] <= '9' {
                    assert forall|i: int| 0 <= i < run.len() implies text::is_digit(
                        #[trigger] run[i],
                    ) by {
                        assert(run[i] == s[i + 20]);
                    }
                }
            }
        }
        if is_date(s) {
            assert forall|i: int| 11 <= i < 19 && i != 13 && i != 16 implies '0' <= #[trigger] s[i]
                && s[i] <= '9' by {}
        }
    }
}

/// The check on stored dates looks at a time of day as a date does, whatever follows it.
pub proof fn law_check_ignores_what_follows_the_time(s: Seq<char>)
    requires
        s.len() >= 19,
    ensures
        passes_check(s) <==> is_date(s.take(19).push('Z')),
{
    let t = s.take(19).push('Z');
    assert(t.subrange(0, 4) =~= s.subrange(0, 4));
    assert(t.subrange(5, 7) =~= s.subrange(5, 7));
    assert(t.subrange(8, 10) =~= s.subrange(8, 10));
    assert(t.subrange(11, 13) =~= s.subrange(11, 13));
    assert(t.subrange(14, 16) =~= s.subrange(14, 16));
    assert(t.subrange(17, 19) =~= s.subrange(17, 19));
}

} // verus!
