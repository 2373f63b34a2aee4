//! The proleptic Gregorian calendar, counted in days and seconds from
//! 1970-01-01, and timestamps in the form `YYYY-MM-DDTHH:MM:SSZ`.

use crate::text::{decimal, decimal_of, digit, law_decimal_writes_the_number, number_written};
use vstd::arithmetic::div_mod::{lemma_fundamental_div_mod, lemma_fundamental_div_mod_converse};
use vstd::prelude::*;

verus! {

pub const SECONDS_PER_DAY: i64 = 86_400;

pub open spec fn is_leap_year(year: int) -> bool {
    year % 4 == 0 && (year % 100 != 0 || year % 400 == 0)
}

pub open spec fn days_in_year(year: int) -> int {
    if is_leap_year(year) {
        366
    } else {
        365
    }
}

pub open spec fn days_in_month(year: int, month: int) -> int {
    if month == 2 {
        if is_leap_year(year) {
            29
        } else {
            28
        }
    } else if month == 4 || month == 6 || month == 9 || month == 11 {
        30
    } else {
        31
    }
}

/// The days of `year` that lie before the first of `month`.
pub open spec fn days_before_month(year: int, month: int) -> int
    decreases month,
{
    if month <= 1 {
        0
    } else {
        days_before_month(year, month - 1) + days_in_month(year, month - 1)
    }
}

/// The days from 1970-01-01 to the first of January of `year`.
pub open spec fn days_before_year(year: int) -> int {
    365 * (year - 1970) + ((year - 1) / 4 - 1969int / 4) - ((year - 1) / 100 - 1969int / 100) + ((
    year - 1) / 400 - 1969int / 400)
}

/// `date`, as year, month and day, is a date of the calendar.
pub open spec fn valid_date(date: (int, int, int)) -> bool {
    &&& 1 <= date.1 <= 12
    &&& 1 <= date.2 <= days_in_month(date.0, date.1)
}

/// The days from 1970-01-01 to `date`.
pub open spec fn day_number(date: (int, int, int)) -> int {
    days_before_year(date.0) + days_before_month(date.0, date.1) + date.2 - 1
}

/// `date` is the calendar's date for the day `days` after 1970-01-01.
pub open spec fn names_day(date: (int, int, int), days: int) -> bool {
    valid_date(date) && day_number(date) == days
}

/// The date of the day `days` after 1970-01-01.
pub open spec fn civil_date(days: int) -> (int, int, int) {
    choose|date: (int, int, int)| names_day(date, days)
}

/// `n` in decimal notation, with zeros after the sign up to `width` characters.
pub open spec fn zero_padded(n: int, width: nat) -> Seq<char> {
    let sign = if n < 0 {
        seq!['-']
    } else {
        Seq::empty()
    };
    let digits = decimal(if n < 0 {
        -n as nat
    } else {
        n as nat
    });
    let used = sign.len() + digits.len();
    let zeros = if used < width {
        (width - used) as nat
    } else {
        0
    };
    sign + Seq::new(zeros, |i: int| '0') + digits
}

/// The UTC time `seconds` after 1970-01-01T00:00:00Z.
pub open spec fn utc_timestamp(seconds: int) -> Seq<char> {
    let date = civil_date(seconds / 86_400);
    let second_of_day = seconds % 86_400;
    let day = (zero_padded(date.0, 4).push('-') + zero_padded(date.1, 2)).push('-') + zero_padded(
        date.2,
        2,
    );
    let time = day.push('T') + zero_padded(second_of_day / 3_600, 2);
    let time = time.push(':') + zero_padded(second_of_day % 3_600 / 60, 2);
    (time.push(':') + zero_padded(second_of_day % 60, 2)).push('Z')
}

/// The seconds since the Unix epoch as a signed number.
pub open spec fn signed_seconds(seconds: u64) -> i64 {
    #[verifier::truncate]
    (seconds as i64)
}

/// The year count starts on 1970-01-01 and grows with each year by the number
/// of its days.
pub proof fn law_years_follow_each_other(year: int)
    ensures
        days_before_year(1970) == 0,
        days_before_year(year + 1) == days_before_year(year) + days_in_year(year),
{
}

/// The months of a year fill it.
pub proof fn law_months_fill_the_year(year: int)
    ensures
        days_before_month(year, 13) == days_in_year(year),
{
    reveal_with_fuel(days_before_month, 13);
}

#[verifier::rlimit(40)]
proof fn lemma_day_of_year(date: (int, int, int))
    requires
        valid_date(date),
    ensures
        0 <= days_before_month(date.0, date.1) + date.2 - 1 < days_in_year(date.0),
{
    reveal_with_fuel(days_before_month, 13);
}

/// No two dates name the same day.
pub proof fn law_dates_are_unique(a: (int, int, int), b: (int, int, int))
    requires
        valid_date(a),
        valid_date(b),
        day_number(a) == day_number(b),
    ensures
        a == b,
{
    lemma_day_of_year(a);
    lemma_day_of_year(b);
    law_years_follow_each_other(a.0);
    law_years_follow_each_other(b.0);
    if a.0 < b.0 {
        lemma_years_grow(a.0 + 1, b.0);
    } else if b.0 < a.0 {
        lemma_years_grow(b.0 + 1, a.0);
    } else if a.1 < b.1 {
        lemma_months_grow(a.0, a.1, b.1);
    } else if b.1 < a.1 {
        lemma_months_grow(a.0, b.1, a.1);
    }
}

/// A month ends before a later one of the year begins.
proof fn lemma_months_grow(year: int, a: int, b: int)
    requires
        1 <= a < b,
    ensures
        days_before_month(year, a) + days_in_month(year, a) <= days_before_month(year, b),
    decreases b,
{
    if a < b - 1 {
        lemma_months_grow(year, a, b - 1);
    }
}

proof fn lemma_years_grow(a: int, b: int)
    requires
        a <= b,
    ensures
        days_before_year(a) <= days_before_year(b),
{
}

/// Where `day_of_era` lies among the years of a 400-year era that starts in
/// March.
#[verifier::rlimit(40)]
proof fn lemma_year_of_era(day_of_era: int)
    requires
        0 <= day_of_era < 146_097,
    ensures
        ({
            let y = (day_of_era - day_of_era / 1_460 + day_of_era / 36_524 - day_of_era / 146_096)
                / 365;
            let first = 365 * y + y / 4 - y / 100;
            &&& 0 <= y < 400
            &&& first <= day_of_era
            &&& day_of_era - first <= 365
            &&& day_of_era - first == 365 ==> is_leap_year(y + 1)
        }),
{
}

/// A shift by `k` times `d` adds `k` to the quotient and keeps the remainder.
proof fn lemma_shifted(n: int, d: int, k: int)
    requires
        0 < d,
    ensures
        (n + k * d) / d == n / d + k,
        (n + k * d) % d == n % d,
{
    lemma_fundamental_div_mod(n, d);
    assert(n + k * d == (n / d + k) * d + n % d) by (nonlinear_arith)
        requires
            n == d * (n / d) + n % d,
    ;
    lemma_fundamental_div_mod_converse(n + k * d, d, n / d + k, n % d);
}

/// The first of March of year `y` of an era, which follows the leap year rule
/// of the era's first 400 years.
#[verifier::rlimit(40)]
proof fn lemma_march_first(era: int, y: int)
    requires
        0 <= y < 400,
    ensures
        days_before_year(y + era * 400 + 1) - 306 == era * 146_097 + 365 * y + y / 4 - y / 100
            - 719_468,
        is_leap_year(y + era * 400 + 1) == is_leap_year(y + 1),
{
    let year = y + era * 400;
    lemma_shifted(y, 4, era * 100);
    lemma_shifted(y, 100, era * 4);
    lemma_shifted(y, 400, era);
    lemma_shifted(y + 1, 4, era * 100);
    lemma_shifted(y + 1, 100, era * 4);
    lemma_shifted(y + 1, 400, era);
    assert(y / 400 == 0);
    assert(year / 4 == y / 4 + era * 100);
    assert(year / 100 == y / 100 + era * 4);
    assert(year / 400 == era);
}

/// Day `d` of the year that starts in March of year `y` of an era, as a date.
#[verifier::rlimit(40)]
proof fn lemma_march_date(era: int, y: int, d: int)
    requires
        0 <= y < 400,
        0 <= d <= 365,
        d == 365 ==> is_leap_year(y + 1),
    ensures
        ({
            let m = (5 * d + 2) / 153;
            let day = d - (153 * m + 2) / 5 + 1;
            let month = if m < 10 {
                m + 3
            } else {
                m - 9
            };
            let year = y + era * 400 + if month <= 2 {
                1int
            } else {
                0
            };
            names_day(
                (year, month, day),
                era * 146_097 + 365 * y + y / 4 - y / 100 + d - 719_468,
            )
        }),
{
    let year = y + era * 400;
    let m = (5 * d + 2) / 153;
    lemma_march_first(era, y);
    lemma_march_day(year, d);
    lemma_march_month(year, m);
    assert(days_before_year(year + 1) == days_before_year(year) + days_in_year(year)) by {
        law_years_follow_each_other(year);
    }
}

/// The days before month `m` of a year that starts in March.
#[verifier::rlimit(40)]
proof fn lemma_march_month(year: int, m: int)
    requires
        0 <= m < 12,
    ensures
        m < 10 ==> days_before_month(year, m + 3) == days_in_year(year) - 306 + (153 * m + 2) / 5,
        m >= 10 ==> days_before_month(year + 1, m - 9) == (153 * m + 2) / 5 - 306,
{
    reveal_with_fuel(days_before_month, 13);
}

/// Day `d` of a year that starts in March lies inside its month.
#[verifier::rlimit(40)]
proof fn lemma_march_day(year: int, d: int)
    requires
        0 <= d <= 365,
        d == 365 ==> is_leap_year(year + 1),
    ensures
        ({
            let m = (5 * d + 2) / 153;
            let day = d - (153 * m + 2) / 5 + 1;
            &&& 0 <= m < 12
            &&& m < 10 ==> 1 <= day <= days_in_month(year, m + 3)
            &&& m >= 10 ==> 1 <= day <= days_in_month(year + 1, m - 9)
        }),
{
}

/// Every day has a date, and no other date.
pub proof fn law_every_day_has_one_date(days: int, date: (int, int, int))
    ensures
        names_day(civil_date(days), days),
        names_day(date, days) ==> date == civil_date(days),
{
    let era = (days + 719_468) / 146_097;
    let day_of_era = (days + 719_468) % 146_097;
    lemma_fundamental_div_mod(days + 719_468, 146_097);
    lemma_year_of_era(day_of_era);
    let y = (day_of_era - day_of_era / 1_460 + day_of_era / 36_524 - day_of_era / 146_096) / 365;
    let d = day_of_era - (365 * y + y / 4 - y / 100);
    lemma_march_date(era, y, d);
    assert(era * 146_097 + 365 * y + y / 4 - y / 100 + d - 719_468 == days);
    assert(exists|found: (int, int, int)| names_day(found, days));
    if names_day(date, days) {
        law_dates_are_unique(date, civil_date(days));
    }
}

/// A character that is a digit.
pub open spec fn is_digit(c: char) -> bool {
    '0' <= c <= '9'
}

/// A number of `width` digits or fewer fills its place with digits.
proof fn lemma_zero_padded(n: int, width: nat)
    requires
        width == 2 && 0 <= n < 100 || width == 4 && 0 <= n < 10_000,
    ensures
        zero_padded(n, width).len() == width,
        forall|i: int| 0 <= i < width ==> is_digit(#[trigger] zero_padded(n, width)[i]),
{
    reveal_with_fuel(decimal, 4);
}

/// In the years 0 to 9999 a timestamp has the form `YYYY-MM-DDThh:mm:ssZ`.
pub proof fn law_timestamps_are_rfc3339(seconds: int)
    requires
        0 <= civil_date(seconds / 86_400).0 <= 9_999,
    ensures
        ({
            let t = utc_timestamp(seconds);
            &&& t.len() == 20
            &&& t[4] == '-' && t[7] == '-' && t[10] == 'T' && t[13] == ':' && t[16] == ':'
            &&& t[19] == 'Z'
            &&& forall|i: int|
                0 <= i < 19 && i != 4 && i != 7 && i != 10 && i != 13 && i != 16 ==> is_digit(
                    #[trigger] t[i],
                )
        }),
{
    let date = civil_date(seconds / 86_400);
    let second_of_day = seconds % 86_400;
    law_every_day_has_one_date(seconds / 86_400, date);
    let year = zero_padded(date.0, 4);
    let month = zero_padded(date.1, 2);
    let day = zero_padded(date.2, 2);
    let hour = zero_padded(second_of_day / 3_600, 2);
    let minute = zero_padded(second_of_day % 3_600 / 60, 2);
    let second = zero_padded(second_of_day % 60, 2);
    lemma_zero_padded(date.0, 4);
    lemma_zero_padded(date.1, 2);
    lemma_zero_padded(date.2, 2);
    lemma_zero_padded(second_of_day / 3_600, 2);
    lemma_zero_padded(second_of_day % 3_600 / 60, 2);
    lemma_zero_padded(second_of_day % 60, 2);
    let t = utc_timestamp(seconds);
    assert forall|i: int|
        0 <= i < 19 && i != 4 && i != 7 && i != 10 && i != 13 && i != 16 implies is_digit(
        #[trigger] t[i],
    ) by {
        if i < 4 {
            assert(t[i] == year[i]);
        } else if i < 7 {
            assert(t[i] == month[i - 5]);
        } else if i < 10 {
            assert(t[i] == day[i - 8]);
        } else if i < 13 {
            assert(t[i] == hour[i - 11]);
        } else if i < 16 {
            assert(t[i] == minute[i - 14]);
        } else {
            assert(t[i] == second[i - 17]);
        }
    }
}

/// One date comes before another.
pub open spec fn earlier_date(a: (int, int, int), b: (int, int, int)) -> bool {
    a.0 < b.0 || a.0 == b.0 && (a.1 < b.1 || a.1 == b.1 && a.2 < b.2)
}

proof fn lemma_earlier_dates_name_earlier_days(a: (int, int, int), b: (int, int, int))
    requires
        valid_date(a),
        valid_date(b),
        earlier_date(a, b),
    ensures
        day_number(a) < day_number(b),
{
    if a.0 < b.0 {
        lemma_day_of_year(a);
        lemma_day_of_year(b);
        law_years_follow_each_other(a.0);
        lemma_years_grow(a.0 + 1, b.0);
    } else if a.1 < b.1 {
        lemma_months_grow(a.0, a.1, b.1);
    }
}

/// Later days have later dates.
pub proof fn law_later_days_have_later_dates(a: int, b: int)
    requires
        a < b,
    ensures
        earlier_date(civil_date(a), civil_date(b)),
{
    let first = civil_date(a);
    let second = civil_date(b);
    law_every_day_has_one_date(a, first);
    law_every_day_has_one_date(b, second);
    if earlier_date(second, first) {
        lemma_earlier_dates_name_earlier_days(second, first);
    } else if first == second {
        assert(day_number(first) == day_number(second));
    }
}

/// Two texts are the same up to position `k`, where the first ends or has the
/// smaller character.
pub open spec fn parts_at(a: Seq<char>, b: Seq<char>, k: int) -> bool {
    &&& 0 <= k <= a.len()
    &&& k < b.len()
    &&& forall|i: int| 0 <= i < k ==> #[trigger] a[i] == b[i]
    &&& k == a.len() || a[k] < b[k]
}

/// One text comes before another in lexicographic order.
pub open spec fn text_before(a: Seq<char>, b: Seq<char>) -> bool {
    exists|k: int| parts_at(a, b, k)
}

/// The digits of a number of two or four digits.
proof fn lemma_padded_digits(n: int, width: nat)
    requires
        width == 2 && 0 <= n < 100 || width == 4 && 0 <= n < 10_000,
    ensures
        width == 2 ==> zero_padded(n, width) == seq![
            digit((n / 10) as nat),
            digit((n % 10) as nat),
        ],
        width == 4 ==> zero_padded(n, width) == seq![
            digit((n / 1_000) as nat),
            digit((n / 100 % 10) as nat),
            digit((n / 10 % 10) as nat),
            digit((n % 10) as nat),
        ],
{
    reveal_with_fuel(decimal, 4);
    assert(n / 10 / 10 == n / 100);
    assert(n / 10 / 10 / 10 == n / 1_000);
    if width == 2 {
        assert(zero_padded(n, width) =~= seq![digit((n / 10) as nat), digit((n % 10) as nat)]);
    } else {
        assert(zero_padded(n, width) =~= seq![
            digit((n / 1_000) as nat),
            digit((n / 100 % 10) as nat),
            digit((n / 10 % 10) as nat),
            digit((n % 10) as nat),
        ]);
    }
}

/// Of two numbers with the same tens, the smaller one has the smaller last digit;
/// a number with smaller tens is smaller.
proof fn lemma_last_digit(n: int, m: int)
    requires
        0 <= n < m,
    ensures
        n / 10 <= m / 10,
        n / 10 == m / 10 ==> n % 10 < m % 10,
{
}

/// Of two numbers that fill the same place, the smaller one comes first as text.
proof fn lemma_padded_order(n: int, m: int, width: nat) -> (k: int)
    requires
        width == 2 && 0 <= n < m < 100 || width == 4 && 0 <= n < m < 10_000,
    ensures
        0 <= k < width,
        parts_at(zero_padded(n, width), zero_padded(m, width), k),
{
    let a = zero_padded(n, width);
    let b = zero_padded(m, width);
    lemma_padded_digits(n, width);
    lemma_padded_digits(m, width);
    lemma_last_digit(n, m);
    if n / 10 == m / 10 {
        let k = width - 1;
        if width == 4 {
            assert(n / 100 == n / 10 / 10 && n / 1_000 == n / 10 / 100);
            assert(m / 100 == m / 10 / 10 && m / 1_000 == m / 10 / 100);
        }
        assert(parts_at(a, b, k));
        k
    } else if width == 2 {
        assert(parts_at(a, b, 0));
        0
    } else {
        assert(n / 100 == n / 10 / 10 && m / 100 == m / 10 / 10);
        lemma_last_digit(n / 10, m / 10);
        if n / 100 == m / 100 {
            assert(n / 1_000 == n / 100 / 10 && m / 1_000 == m / 100 / 10);
            assert(parts_at(a, b, 2));
            2
        } else {
            assert(n / 1_000 == n / 100 / 10 && m / 1_000 == m / 100 / 10);
            lemma_last_digit(n / 100, m / 100);
            if n / 1_000 == m / 1_000 {
                assert(parts_at(a, b, 1));
                1
            } else {
                assert(parts_at(a, b, 0));
                0
            }
        }
    }
}

/// What stands where in a timestamp of the years 0 to 9999.
proof fn lemma_timestamp_places(seconds: int)
    requires
        0 <= civil_date(seconds / 86_400).0 <= 9_999,
    ensures
        ({
            let t = utc_timestamp(seconds);
            let date = civil_date(seconds / 86_400);
            let s = seconds % 86_400;
            &&& t.len() == 20
            &&& t[4] == '-' && t[7] == '-' && t[10] == 'T' && t[13] == ':' && t[16] == ':'
            &&& t[19] == 'Z'
            &&& t.subrange(0, 4) == zero_padded(date.0, 4)
            &&& t.subrange(5, 7) == zero_padded(date.1, 2)
            &&& t.subrange(8, 10) == zero_padded(date.2, 2)
            &&& t.subrange(11, 13) == zero_padded(s / 3_600, 2)
            &&& t.subrange(14, 16) == zero_padded(s % 3_600 / 60, 2)
            &&& t.subrange(17, 19) == zero_padded(s % 60, 2)
            &&& 1 <= date.1 <= 12
            &&& 1 <= date.2 <= 31
        }),
{
    let date = civil_date(seconds / 86_400);
    let s = seconds % 86_400;
    law_every_day_has_one_date(seconds / 86_400, date);
    lemma_zero_padded(date.0, 4);
    lemma_zero_padded(date.1, 2);
    lemma_zero_padded(date.2, 2);
    lemma_zero_padded(s / 3_600, 2);
    lemma_zero_padded(s % 3_600 / 60, 2);
    lemma_zero_padded(s % 60, 2);
}

/// Two texts that are the same before `from`, and part in the piece from there to
/// `to`, part there.
proof fn lemma_parts_in_piece(a: Seq<char>, b: Seq<char>, from: int, to: int, k: int)
    requires
        0 <= from < to <= a.len(),
        a.len() == b.len(),
        a.subrange(0, from) == b.subrange(0, from),
        0 <= k < to - from,
        parts_at(a.subrange(from, to), b.subrange(from, to), k),
    ensures
        text_before(a, b),
{
    assert forall|i: int| 0 <= i < from + k implies #[trigger] a[i] == b[i] by {
        if i < from {
            assert(a.subrange(0, from)[i] == a[i]);
            assert(b.subrange(0, from)[i] == b[i]);
        } else {
            assert(a.subrange(from, to)[i - from] == a[i]);
            assert(b.subrange(from, to)[i - from] == b[i]);
        }
    }
    assert(a.subrange(from, to)[k] < b.subrange(from, to)[k]);
    assert(parts_at(a, b, from + k));
}

/// The beginning of two timestamps is the same where a further piece and the mark
/// behind it are the same.
proof fn lemma_same_up_to(a: Seq<char>, b: Seq<char>, from: int, to: int)
    requires
        0 <= from < to < a.len(),
        a.len() == b.len(),
        a.subrange(0, from) == b.subrange(0, from),
        a.subrange(from, to) == b.subrange(from, to),
        a[to] == b[to],
    ensures
        a.subrange(0, to + 1) == b.subrange(0, to + 1),
{
    assert forall|i: int| 0 <= i < to + 1 implies #[trigger] a[i] == b[i] by {
        if i < from {
            assert(a.subrange(0, from)[i] == a[i]);
            assert(b.subrange(0, from)[i] == b[i]);
        } else if i < to {
            assert(a.subrange(from, to)[i - from] == a[i]);
            assert(b.subrange(from, to)[i - from] == b[i]);
        }
    }
    assert(a.subrange(0, to + 1) =~= b.subrange(0, to + 1));
}

/// Days from 1970-01-01 to 9999-12-31 have years of four digits.
proof fn lemma_four_digit_years(days: int)
    requires
        0 <= days <= 2_932_896,
    ensures
        1_970 <= civil_date(days).0 <= 9_999,
{
    reveal_with_fuel(days_before_month, 13);
    assert(names_day((1_970, 1, 1), 0));
    assert(names_day((9_999, 12, 31), 2_932_896));
    law_every_day_has_one_date(0, (1_970, 1, 1));
    law_every_day_has_one_date(2_932_896, (9_999, 12, 31));
    if 0 < days {
        law_later_days_have_later_dates(0, days);
    }
    if days < 2_932_896 {
        law_later_days_have_later_dates(days, 2_932_896);
    }
}

/// From 1970 to the end of the year 9999 later times have timestamps that come
/// later in lexicographic order.
pub proof fn law_later_times_have_later_timestamps(a: int, b: int)
    requires
        0 <= a < b <= 253_402_300_799,
    ensures
        utc_timestamp(a).len() == 20,
        utc_timestamp(b).len() == 20,
        text_before(utc_timestamp(a), utc_timestamp(b)),
{
    let (x, y) = (utc_timestamp(a), utc_timestamp(b));
    let (c, d) = (civil_date(a / 86_400), civil_date(b / 86_400));
    let (s, t) = (a % 86_400, b % 86_400);
    lemma_four_digit_years(a / 86_400);
    lemma_four_digit_years(b / 86_400);
    lemma_timestamp_places(a);
    lemma_timestamp_places(b);
    if a / 86_400 < b / 86_400 {
        law_later_days_have_later_dates(a / 86_400, b / 86_400);
    }
    assert(x.subrange(0, 0) =~= y.subrange(0, 0));
    if c.0 < d.0 {
        let k = lemma_padded_order(c.0, d.0, 4);
        lemma_parts_in_piece(x, y, 0, 4, k);
    } else {
        lemma_same_up_to(x, y, 0, 4);
        if c.1 < d.1 {
            let k = lemma_padded_order(c.1, d.1, 2);
            lemma_parts_in_piece(x, y, 5, 7, k);
        } else {
            lemma_same_up_to(x, y, 5, 7);
            if c.2 < d.2 {
                let k = lemma_padded_order(c.2, d.2, 2);
                lemma_parts_in_piece(x, y, 8, 10, k);
            } else {
                lemma_same_up_to(x, y, 8, 10);
                lemma_later_second_of_day(x, y, s, t);
            }
        }
    }
}

/// Two timestamps of one day, with the later second of the day in the second.
proof fn lemma_later_second_of_day(x: Seq<char>, y: Seq<char>, s: int, t: int)
    requires
        0 <= s < t < 86_400,
        x.len() == 20,
        y.len() == 20,
        x.subrange(0, 11) == y.subrange(0, 11),
        x[13] == ':' && y[13] == ':' && x[16] == ':' && y[16] == ':',
        x.subrange(11, 13) == zero_padded(s / 3_600, 2),
        y.subrange(11, 13) == zero_padded(t / 3_600, 2),
        x.subrange(14, 16) == zero_padded(s % 3_600 / 60, 2),
        y.subrange(14, 16) == zero_padded(t % 3_600 / 60, 2),
        x.subrange(17, 19) == zero_padded(s % 60, 2),
        y.subrange(17, 19) == zero_padded(t % 60, 2),
    ensures
        text_before(x, y),
{
    if s / 3_600 < t / 3_600 {
        let k = lemma_padded_order(s / 3_600, t / 3_600, 2);
        lemma_parts_in_piece(x, y, 11, 13, k);
    } else {
        lemma_same_up_to(x, y, 11, 13);
        if s % 3_600 / 60 < t % 3_600 / 60 {
            let k = lemma_padded_order(s % 3_600 / 60, t % 3_600 / 60, 2);
            lemma_parts_in_piece(x, y, 14, 16, k);
        } else {
            lemma_same_up_to(x, y, 14, 16);
            let k = lemma_padded_order(s % 60, t % 60, 2);
            lemma_parts_in_piece(x, y, 17, 19, k);
        }
    }
}

/// The date of the day `days_since_epoch` days after 1970-01-01.
#[verifier::rlimit(40)]
pub fn civil_from_days(days_since_epoch: i64) -> (r: (i64, i64, i64))
    requires
        days_since_epoch <= i64::MAX - 719_468,
    ensures
        names_day((r.0 as int, r.1 as int, r.2 as int), days_since_epoch as int),
        civil_date(days_since_epoch as int) == (r.0 as int, r.1 as int, r.2 as int),
{
    let days = days_since_epoch + 719_468;
    let era = if days >= 0 {
        days
    } else {
        days - 146_096
    } / 146_097;
    let day_of_era = days - era * 146_097;
    let year_of_era = (day_of_era - day_of_era / 1_460 + day_of_era / 36_524 - day_of_era / 146_096)
        / 365;
    proof {
        lemma_year_of_era(day_of_era as int);
    }
    let mut year = year_of_era + era * 400;
    let day_of_year = day_of_era - (365 * year_of_era + year_of_era / 4 - year_of_era / 100);
    proof {
        lemma_march_date(era as int, year_of_era as int, day_of_year as int);
    }
    let month_prime = (5 * day_of_year + 2) / 153;
    let day = day_of_year - (153 * month_prime + 2) / 5 + 1;
    let month = if month_prime < 10 {
        month_prime + 3
    } else {
        month_prime - 9
    };
    if month <= 2 {
        year = year + 1;
    }
    proof {
        let date = (year as int, month as int, day as int);
        assert(names_day(date, days_since_epoch as int));
        law_dates_are_unique(date, civil_date(days_since_epoch as int));
    }
    (year, month, day)
}

/// `n` in decimal notation, with zeros after the sign up to `width` characters.
fn zero_padded_of(n: i64, width: usize) -> (r: String)
    ensures
        r@ == zero_padded(n as int, width as nat),
{
    let mut out = String::new();
    let mut room: usize = width;
    let magnitude: u64 = if n < 0 {
        out.push('-');
        if room > 0 {
            room = room - 1;
        }
        (-(n + 1)) as u64 + 1
    } else {
        n as u64
    };
    let digits = decimal_of(magnitude);
    let ghost sign = out@;
    let used = digits.as_str().unicode_len();
    let mut i: usize = used;
    while i < room
        invariant
            used <= i,
            i <= room || i == used,
            out@ =~= sign + Seq::new((i - used) as nat, |j: int| '0'),
        decreases room - i,
    {
        out.push('0');
        i = i + 1;
    }
    out.append(digits.as_str());
    out
}

/// The day that a second lies in, and the second's number in it.
fn day_and_second(seconds_since_epoch: i64) -> (r: (i64, i64))
    ensures
        r.0 == (seconds_since_epoch as int) / 86_400,
        r.1 == (seconds_since_epoch as int) % 86_400,
{
    let day = seconds_since_epoch / SECONDS_PER_DAY;
    let second = seconds_since_epoch % SECONDS_PER_DAY;
    if second < 0 {
        (day - 1, second + SECONDS_PER_DAY)
    } else {
        (day, second)
    }
}

/// The UTC time `seconds_since_epoch` after 1970-01-01T00:00:00Z.
pub fn format_utc_timestamp(seconds_since_epoch: i64) -> (r: String)
    ensures
        r@ == utc_timestamp(seconds_since_epoch as int),
{
    let (days, second_of_day) = day_and_second(seconds_since_epoch);
    let (year, month, day) = civil_from_days(days);
    let mut out = zero_padded_of(year, 4);
    out.push('-');
    out.append(zero_padded_of(month, 2).as_str());
    out.push('-');
    out.append(zero_padded_of(day, 2).as_str());
    out.push('T');
    out.append(zero_padded_of(second_of_day / 3_600, 2).as_str());
    out.push(':');
    out.append(zero_padded_of(second_of_day % 3_600 / 60, 2).as_str());
    out.push(':');
    out.append(zero_padded_of(second_of_day % 60, 2).as_str());
    out.push('Z');
    out
}

proof fn lemma_zeros_write_nothing(zeros: nat, digits: Seq<char>)
    ensures
        number_written(Seq::new(zeros, |i: int| '0') + digits) == number_written(digits),
    decreases zeros + digits.len(),
{
    let all = Seq::new(zeros, |i: int| '0') + digits;
    if digits.len() > 0 {
        lemma_zeros_write_nothing(zeros, digits.drop_last());
        assert(all.drop_last() =~= Seq::new(zeros, |i: int| '0') + digits.drop_last());
        assert(all.last() == digits.last());
    } else if zeros > 0 {
        lemma_zeros_write_nothing((zeros - 1) as nat, digits);
        assert(all.drop_last() =~= Seq::new((zeros - 1) as nat, |i: int| '0') + digits);
        assert(all.last() == '0');
    } else {
        assert(all =~= digits);
    }
}

proof fn lemma_padding_writes_the_number(n: int, width: nat)
    requires
        n >= 0,
    ensures
        number_written(zero_padded(n, width)) == n,
{
    law_decimal_writes_the_number(n as nat);
    let digits = decimal(n as nat);
    let zeros: nat = if digits.len() < width {
        (width - digits.len()) as nat
    } else {
        0
    };
    lemma_zeros_write_nothing(zeros, digits);
    assert(zero_padded(n, width) =~= Seq::new(zeros, |i: int| '0') + digits);
}

/// A time that a signed number can hold is that number.
pub proof fn law_times_are_kept(seconds: u64)
    requires
        seconds <= i64::MAX,
    ensures
        signed_seconds(seconds) == seconds,
{
}

/// The number that a signed decimal writes.
pub open spec fn signed_written(text: Seq<char>) -> int {
    if text.len() > 0 && text[0] == '-' {
        -number_written(text.skip(1))
    } else {
        number_written(text)
    }
}

/// Every timestamp, of whatever year, is read as the time that it was made of. The
/// year is what stands before the last sixteen characters.
pub proof fn law_every_timestamp_tells_its_time(seconds: int)
    ensures
        ({
            let t = utc_timestamp(seconds);
            let n = t.len() - 16;
            let date = (
                signed_written(t.take(n)),
                number_written(t.subrange(n + 1, n + 3)),
                number_written(t.subrange(n + 4, n + 6)),
            );
            let hours = number_written(t.subrange(n + 7, n + 9));
            let minutes = number_written(t.subrange(n + 10, n + 12));
            let rest = number_written(t.subrange(n + 13, n + 15));
            &&& n >= 4
            &&& t[n] == '-' && t[n + 3] == '-' && t[n + 6] == 'T' && t[n + 9] == ':' && t[n + 12]
                == ':' && t[n + 15] == 'Z'
            &&& valid_date(date)
            &&& 0 <= hours < 24 && 0 <= minutes < 60 && 0 <= rest < 60
            &&& day_number(date) * 86_400 + hours * 3_600 + minutes * 60 + rest == seconds
        }),
{
    let date = civil_date(seconds / 86_400);
    let second_of_day = seconds % 86_400;
    law_every_day_has_one_date(seconds / 86_400, date);
    let year = zero_padded(date.0, 4);
    let month = zero_padded(date.1, 2);
    let day = zero_padded(date.2, 2);
    let hour = zero_padded(second_of_day / 3_600, 2);
    let minute = zero_padded(second_of_day % 3_600 / 60, 2);
    let second = zero_padded(second_of_day % 60, 2);
    lemma_zero_padded(date.1, 2);
    lemma_zero_padded(date.2, 2);
    lemma_zero_padded(second_of_day / 3_600, 2);
    lemma_zero_padded(second_of_day % 3_600 / 60, 2);
    lemma_zero_padded(second_of_day % 60, 2);
    lemma_signed_padding(date.0);
    lemma_padding_writes_the_number(date.1, 2);
    lemma_padding_writes_the_number(date.2, 2);
    lemma_padding_writes_the_number(second_of_day / 3_600, 2);
    lemma_padding_writes_the_number(second_of_day % 3_600 / 60, 2);
    lemma_padding_writes_the_number(second_of_day % 60, 2);
    let t = utc_timestamp(seconds);
    let n = t.len() - 16;
    assert(n == year.len());
    assert(t.take(n) =~= year);
    assert(t.subrange(n + 1, n + 3) =~= month);
    assert(t.subrange(n + 4, n + 6) =~= day);
    assert(t.subrange(n + 7, n + 9) =~= hour);
    assert(t.subrange(n + 10, n + 12) =~= minute);
    assert(t.subrange(n + 13, n + 15) =~= second);
    lemma_fundamental_div_mod(seconds, 86_400);
}

/// A year is written with its sign, and with four characters or more.
proof fn lemma_signed_padding(year: int)
    ensures
        signed_written(zero_padded(year, 4)) == year,
        zero_padded(year, 4).len() >= 4,
{
    let text = zero_padded(year, 4);
    if year >= 0 {
        lemma_padding_writes_the_number(year, 4);
        law_decimal_writes_the_number(year as nat);
        assert(text[0] != '-');
    } else {
        let digits = decimal((-year) as nat);
        law_decimal_writes_the_number((-year) as nat);
        let zeros: nat = if 1 + digits.len() < 4 {
            (3 - digits.len()) as nat
        } else {
            0
        };
        lemma_zeros_write_nothing(zeros, digits);
        assert(text =~= seq!['-'] + (Seq::new(zeros, |i: int| '0') + digits));
        assert(text.skip(1) =~= Seq::new(zeros, |i: int| '0') + digits);
    }
}

/// Every fourth year is a leap year, of those that end a century every fourth.
pub proof fn law_every_fourth_year_is_a_leap_year(year: int, century: int)
    ensures
        year % 4 != 0 ==> !is_leap_year(year),
        year % 4 == 0 && year % 100 != 0 ==> is_leap_year(year),
        is_leap_year(100 * century) <==> century % 4 == 0,
{
    let q = century / 4;
    let r = century % 4;
    let last = 100 * century;
    lemma_fundamental_div_mod(century, 4);
    lemma_fundamental_div_mod_converse(last, 400, q, 100 * r);
    lemma_fundamental_div_mod_converse(last, 100, century, 0);
    lemma_fundamental_div_mod_converse(last, 4, 25 * century, 0);
}

/// The calendar repeats itself after 400 years, which have 146097 days.
pub proof fn law_the_calendar_repeats_after_400_years(year: int)
    ensures
        is_leap_year(year + 400) == is_leap_year(year),
        days_before_year(year + 400) == days_before_year(year) + 146_097,
{
    assert((year - 1 + 400) / 4 == (year - 1) / 4 + 100);
    assert((year - 1 + 400) / 100 == (year - 1) / 100 + 4);
    assert((year - 1 + 400) / 400 == (year - 1) / 400 + 1);
}

/// The months have 31, 28, 31, 30, 31, 30, 31, 31, 30, 31, 30 and 31 days, the second
/// one more in a leap year.
pub proof fn law_months_have_their_days(year: int, month: int)
    requires
        1 <= month <= 12,
    ensures
        days_in_month(year, month) == seq![31int, 28, 31, 30, 31, 30, 31, 31, 30, 31, 30, 31][month
            - 1] + if month == 2 && is_leap_year(year) {
            1int
        } else {
            0
        },
{
}

} // verus!
