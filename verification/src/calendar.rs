//! The proleptic Gregorian calendar and the text of dates and times of day.

use vstd::prelude::*;

use crate::number;

verus! {

/// The seconds of one day.
pub const SECONDS_PER_DAY: i32 = 86_400;

/// The first year that the clock can show.
pub const FIRST_YEAR: i32 = -262_143;

/// The last year that the clock can show.
pub const LAST_YEAR: i32 = 262_142;

/// A date, with months and days counted from one.
pub struct Date {
    pub year: int,
    pub month: int,
    pub day: int,
}

pub open spec fn is_leap_year(year: int) -> bool {
    year % 4 == 0 && (year % 100 != 0 || year % 400 == 0)
}

pub open spec fn days_in_year(year: int) -> int {
    if is_leap_year(year) {
        366
    } else {
        365
    }
}

pub open spec fn days_in_month(year: int, month: int) -> int {
    if month == 2 {
        if is_leap_year(year) {
            29
        } else {
            28
        }
    } else if month == 4 || month == 6 || month == 9 || month == 11 {
        30
    } else {
        31
    }
}

/// The leap years from year 1 through `year`; for years before that, the negated number of
/// those after `year`.
pub open spec fn leap_years_through(year: int) -> int {
    year / 4 - year / 100 + year / 400
}

/// The days from 1970-01-01 to the first of January of `year`.
pub open spec fn days_before_year(year: int) -> int {
    365 * (year - 1970) + leap_years_through(year - 1) - leap_years_through(1969)
}

/// The days of `year` that lie before the first of `month`.
pub open spec fn days_before_month(year: int, month: int) -> int
    decreases month,
{
    if month <= 1 {
        0
    } else {
        days_before_month(year, month - 1) + days_in_month(year, month - 1)
    }
}

impl Date {
    /// Tells whether the calendar has this date.
    pub open spec fn valid(self) -> bool {
        &&& 1 <= self.month <= 12
        &&& 1 <= self.day <= days_in_month(self.year, self.month)
    }

    /// The days from 1970-01-01 to this date.
    pub open spec fn day_number(self) -> int {
        days_before_year(self.year) + days_before_month(self.year, self.month) + self.day - 1
    }
}

/// The date that lies `n` days after 1970-01-01.
pub open spec fn civil_date(n: int) -> Date {
    choose|date: Date| date.valid() && #[trigger] date.day_number() == n
}

/// Tells whether the clock can show the second `timestamp` after the epoch: whether its date
/// lies in the years from `FIRST_YEAR` to `LAST_YEAR`.
pub open spec fn in_calendar(timestamp: int) -> bool {
    days_before_year(FIRST_YEAR as int) * SECONDS_PER_DAY <= timestamp < days_before_year(
        LAST_YEAR + 1,
    ) * SECONDS_PER_DAY
}

/// `n` with at least four digits.
pub open spec fn four_digits(n: nat) -> Seq<char> {
    if n < 10_000 {
        number::two_digits(n as int / 100) + number::two_digits(n as int)
    } else {
        number::decimal(n)
    }
}

/// A year with at least four digits, and with its sign where it lies outside 0 to 9999.
pub open spec fn year_text(year: int) -> Seq<char> {
    if year < 0 {
        seq!['-'] + four_digits((-year) as nat)
    } else if year > 9999 {
        seq!['+'] + four_digits(year as nat)
    } else {
        four_digits(year as nat)
    }
}

/// A date as year, month and day.
pub open spec fn date_text(date: Date) -> Seq<char> {
    year_text(date.year) + seq!['-'] + number::two_digits(date.month) + seq!['-'] + number::two_digits(date.day)
}

/// A time of day, given in seconds since midnight, as hours, minutes and seconds.
pub open spec fn time_text(seconds: int) -> Seq<char> {
    number::two_digits(seconds / 3600) + seq![':'] + number::two_digits(seconds % 3600 / 60) + seq![':']
        + number::two_digits(seconds % 60)
}

/// What a clock shows that stands `seconds` after 1970-01-01 00:00:00.
pub open spec fn clock_text(seconds: int) -> Seq<char> {
    date_text(civil_date(seconds / SECONDS_PER_DAY as int)) + seq![' '] + time_text(
        seconds % SECONDS_PER_DAY as int,
    )
}

/// An offset from UTC, in seconds to the east, as a sign, hours and minutes, and as seconds
/// where there are some.
pub open spec fn offset_text(east: int) -> Seq<char> {
    let size = if east < 0 {
        -east
    } else {
        east
    };
    let sign = if east < 0 {
        seq!['-']
    } else {
        seq!['+']
    };
    let hours_minutes = sign + number::two_digits(size / 3600) + seq![':'] + number::two_digits(size / 60 % 60);
    if size % 60 == 0 {
        hours_minutes
    } else {
        hours_minutes + seq![':'] + number::two_digits(size % 60)
    }
}

proof fn lemma_div_step(x: int, d: int)
    requires
        d > 1,
    ensures
        x / d == (x - 1) / d + if x % d == 0 {
            1int
        } else {
            0
        },
{
    let q = x / d;
    let r = x % d;
    vstd::arithmetic::div_mod::lemma_fundamental_div_mod(x, d);
    if r == 0 {
        assert(d * (q - 1) == d * q - d) by (nonlinear_arith);
        vstd::arithmetic::div_mod::lemma_fundamental_div_mod_converse(x - 1, d, q - 1, d - 1);
    } else {
        vstd::arithmetic::div_mod::lemma_fundamental_div_mod_converse(x - 1, d, q, r - 1);
    }
}

proof fn lemma_next_year(year: int)
    ensures
        days_before_year(year + 1) == days_before_year(year) + days_in_year(year),
{
    lemma_div_step(year, 4);
    lemma_div_step(year, 100);
    lemma_div_step(year, 400);
    assert(year % 400 == 0 ==> year % 100 == 0);
    assert(year % 100 == 0 ==> year % 4 == 0);
}

proof fn lemma_years(a: int, b: int)
    requires
        a < b,
    ensures
        days_before_year(a) + days_in_year(a) <= days_before_year(b),
    decreases b - a,
{
    lemma_next_year(b - 1);
    if a < b - 1 {
        lemma_years(a, b - 1);
    }
}

proof fn lemma_months(year: int, a: int, b: int)
    requires
        1 <= a < b <= 13,
    ensures
        0 <= days_before_month(year, a),
        days_before_month(year, a) + days_in_month(year, a) <= days_before_month(year, b),
    decreases b,
{
    if a < b - 1 {
        lemma_months(year, a, b - 1);
    }
    if a > 1 {
        lemma_months(year, 1, a);
    }
}

proof fn lemma_year_of_months(year: int)
    ensures
        days_before_month(year, 13) == days_in_year(year),
{
    reveal_with_fuel(days_before_month, 13);
}

proof fn lemma_day_in_year(date: Date)
    requires
        date.valid(),
    ensures
        days_before_year(date.year) <= date.day_number() < days_before_year(date.year)
            + days_in_year(date.year),
{
    lemma_months(date.year, date.month, 13);
    lemma_year_of_months(date.year);
}

/// No two dates of the calendar have the same day number.
pub proof fn date_unique(a: Date, b: Date)
    requires
        a.valid(),
        b.valid(),
        a.day_number() == b.day_number(),
    ensures
        a == b,
{
    lemma_day_in_year(a);
    lemma_day_in_year(b);
    if a.year < b.year {
        lemma_years(a.year, b.year);
    } else if b.year < a.year {
        lemma_years(b.year, a.year);
    } else if a.month < b.month {
        lemma_months(a.year, a.month, b.month);
    } else if b.month < a.month {
        lemma_months(a.year, b.month, a.month);
    }
}

/// Every day number belongs to a date of the calendar.
pub proof fn date_exists(n: int)
    ensures
        civil_date(n).valid(),
        civil_date(n).day_number() == n,
    decreases
            if n < 0 {
                -n
            } else {
                n
            },
{
    reveal_with_fuel(days_before_month, 2);
    if n == 0 {
        let date = Date { year: 1970, month: 1, day: 1 };
        assert(date.valid() && date.day_number() == n);
    } else if n > 0 {
        date_exists(n - 1);
        let last = civil_date(n - 1);
        lemma_year_of_months(last.year);
        lemma_next_year(last.year);
        let date = if last.day < days_in_month(last.year, last.month) {
            Date { day: last.day + 1, ..last }
        } else if last.month < 12 {
            Date { month: last.month + 1, day: 1, ..last }
        } else {
            Date { year: last.year + 1, month: 1, day: 1 }
        };
        assert(date.valid() && date.day_number() == n);
    } else {
        date_exists(n + 1);
        let next = civil_date(n + 1);
        lemma_year_of_months(next.year - 1);
        lemma_next_year(next.year - 1);
        let date = if next.day > 1 {
            Date { day: next.day - 1, ..next }
        } else if next.month > 1 {
            Date {
                month: next.month - 1,
                day: days_in_month(next.year, next.month - 1),
                ..next
            }
        } else {
            Date { year: next.year - 1, month: 12, day: 31 }
        };
        assert(date.valid() && date.day_number() == n);
    }
}

/// A date of the calendar is the one that its day number leads to.
pub proof fn date_of_day_number(date: Date)
    requires
        date.valid(),
    ensures
        civil_date(date.day_number()) == date,
{
    date_exists(date.day_number());
    date_unique(civil_date(date.day_number()), date);
}

proof fn lemma_digit_chars(a: int, b: int)
    requires
        0 <= a < 10,
        0 <= b < 10,
        number::digit_char(a) == number::digit_char(b),
    ensures
        a == b,
{
    assert(number::digit_char(a) as u32 == 48 + a);
    assert(number::digit_char(b) as u32 == 48 + b);
}

proof fn lemma_two_digits(a: int, b: int)
    requires
        0 <= a < 100,
        0 <= b < 100,
        number::two_digits(a) == number::two_digits(b),
    ensures
        a == b,
{
    let x = number::two_digits(a);
    let y = number::two_digits(b);
    assert(x[0] == y[0] && x[1] == y[1]);
    lemma_digit_chars(a / 10 % 10, b / 10 % 10);
    lemma_digit_chars(a % 10, b % 10);
}

/// Two equal texts with ends of the same length are equal in both parts.
pub proof fn lemma_parts(a: Seq<char>, b: Seq<char>, c: Seq<char>, d: Seq<char>)
    requires
        a + b == c + d,
        b.len() == d.len(),
    ensures
        a == c,
        b == d,
{
    let left = a + b;
    let right = c + d;
    assert(left.len() == a.len() + b.len());
    assert(right.len() == c.len() + d.len());
    let n = a.len() as int;
    assert(left.take(n) =~= a);
    assert(right.take(n) =~= c);
    assert(left.skip(n) =~= b);
    assert(right.skip(n) =~= d);
}

proof fn lemma_digits_of(q: int, t: int, u: int)
    requires
        0 <= t < 10,
        0 <= u < 10,
    ensures
        (100 * q + 10 * t + u) / 10 % 10 == t,
        (100 * q + 10 * t + u) % 10 == u,
{
    let n = 100 * q + 10 * t + u;
    assert(n / 10 == 10 * q + t);
    assert((10 * q + t) % 10 == t);
}

proof fn lemma_low_digits(n: int)
    requires
        0 <= n < 10_000,
    ensures
        number::two_digits(n) == number::two_digits(n % 100),
        0 <= n / 100 < 100,
        n == n / 100 * 100 + n % 100,
{
    let rest = n % 100;
    lemma_digits_of(n / 100, rest / 10, rest % 10);
    lemma_digits_of(0, rest / 10, rest % 10);
}

proof fn lemma_four_digits(a: nat, b: nat)
    requires
        four_digits(a) == four_digits(b),
        a < 10_000 <==> b < 10_000,
    ensures
        a == b,
{
    if a < 10_000 {
        let x = a as int;
        let y = b as int;
        lemma_parts(
            number::two_digits(x / 100),
            number::two_digits(x),
            number::two_digits(y / 100),
            number::two_digits(y),
        );
        lemma_low_digits(x);
        lemma_low_digits(y);
        lemma_two_digits(x / 100, y / 100);
        lemma_two_digits(x % 100, y % 100);
    } else {
        number::lemma_decimal(a);
        number::lemma_decimal(b);
    }
}

proof fn lemma_four_digits_len(n: nat)
    ensures
        four_digits(n).len() >= 4,
        four_digits(n).len() == 4 <==> n < 10_000,
        number::is_digit(four_digits(n)[0]),
{
    number::lemma_decimal(n);
    if n >= 10_000 {
        reveal_with_fuel(number::decimal, 5);
        number::lemma_decimal(n / 10_000);
    } else {
        let tens = n as int / 100 / 10 % 10;
        assert(four_digits(n)[0] == number::digit_char(tens));
    }
}

proof fn lemma_year_text(a: int, b: int)
    requires
        year_text(a) == year_text(b),
    ensures
        a == b,
{
    let x = if a < 0 {
        (-a) as nat
    } else {
        a as nat
    };
    let y = if b < 0 {
        (-b) as nat
    } else {
        b as nat
    };
    lemma_four_digits_len(x);
    lemma_four_digits_len(y);
    let s = year_text(a);
    let t = year_text(b);
    assert(s[0] == t[0]);
    assert(a < 0 ==> s.drop_first() =~= four_digits(x));
    assert(a > 9999 ==> s.drop_first() =~= four_digits(x));
    assert(b < 0 ==> t.drop_first() =~= four_digits(y));
    assert(b > 9999 ==> t.drop_first() =~= four_digits(y));
    lemma_four_digits(x, y);
}

proof fn lemma_date_text(a: Date, b: Date)
    requires
        a.valid(),
        b.valid(),
        date_text(a) == date_text(b),
    ensures
        a == b,
{
    let dash = seq!['-'];
    let a_month = number::two_digits(a.month);
    let b_month = number::two_digits(b.month);
    let a_day = number::two_digits(a.day);
    let b_day = number::two_digits(b.day);
    let a_year = year_text(a.year);
    let b_year = year_text(b.year);
    lemma_parts(a_year + dash + a_month + dash, a_day, b_year + dash + b_month + dash, b_day);
    lemma_parts(a_year + dash + a_month, dash, b_year + dash + b_month, dash);
    lemma_parts(a_year + dash, a_month, b_year + dash, b_month);
    lemma_parts(a_year, dash, b_year, dash);
    lemma_two_digits(a.day, b.day);
    lemma_two_digits(a.month, b.month);
    lemma_year_text(a.year, b.year);
}

proof fn lemma_time_parts(a: int)
    requires
        0 <= a < SECONDS_PER_DAY,
    ensures
        0 <= a / 3600 < 24,
        0 <= a % 3600 / 60 < 60,
        a == 3600 * (a / 3600) + 60 * (a % 3600 / 60) + a % 60,
{
    let rest = a % 3600;
    assert(a == 3600 * (a / 3600) + rest);
    assert(rest == 60 * (rest / 60) + rest % 60);
    assert(rest % 60 == a % 60);
}

proof fn lemma_time_text(a: int, b: int)
    requires
        0 <= a < SECONDS_PER_DAY,
        0 <= b < SECONDS_PER_DAY,
        time_text(a) == time_text(b),
    ensures
        a == b,
{
    let colon = seq![':'];
    let a_hour = number::two_digits(a / 3600);
    let b_hour = number::two_digits(b / 3600);
    let a_minute = number::two_digits(a % 3600 / 60);
    let b_minute = number::two_digits(b % 3600 / 60);
    let a_second = number::two_digits(a % 60);
    let b_second = number::two_digits(b % 60);
    lemma_parts(
        a_hour + colon + a_minute + colon,
        a_second,
        b_hour + colon + b_minute + colon,
        b_second,
    );
    lemma_parts(a_hour + colon + a_minute, colon, b_hour + colon + b_minute, colon);
    lemma_parts(a_hour + colon, a_minute, b_hour + colon, b_minute);
    lemma_parts(a_hour, colon, b_hour, colon);
    lemma_time_parts(a);
    lemma_time_parts(b);
    lemma_two_digits(a / 3600, b / 3600);
    lemma_two_digits(a % 3600 / 60, b % 3600 / 60);
    lemma_two_digits(a % 60, b % 60);
}

proof fn lemma_clock_parts(a_date: Date, a_time: int, b_date: Date, b_time: int)
    requires
        a_date.valid(),
        b_date.valid(),
        0 <= a_time < SECONDS_PER_DAY,
        0 <= b_time < SECONDS_PER_DAY,
        date_text(a_date) + seq![' '] + time_text(a_time) == date_text(b_date) + seq![' ']
            + time_text(b_time),
    ensures
        a_date == b_date,
        a_time == b_time,
{
    let space = seq![' '];
    assert(time_text(a_time).len() == 8 && time_text(b_time).len() == 8);
    lemma_parts(
        date_text(a_date) + space,
        time_text(a_time),
        date_text(b_date) + space,
        time_text(b_time),
    );
    lemma_parts(date_text(a_date), space, date_text(b_date), space);
    lemma_date_text(a_date, b_date);
    lemma_time_text(a_time, b_time);
}

/// A clock never shows the same at two different seconds.
pub proof fn clock_text_determines_second(a: int, b: int)
    requires
        clock_text(a) == clock_text(b),
    ensures
        a == b,
{
    let day = SECONDS_PER_DAY as int;
    date_exists(a / day);
    date_exists(b / day);
    lemma_clock_parts(civil_date(a / day), a % day, civil_date(b / day), b % day);
}

/// The days of a month: 31, but 30 in April, June, September and November, and 28 in February,
/// or 29 in each fourth year, but for centuries that four does not divide.
pub proof fn months_have_their_days(year: int, month: int)
    requires
        1 <= month <= 12,
    ensures
        month == 2 && year % 4 != 0 ==> days_in_month(year, month) == 28,
        month == 2 && year % 100 == 0 && year % 400 != 0 ==> days_in_month(year, month) == 28,
        month == 2 && year % 4 == 0 && year % 100 != 0 ==> days_in_month(year, month) == 29,
        month == 2 && year % 400 == 0 ==> days_in_month(year, month) == 29,
        month == 4 || month == 6 || month == 9 || month == 11 ==> days_in_month(year, month) == 30,
        month == 1 || month == 3 || month == 5 || month == 7 || month == 8 || month == 10 || month
            == 12 ==> days_in_month(year, month) == 31,
{
    assert(year % 400 == 0 ==> year % 4 == 0);
}

/// The calendar starts with 1970-01-01, and each day is followed by the next one: within the
/// month, then on the first of the next month, and behind December on the first of January.
pub proof fn each_day_is_followed_by_the_next(n: int)
    ensures
        civil_date(0) == (Date { year: 1970, month: 1, day: 1 }),
        1 <= civil_date(n).month <= 12,
        1 <= civil_date(n).day <= days_in_month(civil_date(n).year, civil_date(n).month),
        ({
            let today = civil_date(n);
            let last = today.day == days_in_month(today.year, today.month);
            &&& !last ==> civil_date(n + 1) == (Date { day: today.day + 1, ..today })
            &&& last && today.month < 12 ==> civil_date(n + 1) == (Date {
                month: today.month + 1,
                day: 1,
                ..today
            })
            &&& last && today.month == 12 ==> civil_date(n + 1) == (Date {
                year: today.year + 1,
                month: 1,
                day: 1,
            })
        }),
{
    reveal_with_fuel(days_before_month, 2);
    date_of_day_number(Date { year: 1970, month: 1, day: 1 });
    date_exists(n);
    let today = civil_date(n);
    lemma_year_of_months(today.year);
    lemma_next_year(today.year);
    let date = if today.day < days_in_month(today.year, today.month) {
        Date { day: today.day + 1, ..today }
    } else if today.month < 12 {
        Date { month: today.month + 1, day: 1, ..today }
    } else {
        Date { year: today.year + 1, month: 1, day: 1 }
    };
    assert(date.valid() && date.day_number() == n + 1);
    date_of_day_number(date);
}

/// The number that the two digits of `s` from `i` on stand for.
pub open spec fn pair_at(s: Seq<char>, i: int) -> int {
    (s[i] as u32 - 48) * 10 + (s[i + 1] as u32 - 48)
}

/// A time of day is spelled with two digits each for its hours, minutes and seconds, and colons
/// between them.
#[verifier::spinoff_prover]
pub proof fn time_of_day_is_spelled_out(seconds: int)
    requires
        0 <= seconds < 86_400,
    ensures
        time_text(seconds).len() == 8,
        time_text(seconds)[2] == ':',
        time_text(seconds)[5] == ':',
        pair_at(time_text(seconds), 0) * 3600 + pair_at(time_text(seconds), 3) * 60 + pair_at(
            time_text(seconds),
            6,
        ) == seconds,
        0 <= pair_at(time_text(seconds), 0) < 24,
        0 <= pair_at(time_text(seconds), 3) < 60,
        0 <= pair_at(time_text(seconds), 6) < 60,
{
    let s = time_text(seconds);
    let hours = number::two_digits(seconds / 3600);
    let minutes = number::two_digits(seconds % 3600 / 60);
    let rest = number::two_digits(seconds % 60);
    lemma_time_parts(seconds);
    number::two_digits_stand_for_the_number(seconds / 3600);
    number::two_digits_stand_for_the_number(seconds % 3600 / 60);
    number::two_digits_stand_for_the_number(seconds % 60);
    assert(s[0] == hours[0] && s[1] == hours[1]);
    assert(s[3] == minutes[0] && s[4] == minutes[1]);
    assert(s[6] == rest[0] && s[7] == rest[1]);
}

/// A date is spelled as its year, and two digits each for its month and its day, with dashes
/// between them.
#[verifier::spinoff_prover]
pub proof fn date_is_spelled_out(date: Date)
    requires
        date.valid(),
    ensures
        ({
            let s = date_text(date);
            let n = s.len() - 6;
            &&& n >= 4
            &&& s.take(n) == year_text(date.year)
            &&& s[n] == '-' && s[n + 3] == '-'
            &&& pair_at(s, n + 1) == date.month
            &&& pair_at(s, n + 4) == date.day
        }),
{
    let s = date_text(date);
    let year = year_text(date.year);
    let month = number::two_digits(date.month);
    let day = number::two_digits(date.day);
    let size = if date.year < 0 {
        (-date.year) as nat
    } else {
        date.year as nat
    };
    lemma_four_digits_len(size);
    number::two_digits_stand_for_the_number(date.month);
    number::two_digits_stand_for_the_number(date.day);
    let n = year.len() as int;
    assert(s.len() == n + 6);
    assert(s.take(n) =~= year);
    assert(s[n + 1] == month[0] && s[n + 2] == month[1]);
    assert(s[n + 4] == day[0] && s[n + 5] == day[1]);
}

/// A year from 0 to 9999 is spelled with four digits; a later one is its decimal notation behind
/// a plus sign.
pub proof fn year_is_spelled_out(year: int)
    requires
        year >= 0,
    ensures
        year <= 9999 ==> year_text(year).len() == 4 && pair_at(year_text(year), 0) * 100 + pair_at(
            year_text(year),
            2,
        ) == year,
        year > 9999 ==> year_text(year) == seq!['+'] + number::decimal(year as nat),
{
    if year <= 9999 {
        let s = year_text(year);
        let high = number::two_digits(year / 100);
        let low = number::two_digits(year);
        lemma_low_digits(year);
        number::two_digits_stand_for_the_number(year / 100);
        number::two_digits_stand_for_the_number(year % 100);
        assert(s[0] == high[0] && s[1] == high[1] && s[2] == low[0] && s[3] == low[1]);
    }
}

/// A clock shows the date and the time of day to which its seconds add up, with a space between
/// them.
pub proof fn clock_shows_date_and_time_of_day(seconds: int, day: int, time: int)
    requires
        seconds == 86_400 * day + time,
        0 <= time < 86_400,
    ensures
        clock_text(seconds) == date_text(civil_date(day)) + seq![' '] + time_text(time),
{
    assert(seconds / 86_400 == day && seconds % 86_400 == time);
}

proof fn lemma_offset_parts(size: int)
    requires
        0 <= size < SECONDS_PER_DAY,
    ensures
        0 <= size / 3600 < 24,
        0 <= size / 60 % 60 < 60,
        size == 3600 * (size / 3600) + 60 * (size / 60 % 60) + size % 60,
{
    lemma_time_parts(size);
    let hours = size / 3600;
    let rest = size % 3600;
    let minutes = rest / 60;
    assert(size == 3600 * hours + rest);
    assert(size / 60 == 60 * hours + minutes);
    assert((60 * hours + minutes) % 60 == minutes);
}

/// An offset is spelled with its sign and two digits each for its hours and minutes, and for its
/// seconds where there are some.
#[verifier::spinoff_prover]
pub proof fn offset_is_spelled_out(east: int)
    requires
        -86_400 < east < 86_400,
    ensures
        ({
            let s = offset_text(east);
            let size = if east < 0 {
                -east
            } else {
                east
            };
            &&& s[0] == '-' <==> east < 0
            &&& s[0] == '+' <==> east >= 0
            &&& s[3] == ':'
            &&& size % 60 == 0 ==> s.len() == 6 && pair_at(s, 1) * 3600 + pair_at(s, 4) * 60
                == size
            &&& size % 60 != 0 ==> s.len() == 9 && s[6] == ':' && pair_at(s, 1) * 3600 + pair_at(
                s,
                4,
            ) * 60 + pair_at(s, 7) == size
            &&& 0 <= pair_at(s, 4) < 60
        }),
{
    let s = offset_text(east);
    let size = if east < 0 {
        -east
    } else {
        east
    };
    lemma_offset_parts(size);
    let hours = number::two_digits(size / 3600);
    let minutes = number::two_digits(size / 60 % 60);
    let seconds = number::two_digits(size % 60);
    number::two_digits_stand_for_the_number(size / 3600);
    number::two_digits_stand_for_the_number(size / 60 % 60);
    number::two_digits_stand_for_the_number(size % 60);
    assert(s[1] == hours[0] && s[2] == hours[1]);
    assert(s[4] == minutes[0] && s[5] == minutes[1]);
    if size % 60 != 0 {
        assert(s[7] == seconds[0] && s[8] == seconds[1]);
    }
}

/// From the epoch on, a clock can show every second up to the end of the year 262142.
pub proof fn clock_ends_with_its_last_year(timestamp: int)
    requires
        timestamp >= 0,
    ensures
        in_calendar(timestamp) <==> timestamp < 8_210_266_876_800,
{
}

} // verus!
