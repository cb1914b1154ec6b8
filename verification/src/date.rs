//! Calendar dates and weekdays.
//!
//! `Date` holds a proleptic Gregorian date as plain numbers. The calendar
//! arithmetic that chrono provides (parsing, next and previous day, weekday,
//! the current date) is reached through the small trusted wrappers at the end
//! of this module.

use chrono::{Datelike, NaiveDate};
use vstd::prelude::*;

verus! {

/// The earliest year a date can have.
pub const MIN_YEAR: i32 = -262143;

/// The latest year a date can have.
pub const MAX_YEAR: i32 = 262142;

pub open spec fn is_leap(y: int) -> bool {
    y % 4 == 0 && (y % 100 != 0 || y % 400 == 0)
}

pub open spec fn days_in_month(y: int, m: int) -> int {
    if m == 2 {
        if is_leap(y) {
            29
        } else {
            28
        }
    } else if m == 4 || m == 6 || m == 9 || m == 11 {
        30
    } else {
        31
    }
}

pub open spec fn valid_ymd(y: int, m: int, d: int) -> bool {
    &&& MIN_YEAR <= y <= MAX_YEAR
    &&& 1 <= m <= 12
    &&& 1 <= d <= days_in_month(y, m)
}

/// A calendar date: year, month (1–12) and day of the month.
#[derive(Clone, Copy, Debug, PartialEq, Eq, Structural, PartialOrd, Ord, Hash)]
pub struct Date {
    pub year: i32,
    pub month: u32,
    pub day: u32,
}

impl Date {
    /// The date names a day of the calendar that dates can reach.
    pub open spec fn valid(self) -> bool {
        valid_ymd(self.year as int, self.month as int, self.day as int)
    }

    /// Strict chronological order.
    pub open spec fn before(self, other: Date) -> bool {
        ||| self.year < other.year
        ||| (self.year == other.year && self.month < other.month)
        ||| (self.year == other.year && self.month == other.month && self.day < other.day)
    }
}

/// The day after `d`, if there is one.
pub open spec fn next_day(d: Date) -> Option<Date> {
    if d.day < days_in_month(d.year as int, d.month as int) {
        Some(Date { year: d.year, month: d.month, day: (d.day + 1) as u32 })
    } else if d.month < 12 {
        Some(Date { year: d.year, month: (d.month + 1) as u32, day: 1 })
    } else if d.year < MAX_YEAR {
        Some(Date { year: (d.year + 1) as i32, month: 1, day: 1 })
    } else {
        None
    }
}

/// The day before `d`, if there is one.
pub open spec fn prev_day(d: Date) -> Option<Date> {
    if d.day > 1 {
        Some(Date { year: d.year, month: d.month, day: (d.day - 1) as u32 })
    } else if d.month > 1 {
        Some(
            Date {
                year: d.year,
                month: (d.month - 1) as u32,
                day: days_in_month(d.year as int, d.month - 1) as u32,
            },
        )
    } else if d.year > MIN_YEAR {
        Some(Date { year: (d.year - 1) as i32, month: 12, day: 31 })
    } else {
        None
    }
}

/// The days of the years before `y` back to year 1, negative before it.
pub open spec fn days_before_year(y: int) -> int {
    let p = y - 1;
    365 * p + p / 4 - p / 100 + p / 400
}

/// The days of the months of year `y` before month `m`.
pub open spec fn days_before_month(y: int, m: int) -> int {
    let base: int = if m == 1 {
        0
    } else if m == 2 {
        31
    } else if m == 3 {
        59
    } else if m == 4 {
        90
    } else if m == 5 {
        120
    } else if m == 6 {
        151
    } else if m == 7 {
        181
    } else if m == 8 {
        212
    } else if m == 9 {
        243
    } else if m == 10 {
        273
    } else if m == 11 {
        304
    } else {
        334
    };
    base + if m > 2 && is_leap(y) {
        1int
    } else {
        0int
    }
}

/// The day count of a date in the proleptic Gregorian calendar, 0001-01-01
/// being day 1.
pub open spec fn day_number(y: int, m: int, d: int) -> int {
    days_before_year(y) + days_before_month(y, m) + d
}

/// The days from `a` to `b`: positive when `b` comes later.
pub open spec fn days_between(a: Date, b: Date) -> int {
    day_number(b.year as int, b.month as int, b.day as int) - day_number(
        a.year as int,
        a.month as int,
        a.day as int,
    )
}

/// Days since Monday of the weekday of a date; 0001-01-01 was a Monday.
pub open spec fn weekday_number(y: int, m: int, d: int) -> int {
    (day_number(y, m, d) + 6) % 7
}

proof fn lemma_div_step(y: int, k: int)
    requires
        k == 4 || k == 100 || k == 400,
    ensures
        y / k == (y - 1) / k + if y % k == 0 {
            1int
        } else {
            0int
        },
{
}

proof fn lemma_year_length(y: int)
    ensures
        days_before_year(y + 1) == days_before_year(y) + 365 + if is_leap(y) {
            1int
        } else {
            0int
        },
{
    lemma_div_step(y, 4);
    lemma_div_step(y, 100);
    lemma_div_step(y, 400);
}

/// The next day's count is one more.
pub proof fn lemma_next_day_number(d: Date)
    requires
        d.valid(),
    ensures
        next_day(d) matches Some(n) ==> day_number(n.year as int, n.month as int, n.day as int)
            == day_number(d.year as int, d.month as int, d.day as int) + 1,
{
    if d.day < days_in_month(d.year as int, d.month as int) {
    } else if d.month < 12 {
        assert(days_before_month(d.year as int, d.month + 1) == days_before_month(
            d.year as int,
            d.month as int,
        ) + days_in_month(d.year as int, d.month as int));
    } else if d.year < MAX_YEAR {
        lemma_year_length(d.year as int);
    }
}

/// The next day's weekday follows the weekday of a date.
pub proof fn lemma_next_weekday(d: Date)
    requires
        d.valid(),
    ensures
        next_day(d) matches Some(n) ==> weekday_number(n.year as int, n.month as int, n.day as int)
            == (weekday_number(d.year as int, d.month as int, d.day as int) + 1) % 7,
{
    lemma_next_day_number(d);
    if let Some(n) = next_day(d) {
        let x = day_number(d.year as int, d.month as int, d.day as int);
        assert((x + 1 + 6) % 7 == ((x + 6) % 7 + 1) % 7) by (nonlinear_arith);
    }
}

pub proof fn lemma_next_day_valid(d: Date)
    requires
        d.valid(),
    ensures
        next_day(d) matches Some(n) ==> n.valid() && d.before(n),
{
}

pub proof fn lemma_prev_day_valid(d: Date)
    requires
        d.valid(),
    ensures
        prev_day(d) matches Some(p) ==> p.valid() && p.before(d),
{
}

/// Moving a year by a thousand 400-year cycles moves its day count by as
/// many cycles of 146097 days, and keeps whether it is a leap year.
proof fn lemma_shifted_year(y: int)
    requires
        MIN_YEAR <= y <= MAX_YEAR,
    ensures
        ({
            let q = y + 399999;
            365 * q + q / 4 - q / 100 + q / 400 - 146097 * 1000 == days_before_year(y)
        }),
        ({
            let u = y + 400000;
            (u % 4 == 0 && (u % 100 != 0 || u % 400 == 0)) == is_leap(y)
        }),
{
    let p = y - 1;
    let q = y + 399999;
    let u = y + 400000;
    assert(q / 4 == p / 4 + 100000);
    assert(q / 100 == p / 100 + 4000);
    assert(q / 400 == p / 400 + 1000);
    assert(u % 4 == y % 4);
    assert(u % 100 == y % 100);
    assert(u % 400 == y % 400);
}

/// The day count of a date, 0001-01-01 being day 1.
pub fn day_count(d: Date) -> (r: i64)
    requires
        d.valid(),
    ensures
        r == day_number(d.year as int, d.month as int, d.day as int),
{
    // Whole 400-year cycles (146097 days each) are added to the year, so that
    // the divisions below work on non-negative numbers, and taken off again.
    let u: i64 = d.year as i64 + 400000;
    let q: i64 = u - 1;
    let years: i64 = 365 * q + q / 4 - q / 100 + q / 400 - 146097 * 1000;
    let leap: bool = u % 4 == 0 && (u % 100 != 0 || u % 400 == 0);
    proof {
        lemma_shifted_year(d.year as int);
    }
    let base: i64 = match d.month {
        1 => 0,
        2 => 31,
        3 => 59,
        4 => 90,
        5 => 120,
        6 => 151,
        7 => 181,
        8 => 212,
        9 => 243,
        10 => 273,
        11 => 304,
        _ => 334,
    };
    let extra: i64 = if d.month > 2 && leap {
        1
    } else {
        0
    };
    years + base + extra + d.day as i64
}

/// A day of the week.
#[derive(Clone, Copy, Debug, PartialEq, Eq, Structural, Hash)]
pub enum Weekday {
    Mon,
    Tue,
    Wed,
    Thu,
    Fri,
    Sat,
    Sun,
}

impl Weekday {
    /// Days since Monday.
    pub open spec fn index(self) -> int {
        match self {
            Weekday::Mon => 0,
            Weekday::Tue => 1,
            Weekday::Wed => 2,
            Weekday::Thu => 3,
            Weekday::Fri => 4,
            Weekday::Sat => 5,
            Weekday::Sun => 6,
        }
    }

    /// Days since Monday.
    pub fn num_days_from_monday(&self) -> (r: u32)
        ensures
            r == self.index(),
    {
        match self {
            Weekday::Mon => 0,
            Weekday::Tue => 1,
            Weekday::Wed => 2,
            Weekday::Thu => 3,
            Weekday::Fri => 4,
            Weekday::Sat => 5,
            Weekday::Sun => 6,
        }
    }
}

// ---------------------------------------------------------------------------
// Text form of a date

pub open spec fn digit(n: int) -> char {
    if n == 0 {
        '0'
    } else if n == 1 {
        '1'
    } else if n == 2 {
        '2'
    } else if n == 3 {
        '3'
    } else if n == 4 {
        '4'
    } else if n == 5 {
        '5'
    } else if n == 6 {
        '6'
    } else if n == 7 {
        '7'
    } else if n == 8 {
        '8'
    } else {
        '9'
    }
}

pub open spec fn is_digit(c: char) -> bool {
    '0' <= c && c <= '9'
}

/// The value of a decimal digit.
pub open spec fn digit_value(c: char) -> int {
    (c as int) - ('0' as int)
}

pub proof fn lemma_digit(n: int)
    requires
        0 <= n <= 9,
    ensures
        is_digit(digit(n)),
        digit_value(digit(n)) == n,
{
}

/// Decimal digits of `n`, without leading zeros.
pub open spec fn decimal(n: nat) -> Seq<char>
    decreases n,
{
    if n < 10 {
        seq![digit(n as int)]
    } else {
        decimal(n / 10) + seq![digit((n % 10) as int)]
    }
}

/// Decimal digits of `n`, padded with zeros to at least four digits.
pub open spec fn decimal4(n: nat) -> Seq<char> {
    let ds = decimal(n);
    if ds.len() < 4 {
        Seq::new((4 - ds.len()) as nat, |i: int| '0') + ds
    } else {
        ds
    }
}

/// The year as chrono writes it: four digits for years 0 to 9999, otherwise
/// an explicit sign followed by at least four digits.
pub open spec fn year_text(y: int) -> Seq<char> {
    if 0 <= y <= 9999 {
        seq![digit(y / 1000), digit((y / 100) % 10), digit((y / 10) % 10), digit(y % 10)]
    } else if y < 0 {
        seq!['-'] + decimal4((-y) as nat)
    } else {
        seq!['+'] + decimal4(y as nat)
    }
}

pub open spec fn two_digits(n: int) -> Seq<char> {
    seq![digit(n / 10), digit(n % 10)]
}

/// `YYYY-MM-DD`, as a date is displayed.
pub open spec fn date_text(d: Date) -> Seq<char> {
    year_text(d.year as int) + seq!['-'] + two_digits(d.month as int) + seq!['-'] + two_digits(
        d.day as int,
    )
}

/// A ten-character `YYYY-MM-DD` text with a four-digit year.
pub open spec fn is_plain_date_text(t: Seq<char>) -> bool {
    &&& t.len() == 10
    &&& is_digit(t[0]) && is_digit(t[1]) && is_digit(t[2]) && is_digit(t[3])
    &&& t[4] == '-'
    &&& is_digit(t[5]) && is_digit(t[6])
    &&& t[7] == '-'
    &&& is_digit(t[8]) && is_digit(t[9])
    &&& valid_ymd(plain_year(t), plain_month(t), plain_day(t))
}

pub open spec fn plain_year(t: Seq<char>) -> int {
    digit_value(t[0]) * 1000 + digit_value(t[1]) * 100 + digit_value(t[2]) * 10 + digit_value(t[3])
}

pub open spec fn plain_month(t: Seq<char>) -> int {
    digit_value(t[5]) * 10 + digit_value(t[6])
}

pub open spec fn plain_day(t: Seq<char>) -> int {
    digit_value(t[8]) * 10 + digit_value(t[9])
}

/// The date that a plain `YYYY-MM-DD` text names.
pub open spec fn plain_date(t: Seq<char>) -> Date {
    Date { year: plain_year(t) as i32, month: plain_month(t) as u32, day: plain_day(t) as u32 }
}

/// The date whose displayed text `t` is, if it is the text of a date.
#[verifier::opaque]
pub open spec fn date_of_text(t: Seq<char>) -> Option<Date> {
    if exists|d: Date| d.valid() && #[trigger] date_text(d) == t {
        Some(choose|d: Date| d.valid() && #[trigger] date_text(d) == t)
    } else {
        None
    }
}

/// The date `parse_date` reads from a text: a plain `YYYY-MM-DD` text names
/// its date, and so does the text of any date as it is displayed (with a
/// signed year outside 0 to 9999); any other text is read as chrono reads it.
pub open spec fn parsed_date(t: Seq<char>) -> Option<Date> {
    if is_plain_date_text(t) {
        Some(plain_date(t))
    } else {
        match date_of_text(t) {
            Some(d) => Some(d),
            None => date_of_parts(chrono_parse_ymd(t)),
        }
    }
}

pub open spec fn date_of_parts(p: Option<(int, int, int)>) -> Option<Date> {
    match p {
        Some((y, m, d)) => Some(Date { year: y as i32, month: m as u32, day: d as u32 }),
        None => None,
    }
}

/// The number written by the decimal digits `t`.
pub open spec fn digits_value(t: Seq<char>) -> int
    decreases t.len(),
{
    if t.len() == 0 {
        0
    } else {
        digits_value(t.drop_last()) * 10 + digit_value(t.last())
    }
}

proof fn lemma_decimal_value(n: nat)
    ensures
        digits_value(decimal(n)) == n,
    decreases n,
{
    if n < 10 {
        lemma_digit(n as int);
        assert(decimal(n).drop_last() =~= Seq::<char>::empty());
        assert(digits_value(decimal(n).drop_last()) == 0);
    } else {
        lemma_decimal_value(n / 10);
        lemma_digit((n % 10) as int);
        assert(decimal(n).drop_last() =~= decimal(n / 10));
        assert(decimal(n).last() == digit((n % 10) as int));
        assert((n / 10) * 10 + n % 10 == n);
    }
}

proof fn lemma_zeros_value(k: nat)
    ensures
        digits_value(Seq::new(k, |i: int| '0')) == 0,
    decreases k,
{
    if k > 0 {
        assert(Seq::new(k, |i: int| '0').drop_last() =~= Seq::new((k - 1) as nat, |i: int| '0'));
        lemma_zeros_value((k - 1) as nat);
    }
}

proof fn lemma_zeros_prefix_value(k: nat, t: Seq<char>)
    ensures
        digits_value(Seq::new(k, |i: int| '0') + t) == digits_value(t),
    decreases t.len(),
{
    let z = Seq::new(k, |i: int| '0');
    if t.len() == 0 {
        assert(z + t =~= z);
        lemma_zeros_value(k);
    } else {
        assert((z + t).drop_last() =~= z + t.drop_last());
        assert((z + t).last() == t.last());
        lemma_zeros_prefix_value(k, t.drop_last());
    }
}

proof fn lemma_decimal4_value(n: nat)
    ensures
        digits_value(decimal4(n)) == n,
{
    lemma_decimal_value(n);
    let ds = decimal(n);
    if ds.len() < 4 {
        lemma_zeros_prefix_value((4 - ds.len()) as nat, ds);
    }
}

/// Two valid dates with the same text, one of them outside the years 0 to
/// 9999, are the same date.
proof fn lemma_signed_date_text_injective(d1: Date, d2: Date)
    requires
        d1.valid(),
        d2.valid(),
        !(0 <= d1.year <= 9999),
        date_text(d1) == date_text(d2),
    ensures
        d1 == d2,
{
    let t = date_text(d1);
    let y1 = year_text(d1.year as int);
    let y2 = year_text(d2.year as int);
    let s1 = seq!['-'] + two_digits(d1.month as int) + seq!['-'] + two_digits(d1.day as int);
    let s2 = seq!['-'] + two_digits(d2.month as int) + seq!['-'] + two_digits(d2.day as int);
    assert(t =~= y1 + s1);
    assert(t =~= y2 + s2);
    assert(y1.len() == y2.len());
    assert(y1 =~= t.subrange(0, y1.len() as int));
    assert(y2 =~= t.subrange(0, y2.len() as int));
    assert(s1 =~= s2) by {
        assert(s1 =~= t.subrange(y1.len() as int, t.len() as int));
        assert(s2 =~= t.subrange(y2.len() as int, t.len() as int));
    }
    lemma_digit(d1.month as int / 10);
    lemma_digit(d1.month as int % 10);
    lemma_digit(d2.month as int / 10);
    lemma_digit(d2.month as int % 10);
    lemma_digit(d1.day as int / 10);
    lemma_digit(d1.day as int % 10);
    lemma_digit(d2.day as int / 10);
    lemma_digit(d2.day as int % 10);
    assert(s1[1] == s2[1] && s1[2] == s2[2] && s1[4] == s2[4] && s1[5] == s2[5]);
    assert(d1.month == d2.month);
    assert(d1.day == d2.day);
    let a = d1.year as int;
    let b = d2.year as int;
    assert(y1[0] == y2[0]);
    if 0 <= b <= 9999 {
        lemma_digit(b / 1000);
        assert(false);
    }
    if a < 0 {
        assert(b < 0);
        assert(y1.drop_first() =~= decimal4((-a) as nat));
        assert(y2.drop_first() =~= decimal4((-b) as nat));
        lemma_decimal4_value((-a) as nat);
        lemma_decimal4_value((-b) as nat);
    } else {
        assert(b > 9999);
        assert(y1.drop_first() =~= decimal4(a as nat));
        assert(y2.drop_first() =~= decimal4(b as nat));
        lemma_decimal4_value(a as nat);
        lemma_decimal4_value(b as nat);
    }
}

/// Every valid date is read back from its text.
pub proof fn lemma_date_text_reads_back(d: Date)
    requires
        d.valid(),
    ensures
        parsed_date(date_text(d)) == Some(d),
{
    if 0 <= d.year <= 9999 {
        lemma_date_text_parses(d);
    } else {
        let t = date_text(d);
        assert(t[0] == '-' || t[0] == '+');
        assert(!is_plain_date_text(t));
        reveal(date_of_text);
        assert(d.valid() && date_text(d) == t);
        let c = choose|c: Date| c.valid() && #[trigger] date_text(c) == t;
        lemma_signed_date_text_injective(d, c);
    }
}

/// A date with a four-digit year is read back from its text.
pub proof fn lemma_date_text_parses(d: Date)
    requires
        d.valid(),
        0 <= d.year <= 9999,
    ensures
        is_plain_date_text(date_text(d)),
        plain_date(date_text(d)) == d,
        parsed_date(date_text(d)) == Some(d),
{
    let y = d.year as int;
    let m = d.month as int;
    let dd = d.day as int;
    let t = date_text(d);
    lemma_digit(y / 1000);
    lemma_digit((y / 100) % 10);
    lemma_digit((y / 10) % 10);
    lemma_digit(y % 10);
    lemma_digit(m / 10);
    lemma_digit(m % 10);
    lemma_digit(dd / 10);
    lemma_digit(dd % 10);
    assert(t.len() == 10);
    assert(t[0] == digit(y / 1000));
    assert(t[3] == digit(y % 10));
    assert(t[4] == '-');
    assert(t[5] == digit(m / 10));
    assert(t[6] == digit(m % 10));
    assert(t[7] == '-');
    assert(t[8] == digit(dd / 10));
    assert(t[9] == digit(dd % 10));
    assert((y / 1000) * 1000 + ((y / 100) % 10) * 100 + ((y / 10) % 10) * 10 + y % 10 == y)
        by (nonlinear_arith)
        requires
            0 <= y <= 9999,
    ;
    assert((m / 10) * 10 + m % 10 == m) by (nonlinear_arith);
    assert((dd / 10) * 10 + dd % 10 == dd) by (nonlinear_arith);
}

// ---------------------------------------------------------------------------
// Executable text form

pub fn digit_char(n: u32) -> (c: char)
    requires
        n <= 9,
    ensures
        c == digit(n as int),
{
    match n {
        0 => '0',
        1 => '1',
        2 => '2',
        3 => '3',
        4 => '4',
        5 => '5',
        6 => '6',
        7 => '7',
        8 => '8',
        _ => '9',
    }
}

fn push_decimal4(out: &mut Vec<char>, n: u32)
    ensures
        final(out)@ == old(out)@ + decimal4(n as nat),
{
    // digits of n, least significant first
    let mut rev: Vec<char> = Vec::new();
    let mut m = n;
    let ghost mut done: Seq<char> = seq![];
    loop
        invariant_except_break
            decimal(n as nat) == decimal(m as nat) + done,
        invariant
            rev@ == done.reverse(),
        ensures
            decimal(n as nat) == done,
        decreases m,
    {
        if m < 10 {
            rev.push(digit_char(m));
            proof {
                done = decimal(m as nat) + done;
                assert(rev@ =~= done.reverse());
            }
            break;
        }
        let dgt = digit_char(m % 10);
        rev.push(dgt);
        proof {
            assert(decimal(m as nat) == decimal((m / 10) as nat) + seq![dgt]);
            done = seq![dgt] + done;
            assert(rev@ =~= done.reverse());
            assert(decimal(n as nat) =~= decimal((m / 10) as nat) + done);
        }
        m = m / 10;
    }
    let ghost ds = decimal(n as nat);
    assert(ds =~= done);
    let mut k = rev.len();
    while k < 4
        invariant
            rev@.len() <= k <= 4 || (k == rev@.len() && k >= 4),
            k >= rev@.len(),
            out@ == old(out)@ + Seq::new((k - rev@.len()) as nat, |i: int| '0'),
        decreases 4 - k,
    {
        out.push('0');
        k = k + 1;
        assert(out@ =~= old(out)@ + Seq::new((k - rev@.len()) as nat, |i: int| '0'));
    }
    let ghost pad = out@;
    let mut j = rev.len();
    while j > 0
        invariant
            j <= rev@.len(),
            rev@ == ds.reverse(),
            out@ == pad + ds.subrange(0, ds.len() - j),
        decreases j,
    {
        j = j - 1;
        out.push(rev[j]);
        assert(out@ =~= pad + ds.subrange(0, ds.len() - j));
    }
    assert(ds.subrange(0, ds.len() as int) =~= ds);
    assert(out@ =~= old(out)@ + decimal4(n as nat));
}

fn push_two_digits(out: &mut Vec<char>, n: u32)
    ensures
        final(out)@ == old(out)@ + two_digits(n as int),
{
    let hi = n / 10;
    let hi = if hi > 9 {
        9
    } else {
        hi
    };
    out.push(digit_char(hi));
    out.push(digit_char(n % 10));
    assert(out@ =~= old(out)@ + two_digits(n as int));
}

/// The date written as `YYYY-MM-DD`, the way chrono displays it.
pub fn format_date(d: Date) -> (r: String)
    ensures
        r@ == date_text(d),
{
    let mut out: Vec<char> = Vec::new();
    let y = d.year;
    if 0 <= y && y <= 9999 {
        let u = y as u32;
        out.push(digit_char(u / 1000));
        out.push(digit_char((u / 100) % 10));
        out.push(digit_char((u / 10) % 10));
        out.push(digit_char(u % 10));
    } else if y < 0 {
        out.push('-');
        let a: u32 = if y == i32::MIN {
            2147483648u32
        } else {
            (-y) as u32
        };
        push_decimal4(&mut out, a);
    } else {
        out.push('+');
        push_decimal4(&mut out, y as u32);
    }
    assert(out@ =~= year_text(y as int));
    out.push('-');
    push_two_digits(&mut out, d.month);
    out.push('-');
    push_two_digits(&mut out, d.day);
    assert(out@ =~= date_text(d));
    crate::text::string_from_chars(&out)
}

// ---------------------------------------------------------------------------
// Trusted calls into chrono

/// What `NaiveDate::parse_from_str(text, "%Y-%m-%d")` gives: year, month and
/// day of the parsed date, or nothing when the text is not such a date.
pub uninterp spec fn chrono_parse_ymd(text: Seq<char>) -> Option<(int, int, int)>;

/// Calls `NaiveDate::parse_from_str(text, "%Y-%m-%d")`. Claims that a plain
/// `YYYY-MM-DD` text with a four-digit year is read as the date it names, that
/// the text of any valid date as chrono displays it (a sign before years
/// outside 0 to 9999, which `%Y` reads with any width) is read as that date,
/// that every other text is read as `chrono_parse_ymd` names it, and that a
/// parsed date is a valid one.
#[verifier::external_body]
pub(crate) fn parse_date(text: &str) -> (r: Option<Date>)
    ensures
        is_plain_date_text(text@) ==> r == Some(plain_date(text@)),
        !is_plain_date_text(text@) && date_of_text(text@) is Some ==> r == date_of_text(text@),
        !is_plain_date_text(text@) && date_of_text(text@) is None ==> r == date_of_parts(
            chrono_parse_ymd(text@),
        ),
        r matches Some(d) ==> d.valid(),
{
    match NaiveDate::parse_from_str(text, "%Y-%m-%d") {
        Ok(nd) => Some(Date { year: nd.year(), month: nd.month(), day: nd.day() }),
        Err(_) => None,
    }
}

/// Calls `NaiveDate::from_ymd_opt`. Claims that it gives the date exactly
/// when year, month and day name a day of chrono's calendar.
#[verifier::external_body]
pub(crate) fn date_from_ymd(year: i32, month: u32, day: u32) -> (r: Option<Date>)
    ensures
        r == (if valid_ymd(year as int, month as int, day as int) {
            Some(Date { year, month, day })
        } else {
            None
        }),
{
    match NaiveDate::from_ymd_opt(year, month, day) {
        Some(nd) => Some(Date { year: nd.year(), month: nd.month(), day: nd.day() }),
        None => None,
    }
}

/// Calls `NaiveDate::succ_opt`. Claims that it gives the next calendar day,
/// and nothing after the last date.
#[verifier::external_body]
pub(crate) fn date_succ(d: Date) -> (r: Option<Date>)
    requires
        d.valid(),
    ensures
        r == next_day(d),
{
    match NaiveDate::from_ymd_opt(d.year, d.month, d.day).unwrap().succ_opt() {
        Some(nd) => Some(Date { year: nd.year(), month: nd.month(), day: nd.day() }),
        None => None,
    }
}

/// Calls `NaiveDate::pred_opt`. Claims that it gives the previous calendar
/// day, and nothing before the first date.
#[verifier::external_body]
pub(crate) fn date_pred(d: Date) -> (r: Option<Date>)
    requires
        d.valid(),
    ensures
        r == prev_day(d),
{
    match NaiveDate::from_ymd_opt(d.year, d.month, d.day).unwrap().pred_opt() {
        Some(nd) => Some(Date { year: nd.year(), month: nd.month(), day: nd.day() }),
        None => None,
    }
}

/// Calls `Datelike::weekday` on the date. Claims that the result is the
/// weekday of the proleptic Gregorian calendar, which chrono documents that
/// it follows: the day count from 0001-01-01, a Monday, modulo 7.
#[verifier::external_body]
pub(crate) fn date_weekday(d: Date) -> (r: Weekday)
    requires
        d.valid(),
    ensures
        r.index() == weekday_number(d.year as int, d.month as int, d.day as int),
{
    match NaiveDate::from_ymd_opt(d.year, d.month, d.day).unwrap().weekday() {
        chrono::Weekday::Mon => Weekday::Mon,
        chrono::Weekday::Tue => Weekday::Tue,
        chrono::Weekday::Wed => Weekday::Wed,
        chrono::Weekday::Thu => Weekday::Thu,
        chrono::Weekday::Fri => Weekday::Fri,
        chrono::Weekday::Sat => Weekday::Sat,
        chrono::Weekday::Sun => Weekday::Sun,
    }
}

/// Calls `Local::now().date_naive()`. The result depends on the clock; the
/// contract claims only that it is a valid date.
#[verifier::external_body]
pub(crate) fn today() -> (r: Date)
    ensures
        r.valid(),
{
    let nd = chrono::Local::now().date_naive();
    Date { year: nd.year(), month: nd.month(), day: nd.day() }
}

impl Date {
    /// The date with the given year, month and day, if there is one.
    pub fn from_ymd_opt(year: i32, month: u32, day: u32) -> (r: Option<Date>)
        ensures
            r == (if valid_ymd(year as int, month as int, day as int) {
                Some(Date { year, month, day })
            } else {
                None
            }),
    {
        date_from_ymd(year, month, day)
    }

    /// Whether the date names a day of the calendar.
    pub fn is_valid(&self) -> (r: bool)
        ensures
            r == self.valid(),
    {
        date_from_ymd(self.year, self.month, self.day).is_some()
    }

    /// The next calendar day, if there is one.
    pub fn succ_opt(&self) -> (r: Option<Date>)
        requires
            self.valid(),
        ensures
            r == next_day(*self),
            r matches Some(n) ==> weekday_number(n.year as int, n.month as int, n.day as int) == (
            weekday_number(self.year as int, self.month as int, self.day as int) + 1) % 7,
    {
        proof {
            lemma_next_weekday(*self);
        }
        date_succ(*self)
    }

    /// The previous calendar day, if there is one.
    pub fn pred_opt(&self) -> (r: Option<Date>)
        requires
            self.valid(),
        ensures
            r == prev_day(*self),
    {
        date_pred(*self)
    }

    /// The day of the week.
    pub fn weekday(&self) -> (r: Weekday)
        requires
            self.valid(),
        ensures
            r.index() == weekday_number(self.year as int, self.month as int, self.day as int),
    {
        date_weekday(*self)
    }

    /// `YYYY-MM-DD`.
    pub fn to_text(&self) -> (r: String)
        ensures
            r@ == date_text(*self),
    {
        format_date(*self)
    }
}

} // verus!
