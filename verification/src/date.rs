//! Calendar days in the proleptic Gregorian calendar, their day keys
//! (`yyyy-MM-dd`), the compact form (`yyyyMMdd`) and whole-day arithmetic.

use vstd::prelude::*;
use vstd::string::*;
use crate::error::ArchiveError;
use crate::text::{char_of_digit, digit_char, digit_of, digit_value, is_digit, push_char};

verus! {

/// The number of the last day that a `Date` can hold, 9999-12-31, counted
/// from 0001-01-01 as day 0.
pub const MAX_DAY_NUMBER: u32 = 3652058;

/// A calendar day.
#[derive(Clone, Copy, Debug, PartialEq, Eq, Structural)]
pub struct Date {
    pub year: u32,
    pub month: u32,
    pub day: u32,
}

/// Whether year `y` has a 29th of February.
pub open spec fn is_leap_year(y: int) -> bool {
    y % 4 == 0 && (y % 100 != 0 || y % 400 == 0)
}

/// The number of days of month `m` in year `y`.
pub open spec fn days_in_month(y: int, m: int) -> int {
    if m == 2 {
        if is_leap_year(y) {
            29
        } else {
            28
        }
    } else if m == 4 || m == 6 || m == 9 || m == 11 {
        30
    } else {
        31
    }
}

/// The number of days of year `y` that lie before the first of month `m`.
pub open spec fn days_before_month(y: int, m: int) -> int {
    let base: int = if m <= 1 {
        0
    } else if m == 2 {
        31
    } else if m == 3 {
        59
    } else if m == 4 {
        90
    } else if m == 5 {
        120
    } else if m == 6 {
        151
    } else if m == 7 {
        181
    } else if m == 8 {
        212
    } else if m == 9 {
        243
    } else if m == 10 {
        273
    } else if m == 11 {
        304
    } else if m == 12 {
        334
    } else {
        365
    };
    if m > 2 && is_leap_year(y) {
        base + 1
    } else {
        base
    }
}

/// The number of days between 0001-01-01 and the first day of year `y`.
pub open spec fn days_before_year(y: int) -> int {
    365 * (y - 1) + (y - 1) / 4 - (y - 1) / 100 + (y - 1) / 400
}

/// The position of `d` on the line of days: 0001-01-01 is day 0.
pub open spec fn day_number(d: Date) -> int {
    days_before_year(d.year as int) + days_before_month(d.year as int, d.month as int) + d.day - 1
}

/// The day that `yyyyMMdd` names, if it is eight digits naming a calendar day.
pub open spec fn compact_date(s: Seq<char>) -> Option<Date> {
    if s.len() == 8 && (forall|i: int| 0 <= i < 8 ==> is_digit(#[trigger] s[i])) {
        let d = Date {
            year: (digit_value(s[0]) * 1000 + digit_value(s[1]) * 100 + digit_value(s[2]) * 10
                + digit_value(s[3])) as u32,
            month: (digit_value(s[4]) * 10 + digit_value(s[5])) as u32,
            day: (digit_value(s[6]) * 10 + digit_value(s[7])) as u32,
        };
        if d.wf() {
            Some(d)
        } else {
            None
        }
    } else {
        None
    }
}

/// The day that the day key `yyyy-MM-dd` names, if it names one.
pub open spec fn day_key_date(s: Seq<char>) -> Option<Date> {
    if s.len() == 10 && s[4] == '-' && s[7] == '-' {
        compact_date(s.subrange(0, 4) + s.subrange(5, 7) + s.subrange(8, 10))
    } else {
        None
    }
}

/// The day at position `n` on the line of days.
pub open spec fn day_at(n: int) -> Date {
    choose|d: Date| d.wf() && day_number(d) == n
}

/// The number of days in year `y`.
pub open spec fn days_in_year(y: int) -> int {
    if is_leap_year(y) {
        366
    } else {
        365
    }
}

impl Date {
    /// A day of the calendar, in the years 1 to 9999.
    pub open spec fn wf(&self) -> bool {
        &&& 1 <= self.year <= 9999
        &&& 1 <= self.month <= 12
        &&& 1 <= self.day <= days_in_month(self.year as int, self.month as int)
    }

    /// The day key of this day: `yyyy-MM-dd`, each field padded with zeros.
    pub open spec fn day_key(&self) -> Seq<char> {
        seq![
            digit_char(self.year as int / 1000),
            digit_char(self.year as int / 100 % 10),
            digit_char(self.year as int / 10 % 10),
            digit_char(self.year as int % 10),
            '-',
            digit_char(self.month as int / 10),
            digit_char(self.month as int % 10),
            '-',
            digit_char(self.day as int / 10),
            digit_char(self.day as int % 10),
        ]
    }

    /// The day with these fields, if there is one.
    pub fn new(year: u32, month: u32, day: u32) -> (r: Option<Date>)
        ensures
            r == (if (Date { year, month, day }).wf() {
                Some(Date { year, month, day })
            } else {
                None
            }),
    {
        if year < 1 || year > 9999 || month < 1 || month > 12 || day < 1 {
            return None;
        }
        if day > month_length(year, month) {
            return None;
        }
        Some(Date { year, month, day })
    }

    /// The position of this day on the line of days.
    pub fn ordinal(&self) -> (n: u32)
        requires
            self.wf(),
        ensures
            n == day_number(*self),
            n <= MAX_DAY_NUMBER,
    {
        proof {
            lemma_day_within_year(*self);
            lemma_month_step(self.year as int, self.month as int);
        }
        year_start(self.year) + month_start(self.year, self.month) + self.day - 1
    }

    /// The day at position `n` on the line of days.
    pub fn from_ordinal(n: u32) -> (d: Date)
        requires
            n <= MAX_DAY_NUMBER,
        ensures
            d.wf(),
            day_number(d) == n,
            d == day_at(n as int),
    {
        let mut year: u32 = n / 366 + 1;
        while year < 9999 && year_start(year + 1) <= n
            invariant
                1 <= year <= 9999,
                days_before_year(year as int) <= n,
            decreases 9999 - year,
        {
            year += 1;
        }
        let rest: u32 = n - year_start(year);
        proof {
            lemma_year_step(year as int);
            lemma_month_step(year as int, 12);
        }
        let mut month: u32 = 1;
        while month < 12 && month_start(year, month + 1) <= rest
            invariant
                1 <= month <= 12,
                days_before_month(year as int, month as int) <= rest,
            decreases 12 - month,
        {
            month += 1;
        }
        proof {
            lemma_month_step(year as int, month as int);
        }
        let d = Date { year, month, day: rest - month_start(year, month) + 1 };
        proof {
            lemma_day_at(d);
        }
        d
    }

    /// The day `delta` days after this one (before it, for a negative
    /// `delta`), or `None` if that day lies outside the years 1 to 9999.
    pub fn offset(&self, delta: i64) -> (r: Option<Date>)
        requires
            self.wf(),
        ensures
            r == (if 0 <= day_number(*self) + delta <= MAX_DAY_NUMBER {
                Some(day_at(day_number(*self) + delta))
            } else {
                None
            }),
            r matches Some(d) ==> d.wf() && day_number(d) == day_number(*self) + delta,
    {
        let here: i64 = self.ordinal() as i64;
        if delta < -here || delta > MAX_DAY_NUMBER as i64 - here {
            return None;
        }
        Some(Date::from_ordinal((here + delta) as u32))
    }

    /// Writes this day as its day key.
    pub fn to_day_key(&self) -> (s: String)
        requires
            self.wf(),
        ensures
            s@ == self.day_key(),
    {
        let mut s = String::new();
        push_char(&mut s, char_of_digit(self.year / 1000));
        push_char(&mut s, char_of_digit(self.year / 100 % 10));
        push_char(&mut s, char_of_digit(self.year / 10 % 10));
        push_char(&mut s, char_of_digit(self.year % 10));
        push_char(&mut s, '-');
        push_char(&mut s, char_of_digit(self.month / 10));
        push_char(&mut s, char_of_digit(self.month % 10));
        push_char(&mut s, '-');
        push_char(&mut s, char_of_digit(self.day / 10));
        push_char(&mut s, char_of_digit(self.day % 10));
        assert(s@ =~= self.day_key());
        s
    }
}

/// Tells whether `year` is a leap year.
pub fn leap_year(year: u32) -> (r: bool)
    ensures
        r == is_leap_year(year as int),
{
    year % 4 == 0 && (year % 100 != 0 || year % 400 == 0)
}

/// The number of days of `month` in `year`.
pub fn month_length(year: u32, month: u32) -> (n: u32)
    requires
        1 <= month <= 12,
    ensures
        n == days_in_month(year as int, month as int),
{
    if month == 2 {
        if leap_year(year) {
            29
        } else {
            28
        }
    } else if month == 4 || month == 6 || month == 9 || month == 11 {
        30
    } else {
        31
    }
}

/// The number of days of `year` that lie before the first of `month`.
pub fn month_start(year: u32, month: u32) -> (n: u32)
    requires
        1 <= month <= 12,
    ensures
        n == days_before_month(year as int, month as int),
{
    let mut total: u32 = 0;
    let mut m: u32 = 1;
    while m < month
        invariant
            1 <= m <= month <= 12,
            total == days_before_month(year as int, m as int),
        decreases month - m,
    {
        total = total + month_length(year, m);
        m += 1;
    }
    total
}

/// The number of days between 0001-01-01 and the first day of `year`.
pub fn year_start(year: u32) -> (n: u32)
    requires
        1 <= year <= 10000,
    ensures
        n == days_before_year(year as int),
{
    let y: u32 = year - 1;
    365 * y + y / 4 - y / 100 + y / 400
}

/// The day that the eight characters `c` name as `yyyyMMdd`, if they name one.
fn date_of_digits(c: &Vec<char>) -> (r: Option<Date>)
    ensures
        r == compact_date(c@),
{
    if c.len() != 8 {
        return None;
    }
    let mut v: Vec<u32> = Vec::new();
    let mut i: usize = 0;
    while i < 8
        invariant
            i <= 8,
            c@.len() == 8,
            v@.len() == i,
            forall|j: int| 0 <= j < i ==> is_digit(#[trigger] c@[j]) && v@[j] == digit_value(c@[j]),
        decreases 8 - i,
    {
        match digit_of(c[i]) {
            None => {
                return None;
            },
            Some(d) => {
                v.push(d);
            },
        }
        i += 1;
    }
    Date::new(v[0] * 1000 + v[1] * 100 + v[2] * 10 + v[3], v[4] * 10 + v[5], v[6] * 10 + v[7])
}

/// Copies the characters of `s` from position `from` up to `to` onto `out`.
fn push_chars(out: &mut Vec<char>, s: &str, from: usize, to: usize)
    requires
        from <= to <= s@.len(),
    ensures
        final(out)@ == old(out)@ + s@.subrange(from as int, to as int),
{
    let mut i: usize = from;
    while i < to
        invariant
            from <= i <= to <= s@.len(),
            out@ == old(out)@ + s@.subrange(from as int, i as int),
        decreases to - i,
    {
        out.push(s.get_char(i));
        assert(s@.subrange(from as int, i + 1) =~= s@.subrange(from as int, i as int).push(
            s@[i as int],
        ));
        i += 1;
    }
}

/// Reads a day written as `yyyyMMdd`.
pub fn parse_compact(s: &str) -> (r: Result<Date, ArchiveError>)
    ensures
        r == (match compact_date(s@) {
            Some(d) => Ok::<Date, ArchiveError>(d),
            None => Err(ArchiveError::DateParse),
        }),
{
    if s.unicode_len() != 8 {
        return Err(ArchiveError::DateParse);
    }
    let mut c: Vec<char> = Vec::new();
    push_chars(&mut c, s, 0, 8);
    assert(c@ =~= s@);
    match date_of_digits(&c) {
        Some(d) => Ok(d),
        None => Err(ArchiveError::DateParse),
    }
}

/// Reads a day written as its day key, `yyyy-MM-dd`.
pub fn parse_day_key(s: &str) -> (r: Option<Date>)
    ensures
        r == day_key_date(s@),
{
    if s.unicode_len() != 10 {
        return None;
    }
    if s.get_char(4) != '-' || s.get_char(7) != '-' {
        return None;
    }
    let mut c: Vec<char> = Vec::new();
    push_chars(&mut c, s, 0, 4);
    push_chars(&mut c, s, 5, 7);
    push_chars(&mut c, s, 8, 10);
    assert(c@ =~= s@.subrange(0, 4) + s@.subrange(5, 7) + s@.subrange(8, 10));
    date_of_digits(&c)
}

/// Turns the compact form `yyyyMMdd` of a day into its day key `yyyy-MM-dd`.
/// Fails unless the input is eight digits that name a calendar day.
pub fn normalize(compact: &str) -> (r: Result<String, ArchiveError>)
    ensures
        match compact_date(compact@) {
            Some(d) => r matches Ok(key) && key@ == d.day_key(),
            None => r == Err::<String, ArchiveError>(ArchiveError::DateParse),
        },
{
    match parse_compact(compact) {
        Ok(d) => Ok(d.to_day_key()),
        Err(e) => Err(e),
    }
}

/// The day key of the day `delta_days` after `day_key` (before it, for a
/// negative number). `None` if `day_key` names no day, or if the day asked
/// for lies outside the years 1 to 9999.
pub fn offset(day_key: &str, delta_days: i64) -> (r: Option<String>)
    ensures
        match day_key_date(day_key@) {
            Some(d) => {
                let n = day_number(d) + delta_days;
                if 0 <= n <= MAX_DAY_NUMBER {
                    r matches Some(key) && key@ == day_at(n).day_key()
                } else {
                    r is None
                }
            },
            None => r is None,
        },
{
    match parse_day_key(day_key) {
        None => None,
        Some(d) => match d.offset(delta_days) {
            None => None,
            Some(e) => Some(e.to_day_key()),
        },
    }
}

/// A year begins where the year before it ends.
pub proof fn lemma_year_step(y: int)
    requires
        y >= 1,
    ensures
        days_before_year(y + 1) == days_before_year(y) + days_in_year(y),
{
}

/// A month begins where the month before it ends, and the twelve months
/// fill the year.
pub proof fn lemma_month_step(y: int, m: int)
    requires
        1 <= m <= 12,
    ensures
        days_before_month(y, m + 1) == days_before_month(y, m) + days_in_month(y, m),
        days_before_month(y, 13) == days_in_year(y),
        0 <= days_before_month(y, m),
{
}

/// Later years begin later.
pub proof fn lemma_years_ascend(a: int, b: int)
    requires
        1 <= a <= b,
    ensures
        days_before_year(a) + 365 * (b - a) <= days_before_year(b),
    decreases b - a,
{
    if a < b {
        lemma_years_ascend(a, b - 1);
        lemma_year_step(b - 1);
    }
}

/// A day lies within its year.
pub proof fn lemma_day_within_year(d: Date)
    requires
        d.wf(),
    ensures
        days_before_year(d.year as int) <= day_number(d) < days_before_year(d.year + 1),
        0 <= day_number(d) <= MAX_DAY_NUMBER,
{
    lemma_year_step(d.year as int);
    lemma_month_step(d.year as int, d.month as int);
    lemma_years_ascend(1, d.year as int);
    lemma_years_ascend(d.year + 1, 10000);
}

/// Two days at the same position are the same day.
pub proof fn lemma_day_number_injective(a: Date, b: Date)
    requires
        a.wf(),
        b.wf(),
        day_number(a) == day_number(b),
    ensures
        a == b,
{
    lemma_day_within_year(a);
    lemma_day_within_year(b);
    if a.year < b.year {
        lemma_years_ascend(a.year + 1, b.year as int);
    } else if b.year < a.year {
        lemma_years_ascend(b.year + 1, a.year as int);
    } else {
        lemma_month_step(a.year as int, a.month as int);
        lemma_month_step(b.year as int, b.month as int);
    }
}

/// The day at a position is the one day with that position.
pub proof fn lemma_day_at(d: Date)
    requires
        d.wf(),
    ensures
        day_at(day_number(d)) == d,
{
    let e = day_at(day_number(d));
    lemma_day_number_injective(d, e);
}

/// A day key names the day it was written for: reading the key of a day
/// gives that day back.
pub proof fn lemma_day_key_round_trip(d: Date)
    requires
        d.wf(),
    ensures
        day_key_date(d.day_key()) == Some(d),
{
    let y = d.year as int;
    let m = d.month as int;
    let n = d.day as int;
    let s = d.day_key();
    let c = s.subrange(0, 4) + s.subrange(5, 7) + s.subrange(8, 10);
    assert(c =~= seq![
        digit_char(y / 1000),
        digit_char(y / 100 % 10),
        digit_char(y / 10 % 10),
        digit_char(y % 10),
        digit_char(m / 10),
        digit_char(m % 10),
        digit_char(n / 10),
        digit_char(n % 10),
    ]);
    lemma_decimal_places(d.year);
    lemma_decimal_places(d.month);
    lemma_decimal_places(d.day);
    lemma_eight_digits(
        y / 1000,
        y / 100 % 10,
        y / 10 % 10,
        y % 10,
        m / 10,
        m % 10,
        n / 10,
        n % 10,
    );
}

/// A number below ten thousand is the sum of its four decimal places.
proof fn lemma_decimal_places(v: u32)
    requires
        v <= 9999,
    ensures
        v == (v / 1000) * 1000 + (v / 100 % 10) * 100 + (v / 10 % 10) * 10 + v % 10,
        v / 1000 <= 9,
        v / 100 % 10 <= 9,
        v / 10 % 10 <= 9,
        v % 10 <= 9,
        v <= 99 ==> v / 10 <= 9 && v == (v / 10) * 10 + v % 10,
{
    assert(v == (v / 1000) * 1000 + (v / 100 % 10) * 100 + (v / 10 % 10) * 10 + v % 10) by (bit_vector)
        requires
            v <= 9999,
    ;
    assert(v / 1000 <= 9) by (bit_vector)
        requires
            v <= 9999,
    ;
    assert(v <= 99 ==> v / 10 <= 9 && v == (v / 10) * 10 + v % 10) by (bit_vector);
}

/// What eight digits name as a compact date: the day with the fields
/// that they write, if there is such a day.
proof fn lemma_eight_digits(a: int, b: int, c: int, d: int, e: int, f: int, g: int, h: int)
    requires
        0 <= a <= 9,
        0 <= b <= 9,
        0 <= c <= 9,
        0 <= d <= 9,
        0 <= e <= 9,
        0 <= f <= 9,
        0 <= g <= 9,
        0 <= h <= 9,
    ensures
        ({
            let s = seq![
                digit_char(a),
                digit_char(b),
                digit_char(c),
                digit_char(d),
                digit_char(e),
                digit_char(f),
                digit_char(g),
                digit_char(h),
            ];
            let day = Date {
                year: (a * 1000 + b * 100 + c * 10 + d) as u32,
                month: (e * 10 + f) as u32,
                day: (g * 10 + h) as u32,
            };
            compact_date(s) == (if day.wf() {
                Some(day)
            } else {
                None
            })
        }),
{
    lemma_digit(a);
    lemma_digit(b);
    lemma_digit(c);
    lemma_digit(d);
    lemma_digit(e);
    lemma_digit(f);
    lemma_digit(g);
    lemma_digit(h);
    let s = seq![
        digit_char(a),
        digit_char(b),
        digit_char(c),
        digit_char(d),
        digit_char(e),
        digit_char(f),
        digit_char(g),
        digit_char(h),
    ];
    assert(s.len() == 8);
    assert forall|i: int| 0 <= i < 8 implies is_digit(#[trigger] s[i]) by {
        if i == 0 {
        } else if i == 1 {
        } else if i == 2 {
        } else if i == 3 {
        } else if i == 4 {
        } else if i == 5 {
        } else if i == 6 {
        } else {
        }
    }
}

/// A digit is written as a digit and read back as itself.
pub proof fn lemma_digit(v: int)
    requires
        0 <= v <= 9,
    ensures
        is_digit(digit_char(v)),
        digit_value(digit_char(v)) == v,
{
}

/// Different days have different day keys.
pub proof fn lemma_day_keys_differ(a: Date, b: Date)
    requires
        a.wf(),
        b.wf(),
        a != b,
    ensures
        a.day_key() != b.day_key(),
{
    lemma_day_key_round_trip(a);
    lemma_day_key_round_trip(b);
}

/// Walking `delta` days and then `delta` days back ends on the day of departure.
pub proof fn lemma_offset_and_back(d: Date, delta: int)
    requires
        d.wf(),
        0 <= day_number(d) + delta <= MAX_DAY_NUMBER,
    ensures
        day_at(day_number(d) + delta).wf(),
        day_number(day_at(day_number(d) + delta)) == day_number(d) + delta,
        day_at(day_number(day_at(day_number(d) + delta)) - delta) == d,
{
    lemma_day_at_exists(day_number(d) + delta);
    lemma_day_at(d);
}

/// Every position from 0 to the last holds a day.
pub proof fn lemma_day_at_exists(n: int)
    requires
        0 <= n <= MAX_DAY_NUMBER,
    ensures
        day_at(n).wf(),
        day_number(day_at(n)) == n,
    decreases n,
{
    if n == 0 {
        let first = Date { year: 1, month: 1, day: 1 };
        assert(first.wf() && day_number(first) == 0);
    } else {
        lemma_day_at_exists(n - 1);
        let d = day_at(n - 1);
        lemma_month_step(d.year as int, d.month as int);
        lemma_year_step(d.year as int);
        lemma_day_within_year(d);
        if d.day < days_in_month(d.year as int, d.month as int) {
            let e = Date { day: (d.day + 1) as u32, ..d };
            assert(e.wf() && day_number(e) == n);
        } else if d.month < 12 {
            let e = Date { month: (d.month + 1) as u32, day: 1, ..d };
            assert(e.wf() && day_number(e) == n);
        } else {
            lemma_years_ascend(d.year + 1, 10000);
            let e = Date { year: (d.year + 1) as u32, month: 1, day: 1 };
            assert(e.wf() && day_number(e) == n);
        }
    }
}

} // verus!
