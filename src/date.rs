//! Calendar days, and the names that entries get from them.
use crate::listing::chars_le;
use vstd::prelude::*;

verus! {

/// A day of the proleptic Gregorian calendar.
#[derive(Clone, Copy, Debug, PartialEq, Eq)]
pub struct Day {
    pub year: i32,
    /// 1 for January to 12 for December.
    pub month: u8,
    /// The day of the month, from 1.
    pub day: u8,
}

/// Whether `year` is a leap year.
pub open spec fn is_leap_year(year: int) -> bool {
    (year % 4 == 0 && year % 100 != 0) || year % 400 == 0
}

/// The number of days of a month of a year.
pub open spec fn days_in_month(year: int, month: int) -> int {
    if month == 2 {
        if is_leap_year(year) {
            29
        } else {
            28
        }
    } else if month == 4 || month == 6 || month == 9 || month == 11 {
        30
    } else {
        31
    }
}

/// The decimal digit for `n` in `0..10`.
pub open spec fn digit(n: int) -> char {
    seq!['0', '1', '2', '3', '4', '5', '6', '7', '8', '9'][n]
}

/// `n` in `0..100` as two decimal digits.
pub open spec fn two_digits(n: int) -> Seq<char> {
    seq![digit(n / 10), digit(n % 10)]
}

/// `n` in `0..10000` as four decimal digits.
pub open spec fn four_digits(n: int) -> Seq<char> {
    seq![digit(n / 1000), digit(n / 100 % 10), digit(n / 10 % 10), digit(n % 10)]
}

/// A day written `YYYY-MM-DD`, with a leading `-` for a year before 0.
pub open spec fn iso_date(d: Day) -> Seq<char> {
    let y = d.year as int;
    let sign = if y < 0 {
        seq!['-']
    } else {
        Seq::empty()
    };
    sign + four_digits(if y < 0 {
        -y
    } else {
        y
    }) + seq!['-'] + two_digits(d.month as int) + seq!['-'] + two_digits(d.day as int)
}

impl Day {
    /// A day that exists, in the years that four digits can write.
    pub open spec fn valid(self) -> bool {
        &&& -9999 <= self.year <= 9999
        &&& 1 <= self.month <= 12
        &&& 1 <= self.day <= days_in_month(self.year as int, self.month as int)
    }
}

/// Whether day `a` comes no later than day `b`.
pub open spec fn day_le(a: Day, b: Day) -> bool {
    a.year < b.year || (a.year == b.year && (a.month < b.month || (a.month == b.month && a.day
        <= b.day)))
}

proof fn lemma_digit(n: int)
    requires
        0 <= n < 10,
    ensures
        digit(n) as int == 48 + n,
{
    if n == 0 {
    } else if n == 1 {
    } else if n == 2 {
    } else if n == 3 {
    } else if n == 4 {
    } else if n == 5 {
    } else if n == 6 {
    } else if n == 7 {
    } else if n == 8 {
    } else {
    }
}

/// The ten characters of the name of a day of a year from 0 to 9999, as
/// their codes.
proof fn lemma_iso_codes(d: Day)
    requires
        d.valid(),
        d.year >= 0,
    ensures
        iso_date(d).len() == 10,
        iso_date(d)[0] as int == 48 + d.year as int / 1000,
        iso_date(d)[1] as int == 48 + d.year as int / 100 % 10,
        iso_date(d)[2] as int == 48 + d.year as int / 10 % 10,
        iso_date(d)[3] as int == 48 + d.year as int % 10,
        iso_date(d)[4] == '-',
        iso_date(d)[5] as int == 48 + d.month as int / 10,
        iso_date(d)[6] as int == 48 + d.month as int % 10,
        iso_date(d)[7] == '-',
        iso_date(d)[8] as int == 48 + d.day as int / 10,
        iso_date(d)[9] as int == 48 + d.day as int % 10,
{
    let y = d.year as int;
    lemma_digit(y / 1000);
    lemma_digit(y / 100 % 10);
    lemma_digit(y / 10 % 10);
    lemma_digit(y % 10);
    lemma_digit(d.month as int / 10);
    lemma_digit(d.month as int % 10);
    lemma_digit(d.day as int / 10);
    lemma_digit(d.day as int % 10);
}

/// Names of days sort as the days do: for the years from 0 to 9999, one
/// day's name comes no later than another's exactly when the day does.
pub proof fn lemma_names_sort_by_date(a: Day, b: Day)
    requires
        a.valid(),
        b.valid(),
        a.year >= 0,
        b.year >= 0,
    ensures
        chars_le(iso_date(a), iso_date(b)) == day_le(a, b),
{
    lemma_iso_codes(a);
    lemma_iso_codes(b);
    let s = iso_date(a);
    let t = iso_date(b);
    reveal_with_fuel(chars_le, 11);
    assert(s.drop_first()[0] == s[1]);
    let ya = a.year as int;
    let yb = b.year as int;
    assert(ya == 1000 * (ya / 1000) + 100 * (ya / 100 % 10) + 10 * (ya / 10 % 10) + ya % 10)
        by (nonlinear_arith)
        requires
            0 <= ya <= 9999,
    ;
    assert(yb == 1000 * (yb / 1000) + 100 * (yb / 100 % 10) + 10 * (yb / 10 % 10) + yb % 10)
        by (nonlinear_arith)
        requires
            0 <= yb <= 9999,
    ;
}

/// Relies on `time::OffsetDateTime::now_utc` and `Date::to_calendar_date`:
/// the current day in UTC. `time` holds only days that exist and, without
/// its `large-dates` feature, only years from -9999 to 9999.
#[verifier::external_body]
fn today_utc() -> (r: Day)
    ensures
        r.valid(),
{
    let (year, month, day) = time::OffsetDateTime::now_utc().date().to_calendar_date();
    Day { year, month: u8::from(month), day }
}

/// Relies on `Display for time::Date`: the year as four digits, zero
/// padded, after a `-` where it is negative, then `-`, the month as two
/// digits, `-` and the day as two digits. `time::Date::from_calendar_date`
/// and `Month::try_from` accept every valid day.
#[verifier::external_body]
fn format_date(d: Day) -> (r: String)
    requires
        d.valid(),
    ensures
        r@ == iso_date(d),
{
    let month = time::Month::try_from(d.month).expect("a valid day has a month in 1..=12");
    let date = time::Date::from_calendar_date(d.year, month, d.day).expect("a valid day exists");
    date.to_string()
}

/// The name of the entry of a day, without its extension.
pub fn date_name(d: Day) -> (r: String)
    requires
        d.valid(),
    ensures
        r@ == iso_date(d),
{
    format_date(d)
}

/// The name of today's entry (in UTC), without its extension.
pub fn get_daily_filename() -> (r: String)
    ensures
        exists|d: Day| d.valid() && r@ == iso_date(d),
{
    let d = today_utc();
    date_name(d)
}

} // verus!
