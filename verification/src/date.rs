//! Calendar dates, by way of the `chrono` crate.
use chrono::Datelike;
use vstd::prelude::*;

verus! {

/// A calendar date: the year, the month (1 to 12) and the day of the month.
#[derive(Clone, Copy, Debug, PartialEq, Eq, Structural)]
pub struct Date {
    pub year: i32,
    pub month: u32,
    pub day: u32,
}

/// The date that `chrono::NaiveDate::parse_from_str` reads from `text` with the
/// format `fmt`, or `None` where it reports an error.
pub uninterp spec fn spec_parse_date(text: Seq<char>, fmt: Seq<char>) -> Option<Date>;

/// `a` is the same day as `b` or a later one (the order of `chrono::NaiveDate`).
pub open spec fn date_ge(a: Date, b: Date) -> bool {
    ||| a.year > b.year
    ||| (a.year == b.year && a.month > b.month)
    ||| (a.year == b.year && a.month == b.month && a.day >= b.day)
}

/// A date as the number `YYYYMMDD`.
pub open spec fn day_number(d: Date) -> int {
    d.year * 10000 + d.month * 100 + d.day
}

/// A date with its month in 1..=12 and its day in 1..=31.
pub open spec fn in_range(d: Date) -> bool {
    1 <= d.month <= 12 && 1 <= d.day <= 31
}

/// On dates in range, `date_ge` is the order of the days: `a` is on or after
/// `b` exactly where `a`'s number `YYYYMMDD` is not smaller than `b`'s. In
/// particular a date in an earlier year is never on or after, and one in a
/// later year always is.
pub proof fn lemma_date_order(a: Date, b: Date)
    requires
        in_range(a),
        in_range(b),
    ensures
        date_ge(a, b) <==> day_number(a) >= day_number(b),
        a.year < b.year ==> !date_ge(a, b),
        a.year > b.year ==> date_ge(a, b),
        date_ge(a, a),
        date_ge(a, b) && date_ge(b, a) ==> a == b,
{
}

/// `chrono::NaiveDate::parse_from_str(text, fmt).ok()`, as a `Date`. A date
/// that chrono gives back is a valid one, so its month and day are in range.
#[verifier::external_body]
pub fn parse_date(text: &str, fmt: &str) -> (r: Option<Date>)
    ensures
        r == spec_parse_date(text@, fmt@),
        r matches Some(d) ==> 1 <= d.month <= 12 && 1 <= d.day <= 31,
{
    chrono::NaiveDate::parse_from_str(text, fmt).ok().map(
        |d| Date { year: d.year(), month: d.month(), day: d.day() },
    )
}

/// Today's date in the local time zone (`chrono::Local::now().date_naive()`).
/// It depends on the clock, so nothing is stated of it but that it is a date.
#[verifier::external_body]
pub fn today() -> (r: Date)
    ensures
        1 <= r.month <= 12 && 1 <= r.day <= 31,
{
    let d = chrono::Local::now().date_naive();
    Date { year: d.year(), month: d.month(), day: d.day() }
}

/// Whether `a` is the same day as `b` or a later one.
pub fn on_or_after(a: Date, b: Date) -> (r: bool)
    ensures
        r == date_ge(a, b),
{
    a.year > b.year || (a.year == b.year && a.month > b.month) || (a.year == b.year && a.month
        == b.month && a.day >= b.day)
}

} // verus!
