//! Calendar dates as plain values, and ISO date parsing.
//!
//! The store keeps a date as its year, month and day. Parsing a user-supplied
//! string is delegated to an outside parser behind a trusted wrapper; every
//! user of a malformed date string drops it rather than rejecting the request.

use vstd::prelude::*;
use chrono::Datelike;

verus! {

/// A calendar date as plain fields. Month is 1-12 and day 1-31 for every
/// value produced by `parse_iso_date`.
#[derive(Clone, Copy, Debug, PartialEq, Eq, Structural)]
pub struct Date {
    pub year: i32,
    pub month: u32,
    pub day: u32,
}

impl Date {
    /// Field ranges that every parsed date satisfies.
    pub open spec fn wf(self) -> bool {
        1 <= self.month <= 12 && 1 <= self.day <= 31
    }

    /// Lexicographic order on (year, month, day): `self` on or before `other`.
    pub open spec fn le_spec(self, other: Date) -> bool {
        if self.year != other.year {
            self.year < other.year
        } else if self.month != other.month {
            self.month < other.month
        } else {
            self.day <= other.day
        }
    }

    /// Compares calendar order: true when `self` is on or before `other`.
    pub fn le(&self, other: &Date) -> (r: bool)
        ensures
            r == self.le_spec(*other),
    {
        if self.year != other.year {
            self.year < other.year
        } else if self.month != other.month {
            self.month < other.month
        } else {
            self.day <= other.day
        }
    }
}

/// What the outside ISO calendar-date parser yields on a given string; the
/// result depends on the characters alone.
pub uninterp spec fn iso_date_of(s: Seq<char>) -> Option<Date>;

/// Relies on chrono's `NaiveDate::parse_from_str` with the `%Y-%m-%d` format
/// and on `Datelike::{year, month, day}`: parsing depends on the input string
/// alone, and month and day of a valid date lie in 1-12 and 1-31.
#[verifier::external_body]
pub fn parse_iso_date(s: &str) -> (r: Option<Date>)
    ensures
        r == iso_date_of(s@),
        r matches Some(d) ==> d.wf(),
{
    match chrono::NaiveDate::parse_from_str(s, "%Y-%m-%d") {
        Ok(d) => Some(Date { year: d.year(), month: d.month(), day: d.day() }),
        Err(_) => None,
    }
}

/// The parse-or-drop rule shared by every optional date field: an omitted
/// string stays absent, an unparseable one is silently dropped.
pub open spec fn lenient_date_spec(s: Option<String>) -> Option<Date> {
    match s {
        Some(text) => iso_date_of(text@),
        None => None,
    }
}

/// Parses an optional date string, dropping it silently when malformed.
pub fn parse_lenient_date(s: &Option<String>) -> (r: Option<Date>)
    ensures
        r == lenient_date_spec(*s),
        r matches Some(d) ==> d.wf(),
{
    match s {
        Some(text) => parse_iso_date(text.as_str()),
        None => None,
    }
}

} // verus!
