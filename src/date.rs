//! Release dates.
use vstd::prelude::*;
use crate::err::Error;
use crate::num::{i32_value, parse_i32, parse_u8, signed_decimal_text, signed_text, unsigned_value};
use crate::text::{split_chars, split_on, string_of, chars_of};

verus! {

/// A release date: a year, or a year with month and day.
#[derive(Clone, Copy, Debug, PartialEq, Eq, Structural, PartialOrd, Ord)]
pub struct Date {
    pub year: i32,
    pub month: u8,
    pub day: u8,
}

/// `a` is no later than `b`: years first, then months, then days.
pub open spec fn date_le(a: Date, b: Date) -> bool {
    a.year < b.year || (a.year == b.year && (a.month < b.month || (a.month == b.month && a.day
        <= b.day)))
}

/// The date that the text `s` writes: `year-month-day`, or `year` alone for
/// the first of January.
pub open spec fn date_of(s: Seq<char>) -> Result<Date, Error> {
    let parts = split_on(s, '-');
    if parts.len() == 3 {
        match (
            i32_value(parts[0]),
            unsigned_value(parts[1], 10, u8::MAX as int),
            unsigned_value(parts[2], 10, u8::MAX as int),
        ) {
            (Some(y), Some(m), Some(d)) => Ok(Date { year: y as i32, month: m as u8, day: d as u8 }),
            _ => Err(Error::ParseInt),
        }
    } else if parts.len() == 1 {
        match i32_value(s) {
            Some(y) => Ok(Date { year: y as i32, month: 1, day: 1 }),
            None => Err(Error::ParseInt),
        }
    } else {
        Err(Error::ParseDate)
    }
}

/// The date as `{:04}-{:02}-{:02}` writes year, month and day.
pub open spec fn date_text(d: Date) -> Seq<char> {
    signed_text(d.year as int, 4) + seq!['-'] + signed_text(d.month as int, 2) + seq!['-']
        + signed_text(d.day as int, 2)
}

impl Date {
    pub fn new(year: i32, month: u8, day: u8) -> (r: Self)
        ensures
            r == (Date { year, month, day }),
    {
        Self { year, month, day }
    }

    /// The first of January of `year`.
    pub fn year(year: i32) -> (r: Self)
        ensures
            r == (Date { year, month: 1, day: 1 }),
    {
        Self { year, month: 1, day: 1 }
    }

    /// Reads `year-month-day` or `year`.
    pub fn parse(s: &str) -> (r: Result<Date, Error>)
        ensures
            r == date_of(s@),
    {
        let v = chars_of(s);
        let parts = split_chars(&v, '-');
        let ghost ps = parts@.map_values(|p: Vec<char>| p@);
        assert(ps.len() == parts.len());
        if parts.len() == 3 {
            assert(ps[0] == parts@[0]@ && ps[1] == parts@[1]@ && ps[2] == parts@[2]@);
            let y = parse_i32(string_of(&parts[0]).as_str());
            let m = parse_u8(string_of(&parts[1]).as_str());
            let d = parse_u8(string_of(&parts[2]).as_str());
            match (y, m, d) {
                (Some(y), Some(m), Some(d)) => Ok(Date::new(y, m, d)),
                _ => Err(Error::ParseInt),
            }
        } else if parts.len() == 1 {
            match parse_i32(s) {
                Some(y) => Ok(Date::year(y)),
                None => Err(Error::ParseInt),
            }
        } else {
            Err(Error::ParseDate)
        }
    }

    /// Whether `self` is no later than `other`.
    pub fn le(&self, other: &Date) -> (r: bool)
        ensures
            r == date_le(*self, *other),
    {
        self.year < other.year || (self.year == other.year && (self.month < other.month || (
        self.month == other.month && self.day <= other.day)))
    }

    /// The date as `year-month-day`, the year in four digits or more and
    /// month and day in two.
    pub fn text(&self) -> (r: String)
        ensures
            r@ == date_text(*self),
    {
        let mut r = signed_decimal_text(self.year, 4);
        r.append("-");
        let m = signed_decimal_text(self.month as i32, 2);
        r.append(m.as_str());
        r.append("-");
        let d = signed_decimal_text(self.day as i32, 2);
        r.append(d.as_str());
        proof {
            reveal_strlit("-");
        }
        r
    }
}

impl std::str::FromStr for Date {
    type Err = Error;

    fn from_str(s: &str) -> Result<Self, Self::Err> {
        Date::parse(s)
    }
}

} // verus!
