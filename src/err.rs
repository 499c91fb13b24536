//! The library's error type.
use vstd::prelude::*;

verus! {

/// A parse error of the INI reader.
#[verifier::external_type_specification]
#[verifier::external_body]
pub struct ExIniParseError(ini::ParseError);

/// Everything that can go wrong in this library.
#[derive(Debug)]
pub enum Error {
    /// The command line is not usable; the text says why.
    InvalidUsage(String),
    /// A date is neither `year` nor `year-month-day`.
    ParseDate,
    /// A line of a disc blob has no `=`.
    ParseCddb,
    /// A `(feat. ` marker in a title is not closed; the text says what is
    /// missing.
    ParseFeat(&'static str),
    /// A number is not written as its type expects.
    ParseInt,
    /// No album field has the name given.
    UnknownField,
    /// A per-track property text is not valid INI.
    Ini(ini::ParseError),
}

} // verus!
