//! The errors that decoding reports.
use vstd::prelude::*;

verus! {

/// Why a document, a line or a token could not be decoded.
#[derive(Debug, Clone, PartialEq, Eq)]
pub enum ParseError {
    /// An expected delimiter was absent from `string`.
    SplitError { string: String, delimiter: char },
    /// `token` is not a valid value of the type named `expected`.
    InvalidToken { token: String, expected: String },
    /// A requested group needs a section that never appeared.
    MissingSection { section_name: String },
    /// `line`, read in `section`, matches no shape that the section allows.
    InvalidLine { line: String, section: String },
    /// A requested group's required `field` was never set.
    MissingField { field: String, collection: String },
    /// A lower-level failure, such as an arithmetic overflow.
    Unknown(String),
}

/// A requested group could not be assembled.
#[derive(Debug, Clone, PartialEq, Eq)]
pub enum CollectionError {
    MissingField { field: String, collection: String },
}

/// An `InvalidToken` error for `token` and the type named `expected`.
pub fn invalid_token(token: &[char], expected: &str) -> (e: ParseError)
    ensures
        e matches ParseError::InvalidToken { token: t, expected: n } && t@ == token@ && n@
            == expected@,
{
    ParseError::InvalidToken { token: crate::text::string_of(token), expected: expected.to_owned() }
}

/// An `InvalidLine` error for `line` read in `section`.
pub fn invalid_line(line: &[char], section: &str) -> (e: ParseError)
    ensures
        e matches ParseError::InvalidLine { line: l, section: s } && l@ == line@ && s@
            == section@,
{
    ParseError::InvalidLine { line: crate::text::string_of(line), section: section.to_owned() }
}

} // verus!
