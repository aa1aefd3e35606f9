//! The background and break records of the `[Events]` section, each given without
//! its leading event identifier.
use vstd::prelude::*;
use crate::errors::{invalid_token, ParseError};
use crate::text::{
    chars_of, int_of, parse_i64, rsplit_once, rsplit_once_on, split_once, split_once_on,
    string_of,
};

verus! {

/// A background image and its offset.
#[derive(Debug, Clone, PartialEq, Eq)]
pub struct Background {
    pub filename: String,
    pub xoffset: i64,
    pub yoffset: i64,
}

pub struct BackgroundView {
    pub filename: Seq<char>,
    pub xoffset: i64,
    pub yoffset: i64,
}

impl View for Background {
    type V = BackgroundView;

    open spec fn view(&self) -> BackgroundView {
        BackgroundView { filename: self.filename@, xoffset: self.xoffset, yoffset: self.yoffset }
    }
}

/// `filename,x,y`, read from the back so that the file name may hold commas.
pub open spec fn background_of(s: Seq<char>) -> Option<BackgroundView> {
    match rsplit_once(s, ',') {
        Some((rest, y)) => match rsplit_once(rest, ',') {
            Some((filename, x)) => match (int_of(x), int_of(y)) {
                (Some(xoffset), Some(yoffset)) => Some(
                    BackgroundView { filename, xoffset, yoffset },
                ),
                _ => None,
            },
            None => None,
        },
        None => None,
    }
}

/// `s` has the two commas that a background line needs.
pub open spec fn background_split(s: Seq<char>) -> bool {
    match rsplit_once(s, ',') {
        Some((rest, _)) => rsplit_once(rest, ',') is Some,
        None => false,
    }
}

impl Background {
    pub fn from_str(s: &str) -> (r: Result<Background, ParseError>)
        ensures
            match r {
                Ok(b) => background_of(s@) == Some(b@),
                Err(ParseError::SplitError { string, delimiter }) => !background_split(s@)
                    && string@ == s@ && delimiter == ',',
                Err(ParseError::InvalidToken { token, expected }) => expected@ == "Background"@ && background_split(s@)
                    && background_of(s@) is None && token@ == s@,
                Err(_) => false,
            },
    {
        let c = chars_of(s);
        Self::from_chars(c.as_slice())
    }

    pub fn from_chars(s: &[char]) -> (r: Result<Background, ParseError>)
        ensures
            match r {
                Ok(b) => background_of(s@) == Some(b@),
                Err(ParseError::SplitError { string, delimiter }) => !background_split(s@)
                    && string@ == s@ && delimiter == ',',
                Err(ParseError::InvalidToken { token, expected }) => expected@ == "Background"@ && background_split(s@)
                    && background_of(s@) is None && token@ == s@,
                Err(_) => false,
            },
    {
        let (rest, y) = match rsplit_once_on(s, ',') {
            Some(p) => p,
            None => return Err(ParseError::SplitError { string: string_of(s), delimiter: ',' }),
        };
        let (filename, x) = match rsplit_once_on(rest.as_slice(), ',') {
            Some(p) => p,
            None => return Err(ParseError::SplitError { string: string_of(s), delimiter: ',' }),
        };
        match (parse_i64(x.as_slice()), parse_i64(y.as_slice())) {
            (Some(xoffset), Some(yoffset)) => Ok(
                Background { filename: string_of(filename.as_slice()), xoffset, yoffset },
            ),
            _ => Err(invalid_token(s, "Background")),
        }
    }
}

/// A break in play, from its start to its end time.
#[derive(Debug, Clone, Copy, PartialEq, Eq, Structural)]
pub struct Break {
    pub start_time: i64,
    pub end_time: i64,
}

/// `start,end`: two integers around the first comma.
pub open spec fn break_of(s: Seq<char>) -> Option<Break> {
    match split_once(s, ',') {
        Some((a, b)) => match (int_of(a), int_of(b)) {
            (Some(start_time), Some(end_time)) => Some(Break { start_time, end_time }),
            _ => None,
        },
        None => None,
    }
}

impl Break {
    pub fn from_str(s: &str) -> (r: Result<Break, ParseError>)
        ensures
            match r {
                Ok(b) => break_of(s@) == Some(b),
                Err(ParseError::SplitError { string, delimiter }) => split_once(s@, ',') is None
                    && string@ == s@ && delimiter == ',',
                Err(ParseError::InvalidToken { token, expected }) => expected@ == "Break"@ && split_once(s@, ',') is Some
                    && break_of(s@) is None && token@ == s@,
                Err(_) => false,
            },
    {
        let c = chars_of(s);
        Self::from_chars(c.as_slice())
    }

    pub fn from_chars(s: &[char]) -> (r: Result<Break, ParseError>)
        ensures
            match r {
                Ok(b) => break_of(s@) == Some(b),
                Err(ParseError::SplitError { string, delimiter }) => split_once(s@, ',') is None
                    && string@ == s@ && delimiter == ',',
                Err(ParseError::InvalidToken { token, expected }) => expected@ == "Break"@ && split_once(s@, ',') is Some
                    && break_of(s@) is None && token@ == s@,
                Err(_) => false,
            },
    {
        match split_once_on(s, ',') {
            Some((a, b)) => match (parse_i64(a.as_slice()), parse_i64(b.as_slice())) {
                (Some(start_time), Some(end_time)) => Ok(Break { start_time, end_time }),
                _ => Err(invalid_token(s, "Break")),
            },
            None => Err(ParseError::SplitError { string: string_of(s), delimiter: ',' }),
        }
    }
}

} // verus!
