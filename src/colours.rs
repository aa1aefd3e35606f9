//! Combo colours: one `ComboN : r,g,b` line each.
use vstd::prelude::*;
use crate::errors::{invalid_line, invalid_token, ParseError};
use crate::text::{
    byte_of, chars_of, parse_u8, split, split_on, split_once, split_once_on, trim, trimmed,
    views,
};

verus! {

/// Three 8-bit channels.
#[derive(Debug, Clone, Copy, PartialEq, Eq, Structural)]
pub struct Color {
    pub red: u8,
    pub green: u8,
    pub blue: u8,
}

/// `r,g,b`: three bytes, each as written.
pub open spec fn color_of(s: Seq<char>) -> Option<Color> {
    let f = split(s, ',');
    if f.len() != 3 {
        None
    } else {
        match (byte_of(f[0]), byte_of(f[1]), byte_of(f[2])) {
            (Some(red), Some(green), Some(blue)) => Some(Color { red, green, blue }),
            _ => None,
        }
    }
}

/// A colour line: the channels after the first `:`.
pub open spec fn colour_line_of(line: Seq<char>) -> Option<Color> {
    match split_once(line, ':') {
        Some((_, rhs)) => color_of(trim(rhs)),
        None => None,
    }
}

impl Color {
    pub fn from_str(s: &str) -> (r: Result<Color, ParseError>)
        ensures
            match r {
                Ok(c) => color_of(s@) == Some(c),
                Err(ParseError::InvalidToken { token, expected }) => expected@ == "Color"@ && color_of(s@) is None && token@
                    == s@,
                Err(_) => false,
            },
    {
        let c = chars_of(s);
        Self::from_chars(c.as_slice())
    }

    pub fn from_chars(s: &[char]) -> (r: Result<Color, ParseError>)
        ensures
            match r {
                Ok(c) => color_of(s@) == Some(c),
                Err(ParseError::InvalidToken { token, expected }) => expected@ == "Color"@ && color_of(s@) is None && token@
                    == s@,
                Err(_) => false,
            },
    {
        let f = split_on(s, ',');
        let ghost g = views(f@);
        if f.len() != 3 {
            return Err(invalid_token(s, "Color"));
        }
        assert(g[0] == f@[0]@ && g[1] == f@[1]@ && g[2] == f@[2]@);
        match (parse_u8(f[0].as_slice()), parse_u8(f[1].as_slice()), parse_u8(f[2].as_slice())) {
            (Some(red), Some(green), Some(blue)) => Ok(Color { red, green, blue }),
            _ => Err(invalid_token(s, "Color")),
        }
    }

    /// The channels as a triple.
    pub fn rgb(&self) -> (r: (u8, u8, u8))
        ensures
            r == (self.red, self.green, self.blue),
    {
        (self.red, self.green, self.blue)
    }

    /// The channels as a triple.
    pub fn tuple(&self) -> (r: (u8, u8, u8))
        ensures
            r == (self.red, self.green, self.blue),
    {
        (self.red, self.green, self.blue)
    }
}

/// Decodes one colour line.
pub fn colour_line(line: &[char]) -> (r: Option<Color>)
    ensures
        r == colour_line_of(line@),
{
    match split_once_on(line, ':') {
        Some((_, rhs)) => {
            let t = trimmed(rhs.as_slice());
            match Color::from_chars(t.as_slice()) {
                Ok(c) => Some(c),
                Err(_) => None,
            }
        },
        None => None,
    }
}

/// What a colour line decodes to.
#[derive(Debug, Clone, Copy, PartialEq, Eq)]
pub enum Returns {
    Color(Color),
}

/// The views of a sequence of string slices.
pub open spec fn line_views(data: Seq<&str>) -> Seq<Seq<char>> {
    data.map_values(|s: &str| s@)
}

/// The lines among `ls` that are no colour line, in order.
pub open spec fn bad_lines(ls: Seq<Seq<char>>) -> Seq<Seq<char>>
    decreases ls.len(),
{
    if ls.len() == 0 {
        ls
    } else if colour_line_of(ls.last()) is None {
        bad_lines(ls.drop_last()).push(ls.last())
    } else {
        bad_lines(ls.drop_last())
    }
}

/// Each error is an `InvalidLine` of `[Colours]` for the corresponding line of `lines`.
pub open spec fn reports_lines(errs: Seq<ParseError>, lines: Seq<Seq<char>>) -> bool {
    errs.len() == lines.len() && forall|k: int|
        0 <= k < errs.len() ==> (#[trigger] errs[k] matches ParseError::InvalidLine {
            line,
            section,
        } && line@ == lines[k] && section@ == "[Colours]"@)
}

/// Decodes the lines of a `[Colours]` section in order. Where some line is no colour
/// line, every such line is reported, in line order.
pub fn parse(data: Vec<&str>) -> (r: Result<Vec<Returns>, Vec<ParseError>>)
    ensures
        match r {
            Ok(v) => bad_lines(line_views(data@)).len() == 0 && v@.len() == data@.len() && forall|
                i: int,
            |
                0 <= i < data@.len() ==> colour_line_of(#[trigger] data@[i]@) == Some(
                    v@[i]->Color_0,
                ),
            Err(errs) => bad_lines(line_views(data@)).len() > 0 && reports_lines(
                errs@,
                bad_lines(line_views(data@)),
            ),
        },
{
    let mut out: Vec<Returns> = Vec::new();
    let mut errs: Vec<ParseError> = Vec::new();
    let mut i: usize = 0;
    let ghost lv = line_views(data@);
    assert(lv.take(0) =~= Seq::<Seq<char>>::empty());
    while i < data.len()
        invariant
            i <= data@.len(),
            lv == line_views(data@),
            reports_lines(errs@, bad_lines(lv.take(i as int))),
            errs@.len() == 0 ==> out@.len() == i && forall|j: int|
                0 <= j < i ==> colour_line_of(#[trigger] data@[j]@) == Some(out@[j]->Color_0),
        decreases data@.len() - i,
    {
        let line = chars_of(data[i]);
        assert(lv[i as int] == data@[i as int]@);
        assert(lv.take(i + 1).drop_last() =~= lv.take(i as int));
        assert(lv.take(i + 1).last() == line@);
        let ghost before = errs@;
        match colour_line(line.as_slice()) {
            Some(c) => {
                assert(bad_lines(lv.take(i + 1)) == bad_lines(lv.take(i as int)));
                out.push(Returns::Color(c));
            },
            None => {
                assert(bad_lines(lv.take(i + 1)) == bad_lines(lv.take(i as int)).push(line@));
                errs.push(invalid_line(line.as_slice(), "[Colours]"));
                assert(errs@ == before.push(errs@.last()));
                assert forall|k: int| 0 <= k < errs@.len() implies (#[trigger] errs@[k] matches ParseError::InvalidLine {
                    line,
                    section,
                } && line@ == bad_lines(lv.take(i + 1))[k] && section@ == "[Colours]"@) by {
                    if k < before.len() {
                        assert(errs@[k] == before[k]);
                    }
                }
            },
        }
        i = i + 1;
    }
    assert(lv.take(i as int) =~= lv);
    if errs.len() == 0 {
        Ok(out)
    } else {
        Err(errs)
    }
}

} // verus!
