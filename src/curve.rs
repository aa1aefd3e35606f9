//! A slider's path: its curve type and control points.
use vstd::prelude::*;
use crate::errors::{invalid_token, ParseError};
use crate::parts::{curve_type_of, CurveType};
use crate::text::{
    chars_of, each, int_of, lemma_each_fails, parse_i64, split, split_once, split_once_on,
    split_trimmed, trim, trim_all, trimmed, views,
};

verus! {

/// A curve type and the control points after the slider's own position.
#[derive(Debug, Clone, PartialEq, Eq)]
pub struct Curve {
    pub _type: CurveType,
    pub points: Vec<(i64, i64)>,
}

pub struct CurveView {
    pub kind: CurveType,
    pub points: Seq<(i64, i64)>,
}

impl View for Curve {
    type V = CurveView;

    open spec fn view(&self) -> CurveView {
        CurveView { kind: self._type, points: self.points@ }
    }
}

/// `x:y`, both trimmed integers.
pub open spec fn point_of(s: Seq<char>) -> Option<(i64, i64)> {
    match split_once(s, ':') {
        Some((x, y)) => match (int_of(trim(x)), int_of(trim(y))) {
            (Some(a), Some(b)) => Some((a, b)),
            _ => None,
        },
        None => None,
    }
}

pub open spec fn point_fn() -> spec_fn(Seq<char>) -> Option<(i64, i64)> {
    |p: Seq<char>| point_of(p)
}

/// `T|x:y|x:y...`: a curve type, then control points. A perfect circle takes no more
/// than two points.
pub open spec fn curve_of(s: Seq<char>) -> Option<CurveView> {
    let parts = trim_all(split(s, '|'));
    match curve_type_of(parts[0]) {
        Some(kind) => match each(parts.skip(1), point_fn()) {
            Some(points) => if kind == CurveType::Perfect && points.len() > 2 {
                None
            } else {
                Some(CurveView { kind, points })
            },
            None => None,
        },
        None => None,
    }
}

fn point_from(s: &[char]) -> (r: Option<(i64, i64)>)
    ensures
        r == point_of(s@),
{
    match split_once_on(s, ':') {
        Some((x, y)) => {
            let tx = trimmed(x.as_slice());
            let ty = trimmed(y.as_slice());
            match (parse_i64(tx.as_slice()), parse_i64(ty.as_slice())) {
                (Some(a), Some(b)) => Some((a, b)),
                _ => None,
            }
        },
        None => None,
    }
}

impl Curve {
    pub fn from_str(s: &str) -> (r: Result<Curve, ParseError>)
        ensures
            match r {
                Ok(c) => curve_of(s@) == Some(c@),
                Err(ParseError::InvalidToken { token, expected }) => expected@ == "Curve"@ && curve_of(s@) is None && token@
                    == s@,
                Err(_) => false,
            },
    {
        let c = chars_of(s);
        Self::from_chars(c.as_slice())
    }

    pub fn from_chars(s: &[char]) -> (r: Result<Curve, ParseError>)
        ensures
            match r {
                Ok(c) => curve_of(s@) == Some(c@),
                Err(ParseError::InvalidToken { token, expected }) => expected@ == "Curve"@ && curve_of(s@) is None && token@
                    == s@,
                Err(_) => false,
            },
    {
        let parts = split_trimmed(s, '|');
        let ghost g = views(parts@);
        assert(g.len() >= 1) by {
            crate::text::lemma_split_nonempty(s@, '|');
        }
        assert(g[0] == parts@[0]@);
        let kind = match CurveType::from_chars(parts[0].as_slice()) {
            Ok(k) => k,
            Err(_) => return Err(invalid_token(s, "Curve")),
        };
        let mut points: Vec<(i64, i64)> = Vec::new();
        let mut i: usize = 1;
        assert(g.skip(1).take(0) =~= Seq::<Seq<char>>::empty());
        while i < parts.len()
            invariant
                1 <= i <= parts@.len(),
                g == views(parts@),
                g == trim_all(split(s@, '|')),
                curve_type_of(g[0]) == Some(kind),
                each(g.skip(1).take(i - 1), point_fn()) == Some(points@),
            decreases parts@.len() - i,
        {
            assert(g.skip(1).take(i as int).drop_last() =~= g.skip(1).take(i - 1));
            assert(g.skip(1).take(i as int).last() == parts@[i as int]@);
            match point_from(parts[i].as_slice()) {
                Some(p) => {
                    points.push(p);
                },
                None => {
                    proof {
                        lemma_each_fails(g.skip(1), i as int, point_fn());
                    }
                    return Err(invalid_token(s, "Curve"));
                },
            }
            i = i + 1;
        }
        assert(g.skip(1).take(i - 1) =~= g.skip(1));
        if kind == CurveType::Perfect && points.len() > 2 {
            return Err(invalid_token(s, "Curve"));
        }
        Ok(Curve { _type: kind, points })
    }
}

} // verus!
