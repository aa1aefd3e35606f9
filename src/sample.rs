//! Hit samples: the full colon-separated form and the two-set shorthand of slider edges.
use vstd::prelude::*;
use crate::errors::{invalid_token, ParseError};
use crate::parts::{sample_set_of, SampleSet};
use crate::text::{
    chars_of, copy_range, int_of, parse_i64, split, split_on, split_once, split_once_on, string_of,
    views,
};

verus! {

/// The sample sets, index, volume and custom file of a hit.
#[derive(Debug, Clone, PartialEq, Eq)]
pub struct HitSample {
    pub normal_set: SampleSet,
    pub addition_set: SampleSet,
    pub index: i64,
    pub volume: i64,
    pub filename: Option<String>,
}

/// A hit sample with its file name as characters.
pub struct HitSampleView {
    pub normal_set: SampleSet,
    pub addition_set: SampleSet,
    pub index: i64,
    pub volume: i64,
    pub filename: Option<Seq<char>>,
}

impl View for HitSample {
    type V = HitSampleView;

    open spec fn view(&self) -> HitSampleView {
        HitSampleView {
            normal_set: self.normal_set,
            addition_set: self.addition_set,
            index: self.index,
            volume: self.volume,
            filename: match self.filename {
                Some(f) => Some(f@),
                None => None,
            },
        }
    }
}

/// The hit sample of an object that writes none.
pub open spec fn default_hit_sample() -> HitSampleView {
    HitSampleView {
        normal_set: SampleSet::Default,
        addition_set: SampleSet::Default,
        index: 0,
        volume: 100,
        filename: None,
    }
}

impl Default for HitSample {
    fn default() -> (r: HitSample)
        ensures
            r@ == default_hit_sample(),
    {
        HitSample {
            normal_set: SampleSet::Default,
            addition_set: SampleSet::Default,
            index: 0,
            volume: 100,
            filename: None,
        }
    }
}

/// The text before the first `d` and, if there is one, the text after it.
pub open spec fn split_opt(s: Seq<char>, d: char) -> (Seq<char>, Option<Seq<char>>) {
    match split_once(s, d) {
        Some((a, b)) => (a, Some(b)),
        None => (s, None),
    }
}

/// What follows the two sample sets: `[index[:volume[:filename]]]`. Index and volume
/// default to 0 and 100; the file name is all that follows the fourth colon, and an
/// empty one is no file name.
pub open spec fn sample_tail_of(t: Option<Seq<char>>) -> Option<(i64, i64, Option<Seq<char>>)> {
    match t {
        None => Some((0, 100, None)),
        Some(r) => {
            let (i, rest) = split_opt(r, ':');
            match int_of(i) {
                None => None,
                Some(index) => match rest {
                    None => Some((index, 100, None)),
                    Some(r2) => {
                        let (v, file) = split_opt(r2, ':');
                        match int_of(v) {
                            None => None,
                            Some(volume) => Some(
                                (
                                    index,
                                    volume,
                                    match file {
                                        Some(f) => if f.len() > 0 {
                                            Some(f)
                                        } else {
                                            None
                                        },
                                        None => None,
                                    },
                                ),
                            ),
                        }
                    },
                },
            }
        },
    }
}

/// `normalSet:additionSet[:index[:volume[:filename]]]`, the fields as written.
pub open spec fn hit_sample_of(s: Seq<char>) -> Option<HitSampleView> {
    match split_once(s, ':') {
        None => None,
        Some((n, r)) => {
            let (a, tail) = split_opt(r, ':');
            match (sample_set_of(n), sample_set_of(a), sample_tail_of(tail)) {
                (Some(normal_set), Some(addition_set), Some((index, volume, filename))) => Some(
                    HitSampleView { normal_set, addition_set, index, volume, filename },
                ),
                _ => None,
            }
        },
    }
}

/// The text before the first `d` and, if there is one, the text after it.
fn split_opt_on(s: &[char], d: char) -> (r: (Vec<char>, Option<Vec<char>>))
    ensures
        split_opt(s@, d) == (r.0@, match r.1 {
            Some(v) => Some(v@),
            None => None,
        }),
{
    match split_once_on(s, d) {
        Some((a, b)) => (a, Some(b)),
        None => {
            let all = copy_range(s, 0, s.len());
            assert(all@ =~= s@);
            (all, None)
        },
    }
}

fn sample_tail(t: Option<Vec<char>>) -> (r: Option<(i64, i64, Option<String>)>)
    ensures
        sample_tail_of(
            match t {
                Some(v) => Some(v@),
                None => None,
            },
        ) == match r {
            Some((i, v, f)) => Some(
                (
                    i,
                    v,
                    match f {
                        Some(f) => Some(f@),
                        None => None,
                    },
                ),
            ),
            None => None,
        },
{
    match t {
        None => Some((0, 100, None)),
        Some(r) => {
            let (i, rest) = split_opt_on(r.as_slice(), ':');
            let index = parse_i64(i.as_slice())?;
            match rest {
                None => Some((index, 100, None)),
                Some(r2) => {
                    let (v, file) = split_opt_on(r2.as_slice(), ':');
                    let volume = parse_i64(v.as_slice())?;
                    let filename = match file {
                        Some(f) => if f.len() > 0 {
                            Some(string_of(f.as_slice()))
                        } else {
                            None
                        },
                        None => None,
                    };
                    Some((index, volume, filename))
                },
            }
        },
    }
}

impl HitSample {
    pub fn from_str(s: &str) -> (r: Result<HitSample, ParseError>)
        ensures
            match r {
                Ok(h) => hit_sample_of(s@) == Some(h@),
                Err(ParseError::InvalidToken { token, expected }) => expected@ == "HitSample"@
                    && hit_sample_of(s@) is None && token@ == s@,
                Err(_) => false,
            },
    {
        let c = chars_of(s);
        Self::from_chars(c.as_slice())
    }

    pub fn from_chars(s: &[char]) -> (r: Result<HitSample, ParseError>)
        ensures
            match r {
                Ok(h) => hit_sample_of(s@) == Some(h@),
                Err(ParseError::InvalidToken { token, expected }) => expected@ == "HitSample"@
                    && hit_sample_of(s@) is None && token@ == s@,
                Err(_) => false,
            },
    {
        let (n, r) = match split_once_on(s, ':') {
            Some(p) => p,
            None => return Err(invalid_token(s, "HitSample")),
        };
        let (a, tail) = split_opt_on(r.as_slice(), ':');
        let normal_set = match SampleSet::from_chars(n.as_slice()) {
            Ok(v) => v,
            Err(_) => return Err(invalid_token(s, "HitSample")),
        };
        let addition_set = match SampleSet::from_chars(a.as_slice()) {
            Ok(v) => v,
            Err(_) => return Err(invalid_token(s, "HitSample")),
        };
        match sample_tail(tail) {
            Some((index, volume, filename)) => Ok(
                HitSample { normal_set, addition_set, index, volume, filename },
            ),
            None => Err(invalid_token(s, "HitSample")),
        }
    }
}

/// The two sample sets of a slider edge.
#[derive(Debug, Clone, Copy, PartialEq, Eq, Structural)]
pub struct HalfHitSample {
    pub normal_set: SampleSet,
    pub addition_set: SampleSet,
}

/// `normalSet:additionSet`, exactly one colon, both sides as written.
pub open spec fn half_hit_sample_of(s: Seq<char>) -> Option<HalfHitSample> {
    let f = split(s, ':');
    if f.len() != 2 {
        None
    } else {
        match (sample_set_of(f[0]), sample_set_of(f[1])) {
            (Some(normal_set), Some(addition_set)) => Some(
                HalfHitSample { normal_set, addition_set },
            ),
            _ => None,
        }
    }
}

impl HalfHitSample {
    pub fn from_str(s: &str) -> (r: Result<HalfHitSample, ParseError>)
        ensures
            match r {
                Ok(h) => half_hit_sample_of(s@) == Some(h),
                Err(ParseError::InvalidToken { token, expected }) => expected@ == "HalfHitSample"@ && half_hit_sample_of(s@) is None
                    && token@ == s@,
                Err(_) => false,
            },
    {
        let c = chars_of(s);
        Self::from_chars(c.as_slice())
    }

    pub fn from_chars(s: &[char]) -> (r: Result<HalfHitSample, ParseError>)
        ensures
            match r {
                Ok(h) => half_hit_sample_of(s@) == Some(h),
                Err(ParseError::InvalidToken { token, expected }) => expected@ == "HalfHitSample"@ && half_hit_sample_of(s@) is None
                    && token@ == s@,
                Err(_) => false,
            },
    {
        let f = split_on(s, ':');
        let ghost g = views(f@);
        if f.len() != 2 {
            return Err(invalid_token(s, "HalfHitSample"));
        }
        assert(g[0] == f@[0]@ && g[1] == f@[1]@);
        match (SampleSet::from_chars(f[0].as_slice()), SampleSet::from_chars(f[1].as_slice())) {
            (Ok(normal_set), Ok(addition_set)) => Ok(HalfHitSample { normal_set, addition_set }),
            _ => Err(invalid_token(s, "HalfHitSample")),
        }
    }
}

} // verus!
