//! Timing points: comma-separated records whose field count decides which trailing
//! fields are written.
use vstd::prelude::*;
use crate::errors::{invalid_line, ParseError};
use crate::parts::{effects_of, sample_set_of, Effects, SampleSet};
use crate::text::{
    chars_of, int_of, real_literal, parse_i64, is_real, split, split_trimmed, string_of,
    trim_all, views,
};

verus! {

/// The meter of a timing point that writes none.
pub const DEFAULT_METER: i64 = 4;

/// The volume of a timing point that writes none.
pub const DEFAULT_VOLUME: i64 = 100;

/// Tempo, sample and volume context from `time` on. The beat length is kept as the
/// real-number text that the record writes.
#[derive(Debug, Clone, PartialEq, Eq)]
pub struct TimingPoint {
    pub time: i64,
    pub beat_length: String,
    pub meter: i64,
    pub sample_set: SampleSet,
    pub sample_index: i64,
    pub volume: i64,
    pub uninherited: bool,
    pub effects: Effects,
}

pub struct TimingPointView {
    pub time: i64,
    pub beat_length: Seq<char>,
    pub meter: i64,
    pub sample_set: SampleSet,
    pub sample_index: i64,
    pub volume: i64,
    pub uninherited: bool,
    pub effects: Effects,
}

impl View for TimingPoint {
    type V = TimingPointView;

    open spec fn view(&self) -> TimingPointView {
        TimingPointView {
            time: self.time,
            beat_length: self.beat_length@,
            meter: self.meter,
            sample_set: self.sample_set,
            sample_index: self.sample_index,
            volume: self.volume,
            uninherited: self.uninherited,
            effects: self.effects,
        }
    }
}

/// The timing point whose fields all hold their defaults: time 0, beat length `0`,
/// meter 4, sample set `Default`, index 0, volume 100, uninherited, no effects.
pub open spec fn default_timing_point() -> TimingPointView {
    TimingPointView {
        time: 0,
        beat_length: seq!['0'],
        meter: DEFAULT_METER,
        sample_set: SampleSet::Default,
        sample_index: 0,
        volume: DEFAULT_VOLUME,
        uninherited: true,
        effects: Effects { kiai: false, ommit_barline: false },
    }
}

impl Default for TimingPoint {
    fn default() -> (r: TimingPoint)
        ensures
            r@ == default_timing_point(),
    {
        let mut beat_length = String::new();
        beat_length.append("0");
        proof {
            reveal_strlit("0");
        }
        assert(beat_length@ =~= seq!['0']);
        TimingPoint {
            time: 0,
            beat_length,
            meter: DEFAULT_METER,
            sample_set: SampleSet::Default,
            sample_index: 0,
            volume: DEFAULT_VOLUME,
            uninherited: true,
            effects: Effects { kiai: false, ommit_barline: false },
        }
    }
}

/// The field counts a timing point may have: time and beat length; then meter, sample
/// set, sample index and volume; then the uninherited flag; then the effects.
pub open spec fn timing_arity(n: int) -> bool {
    n == 2 || n == 6 || n == 7 || n == 8
}

/// A timing point record, its fields trimmed. Fields it leaves out keep the values of
/// `default_timing_point`.
pub open spec fn timing_point_of(s: Seq<char>) -> Option<TimingPointView> {
    let d = default_timing_point();
    let f = trim_all(split(s, ','));
    let n = f.len() as int;
    if !timing_arity(n) {
        None
    } else {
        let time = int_of(f[0]);
        let meter = if n >= 6 {
            int_of(f[2])
        } else {
            Some(d.meter)
        };
        let sample_set = if n >= 6 {
            sample_set_of(f[3])
        } else {
            Some(d.sample_set)
        };
        let sample_index = if n >= 6 {
            int_of(f[4])
        } else {
            Some(d.sample_index)
        };
        let volume = if n >= 6 {
            int_of(f[5])
        } else {
            Some(d.volume)
        };
        let uninherited = if n >= 7 {
            match int_of(f[6]) {
                Some(v) => Some(v == 1),
                None => None,
            }
        } else {
            Some(d.uninherited)
        };
        let effects = if n == 8 {
            effects_of(f[7])
        } else {
            Some(d.effects)
        };
        if time is Some && real_literal(f[1]) && meter is Some && sample_set is Some
            && sample_index is Some && volume is Some && uninherited is Some && effects is Some {
            Some(
                TimingPointView {
                    time: time->Some_0,
                    beat_length: f[1],
                    meter: meter->Some_0,
                    sample_set: sample_set->Some_0,
                    sample_index: sample_index->Some_0,
                    volume: volume->Some_0,
                    uninherited: uninherited->Some_0,
                    effects: effects->Some_0,
                },
            )
        } else {
            None
        }
    }
}

impl TimingPoint {
    /// Decodes a timing point; a record of another field count, or with a field that
    /// does not decode, is an `InvalidLine` of `[TimingPoints]`.
    pub fn from_str(s: &str) -> (r: Result<TimingPoint, ParseError>)
        ensures
            match r {
                Ok(t) => timing_point_of(s@) == Some(t@),
                Err(ParseError::InvalidLine { line, section }) => timing_point_of(s@) is None
                    && line@ == s@ && section@ == "[TimingPoints]"@,
                Err(_) => false,
            },
    {
        let c = chars_of(s);
        Self::from_chars(c.as_slice())
    }

    pub fn from_chars(s: &[char]) -> (r: Result<TimingPoint, ParseError>)
        ensures
            match r {
                Ok(t) => timing_point_of(s@) == Some(t@),
                Err(ParseError::InvalidLine { line, section }) => timing_point_of(s@) is None
                    && line@ == s@ && section@ == "[TimingPoints]"@,
                Err(_) => false,
            },
    {
        match Self::decode(s) {
            Some(t) => Ok(t),
            None => Err(invalid_line(s, "[TimingPoints]")),
        }
    }

    fn decode(s: &[char]) -> (r: Option<TimingPoint>)
        ensures
            match r {
                Some(t) => timing_point_of(s@) == Some(t@),
                None => timing_point_of(s@) is None,
            },
    {
        let f = split_trimmed(s, ',');
        let ghost g = views(f@);
        let n = f.len();
        if !(n == 2 || n == 6 || n == 7 || n == 8) {
            return None;
        }
        assert(g[0] == f@[0]@ && g[1] == f@[1]@);
        let time = parse_i64(f[0].as_slice())?;
        if !is_real(f[1].as_slice()) {
            return None;
        }
        let mut t = TimingPoint::default();
        t.time = time;
        t.beat_length = string_of(f[1].as_slice());
        if n >= 6 {
            assert(g[2] == f@[2]@ && g[3] == f@[3]@ && g[4] == f@[4]@ && g[5] == f@[5]@);
            t.meter = parse_i64(f[2].as_slice())?;
            t.sample_set = match SampleSet::from_chars(f[3].as_slice()) {
                Ok(v) => v,
                Err(_) => return None,
            };
            t.sample_index = parse_i64(f[4].as_slice())?;
            t.volume = parse_i64(f[5].as_slice())?;
        }
        if n >= 7 {
            assert(g[6] == f@[6]@);
            t.uninherited = parse_i64(f[6].as_slice())? == 1;
        }
        if n == 8 {
            assert(g[7] == f@[7]@);
            t.effects = match Effects::from_chars(f[7].as_slice()) {
                Ok(e) => e,
                Err(_) => return None,
            };
        }
        Some(t)
    }
}

} // verus!
