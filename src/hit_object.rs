//! Hit objects: circles, sliders, spinners and hold notes, told apart by their flags
//! byte and decoded by the number of fields after the five they share.
use vstd::prelude::*;
use crate::curve::{curve_of, Curve, CurveView};
use crate::errors::{invalid_line, ParseError};
use crate::parts::{hit_sound_of, type_of, HitSound, ObjectType, SampleSet, Type};
use crate::sample::{
    default_hit_sample, half_hit_sample_of, hit_sample_of, HalfHitSample, HitSample,
    HitSampleView,
};
use crate::text::{
    chars_of, each, int_of, real_literal, lemma_each_fails, parse_i64, is_real, split,
    split_once, split_once_on, split_trimmed, string_of, trim, trim_all, trimmed, views,
};

verus! {

/// A circle: the shared fields and a hit sample.
#[derive(Debug, Clone, PartialEq, Eq)]
pub struct Circle {
    pub x: i64,
    pub y: i64,
    pub time: i64,
    pub flags: Type,
    pub hit_sound: HitSound,
    pub hit_sample: HitSample,
}

/// A slider; its length is kept as the real-number text that the record writes.
#[derive(Debug, Clone, PartialEq, Eq)]
pub struct Slider {
    pub x: i64,
    pub y: i64,
    pub time: i64,
    pub flags: Type,
    pub hit_sound: HitSound,
    pub curve: Curve,
    pub slides: i64,
    pub length: String,
    pub edge_sounds: Vec<HitSound>,
    pub edge_sets: Vec<(SampleSet, SampleSet)>,
    pub hit_sample: HitSample,
}

/// A spinner, held until its end time.
#[derive(Debug, Clone, PartialEq, Eq)]
pub struct Spinner {
    pub x: i64,
    pub y: i64,
    pub time: i64,
    pub flags: Type,
    pub hit_sound: HitSound,
    pub end_time: i64,
    pub hit_sample: HitSample,
}

/// A hold note, held until its end time.
#[derive(Debug, Clone, PartialEq, Eq)]
pub struct ManiaHold {
    pub x: i64,
    pub y: i64,
    pub time: i64,
    pub flags: Type,
    pub hit_sound: HitSound,
    pub end_time: i64,
    pub hit_sample: HitSample,
}

/// One interactive element of a chart.
#[derive(Debug, Clone, PartialEq, Eq)]
pub enum HitObject {
    Circle(Circle),
    Slider(Slider),
    Spinner(Spinner),
    ManiaHold(ManiaHold),
}

/// The five fields that every hit object starts with.
pub struct Head {
    pub x: i64,
    pub y: i64,
    pub time: i64,
    pub flags: Type,
    pub hit_sound: HitSound,
}

/// What a slider writes after the shared fields.
pub struct SliderTail {
    pub curve: CurveView,
    pub slides: i64,
    pub length: Seq<char>,
    pub edge_sounds: Seq<HitSound>,
    pub edge_sets: Seq<(SampleSet, SampleSet)>,
    pub hit_sample: HitSampleView,
}

pub enum HitObjectView {
    Circle(Head, HitSampleView),
    Slider(Head, SliderTail),
    Spinner(Head, i64, HitSampleView),
    ManiaHold(Head, i64, HitSampleView),
}

impl View for HitObject {
    type V = HitObjectView;

    open spec fn view(&self) -> HitObjectView {
        match self {
            HitObject::Circle(c) => HitObjectView::Circle(
                Head { x: c.x, y: c.y, time: c.time, flags: c.flags, hit_sound: c.hit_sound },
                c.hit_sample@,
            ),
            HitObject::Slider(s) => HitObjectView::Slider(
                Head { x: s.x, y: s.y, time: s.time, flags: s.flags, hit_sound: s.hit_sound },
                SliderTail {
                    curve: s.curve@,
                    slides: s.slides,
                    length: s.length@,
                    edge_sounds: s.edge_sounds@,
                    edge_sets: s.edge_sets@,
                    hit_sample: s.hit_sample@,
                },
            ),
            HitObject::Spinner(p) => HitObjectView::Spinner(
                Head { x: p.x, y: p.y, time: p.time, flags: p.flags, hit_sound: p.hit_sound },
                p.end_time,
                p.hit_sample@,
            ),
            HitObject::ManiaHold(h) => HitObjectView::ManiaHold(
                Head { x: h.x, y: h.y, time: h.time, flags: h.flags, hit_sound: h.hit_sound },
                h.end_time,
                h.hit_sample@,
            ),
        }
    }
}

/// `x,y,time,flags,hitSound`.
pub open spec fn head_of(f: Seq<Seq<char>>) -> Option<Head> {
    if f.len() < 5 {
        None
    } else {
        match (int_of(f[0]), int_of(f[1]), int_of(f[2]), type_of(f[3]), hit_sound_of(f[4])) {
            (Some(x), Some(y), Some(time), Some(flags), Some(hit_sound)) => Some(
                Head { x, y, time, flags, hit_sound },
            ),
            _ => None,
        }
    }
}

/// A circle writes nothing more than an optional hit sample.
pub open spec fn circle_tail(t: Seq<Seq<char>>) -> Option<HitSampleView> {
    if t.len() == 0 {
        Some(default_hit_sample())
    } else if t.len() == 1 {
        hit_sample_of(t[0])
    } else {
        None
    }
}

/// A spinner writes its end time, then an optional hit sample, as separate fields.
pub open spec fn spinner_tail(t: Seq<Seq<char>>) -> Option<(i64, HitSampleView)> {
    if t.len() == 1 || t.len() == 2 {
        let sample = if t.len() == 2 {
            hit_sample_of(t[1])
        } else {
            Some(default_hit_sample())
        };
        match (int_of(t[0]), sample) {
            (Some(end), Some(h)) => Some((end, h)),
            _ => None,
        }
    } else {
        None
    }
}

/// A hold note writes its end time and hit sample in one field, joined by `:`.
pub open spec fn hold_tail(t: Seq<Seq<char>>) -> Option<(i64, HitSampleView)> {
    if t.len() == 1 {
        match split_once(t[0], ':') {
            Some((end, sample)) => match (int_of(trim(end)), hit_sample_of(sample)) {
                (Some(e), Some(h)) => Some((e, h)),
                _ => None,
            },
            None => None,
        }
    } else {
        None
    }
}

pub open spec fn hit_sound_fn() -> spec_fn(Seq<char>) -> Option<HitSound> {
    |p: Seq<char>| hit_sound_of(p)
}

/// An edge's `normal:addition` sample sets.
pub open spec fn edge_set_of(s: Seq<char>) -> Option<(SampleSet, SampleSet)> {
    match half_hit_sample_of(s) {
        Some(h) => Some((h.normal_set, h.addition_set)),
        None => None,
    }
}

pub open spec fn edge_set_fn() -> spec_fn(Seq<char>) -> Option<(SampleSet, SampleSet)> {
    |p: Seq<char>| edge_set_of(p)
}

/// The edge sounds of a slider that writes none: plain, then whistle.
pub open spec fn default_edge_sounds() -> Seq<HitSound> {
    seq![
        HitSound { normal: false, whistle: false, finish: false, clap: false },
        HitSound { normal: false, whistle: true, finish: false, clap: false },
    ]
}

/// The edge sets of a slider that writes none.
pub open spec fn default_edge_sets() -> Seq<(SampleSet, SampleSet)> {
    seq![(SampleSet::Default, SampleSet::Default), (SampleSet::Default, SampleSet::Default)]
}

/// The trailing field counts a slider may have: curve, slides and length; then the
/// edge sounds; then the edge sets and the hit sample.
pub open spec fn slider_arity(m: int) -> bool {
    m == 3 || m == 4 || m == 6
}

pub open spec fn slider_tail(t: Seq<Seq<char>>) -> Option<SliderTail> {
    let m = t.len() as int;
    if !slider_arity(m) {
        None
    } else {
        let edge_sounds = if m >= 4 {
            each(trim_all(split(t[3], '|')), hit_sound_fn())
        } else {
            Some(default_edge_sounds())
        };
        let edge_sets = if m == 6 {
            each(trim_all(split(t[4], '|')), edge_set_fn())
        } else {
            Some(default_edge_sets())
        };
        let hit_sample = if m == 6 {
            hit_sample_of(t[5])
        } else {
            Some(default_hit_sample())
        };
        match (curve_of(t[0]), int_of(t[1]), edge_sounds, edge_sets, hit_sample) {
            (Some(curve), Some(slides), Some(es), Some(ss), Some(h)) => if real_literal(t[2]) {
                Some(
                    SliderTail {
                        curve,
                        slides,
                        length: t[2],
                        edge_sounds: es,
                        edge_sets: ss,
                        hit_sample: h,
                    },
                )
            } else {
                None
            },
            _ => None,
        }
    }
}

/// A hit object record, its comma-separated fields trimmed; the flags byte decides the
/// kind, and the kind decides what may follow the shared fields.
pub open spec fn hit_object_of(s: Seq<char>) -> Option<HitObjectView> {
    let f = trim_all(split(s, ','));
    match head_of(f) {
        Some(head) => {
            let t = f.skip(5);
            match head.flags.object_type {
                ObjectType::Circle => match circle_tail(t) {
                    Some(h) => Some(HitObjectView::Circle(head, h)),
                    None => None,
                },
                ObjectType::Slider => match slider_tail(t) {
                    Some(tail) => Some(HitObjectView::Slider(head, tail)),
                    None => None,
                },
                ObjectType::Spinner => match spinner_tail(t) {
                    Some((e, h)) => Some(HitObjectView::Spinner(head, e, h)),
                    None => None,
                },
                ObjectType::ManiaHold => match hold_tail(t) {
                    Some((e, h)) => Some(HitObjectView::ManiaHold(head, e, h)),
                    None => None,
                },
            }
        },
        None => None,
    }
}

fn edge_sounds_from(s: &[char]) -> (r: Option<Vec<HitSound>>)
    ensures
        match r {
            Some(v) => each(trim_all(split(s@, '|')), hit_sound_fn()) == Some(v@),
            None => each(trim_all(split(s@, '|')), hit_sound_fn()) is None,
        },
{
    let parts = split_trimmed(s, '|');
    let ghost g = views(parts@);
    let mut out: Vec<HitSound> = Vec::new();
    let mut i: usize = 0;
    assert(g.take(0) =~= Seq::<Seq<char>>::empty());
    while i < parts.len()
        invariant
            i <= parts@.len(),
            g == views(parts@),
            g == trim_all(split(s@, '|')),
            each(g.take(i as int), hit_sound_fn()) == Some(out@),
        decreases parts@.len() - i,
    {
        assert(g.take(i + 1).drop_last() =~= g.take(i as int));
        assert(g.take(i + 1).last() == parts@[i as int]@);
        match HitSound::from_chars(parts[i].as_slice()) {
            Ok(h) => out.push(h),
            Err(_) => {
                proof {
                    lemma_each_fails(g, i + 1, hit_sound_fn());
                }
                return None;
            },
        }
        i = i + 1;
    }
    assert(g.take(i as int) =~= g);
    Some(out)
}

fn edge_sets_from(s: &[char]) -> (r: Option<Vec<(SampleSet, SampleSet)>>)
    ensures
        match r {
            Some(v) => each(trim_all(split(s@, '|')), edge_set_fn()) == Some(v@),
            None => each(trim_all(split(s@, '|')), edge_set_fn()) is None,
        },
{
    let parts = split_trimmed(s, '|');
    let ghost g = views(parts@);
    let mut out: Vec<(SampleSet, SampleSet)> = Vec::new();
    let mut i: usize = 0;
    assert(g.take(0) =~= Seq::<Seq<char>>::empty());
    while i < parts.len()
        invariant
            i <= parts@.len(),
            g == views(parts@),
            g == trim_all(split(s@, '|')),
            each(g.take(i as int), edge_set_fn()) == Some(out@),
        decreases parts@.len() - i,
    {
        assert(g.take(i + 1).drop_last() =~= g.take(i as int));
        assert(g.take(i + 1).last() == parts@[i as int]@);
        match HalfHitSample::from_chars(parts[i].as_slice()) {
            Ok(h) => out.push((h.normal_set, h.addition_set)),
            Err(_) => {
                proof {
                    lemma_each_fails(g, i + 1, edge_set_fn());
                }
                return None;
            },
        }
        i = i + 1;
    }
    assert(g.take(i as int) =~= g);
    Some(out)
}

fn default_edge_sounds_exec() -> (r: Vec<HitSound>)
    ensures
        r@ == default_edge_sounds(),
{
    let mut r: Vec<HitSound> = Vec::new();
    r.push(HitSound { normal: false, whistle: false, finish: false, clap: false });
    r.push(HitSound { normal: false, whistle: true, finish: false, clap: false });
    assert(r@ =~= default_edge_sounds());
    r
}

fn default_edge_sets_exec() -> (r: Vec<(SampleSet, SampleSet)>)
    ensures
        r@ == default_edge_sets(),
{
    let mut r: Vec<(SampleSet, SampleSet)> = Vec::new();
    r.push((SampleSet::Default, SampleSet::Default));
    r.push((SampleSet::Default, SampleSet::Default));
    assert(r@ =~= default_edge_sets());
    r
}

/// Decodes one hit object record.
pub fn decode_hit_object(s: &[char]) -> (r: Option<HitObject>)
    ensures
        match r {
            Some(h) => hit_object_of(s@) == Some(h@),
            None => hit_object_of(s@) is None,
        },
{
    let f = split_trimmed(s, ',');
    let ghost g = views(f@);
    let n = f.len();
    if n < 5 {
        return None;
    }
    assert(g[0] == f@[0]@ && g[1] == f@[1]@ && g[2] == f@[2]@ && g[3] == f@[3]@ && g[4]
        == f@[4]@);
    let x = parse_i64(f[0].as_slice())?;
    let y = parse_i64(f[1].as_slice())?;
    let time = parse_i64(f[2].as_slice())?;
    let flags = match Type::from_chars(f[3].as_slice()) {
        Ok(t) => t,
        Err(_) => return None,
    };
    let hit_sound = match HitSound::from_chars(f[4].as_slice()) {
        Ok(h) => h,
        Err(_) => return None,
    };
    let ghost t = g.skip(5);
    let m = n - 5;
    assert(forall|k: int| 0 <= k < m ==> t[k] == #[trigger] f@[k + 5]@);
    match flags.object_type {
        ObjectType::Circle => {
            let hit_sample = if m == 0 {
                HitSample::default()
            } else if m == 1 {
                assert(t[0] == f@[5]@);
                match HitSample::from_chars(f[5].as_slice()) {
                    Ok(h) => h,
                    Err(_) => return None,
                }
            } else {
                return None;
            };
            Some(HitObject::Circle(Circle { x, y, time, flags, hit_sound, hit_sample }))
        },
        ObjectType::Slider => {
            if !(m == 3 || m == 4 || m == 6) {
                return None;
            }
            assert(t[0] == f@[5]@ && t[1] == f@[6]@ && t[2] == f@[7]@);
            let curve = match Curve::from_chars(f[5].as_slice()) {
                Ok(c) => c,
                Err(_) => return None,
            };
            let slides = parse_i64(f[6].as_slice())?;
            if !is_real(f[7].as_slice()) {
                return None;
            }
            let edge_sounds = if m >= 4 {
                assert(t[3] == f@[8]@);
                edge_sounds_from(f[8].as_slice())?
            } else {
                default_edge_sounds_exec()
            };
            let edge_sets = if m == 6 {
                assert(t[4] == f@[9]@);
                edge_sets_from(f[9].as_slice())?
            } else {
                default_edge_sets_exec()
            };
            let hit_sample = if m == 6 {
                assert(t[5] == f@[10]@);
                match HitSample::from_chars(f[10].as_slice()) {
                    Ok(h) => h,
                    Err(_) => return None,
                }
            } else {
                HitSample::default()
            };
            let length = string_of(f[7].as_slice());
            Some(
                HitObject::Slider(
                    Slider {
                        x,
                        y,
                        time,
                        flags,
                        hit_sound,
                        curve,
                        slides,
                        length,
                        edge_sounds,
                        edge_sets,
                        hit_sample,
                    },
                ),
            )
        },
        ObjectType::Spinner => {
            if !(m == 1 || m == 2) {
                return None;
            }
            assert(t[0] == f@[5]@);
            let end_time = parse_i64(f[5].as_slice())?;
            let hit_sample = if m == 2 {
                assert(t[1] == f@[6]@);
                match HitSample::from_chars(f[6].as_slice()) {
                    Ok(h) => h,
                    Err(_) => return None,
                }
            } else {
                HitSample::default()
            };
            Some(HitObject::Spinner(Spinner { x, y, time, flags, hit_sound, end_time, hit_sample }))
        },
        ObjectType::ManiaHold => {
            if m != 1 {
                return None;
            }
            assert(t[0] == f@[5]@);
            let (end, sample) = split_once_on(f[5].as_slice(), ':')?;
            let end_trimmed = trimmed(end.as_slice());
            let end_time = parse_i64(end_trimmed.as_slice())?;
            let hit_sample = match HitSample::from_chars(sample.as_slice()) {
                Ok(h) => h,
                Err(_) => return None,
            };
            Some(
                HitObject::ManiaHold(ManiaHold { x, y, time, flags, hit_sound, end_time, hit_sample }),
            )
        },
    }
}

impl HitObject {
    /// Decodes a hit object; a record that does not decode is an `InvalidLine` of
    /// `[HitObjects]`.
    pub fn from_str(s: &str) -> (r: Result<HitObject, ParseError>)
        ensures
            match r {
                Ok(h) => hit_object_of(s@) == Some(h@),
                Err(ParseError::InvalidLine { line, section }) => hit_object_of(s@) is None
                    && line@ == s@ && section@ == "[HitObjects]"@,
                Err(_) => false,
            },
    {
        let c = chars_of(s);
        match decode_hit_object(c.as_slice()) {
            Some(h) => Ok(h),
            None => Err(invalid_line(c.as_slice(), "[HitObjects]")),
        }
    }
}

impl Circle {
    /// Decodes a record whose flags mark a circle.
    pub fn from_str(s: &str) -> (r: Result<Circle, ParseError>)
        ensures
            match r {
                Ok(c) => hit_object_of(s@) == Some(HitObject::Circle(c)@),
                Err(ParseError::InvalidLine { line, section }) => !(hit_object_of(s@) matches Some(
                    HitObjectView::Circle(..),
                )) && line@ == s@ && section@ == "[HitObjects]"@,
                Err(_) => false,
            },
    {
        let c = chars_of(s);
        match decode_hit_object(c.as_slice()) {
            Some(HitObject::Circle(o)) => Ok(o),
            _ => Err(invalid_line(c.as_slice(), "[HitObjects]")),
        }
    }
}

impl Slider {
    /// Decodes a record whose flags mark a slider.
    pub fn from_str(s: &str) -> (r: Result<Slider, ParseError>)
        ensures
            match r {
                Ok(o) => hit_object_of(s@) == Some(HitObject::Slider(o)@),
                Err(ParseError::InvalidLine { line, section }) => !(hit_object_of(s@) matches Some(
                    HitObjectView::Slider(..),
                )) && line@ == s@ && section@ == "[HitObjects]"@,
                Err(_) => false,
            },
    {
        let c = chars_of(s);
        match decode_hit_object(c.as_slice()) {
            Some(HitObject::Slider(o)) => Ok(o),
            _ => Err(invalid_line(c.as_slice(), "[HitObjects]")),
        }
    }
}

impl Spinner {
    /// Decodes a record whose flags mark a spinner.
    pub fn from_str(s: &str) -> (r: Result<Spinner, ParseError>)
        ensures
            match r {
                Ok(o) => hit_object_of(s@) == Some(HitObject::Spinner(o)@),
                Err(ParseError::InvalidLine { line, section }) => !(hit_object_of(s@) matches Some(
                    HitObjectView::Spinner(..),
                )) && line@ == s@ && section@ == "[HitObjects]"@,
                Err(_) => false,
            },
    {
        let c = chars_of(s);
        match decode_hit_object(c.as_slice()) {
            Some(HitObject::Spinner(o)) => Ok(o),
            _ => Err(invalid_line(c.as_slice(), "[HitObjects]")),
        }
    }
}

impl ManiaHold {
    /// Decodes a record whose flags mark a hold note.
    pub fn from_str(s: &str) -> (r: Result<ManiaHold, ParseError>)
        ensures
            match r {
                Ok(o) => hit_object_of(s@) == Some(HitObject::ManiaHold(o)@),
                Err(ParseError::InvalidLine { line, section }) => !(hit_object_of(s@) matches Some(
                    HitObjectView::ManiaHold(..),
                )) && line@ == s@ && section@ == "[HitObjects]"@,
                Err(_) => false,
            },
    {
        let c = chars_of(s);
        match decode_hit_object(c.as_slice()) {
            Some(HitObject::ManiaHold(o)) => Ok(o),
            _ => Err(invalid_line(c.as_slice(), "[HitObjects]")),
        }
    }
}

} // verus!
