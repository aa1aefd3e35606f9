//! The small pieces of a chart: named enumerants, the single-byte flag records, and
//! the sample, curve, colour, background and break records.
use vstd::prelude::*;
use crate::errors::{invalid_token, ParseError};
use crate::text::{byte_of, chars_of, is, parse_u8};

verus! {

/// A set of hit sounds.
#[derive(Debug, Clone, Copy, PartialEq, Eq, Structural)]
pub enum SampleSet {
    Default,
    Normal,
    Soft,
    Drum,
}

/// The countdown before the first object.
#[derive(Debug, Clone, Copy, PartialEq, Eq, Structural)]
pub enum Countdown {
    Disabled,
    Normal,
    Half,
    Double,
}

/// Where hit-circle overlays are drawn.
#[derive(Debug, Clone, Copy, PartialEq, Eq, Structural)]
pub enum OverlayPosition {
    NoChange,
    Below,
    Above,
}

/// The shape of a slider's path.
#[derive(Debug, Clone, Copy, PartialEq, Eq, Structural)]
pub enum CurveType {
    Bezier,
    Centripetal,
    Linear,
    Perfect,
}

/// The kind of a hit object, as its flags byte selects it.
#[derive(Debug, Clone, Copy, PartialEq, Eq, Structural)]
pub enum ObjectType {
    Circle,
    Slider,
    Spinner,
    ManiaHold,
}

/// `0|Default`, `1|Normal`, `2|Soft`, `3|Drum`.
pub open spec fn sample_set_of(s: Seq<char>) -> Option<SampleSet> {
    if s == "0"@ || s == "Default"@ {
        Some(SampleSet::Default)
    } else if s == "1"@ || s == "Normal"@ {
        Some(SampleSet::Normal)
    } else if s == "2"@ || s == "Soft"@ {
        Some(SampleSet::Soft)
    } else if s == "3"@ || s == "Drum"@ {
        Some(SampleSet::Drum)
    } else {
        None
    }
}

/// `0` to `3`: none, normal, half, double.
pub open spec fn countdown_of(s: Seq<char>) -> Option<Countdown> {
    if s == "0"@ {
        Some(Countdown::Disabled)
    } else if s == "1"@ {
        Some(Countdown::Normal)
    } else if s == "2"@ {
        Some(Countdown::Half)
    } else if s == "3"@ {
        Some(Countdown::Double)
    } else {
        None
    }
}

pub open spec fn overlay_position_of(s: Seq<char>) -> Option<OverlayPosition> {
    if s == "NoChange"@ {
        Some(OverlayPosition::NoChange)
    } else if s == "Below"@ {
        Some(OverlayPosition::Below)
    } else if s == "Above"@ {
        Some(OverlayPosition::Above)
    } else {
        None
    }
}

/// `B`, `C`, `L`, `P`.
pub open spec fn curve_type_of(s: Seq<char>) -> Option<CurveType> {
    if s == "B"@ {
        Some(CurveType::Bezier)
    } else if s == "C"@ {
        Some(CurveType::Centripetal)
    } else if s == "L"@ {
        Some(CurveType::Linear)
    } else if s == "P"@ {
        Some(CurveType::Perfect)
    } else {
        None
    }
}

impl SampleSet {
    pub fn from_str(s: &str) -> (r: Result<SampleSet, ParseError>)
        ensures
            match r {
                Ok(v) => sample_set_of(s@) == Some(v),
                Err(ParseError::InvalidToken { token, expected }) => expected@ == "SampleSet"@ && sample_set_of(s@) is None && token@
                    == s@,
                Err(_) => false,
            },
    {
        let c = chars_of(s);
        Self::from_chars(c.as_slice())
    }

    pub fn from_chars(s: &[char]) -> (r: Result<SampleSet, ParseError>)
        ensures
            match r {
                Ok(v) => sample_set_of(s@) == Some(v),
                Err(ParseError::InvalidToken { token, expected }) => expected@ == "SampleSet"@ && sample_set_of(s@) is None && token@
                    == s@,
                Err(_) => false,
            },
    {
        if is(s, "0") || is(s, "Default") {
            Ok(SampleSet::Default)
        } else if is(s, "1") || is(s, "Normal") {
            Ok(SampleSet::Normal)
        } else if is(s, "2") || is(s, "Soft") {
            Ok(SampleSet::Soft)
        } else if is(s, "3") || is(s, "Drum") {
            Ok(SampleSet::Drum)
        } else {
            Err(invalid_token(s, "SampleSet"))
        }
    }
}

impl Countdown {
    pub fn from_str(s: &str) -> (r: Result<Countdown, ParseError>)
        ensures
            match r {
                Ok(v) => countdown_of(s@) == Some(v),
                Err(ParseError::InvalidToken { token, expected }) => expected@ == "Countdown"@ && countdown_of(s@) is None && token@
                    == s@,
                Err(_) => false,
            },
    {
        let c = chars_of(s);
        Self::from_chars(c.as_slice())
    }

    pub fn from_chars(s: &[char]) -> (r: Result<Countdown, ParseError>)
        ensures
            match r {
                Ok(v) => countdown_of(s@) == Some(v),
                Err(ParseError::InvalidToken { token, expected }) => expected@ == "Countdown"@ && countdown_of(s@) is None && token@
                    == s@,
                Err(_) => false,
            },
    {
        if is(s, "0") {
            Ok(Countdown::Disabled)
        } else if is(s, "1") {
            Ok(Countdown::Normal)
        } else if is(s, "2") {
            Ok(Countdown::Half)
        } else if is(s, "3") {
            Ok(Countdown::Double)
        } else {
            Err(invalid_token(s, "Countdown"))
        }
    }
}

impl OverlayPosition {
    pub fn from_str(s: &str) -> (r: Result<OverlayPosition, ParseError>)
        ensures
            match r {
                Ok(v) => overlay_position_of(s@) == Some(v),
                Err(ParseError::InvalidToken { token, expected }) => expected@ == "OverlayPosition"@ && overlay_position_of(s@) is None
                    && token@ == s@,
                Err(_) => false,
            },
    {
        let c = chars_of(s);
        Self::from_chars(c.as_slice())
    }

    pub fn from_chars(s: &[char]) -> (r: Result<OverlayPosition, ParseError>)
        ensures
            match r {
                Ok(v) => overlay_position_of(s@) == Some(v),
                Err(ParseError::InvalidToken { token, expected }) => expected@ == "OverlayPosition"@ && overlay_position_of(s@) is None
                    && token@ == s@,
                Err(_) => false,
            },
    {
        if is(s, "NoChange") {
            Ok(OverlayPosition::NoChange)
        } else if is(s, "Below") {
            Ok(OverlayPosition::Below)
        } else if is(s, "Above") {
            Ok(OverlayPosition::Above)
        } else {
            Err(invalid_token(s, "OverlayPosition"))
        }
    }
}

impl CurveType {
    pub fn from_str(s: &str) -> (r: Result<CurveType, ParseError>)
        ensures
            match r {
                Ok(v) => curve_type_of(s@) == Some(v),
                Err(ParseError::InvalidToken { token, expected }) => expected@ == "CurveType"@ && curve_type_of(s@) is None && token@
                    == s@,
                Err(_) => false,
            },
    {
        let c = chars_of(s);
        Self::from_chars(c.as_slice())
    }

    pub fn from_chars(s: &[char]) -> (r: Result<CurveType, ParseError>)
        ensures
            match r {
                Ok(v) => curve_type_of(s@) == Some(v),
                Err(ParseError::InvalidToken { token, expected }) => expected@ == "CurveType"@ && curve_type_of(s@) is None && token@
                    == s@,
                Err(_) => false,
            },
    {
        if is(s, "B") {
            Ok(CurveType::Bezier)
        } else if is(s, "C") {
            Ok(CurveType::Centripetal)
        } else if is(s, "L") {
            Ok(CurveType::Linear)
        } else if is(s, "P") {
            Ok(CurveType::Perfect)
        } else {
            Err(invalid_token(s, "CurveType"))
        }
    }
}

/// A hit object's flags byte: its kind, whether it starts a new combo, and how
/// many combo colours it skips.
#[derive(Debug, Clone, Copy, PartialEq, Eq, Structural)]
pub struct Type {
    pub object_type: ObjectType,
    pub new_combo: bool,
    pub color_skip: u8,
}

/// The bit that marks each kind of object.
pub open spec fn kind_bit(t: ObjectType) -> u8 {
    match t {
        ObjectType::Circle => 1,
        ObjectType::Slider => 2,
        ObjectType::Spinner => 8,
        ObjectType::ManiaHold => 128,
    }
}

/// The colour skip: bits 4 to 6 read as a big-endian count, bit 4 the most significant.
pub open spec fn color_skip_of(b: u8) -> u8 {
    (((b >> 4u8) & 1) << 2u8) | (((b >> 5u8) & 1) << 1u8) | ((b >> 6u8) & 1)
}

/// Bits 0, 1, 3 and 7 select the kind, and exactly one of them may be set; bit 2 is
/// the new-combo flag; bits 4 to 6 are the colour skip.
pub open spec fn type_of_byte(b: u8) -> Option<Type> {
    let kind = b & 0x8b;
    let new_combo = b & 4 != 0;
    let color_skip = color_skip_of(b);
    if kind == 1 {
        Some(Type { object_type: ObjectType::Circle, new_combo, color_skip })
    } else if kind == 2 {
        Some(Type { object_type: ObjectType::Slider, new_combo, color_skip })
    } else if kind == 8 {
        Some(Type { object_type: ObjectType::Spinner, new_combo, color_skip })
    } else if kind == 128 {
        Some(Type { object_type: ObjectType::ManiaHold, new_combo, color_skip })
    } else {
        None
    }
}

/// A flags token: a byte in decimal, decoded as a `Type`.
pub open spec fn type_of(s: Seq<char>) -> Option<Type> {
    match byte_of(s) {
        Some(b) => type_of_byte(b),
        None => None,
    }
}

impl Type {
    pub fn from_byte(b: u8) -> (r: Result<Type, ParseError>)
        ensures
            match r {
                Ok(t) => type_of_byte(b) == Some(t),
                Err(ParseError::InvalidToken { expected, .. }) => expected@ == "Type"@ && type_of_byte(b) is None,
                Err(_) => false,
            },
    {
        let kind = b & 0x8b;
        let new_combo = b & 4 != 0;
        let color_skip = (((b >> 4u8) & 1) << 2u8) | (((b >> 5u8) & 1) << 1u8) | ((b >> 6u8) & 1);
        if kind == 1 {
            Ok(Type { object_type: ObjectType::Circle, new_combo, color_skip })
        } else if kind == 2 {
            Ok(Type { object_type: ObjectType::Slider, new_combo, color_skip })
        } else if kind == 8 {
            Ok(Type { object_type: ObjectType::Spinner, new_combo, color_skip })
        } else if kind == 128 {
            Ok(Type { object_type: ObjectType::ManiaHold, new_combo, color_skip })
        } else {
            Err(ParseError::InvalidToken { token: "flags byte".to_owned(), expected: "Type".to_owned() })
        }
    }

    pub fn from_str(s: &str) -> (r: Result<Type, ParseError>)
        ensures
            match r {
                Ok(t) => type_of(s@) == Some(t),
                Err(ParseError::InvalidToken { token, expected }) => type_of(s@) is None && token@
                    == s@ && (byte_of(s@) is None ==> expected@ == "u8"@) && (byte_of(s@) is Some
                    ==> expected@ == "Type"@),
                Err(_) => false,
            },
    {
        let c = chars_of(s);
        Self::from_chars(c.as_slice())
    }

    pub fn from_chars(s: &[char]) -> (r: Result<Type, ParseError>)
        ensures
            match r {
                Ok(t) => type_of(s@) == Some(t),
                Err(ParseError::InvalidToken { token, expected }) => type_of(s@) is None && token@
                    == s@ && (byte_of(s@) is None ==> expected@ == "u8"@) && (byte_of(s@) is Some
                    ==> expected@ == "Type"@),
                Err(_) => false,
            },
    {
        match parse_u8(s) {
            Some(b) => match Type::from_byte(b) {
                Ok(t) => Ok(t),
                Err(_) => Err(invalid_token(s, "Type")),
            },
            None => Err(invalid_token(s, "u8")),
        }
    }
}

/// Which sounds play on a hit.
#[derive(Debug, Clone, Copy, PartialEq, Eq, Structural)]
pub struct HitSound {
    pub normal: bool,
    pub whistle: bool,
    pub finish: bool,
    pub clap: bool,
}

/// Bits 0 to 3 are normal, whistle, finish and clap; a byte above 15 is no hit sound.
pub open spec fn hit_sound_of_byte(b: u8) -> Option<HitSound> {
    if b < 16 {
        Some(
            HitSound {
                normal: b & 1 != 0,
                whistle: b & 2 != 0,
                finish: b & 4 != 0,
                clap: b & 8 != 0,
            },
        )
    } else {
        None
    }
}

pub open spec fn hit_sound_of(s: Seq<char>) -> Option<HitSound> {
    match byte_of(s) {
        Some(b) => hit_sound_of_byte(b),
        None => None,
    }
}

impl HitSound {
    /// The byte whose bits 0 to 3 are the four flags.
    pub open spec fn spec_bits(self) -> u8 {
        ((if self.normal { 1u8 } else { 0u8 }) | (if self.whistle { 2u8 } else { 0u8 }) | (
        if self.finish {
            4u8
        } else {
            0u8
        }) | (if self.clap { 8u8 } else { 0u8 }))
    }

    pub fn bits(&self) -> (r: u8)
        ensures
            r == self.spec_bits(),
    {
        (if self.normal { 1u8 } else { 0u8 }) | (if self.whistle { 2u8 } else { 0u8 }) | (
        if self.finish {
            4u8
        } else {
            0u8
        }) | (if self.clap { 8u8 } else { 0u8 })
    }

    pub fn from_byte(b: u8) -> (r: Result<HitSound, ParseError>)
        ensures
            match r {
                Ok(h) => hit_sound_of_byte(b) == Some(h),
                Err(ParseError::InvalidToken { expected, .. }) => expected@ == "HitSound"@ && hit_sound_of_byte(b) is None,
                Err(_) => false,
            },
    {
        if b < 16 {
            Ok(
                HitSound {
                    normal: b & 1 != 0,
                    whistle: b & 2 != 0,
                    finish: b & 4 != 0,
                    clap: b & 8 != 0,
                },
            )
        } else {
            Err(ParseError::InvalidToken { token: "hit sound byte".to_owned(), expected: "HitSound".to_owned() })
        }
    }

    pub fn from_str(s: &str) -> (r: Result<HitSound, ParseError>)
        ensures
            match r {
                Ok(h) => hit_sound_of(s@) == Some(h),
                Err(ParseError::InvalidToken { token, expected }) => expected@ == "HitSound"@ && hit_sound_of(s@) is None && token@
                    == s@,
                Err(_) => false,
            },
    {
        let c = chars_of(s);
        Self::from_chars(c.as_slice())
    }

    pub fn from_chars(s: &[char]) -> (r: Result<HitSound, ParseError>)
        ensures
            match r {
                Ok(h) => hit_sound_of(s@) == Some(h),
                Err(ParseError::InvalidToken { token, expected }) => expected@ == "HitSound"@ && hit_sound_of(s@) is None && token@
                    == s@,
                Err(_) => false,
            },
    {
        match parse_u8(s) {
            Some(b) => match HitSound::from_byte(b) {
                Ok(h) => Ok(h),
                Err(_) => Err(invalid_token(s, "HitSound")),
            },
            None => Err(invalid_token(s, "HitSound")),
        }
    }
}

/// A timing point's effects: kiai time, and the omitted first bar line.
#[derive(Debug, Clone, Copy, PartialEq, Eq, Structural)]
pub struct Effects {
    pub kiai: bool,
    pub ommit_barline: bool,
}

/// Bit 0 is kiai and bit 2 omits the bar line: only 0, 1, 4 and 5 are effects.
pub open spec fn effects_of_byte(b: u8) -> Option<Effects> {
    if b == 0 || b == 1 || b == 4 || b == 5 {
        Some(Effects { kiai: b & 1 != 0, ommit_barline: b & 4 != 0 })
    } else {
        None
    }
}

pub open spec fn effects_of(s: Seq<char>) -> Option<Effects> {
    match byte_of(s) {
        Some(b) => effects_of_byte(b),
        None => None,
    }
}

impl Effects {
    pub fn from_byte(b: u8) -> (r: Result<Effects, ParseError>)
        ensures
            match r {
                Ok(e) => effects_of_byte(b) == Some(e),
                Err(ParseError::InvalidToken { expected, .. }) => expected@ == "Effects"@ && effects_of_byte(b) is None,
                Err(_) => false,
            },
    {
        if b == 0 || b == 1 || b == 4 || b == 5 {
            Ok(Effects { kiai: b & 1 != 0, ommit_barline: b & 4 != 0 })
        } else {
            Err(ParseError::InvalidToken { token: "effects byte".to_owned(), expected: "Effects".to_owned() })
        }
    }

    pub fn from_str(s: &str) -> (r: Result<Effects, ParseError>)
        ensures
            match r {
                Ok(e) => effects_of(s@) == Some(e),
                Err(ParseError::InvalidToken { token, expected }) => expected@ == "Effects"@ && effects_of(s@) is None && token@
                    == s@,
                Err(_) => false,
            },
    {
        let c = chars_of(s);
        Self::from_chars(c.as_slice())
    }

    pub fn from_chars(s: &[char]) -> (r: Result<Effects, ParseError>)
        ensures
            match r {
                Ok(e) => effects_of(s@) == Some(e),
                Err(ParseError::InvalidToken { token, expected }) => expected@ == "Effects"@ && effects_of(s@) is None && token@
                    == s@,
                Err(_) => false,
            },
    {
        match parse_u8(s) {
            Some(b) => match Effects::from_byte(b) {
                Ok(e) => Ok(e),
                Err(_) => Err(invalid_token(s, "Effects")),
            },
            None => Err(invalid_token(s, "Effects")),
        }
    }
}

/// A flags byte decodes exactly when it is one kind bit (1, 2, 8 or 128) with any of
/// bits 2, 4, 5 and 6 added. The one kind reported is the one whose bit is set; the new
/// combo flag is bit 2 and the colour skip is bits 4 to 6, below 8.
pub proof fn lemma_type_byte(b: u8)
    ensures
        type_of_byte(b) is Some <==> exists|t: ObjectType| (#[trigger] kind_bit(t) | (b & 0x74))
            == b,
        type_of_byte(b) matches Some(t) ==> (kind_bit(t.object_type) | (b & 0x74)) == b
            && t.new_combo == (b & 4 != 0) && t.color_skip == 4 * ((b >> 4u8) & 1) + 2 * ((b
            >> 5u8) & 1) + ((b >> 6u8) & 1) && t.color_skip < 8,
{
    assert((b & 0x8b) == 1 ==> (1u8 | (b & 0x74)) == b) by (bit_vector);
    assert((b & 0x8b) == 2 ==> (2u8 | (b & 0x74)) == b) by (bit_vector);
    assert((b & 0x8b) == 8 ==> (8u8 | (b & 0x74)) == b) by (bit_vector);
    assert((b & 0x8b) == 128 ==> (128u8 | (b & 0x74)) == b) by (bit_vector);
    assert((1u8 | (b & 0x74)) == b ==> (b & 0x8b) == 1) by (bit_vector);
    assert((2u8 | (b & 0x74)) == b ==> (b & 0x8b) == 2) by (bit_vector);
    assert((8u8 | (b & 0x74)) == b ==> (b & 0x8b) == 8) by (bit_vector);
    assert((128u8 | (b & 0x74)) == b ==> (b & 0x8b) == 128) by (bit_vector);
    let cs = color_skip_of(b);
    assert(cs == (((b >> 4u8) & 1) << 2u8) | (((b >> 5u8) & 1) << 1u8) | ((b >> 6u8) & 1));
    assert(((((b >> 4u8) & 1) << 2u8) | (((b >> 5u8) & 1) << 1u8) | ((b >> 6u8) & 1)) < 8)
        by (bit_vector);
    assert(((((b >> 4u8) & 1) << 2u8) | (((b >> 5u8) & 1) << 1u8) | ((b >> 6u8) & 1)) == 4 * ((b
        >> 4u8) & 1) + 2 * ((b >> 5u8) & 1) + ((b >> 6u8) & 1)) by (bit_vector);
    if let Some(t) = type_of_byte(b) {
        assert(kind_bit(t.object_type) | (b & 0x74) == b);
    }
    if exists|t: ObjectType| (#[trigger] kind_bit(t) | (b & 0x74)) == b {
        let t = choose|t: ObjectType| (#[trigger] kind_bit(t) | (b & 0x74)) == b;
        assert(type_of_byte(b) is Some);
    }
}

/// Every byte below 16 decodes to the hit sound whose four flags are its bits 0 to 3,
/// and encoding those flags gives the byte back.
pub proof fn lemma_hit_sound_byte(b: u8)
    requires
        b < 16,
    ensures
        hit_sound_of_byte(b) matches Some(h) && h.normal == (b & 1 != 0) && h.whistle == (b & 2
            != 0) && h.finish == (b & 4 != 0) && h.clap == (b & 8 != 0) && h.spec_bits() == b,
{
    let h = hit_sound_of_byte(b)->Some_0;
    let n = b & 1 != 0;
    let w = b & 2 != 0;
    let f = b & 4 != 0;
    let c = b & 8 != 0;
    assert(b < 16 ==> (((if b & 1 != 0 { 1u8 } else { 0u8 }) | (if b & 2 != 0 { 2u8 } else { 0u8 })
        | (if b & 4 != 0 { 4u8 } else { 0u8 }) | (if b & 8 != 0 { 8u8 } else { 0u8 })) == b))
        by (bit_vector);
}

/// Encoding a hit sound and decoding the byte gives the same hit sound.
pub proof fn lemma_hit_sound_bits(h: HitSound)
    ensures
        h.spec_bits() < 16,
        hit_sound_of_byte(h.spec_bits()) == Some(h),
{
    let n = if h.normal { 1u8 } else { 0u8 };
    let w = if h.whistle { 2u8 } else { 0u8 };
    let f = if h.finish { 4u8 } else { 0u8 };
    let c = if h.clap { 8u8 } else { 0u8 };
    assert((n == 0 || n == 1) && (w == 0 || w == 2) && (f == 0 || f == 4) && (c == 0 || c == 8)
        ==> {
        let b = n | w | f | c;
        b < 16 && ((b & 1 != 0) == (n == 1)) && ((b & 2 != 0) == (w == 2)) && ((b & 4 != 0) == (f
            == 4)) && ((b & 8 != 0) == (c == 8))
    }) by (bit_vector);
}

/// Effects decoding accepts exactly the bytes 0, 1, 4 and 5, with kiai on bit 0 and
/// the omitted bar line on bit 2.
pub proof fn lemma_effects_byte(b: u8)
    ensures
        effects_of_byte(b) is Some <==> (b == 0 || b == 1 || b == 4 || b == 5),
        effects_of_byte(b) matches Some(e) ==> e.kiai == (b & 1 != 0) && e.ommit_barline == (b & 4
            != 0),
{
}

} // verus!
