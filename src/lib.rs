//! Decoding of line-oriented, sectioned beatmap chart descriptions into typed records.
//!
//! A document is read line by line through a forward-only section state machine;
//! each line is decoded by its section's record or key/value decoder, and the groups
//! that the caller requests are assembled at the end.
pub mod colours;
pub mod curve;
pub mod decimal;
pub mod errors;
pub mod events;
pub mod hit_object;
pub mod parse;
pub mod parts;
pub mod records;
pub mod sample;
pub mod state;
pub mod text;
pub mod timing_point;

pub use colours::Color;
pub use curve::Curve;
pub use decimal::{from_str_one_decimal, from_str_ratio, Ratio};
pub use errors::{CollectionError, ParseError};
pub use events::{Background, Break};
pub use hit_object::{Circle, HitObject, ManiaHold, Slider, Spinner};
pub use parse::parse_str;
pub use parts::{
    Countdown, CurveType, Effects, HitSound, ObjectType, OverlayPosition, SampleSet, Type,
};
pub use records::{Chart, Customization, Difficulty, Editor, Filedata, Metadata, Mode};
pub use sample::{HalfHitSample, HitSample};
pub use timing_point::TimingPoint;
