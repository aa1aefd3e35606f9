//! The top-level groups that decoding produces, each requested on its own.
use vstd::prelude::*;
use crate::colours::Color;
use crate::decimal::Ratio;
use crate::events::{Background, BackgroundView, Break};
use crate::hit_object::{HitObject, HitObjectView};
use crate::parts::{Countdown, OverlayPosition, SampleSet};
use crate::timing_point::{TimingPoint, TimingPointView};

verus! {

/// The game mode a chart is played in.
#[derive(Debug, Clone, Copy, PartialEq, Eq, Structural)]
pub enum Mode {
    Osu,
    Taiko,
    Catch,
    Mania,
}

/// `0` to `3`: osu, taiko, catch, mania.
pub open spec fn mode_of(s: Seq<char>) -> Option<Mode> {
    if s == "0"@ {
        Some(Mode::Osu)
    } else if s == "1"@ {
        Some(Mode::Taiko)
    } else if s == "2"@ {
        Some(Mode::Catch)
    } else if s == "3"@ {
        Some(Mode::Mania)
    } else {
        None
    }
}

impl Mode {
    pub fn from_chars(s: &[char]) -> (r: Option<Mode>)
        ensures
            r == mode_of(s@),
    {
        if crate::text::is(s, "0") {
            Some(Mode::Osu)
        } else if crate::text::is(s, "1") {
            Some(Mode::Taiko)
        } else if crate::text::is(s, "2") {
            Some(Mode::Catch)
        } else if crate::text::is(s, "3") {
            Some(Mode::Mania)
        } else {
            None
        }
    }
}

/// The views of a sequence of timing points.
pub open spec fn timing_views(v: Seq<TimingPoint>) -> Seq<TimingPointView> {
    v.map_values(|t: TimingPoint| t@)
}

/// The views of a sequence of hit objects.
pub open spec fn object_views(v: Seq<HitObject>) -> Seq<HitObjectView> {
    v.map_values(|h: HitObject| h@)
}

/// The views of a sequence of strings.
pub open spec fn string_views(v: Seq<String>) -> Seq<Seq<char>> {
    v.map_values(|s: String| s@)
}

pub open spec fn opt_view(o: Option<String>) -> Option<Seq<char>> {
    match o {
        Some(s) => Some(s@),
        None => None,
    }
}

/// What is played: mode, the three rational difficulty settings, timing points and
/// hit objects.
#[derive(Debug, Clone, PartialEq, Eq)]
pub struct Chart {
    pub mode: Mode,
    pub stack_leniency: Ratio,
    pub slider_multiplier: Ratio,
    pub slider_tick_rate: Ratio,
    pub timing_points: Vec<TimingPoint>,
    pub hit_objects: Vec<HitObject>,
}

pub struct ChartView {
    pub mode: Mode,
    pub stack_leniency: Ratio,
    pub slider_multiplier: Ratio,
    pub slider_tick_rate: Ratio,
    pub timing_points: Seq<TimingPointView>,
    pub hit_objects: Seq<HitObjectView>,
}

impl View for Chart {
    type V = ChartView;

    open spec fn view(&self) -> ChartView {
        ChartView {
            mode: self.mode,
            stack_leniency: self.stack_leniency,
            slider_multiplier: self.slider_multiplier,
            slider_tick_rate: self.slider_tick_rate,
            timing_points: timing_views(self.timing_points@),
            hit_objects: object_views(self.hit_objects@),
        }
    }
}

/// How a chart is presented.
#[derive(Debug, Clone, PartialEq, Eq)]
pub struct Customization {
    pub sample_set: SampleSet,
    pub letterbox_in_breaks: bool,
    pub story_fire_in_front: bool,
    pub use_skin_sprites: bool,
    pub always_show_play_field: bool,
    pub overlay_position: OverlayPosition,
    pub skin_preference: Option<String>,
    pub epilepsy_warning: bool,
    pub countdown: Countdown,
    pub special_style: bool,
    pub widescreen_storyboard: bool,
    pub samples_match_playback_rate: bool,
    pub backgrounds: Vec<Background>,
    pub breaks: Vec<Break>,
    pub colors: Vec<Color>,
}

pub struct CustomizationView {
    pub sample_set: SampleSet,
    pub letterbox_in_breaks: bool,
    pub story_fire_in_front: bool,
    pub use_skin_sprites: bool,
    pub always_show_play_field: bool,
    pub overlay_position: OverlayPosition,
    pub skin_preference: Option<Seq<char>>,
    pub epilepsy_warning: bool,
    pub countdown: Countdown,
    pub special_style: bool,
    pub widescreen_storyboard: bool,
    pub samples_match_playback_rate: bool,
    pub backgrounds: Seq<BackgroundView>,
    pub breaks: Seq<Break>,
    pub colors: Seq<Color>,
}

impl View for Customization {
    type V = CustomizationView;

    open spec fn view(&self) -> CustomizationView {
        CustomizationView {
            sample_set: self.sample_set,
            letterbox_in_breaks: self.letterbox_in_breaks,
            story_fire_in_front: self.story_fire_in_front,
            use_skin_sprites: self.use_skin_sprites,
            always_show_play_field: self.always_show_play_field,
            overlay_position: self.overlay_position,
            skin_preference: opt_view(self.skin_preference),
            epilepsy_warning: self.epilepsy_warning,
            countdown: self.countdown,
            special_style: self.special_style,
            widescreen_storyboard: self.widescreen_storyboard,
            samples_match_playback_rate: self.samples_match_playback_rate,
            backgrounds: self.backgrounds@.map_values(|b: Background| b@),
            breaks: self.breaks@,
            colors: self.colors@,
        }
    }
}

/// The four difficulty settings, each a byte holding ten times its value.
#[derive(Debug, Clone, Copy, PartialEq, Eq, Structural)]
pub struct Difficulty {
    pub circle_size: u8,
    pub hpdrain_rate: u8,
    pub overall_difficulty: u8,
    pub approach_rate: u8,
}

/// Editor state saved with the chart.
#[derive(Debug, Clone, PartialEq, Eq)]
pub struct Editor {
    pub bookmarks: Vec<i64>,
    pub distance_spacing: Option<Ratio>,
    pub beat_divisor: Option<i64>,
    pub grid_size: Option<i64>,
    pub timeline_zoom: Option<Ratio>,
}

pub struct EditorView {
    pub bookmarks: Seq<i64>,
    pub distance_spacing: Option<Ratio>,
    pub beat_divisor: Option<i64>,
    pub grid_size: Option<i64>,
    pub timeline_zoom: Option<Ratio>,
}

impl View for Editor {
    type V = EditorView;

    open spec fn view(&self) -> EditorView {
        EditorView {
            bookmarks: self.bookmarks@,
            distance_spacing: self.distance_spacing,
            beat_divisor: self.beat_divisor,
            grid_size: self.grid_size,
            timeline_zoom: self.timeline_zoom,
        }
    }
}

/// The file's format version and its audio.
#[derive(Debug, Clone, PartialEq, Eq)]
pub struct Filedata {
    pub file_format: u8,
    pub audio_filename: String,
    pub audio_lead_in: i64,
    pub audio_hash: Option<String>,
    pub preview_time: i64,
    pub countdown_offset: i64,
}

pub struct FiledataView {
    pub file_format: u8,
    pub audio_filename: Seq<char>,
    pub audio_lead_in: i64,
    pub audio_hash: Option<Seq<char>>,
    pub preview_time: i64,
    pub countdown_offset: i64,
}

impl View for Filedata {
    type V = FiledataView;

    open spec fn view(&self) -> FiledataView {
        FiledataView {
            file_format: self.file_format,
            audio_filename: self.audio_filename@,
            audio_lead_in: self.audio_lead_in,
            audio_hash: opt_view(self.audio_hash),
            preview_time: self.preview_time,
            countdown_offset: self.countdown_offset,
        }
    }
}

/// Titles, credits and identifiers.
#[derive(Debug, Clone, PartialEq, Eq)]
pub struct Metadata {
    pub title: Option<String>,
    pub title_unicode: Option<String>,
    pub artist: Option<String>,
    pub artist_unicode: Option<String>,
    pub creator: Option<String>,
    pub version: Option<String>,
    pub source: Option<String>,
    pub tags: Vec<String>,
    pub beatmap_id: Option<i64>,
    pub beatmap_set_id: Option<i64>,
}

pub struct MetadataView {
    pub title: Option<Seq<char>>,
    pub title_unicode: Option<Seq<char>>,
    pub artist: Option<Seq<char>>,
    pub artist_unicode: Option<Seq<char>>,
    pub creator: Option<Seq<char>>,
    pub version: Option<Seq<char>>,
    pub source: Option<Seq<char>>,
    pub tags: Seq<Seq<char>>,
    pub beatmap_id: Option<i64>,
    pub beatmap_set_id: Option<i64>,
}

impl View for Metadata {
    type V = MetadataView;

    open spec fn view(&self) -> MetadataView {
        MetadataView {
            title: opt_view(self.title),
            title_unicode: opt_view(self.title_unicode),
            artist: opt_view(self.artist),
            artist_unicode: opt_view(self.artist_unicode),
            creator: opt_view(self.creator),
            version: opt_view(self.version),
            source: opt_view(self.source),
            tags: string_views(self.tags@),
            beatmap_id: self.beatmap_id,
            beatmap_set_id: self.beatmap_set_id,
        }
    }
}

} // verus!
