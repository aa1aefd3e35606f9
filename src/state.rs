//! The section state machine: which section each line is read in, the fields gathered
//! so far, and how one line changes them.
use vstd::prelude::*;
use crate::colours::{colour_line_of, Color};
use crate::decimal::{one_decimal, ratio_of, Ratio};
use crate::hit_object::{hit_object_of, HitObject, HitObjectView};
use crate::parts::{
    countdown_of, overlay_position_of, sample_set_of, Countdown, OverlayPosition, SampleSet,
};
use crate::records::{
    mode_of, object_views, opt_view, string_views, timing_views, Editor, EditorView, Metadata,
    MetadataView, Mode,
};
use crate::text::{
    bool_of, byte_of, each, int_of, is, lemma_each_fails, parse_bool, parse_i64, parse_u8,
    split, split_once, split_once_on, split_on, split_trimmed, string_of, trim, trim_all,
    trimmed, views,
};
use crate::decimal::{one_decimal_of_chars, ratio_of_chars};
use crate::errors::{invalid_line, ParseError};
use crate::timing_point::{timing_arity, timing_point_of, TimingPoint, TimingPointView};

verus! {

/// Which top-level groups the caller asks for.
#[derive(Debug, Clone, Copy, PartialEq, Eq, Structural)]
pub struct Wanted {
    pub chart: bool,
    pub customization: bool,
    pub difficulty: bool,
    pub editor: bool,
    pub filedata: bool,
    pub metadata: bool,
}

/// The sections in their canonical order; the preamble before the first header is 0.
pub const PREAMBLE: u8 = 0;
pub const GENERAL: u8 = 1;
pub const EDITOR: u8 = 2;
pub const METADATA: u8 = 3;
pub const DIFFICULTY: u8 = 4;
pub const EVENTS: u8 = 5;
pub const TIMING_POINTS: u8 = 6;
pub const COLOURS: u8 = 7;
pub const HIT_OBJECTS: u8 = 8;

/// The header line of each section.
pub open spec fn section_name(k: u8) -> Seq<char> {
    if k == GENERAL {
        "[General]"@
    } else if k == EDITOR {
        "[Editor]"@
    } else if k == METADATA {
        "[Metadata]"@
    } else if k == DIFFICULTY {
        "[Difficulty]"@
    } else if k == EVENTS {
        "[Events]"@
    } else if k == TIMING_POINTS {
        "[TimingPoints]"@
    } else if k == COLOURS {
        "[Colours]"@
    } else if k == HIT_OBJECTS {
        "[HitObjects]"@
    } else {
        "[Preamble]"@
    }
}

/// The ASCII characters of `s`, in order.
pub open spec fn ascii_only(s: Seq<char>) -> Seq<char>
    decreases s.len(),
{
    if s.len() == 0 {
        s
    } else if (s.last() as u32) < 128 {
        ascii_only(s.drop_last()).push(s.last())
    } else {
        ascii_only(s.drop_last())
    }
}

/// The section that `line` opens while `cur` is being read: a header is recognised
/// only if it does not come before `cur`, so sections are only ever left forward.
pub open spec fn header_of(line: Seq<char>, cur: u8) -> Option<u8> {
    let a = ascii_only(line);
    if a == "[General]"@ && GENERAL >= cur {
        Some(GENERAL)
    } else if a == "[Editor]"@ && EDITOR >= cur {
        Some(EDITOR)
    } else if a == "[Metadata]"@ && METADATA >= cur {
        Some(METADATA)
    } else if a == "[Difficulty]"@ && DIFFICULTY >= cur {
        Some(DIFFICULTY)
    } else if a == "[Events]"@ && EVENTS >= cur {
        Some(EVENTS)
    } else if a == "[TimingPoints]"@ && TIMING_POINTS >= cur {
        Some(TIMING_POINTS)
    } else if a == "[Colours]"@ && COLOURS >= cur {
        Some(COLOURS)
    } else if a == "[HitObjects]"@ && HIT_OBJECTS >= cur {
        Some(HIT_OBJECTS)
    } else {
        None
    }
}

/// The chart's fields gathered so far.
pub struct ChartFields {
    pub mode: Option<Mode>,
    pub stack_leniency: Option<Ratio>,
    pub slider_multiplier: Option<Ratio>,
    pub slider_tick_rate: Option<Ratio>,
    pub timing_points: Vec<TimingPoint>,
    pub hit_objects: Vec<HitObject>,
}

pub struct ChartFieldsView {
    pub mode: Option<Mode>,
    pub stack_leniency: Option<Ratio>,
    pub slider_multiplier: Option<Ratio>,
    pub slider_tick_rate: Option<Ratio>,
    pub timing_points: Seq<TimingPointView>,
    pub hit_objects: Seq<HitObjectView>,
}

impl View for ChartFields {
    type V = ChartFieldsView;

    open spec fn view(&self) -> ChartFieldsView {
        ChartFieldsView {
            mode: self.mode,
            stack_leniency: self.stack_leniency,
            slider_multiplier: self.slider_multiplier,
            slider_tick_rate: self.slider_tick_rate,
            timing_points: timing_views(self.timing_points@),
            hit_objects: object_views(self.hit_objects@),
        }
    }
}

/// The customization's fields gathered so far.
pub struct CustomizationFields {
    pub sample_set: Option<SampleSet>,
    pub letterbox_in_breaks: Option<bool>,
    pub story_fire_in_front: Option<bool>,
    pub use_skin_sprites: Option<bool>,
    pub always_show_play_field: Option<bool>,
    pub overlay_position: Option<OverlayPosition>,
    pub skin_preference: Option<String>,
    pub epilepsy_warning: Option<bool>,
    pub countdown: Option<Countdown>,
    pub special_style: Option<bool>,
    pub widescreen_storyboard: Option<bool>,
    pub samples_match_playback_rate: Option<bool>,
    pub colors: Vec<Color>,
}

pub struct CustomizationFieldsView {
    pub sample_set: Option<SampleSet>,
    pub letterbox_in_breaks: Option<bool>,
    pub story_fire_in_front: Option<bool>,
    pub use_skin_sprites: Option<bool>,
    pub always_show_play_field: Option<bool>,
    pub overlay_position: Option<OverlayPosition>,
    pub skin_preference: Option<Seq<char>>,
    pub epilepsy_warning: Option<bool>,
    pub countdown: Option<Countdown>,
    pub special_style: Option<bool>,
    pub widescreen_storyboard: Option<bool>,
    pub samples_match_playback_rate: Option<bool>,
    pub colors: Seq<Color>,
}

impl View for CustomizationFields {
    type V = CustomizationFieldsView;

    open spec fn view(&self) -> CustomizationFieldsView {
        CustomizationFieldsView {
            sample_set: self.sample_set,
            letterbox_in_breaks: self.letterbox_in_breaks,
            story_fire_in_front: self.story_fire_in_front,
            use_skin_sprites: self.use_skin_sprites,
            always_show_play_field: self.always_show_play_field,
            overlay_position: self.overlay_position,
            skin_preference: opt_view(self.skin_preference),
            epilepsy_warning: self.epilepsy_warning,
            countdown: self.countdown,
            special_style: self.special_style,
            widescreen_storyboard: self.widescreen_storyboard,
            samples_match_playback_rate: self.samples_match_playback_rate,
            colors: self.colors@,
        }
    }
}

/// The difficulty's fields gathered so far.
#[derive(Debug, Clone, Copy, PartialEq, Eq, Structural)]
pub struct DifficultyFields {
    pub circle_size: Option<u8>,
    pub hpdrain_rate: Option<u8>,
    pub overall_difficulty: Option<u8>,
    pub approach_rate: Option<u8>,
}

/// The file data's fields gathered so far.
pub struct FiledataFields {
    pub file_format: Option<u8>,
    pub audio_filename: Option<String>,
    pub audio_lead_in: Option<i64>,
    pub audio_hash: Option<String>,
    pub preview_time: Option<i64>,
    pub countdown_offset: Option<i64>,
}

pub struct FiledataFieldsView {
    pub file_format: Option<u8>,
    pub audio_filename: Option<Seq<char>>,
    pub audio_lead_in: Option<i64>,
    pub audio_hash: Option<Seq<char>>,
    pub preview_time: Option<i64>,
    pub countdown_offset: Option<i64>,
}

impl View for FiledataFields {
    type V = FiledataFieldsView;

    open spec fn view(&self) -> FiledataFieldsView {
        FiledataFieldsView {
            file_format: self.file_format,
            audio_filename: opt_view(self.audio_filename),
            audio_lead_in: self.audio_lead_in,
            audio_hash: opt_view(self.audio_hash),
            preview_time: self.preview_time,
            countdown_offset: self.countdown_offset,
        }
    }
}

/// The whole state of a decode pass: the section being read and every group's fields.
pub struct Progress {
    pub section: u8,
    pub chart: ChartFields,
    pub customization: CustomizationFields,
    pub difficulty: DifficultyFields,
    pub editor: Editor,
    pub filedata: FiledataFields,
    pub metadata: Metadata,
}

pub struct ProgressView {
    pub section: u8,
    pub chart: ChartFieldsView,
    pub customization: CustomizationFieldsView,
    pub difficulty: DifficultyFields,
    pub editor: EditorView,
    pub filedata: FiledataFieldsView,
    pub metadata: MetadataView,
}

impl View for Progress {
    type V = ProgressView;

    open spec fn view(&self) -> ProgressView {
        ProgressView {
            section: self.section,
            chart: self.chart@,
            customization: self.customization@,
            difficulty: self.difficulty,
            editor: self.editor@,
            filedata: self.filedata@,
            metadata: self.metadata@,
        }
    }
}

/// The state before the first line.
pub open spec fn initial_progress() -> ProgressView {
    ProgressView {
        section: PREAMBLE,
        chart: ChartFieldsView {
            mode: None,
            stack_leniency: None,
            slider_multiplier: None,
            slider_tick_rate: None,
            timing_points: Seq::empty(),
            hit_objects: Seq::empty(),
        },
        customization: CustomizationFieldsView {
            sample_set: None,
            letterbox_in_breaks: None,
            story_fire_in_front: None,
            use_skin_sprites: None,
            always_show_play_field: None,
            overlay_position: None,
            skin_preference: None,
            epilepsy_warning: None,
            countdown: None,
            special_style: None,
            widescreen_storyboard: None,
            samples_match_playback_rate: None,
            colors: Seq::empty(),
        },
        difficulty: DifficultyFields {
            circle_size: None,
            hpdrain_rate: None,
            overall_difficulty: None,
            approach_rate: None,
        },
        editor: EditorView {
            bookmarks: Seq::empty(),
            distance_spacing: None,
            beat_divisor: None,
            grid_size: None,
            timeline_zoom: None,
        },
        filedata: FiledataFieldsView {
            file_format: None,
            audio_filename: None,
            audio_lead_in: None,
            audio_hash: None,
            preview_time: None,
            countdown_offset: None,
        },
        metadata: MetadataView {
            title: None,
            title_unicode: None,
            artist: None,
            artist_unicode: None,
            creator: None,
            version: None,
            source: None,
            tags: Seq::empty(),
            beatmap_id: None,
            beatmap_set_id: None,
        },
    }
}

/// A `key: value` line, both sides trimmed, split at the first colon.
pub open spec fn key_value(line: Seq<char>) -> Option<(Seq<char>, Seq<char>)> {
    match split_once(line, ':') {
        Some((k, v)) => Some((trim(k), trim(v))),
        None => None,
    }
}

/// A boolean field's new value.
pub open spec fn set_bool(value: Seq<char>) -> Option<Option<bool>> {
    match bool_of(value) {
        Some(b) => Some(Some(b)),
        None => None,
    }
}

/// An integer field's new value.
pub open spec fn set_int(value: Seq<char>) -> Option<Option<i64>> {
    match int_of(value) {
        Some(v) => Some(Some(v)),
        None => None,
    }
}

/// A text field that may not be empty.
pub open spec fn set_text(value: Seq<char>) -> Option<Option<Seq<char>>> {
    if value.len() > 0 {
        Some(Some(value))
    } else {
        None
    }
}

/// The chart's key in `[General]`.
pub open spec fn general_chart(c: ChartFieldsView, key: Seq<char>, value: Seq<char>) -> Option<
    ChartFieldsView,
> {
    if key == "Mode"@ {
        match mode_of(value) {
            Some(m) => Some(ChartFieldsView { mode: Some(m), ..c }),
            None => None,
        }
    } else {
        Some(c)
    }
}

/// The customization's keys in `[General]`.
pub open spec fn general_customization(
    u: CustomizationFieldsView,
    key: Seq<char>,
    value: Seq<char>,
) -> Option<CustomizationFieldsView> {
    if key == "SampleSet"@ {
        match sample_set_of(value) {
            Some(v) => Some(CustomizationFieldsView { sample_set: Some(v), ..u }),
            None => None,
        }
    } else if key == "LetterboxInBreaks"@ {
        match set_bool(value) {
            Some(v) => Some(CustomizationFieldsView { letterbox_in_breaks: v, ..u }),
            None => None,
        }
    } else if key == "StoryFireInFront"@ {
        match set_bool(value) {
            Some(v) => Some(CustomizationFieldsView { story_fire_in_front: v, ..u }),
            None => None,
        }
    } else if key == "UseSkinSprites"@ {
        match set_bool(value) {
            Some(v) => Some(CustomizationFieldsView { use_skin_sprites: v, ..u }),
            None => None,
        }
    } else if key == "AlwaysShowPlayField"@ {
        match set_bool(value) {
            Some(v) => Some(CustomizationFieldsView { always_show_play_field: v, ..u }),
            None => None,
        }
    } else if key == "OverlayPosition"@ {
        match overlay_position_of(value) {
            Some(v) => Some(CustomizationFieldsView { overlay_position: Some(v), ..u }),
            None => None,
        }
    } else if key == "SkinPreference"@ {
        match set_text(value) {
            Some(v) => Some(CustomizationFieldsView { skin_preference: v, ..u }),
            None => None,
        }
    } else if key == "EpilepsyWarning"@ {
        match set_bool(value) {
            Some(v) => Some(CustomizationFieldsView { epilepsy_warning: v, ..u }),
            None => None,
        }
    } else if key == "Countdown"@ {
        match countdown_of(value) {
            Some(v) => Some(CustomizationFieldsView { countdown: Some(v), ..u }),
            None => None,
        }
    } else if key == "SpecialStyle"@ {
        match set_bool(value) {
            Some(v) => Some(CustomizationFieldsView { special_style: v, ..u }),
            None => None,
        }
    } else if key == "WidescreenStoryboard"@ {
        match set_bool(value) {
            Some(v) => Some(CustomizationFieldsView { widescreen_storyboard: v, ..u }),
            None => None,
        }
    } else if key == "SamplesMatchPlaybackRate"@ {
        match set_bool(value) {
            Some(v) => Some(CustomizationFieldsView { samples_match_playback_rate: v, ..u }),
            None => None,
        }
    } else {
        Some(u)
    }
}

/// The file data's keys in `[General]`.
pub open spec fn general_filedata(f: FiledataFieldsView, key: Seq<char>, value: Seq<char>) -> Option<
    FiledataFieldsView,
> {
    if key == "AudioFilename"@ {
        match set_text(value) {
            Some(v) => Some(FiledataFieldsView { audio_filename: v, ..f }),
            None => None,
        }
    } else if key == "AudioLeadIn"@ {
        match set_int(value) {
            Some(v) => Some(FiledataFieldsView { audio_lead_in: v, ..f }),
            None => None,
        }
    } else if key == "AudioHash"@ {
        match set_text(value) {
            Some(v) => Some(FiledataFieldsView { audio_hash: v, ..f }),
            None => None,
        }
    } else if key == "PreviewTime"@ {
        match set_int(value) {
            Some(v) => Some(FiledataFieldsView { preview_time: v, ..f }),
            None => None,
        }
    } else if key == "CountdownOffset"@ {
        match set_int(value) {
            Some(v) => Some(FiledataFieldsView { countdown_offset: v, ..f }),
            None => None,
        }
    } else {
        Some(f)
    }
}

pub open spec fn int_fn() -> spec_fn(Seq<char>) -> Option<i64> {
    |p: Seq<char>| int_of(p)
}

/// The keys of `[Editor]`.
pub open spec fn editor_key(e: EditorView, key: Seq<char>, value: Seq<char>) -> Option<EditorView> {
    if key == "Bookmarks"@ {
        match each(trim_all(split(value, ',')), int_fn()) {
            Some(b) => Some(EditorView { bookmarks: e.bookmarks + b, ..e }),
            None => None,
        }
    } else if key == "DistanceSpacing"@ {
        match ratio_of(value) {
            Some(q) => Some(EditorView { distance_spacing: Some(q), ..e }),
            None => None,
        }
    } else if key == "BeatDivisor"@ {
        match set_int(value) {
            Some(v) => Some(EditorView { beat_divisor: v, ..e }),
            None => None,
        }
    } else if key == "GridSize"@ {
        match set_int(value) {
            Some(v) => Some(EditorView { grid_size: v, ..e }),
            None => None,
        }
    } else if key == "TimelineZoom"@ {
        match ratio_of(value) {
            Some(q) => Some(EditorView { timeline_zoom: Some(q), ..e }),
            None => None,
        }
    } else {
        Some(e)
    }
}

/// The keys of `[Metadata]`.
pub open spec fn metadata_key(m: MetadataView, key: Seq<char>, value: Seq<char>) -> Option<
    MetadataView,
> {
    if key == "Title"@ {
        Some(MetadataView { title: Some(value), ..m })
    } else if key == "TitleUnicode"@ {
        Some(MetadataView { title_unicode: Some(value), ..m })
    } else if key == "Artist"@ {
        Some(MetadataView { artist: Some(value), ..m })
    } else if key == "ArtistUnicode"@ {
        Some(MetadataView { artist_unicode: Some(value), ..m })
    } else if key == "Creator"@ {
        Some(MetadataView { creator: Some(value), ..m })
    } else if key == "Version"@ {
        Some(MetadataView { version: Some(value), ..m })
    } else if key == "Source"@ {
        Some(MetadataView { source: Some(value), ..m })
    } else if key == "Tags"@ {
        Some(MetadataView { tags: m.tags + split(value, ','), ..m })
    } else if key == "BeatmapID"@ {
        match set_int(value) {
            Some(v) => Some(MetadataView { beatmap_id: v, ..m }),
            None => None,
        }
    } else if key == "BeatmapSetID"@ {
        match set_int(value) {
            Some(v) => Some(MetadataView { beatmap_set_id: v, ..m }),
            None => None,
        }
    } else {
        Some(m)
    }
}

/// The chart's keys in `[Difficulty]`.
pub open spec fn difficulty_chart(c: ChartFieldsView, key: Seq<char>, value: Seq<char>) -> Option<
    ChartFieldsView,
> {
    if key == "StackLeniency"@ {
        match ratio_of(value) {
            Some(q) => Some(ChartFieldsView { stack_leniency: Some(q), ..c }),
            None => None,
        }
    } else if key == "SliderMultiplier"@ {
        match ratio_of(value) {
            Some(q) => Some(ChartFieldsView { slider_multiplier: Some(q), ..c }),
            None => None,
        }
    } else if key == "SliderTickRate"@ {
        match ratio_of(value) {
            Some(q) => Some(ChartFieldsView { slider_tick_rate: Some(q), ..c }),
            None => None,
        }
    } else {
        Some(c)
    }
}

/// The difficulty's keys in `[Difficulty]`.
pub open spec fn difficulty_key(d: DifficultyFields, key: Seq<char>, value: Seq<char>) -> Option<
    DifficultyFields,
> {
    if key == "CircleSize"@ {
        match one_decimal(value) {
            Some(v) => Some(DifficultyFields { circle_size: Some(v), ..d }),
            None => None,
        }
    } else if key == "HPDrainRate"@ {
        match one_decimal(value) {
            Some(v) => Some(DifficultyFields { hpdrain_rate: Some(v), ..d }),
            None => None,
        }
    } else if key == "OverallDifficulty"@ {
        match one_decimal(value) {
            Some(v) => Some(DifficultyFields { overall_difficulty: Some(v), ..d }),
            None => None,
        }
    } else if key == "ApproachRate"@ {
        match one_decimal(value) {
            Some(v) => Some(DifficultyFields { approach_rate: Some(v), ..d }),
            None => None,
        }
    } else {
        Some(d)
    }
}

/// One line that is no header, read in section `p.section`: `None` where the line is
/// invalid there. A section that no requested group needs is skipped unread.
pub open spec fn read_line(p: ProgressView, line: Seq<char>, w: Wanted) -> Option<ProgressView> {
    let k = p.section;
    if k == PREAMBLE {
        if !w.filedata {
            Some(p)
        } else {
            match split_once(line, 'v') {
                Some((_, rhs)) => match byte_of(rhs) {
                    Some(v) => Some(
                        ProgressView {
                            filedata: FiledataFieldsView { file_format: Some(v), ..p.filedata },
                            ..p
                        },
                    ),
                    None => None,
                },
                None => None,
            }
        }
    } else if k == GENERAL {
        if !(w.chart || w.customization || w.filedata) {
            Some(p)
        } else {
            match key_value(line) {
                Some((key, value)) => {
                    let c = if w.chart {
                        general_chart(p.chart, key, value)
                    } else {
                        Some(p.chart)
                    };
                    let u = if w.customization {
                        general_customization(p.customization, key, value)
                    } else {
                        Some(p.customization)
                    };
                    let f = if w.filedata {
                        general_filedata(p.filedata, key, value)
                    } else {
                        Some(p.filedata)
                    };
                    match (c, u, f) {
                        (Some(c), Some(u), Some(f)) => Some(
                            ProgressView { chart: c, customization: u, filedata: f, ..p },
                        ),
                        _ => None,
                    }
                },
                None => None,
            }
        }
    } else if k == EDITOR {
        if !w.editor {
            Some(p)
        } else {
            match key_value(line) {
                Some((key, value)) => match editor_key(p.editor, key, value) {
                    Some(e) => Some(ProgressView { editor: e, ..p }),
                    None => None,
                },
                None => None,
            }
        }
    } else if k == METADATA {
        if !w.metadata {
            Some(p)
        } else {
            match key_value(line) {
                Some((key, value)) => match metadata_key(p.metadata, key, value) {
                    Some(m) => Some(ProgressView { metadata: m, ..p }),
                    None => None,
                },
                None => None,
            }
        }
    } else if k == DIFFICULTY {
        if !(w.chart || w.difficulty) {
            Some(p)
        } else {
            match key_value(line) {
                Some((key, value)) => {
                    let c = if w.chart {
                        difficulty_chart(p.chart, key, value)
                    } else {
                        Some(p.chart)
                    };
                    let d = if w.difficulty {
                        difficulty_key(p.difficulty, key, value)
                    } else {
                        Some(p.difficulty)
                    };
                    match (c, d) {
                        (Some(c), Some(d)) => Some(ProgressView { chart: c, difficulty: d, ..p }),
                        _ => None,
                    }
                },
                None => None,
            }
        }
    } else if k == EVENTS {
        if w.customization {
            None
        } else {
            Some(p)
        }
    } else if k == TIMING_POINTS {
        if !w.chart {
            Some(p)
        } else {
            match timing_point_of(line) {
                Some(t) => Some(
                    ProgressView {
                        chart: ChartFieldsView {
                            timing_points: p.chart.timing_points.push(t),
                            ..p.chart
                        },
                        ..p
                    },
                ),
                None => None,
            }
        }
    } else if k == COLOURS {
        if !w.customization {
            Some(p)
        } else {
            match colour_line_of(line) {
                Some(c) => Some(
                    ProgressView {
                        customization: CustomizationFieldsView {
                            colors: p.customization.colors.push(c),
                            ..p.customization
                        },
                        ..p
                    },
                ),
                None => None,
            }
        }
    } else {
        if !w.chart {
            Some(p)
        } else {
            match hit_object_of(line) {
                Some(h) => Some(
                    ProgressView {
                        chart: ChartFieldsView { hit_objects: p.chart.hit_objects.push(h), ..p.chart },
                        ..p
                    },
                ),
                None => None,
            }
        }
    }
}

/// One line: a header moves to its section; any other line is read in the current one.
/// An invalid line fails with itself and the name of the section it was read in.
pub open spec fn step(p: ProgressView, line: Seq<char>, w: Wanted) -> Result<
    ProgressView,
    (Seq<char>, Seq<char>),
> {
    match header_of(line, p.section) {
        Some(k) => Ok(ProgressView { section: k, ..p }),
        None => match read_line(p, line, w) {
            Some(q) => Ok(q),
            None => Err((line, section_name(p.section))),
        },
    }
}

/// All lines in order, from the initial state; the first invalid line ends the pass.
pub open spec fn run(lines: Seq<Seq<char>>, w: Wanted) -> Result<
    ProgressView,
    (Seq<char>, Seq<char>),
>
    decreases lines.len(),
{
    if lines.len() == 0 {
        Ok(initial_progress())
    } else {
        match run(lines.drop_last(), w) {
            Ok(p) => step(p, lines.last(), w),
            Err(e) => Err(e),
        }
    }
}

/// The non-empty lines among `ls`.
pub open spec fn nonblank(ls: Seq<Seq<char>>) -> Seq<Seq<char>>
    decreases ls.len(),
{
    if ls.len() == 0 {
        ls
    } else if ls.last().len() > 0 {
        nonblank(ls.drop_last()).push(ls.last())
    } else {
        nonblank(ls.drop_last())
    }
}

/// The document's lines, trimmed, without the blank ones.
pub open spec fn doc_lines(s: Seq<char>) -> Seq<Seq<char>> {
    nonblank(trim_all(split(s, '\n')))
}

/// The ASCII characters of `s`, in order.
pub fn ascii_filtered(s: &[char]) -> (r: Vec<char>)
    ensures
        r@ == ascii_only(s@),
{
    let mut r: Vec<char> = Vec::new();
    let mut i: usize = 0;
    assert(s@.take(0) =~= Seq::<char>::empty());
    while i < s.len()
        invariant
            i <= s@.len(),
            r@ == ascii_only(s@.take(i as int)),
        decreases s@.len() - i,
    {
        assert(s@.take(i + 1).drop_last() =~= s@.take(i as int));
        if (s[i] as u32) < 128 {
            r.push(s[i]);
        }
        i = i + 1;
    }
    assert(s@.take(i as int) =~= s@);
    r
}

/// The section that `line` opens while section `cur` is being read, if any.
pub fn header(line: &[char], cur: u8) -> (r: Option<u8>)
    ensures
        r == header_of(line@, cur),
{
    let a = ascii_filtered(line);
    let a = a.as_slice();
    if is(a, "[General]") && GENERAL >= cur {
        Some(GENERAL)
    } else if is(a, "[Editor]") && EDITOR >= cur {
        Some(EDITOR)
    } else if is(a, "[Metadata]") && METADATA >= cur {
        Some(METADATA)
    } else if is(a, "[Difficulty]") && DIFFICULTY >= cur {
        Some(DIFFICULTY)
    } else if is(a, "[Events]") && EVENTS >= cur {
        Some(EVENTS)
    } else if is(a, "[TimingPoints]") && TIMING_POINTS >= cur {
        Some(TIMING_POINTS)
    } else if is(a, "[Colours]") && COLOURS >= cur {
        Some(COLOURS)
    } else if is(a, "[HitObjects]") && HIT_OBJECTS >= cur {
        Some(HIT_OBJECTS)
    } else {
        None
    }
}

/// The name of section `k`.
pub fn section_text(k: u8) -> (r: &'static str)
    ensures
        r@ == section_name(k),
{
    if k == GENERAL {
        "[General]"
    } else if k == EDITOR {
        "[Editor]"
    } else if k == METADATA {
        "[Metadata]"
    } else if k == DIFFICULTY {
        "[Difficulty]"
    } else if k == EVENTS {
        "[Events]"
    } else if k == TIMING_POINTS {
        "[TimingPoints]"
    } else if k == COLOURS {
        "[Colours]"
    } else if k == HIT_OBJECTS {
        "[HitObjects]"
    } else {
        "[Preamble]"
    }
}

/// A `key: value` line, both sides trimmed.
pub fn key_value_of(line: &[char]) -> (r: Option<(Vec<char>, Vec<char>)>)
    ensures
        match r {
            Some((k, v)) => key_value(line@) == Some((k@, v@)),
            None => key_value(line@) is None,
        },
{
    match split_once_on(line, ':') {
        Some((k, v)) => Some((trimmed(k.as_slice()), trimmed(v.as_slice()))),
        None => None,
    }
}

impl ChartFields {
    fn general(&mut self, key: &[char], value: &[char]) -> (ok: bool)
        ensures
            ok == general_chart(old(self)@, key@, value@) is Some,
            ok ==> general_chart(old(self)@, key@, value@) == Some(final(self)@),
    {
        if is(key, "Mode") {
            match Mode::from_chars(value) {
                Some(m) => {
                    self.mode = Some(m);
                    true
                },
                None => false,
            }
        } else {
            true
        }
    }

    fn difficulty(&mut self, key: &[char], value: &[char]) -> (ok: bool)
        ensures
            ok == difficulty_chart(old(self)@, key@, value@) is Some,
            ok ==> difficulty_chart(old(self)@, key@, value@) == Some(final(self)@),
    {
        if is(key, "StackLeniency") {
            match ratio_of_chars(value) {
                Ok(q) => {
                    self.stack_leniency = Some(q);
                    true
                },
                Err(_) => false,
            }
        } else if is(key, "SliderMultiplier") {
            match ratio_of_chars(value) {
                Ok(q) => {
                    self.slider_multiplier = Some(q);
                    true
                },
                Err(_) => false,
            }
        } else if is(key, "SliderTickRate") {
            match ratio_of_chars(value) {
                Ok(q) => {
                    self.slider_tick_rate = Some(q);
                    true
                },
                Err(_) => false,
            }
        } else {
            true
        }
    }
}

impl CustomizationFields {
    fn general(&mut self, key: &[char], value: &[char]) -> (ok: bool)
        ensures
            ok == general_customization(old(self)@, key@, value@) is Some,
            ok ==> general_customization(old(self)@, key@, value@) == Some(final(self)@),
    {
        if is(key, "SampleSet") {
            match SampleSet::from_chars(value) {
                Ok(v) => {
                    self.sample_set = Some(v);
                    true
                },
                Err(_) => false,
            }
        } else if is(key, "LetterboxInBreaks") {
            match parse_bool(value) {
                Some(b) => {
                    self.letterbox_in_breaks = Some(b);
                    true
                },
                None => false,
            }
        } else if is(key, "StoryFireInFront") {
            match parse_bool(value) {
                Some(b) => {
                    self.story_fire_in_front = Some(b);
                    true
                },
                None => false,
            }
        } else if is(key, "UseSkinSprites") {
            match parse_bool(value) {
                Some(b) => {
                    self.use_skin_sprites = Some(b);
                    true
                },
                None => false,
            }
        } else if is(key, "AlwaysShowPlayField") {
            match parse_bool(value) {
                Some(b) => {
                    self.always_show_play_field = Some(b);
                    true
                },
                None => false,
            }
        } else if is(key, "OverlayPosition") {
            match OverlayPosition::from_chars(value) {
                Ok(v) => {
                    self.overlay_position = Some(v);
                    true
                },
                Err(_) => false,
            }
        } else if is(key, "SkinPreference") {
            if value.len() > 0 {
                self.skin_preference = Some(string_of(value));
                true
            } else {
                false
            }
        } else if is(key, "EpilepsyWarning") {
            match parse_bool(value) {
                Some(b) => {
                    self.epilepsy_warning = Some(b);
                    true
                },
                None => false,
            }
        } else if is(key, "Countdown") {
            match Countdown::from_chars(value) {
                Ok(v) => {
                    self.countdown = Some(v);
                    true
                },
                Err(_) => false,
            }
        } else if is(key, "SpecialStyle") {
            match parse_bool(value) {
                Some(b) => {
                    self.special_style = Some(b);
                    true
                },
                None => false,
            }
        } else if is(key, "WidescreenStoryboard") {
            match parse_bool(value) {
                Some(b) => {
                    self.widescreen_storyboard = Some(b);
                    true
                },
                None => false,
            }
        } else if is(key, "SamplesMatchPlaybackRate") {
            match parse_bool(value) {
                Some(b) => {
                    self.samples_match_playback_rate = Some(b);
                    true
                },
                None => false,
            }
        } else {
            true
        }
    }
}

impl FiledataFields {
    fn general(&mut self, key: &[char], value: &[char]) -> (ok: bool)
        ensures
            ok == general_filedata(old(self)@, key@, value@) is Some,
            ok ==> general_filedata(old(self)@, key@, value@) == Some(final(self)@),
    {
        if is(key, "AudioFilename") {
            if value.len() > 0 {
                self.audio_filename = Some(string_of(value));
                true
            } else {
                false
            }
        } else if is(key, "AudioLeadIn") {
            match parse_i64(value) {
                Some(v) => {
                    self.audio_lead_in = Some(v);
                    true
                },
                None => false,
            }
        } else if is(key, "AudioHash") {
            if value.len() > 0 {
                self.audio_hash = Some(string_of(value));
                true
            } else {
                false
            }
        } else if is(key, "PreviewTime") {
            match parse_i64(value) {
                Some(v) => {
                    self.preview_time = Some(v);
                    true
                },
                None => false,
            }
        } else if is(key, "CountdownOffset") {
            match parse_i64(value) {
                Some(v) => {
                    self.countdown_offset = Some(v);
                    true
                },
                None => false,
            }
        } else {
            true
        }
    }
}

impl DifficultyFields {
    fn read(&mut self, key: &[char], value: &[char]) -> (ok: bool)
        ensures
            ok == difficulty_key(*old(self), key@, value@) is Some,
            ok ==> difficulty_key(*old(self), key@, value@) == Some(*final(self)),
    {
        if is(key, "CircleSize") {
            match one_decimal_of_chars(value) {
                Ok(v) => {
                    self.circle_size = Some(v);
                    true
                },
                Err(_) => false,
            }
        } else if is(key, "HPDrainRate") {
            match one_decimal_of_chars(value) {
                Ok(v) => {
                    self.hpdrain_rate = Some(v);
                    true
                },
                Err(_) => false,
            }
        } else if is(key, "OverallDifficulty") {
            match one_decimal_of_chars(value) {
                Ok(v) => {
                    self.overall_difficulty = Some(v);
                    true
                },
                Err(_) => false,
            }
        } else if is(key, "ApproachRate") {
            match one_decimal_of_chars(value) {
                Ok(v) => {
                    self.approach_rate = Some(v);
                    true
                },
                Err(_) => false,
            }
        } else {
            true
        }
    }
}

/// The integers of a comma-separated list, each trimmed.
fn int_list(s: &[char]) -> (r: Option<Vec<i64>>)
    ensures
        match r {
            Some(v) => each(trim_all(split(s@, ',')), int_fn()) == Some(v@),
            None => each(trim_all(split(s@, ',')), int_fn()) is None,
        },
{
    let parts = split_trimmed(s, ',');
    let ghost g = views(parts@);
    let mut out: Vec<i64> = Vec::new();
    let mut i: usize = 0;
    assert(g.take(0) =~= Seq::<Seq<char>>::empty());
    while i < parts.len()
        invariant
            i <= parts@.len(),
            g == views(parts@),
            g == trim_all(split(s@, ',')),
            each(g.take(i as int), int_fn()) == Some(out@),
        decreases parts@.len() - i,
    {
        assert(g.take(i + 1).drop_last() =~= g.take(i as int));
        assert(g.take(i + 1).last() == parts@[i as int]@);
        match parse_i64(parts[i].as_slice()) {
            Some(v) => out.push(v),
            None => {
                proof {
                    lemma_each_fails(g, i + 1, int_fn());
                }
                return None;
            },
        }
        i = i + 1;
    }
    assert(g.take(i as int) =~= g);
    Some(out)
}

fn editor_read(e: &mut Editor, key: &[char], value: &[char]) -> (ok: bool)
    ensures
        ok == editor_key(old(e)@, key@, value@) is Some,
        ok ==> editor_key(old(e)@, key@, value@) == Some(final(e)@),
{
    if is(key, "Bookmarks") {
        match int_list(value) {
            Some(mut b) => {
                e.bookmarks.append(&mut b);
                true
            },
            None => false,
        }
    } else if is(key, "DistanceSpacing") {
        match ratio_of_chars(value) {
            Ok(q) => {
                e.distance_spacing = Some(q);
                true
            },
            Err(_) => false,
        }
    } else if is(key, "BeatDivisor") {
        match parse_i64(value) {
            Some(v) => {
                e.beat_divisor = Some(v);
                true
            },
            None => false,
        }
    } else if is(key, "GridSize") {
        match parse_i64(value) {
            Some(v) => {
                e.grid_size = Some(v);
                true
            },
            None => false,
        }
    } else if is(key, "TimelineZoom") {
        match ratio_of_chars(value) {
            Ok(q) => {
                e.timeline_zoom = Some(q);
                true
            },
            Err(_) => false,
        }
    } else {
        true
    }
}

/// The comma-separated pieces of `s` as strings.
fn string_list(s: &[char]) -> (r: Vec<String>)
    ensures
        string_views(r@) == split(s@, ','),
{
    let parts = split_on(s, ',');
    let mut out: Vec<String> = Vec::new();
    let mut i: usize = 0;
    while i < parts.len()
        invariant
            i <= parts@.len(),
            views(parts@) == split(s@, ','),
            string_views(out@) == views(parts@).take(i as int),
        decreases parts@.len() - i,
    {
        let t = string_of(parts[i].as_slice());
        let ghost before = out@;
        out.push(t);
        assert(string_views(out@) =~= string_views(before).push(t@));
        assert(views(parts@).take(i + 1) =~= views(parts@).take(i as int).push(parts@[i as int]@));
        i = i + 1;
    }
    assert(views(parts@).take(i as int) =~= views(parts@));
    out
}

fn metadata_read(m: &mut Metadata, key: &[char], value: &[char]) -> (ok: bool)
    ensures
        ok == metadata_key(old(m)@, key@, value@) is Some,
        ok ==> metadata_key(old(m)@, key@, value@) == Some(final(m)@),
{
    if is(key, "Title") {
        m.title = Some(string_of(value));
        true
    } else if is(key, "TitleUnicode") {
        m.title_unicode = Some(string_of(value));
        true
    } else if is(key, "Artist") {
        m.artist = Some(string_of(value));
        true
    } else if is(key, "ArtistUnicode") {
        m.artist_unicode = Some(string_of(value));
        true
    } else if is(key, "Creator") {
        m.creator = Some(string_of(value));
        true
    } else if is(key, "Version") {
        m.version = Some(string_of(value));
        true
    } else if is(key, "Source") {
        m.source = Some(string_of(value));
        true
    } else if is(key, "Tags") {
        let mut t = string_list(value);
        let ghost before = m.tags@;
        m.tags.append(&mut t);
        assert(string_views(m.tags@) =~= string_views(before) + split(value@, ','));
        true
    } else if is(key, "BeatmapID") {
        match parse_i64(value) {
            Some(v) => {
                m.beatmap_id = Some(v);
                true
            },
            None => false,
        }
    } else if is(key, "BeatmapSetID") {
        match parse_i64(value) {
            Some(v) => {
                m.beatmap_set_id = Some(v);
                true
            },
            None => false,
        }
    } else {
        true
    }
}

impl Progress {
    /// The state before the first line.
    pub fn new() -> (r: Progress)
        ensures
            r@ == initial_progress(),
    {
        let r = Progress {
            section: PREAMBLE,
            chart: ChartFields {
                mode: None,
                stack_leniency: None,
                slider_multiplier: None,
                slider_tick_rate: None,
                timing_points: Vec::new(),
                hit_objects: Vec::new(),
            },
            customization: CustomizationFields {
                sample_set: None,
                letterbox_in_breaks: None,
                story_fire_in_front: None,
                use_skin_sprites: None,
                always_show_play_field: None,
                overlay_position: None,
                skin_preference: None,
                epilepsy_warning: None,
                countdown: None,
                special_style: None,
                widescreen_storyboard: None,
                samples_match_playback_rate: None,
                colors: Vec::new(),
            },
            difficulty: DifficultyFields {
                circle_size: None,
                hpdrain_rate: None,
                overall_difficulty: None,
                approach_rate: None,
            },
            editor: Editor {
                bookmarks: Vec::new(),
                distance_spacing: None,
                beat_divisor: None,
                grid_size: None,
                timeline_zoom: None,
            },
            filedata: FiledataFields {
                file_format: None,
                audio_filename: None,
                audio_lead_in: None,
                audio_hash: None,
                preview_time: None,
                countdown_offset: None,
            },
            metadata: Metadata {
                title: None,
                title_unicode: None,
                artist: None,
                artist_unicode: None,
                creator: None,
                version: None,
                source: None,
                tags: Vec::new(),
                beatmap_id: None,
                beatmap_set_id: None,
            },
        };
        assert(r@.chart.timing_points =~= Seq::<TimingPointView>::empty());
        assert(r@.chart.hit_objects =~= Seq::<HitObjectView>::empty());
        assert(r@.metadata.tags =~= Seq::<Seq<char>>::empty());
        r
    }

    /// Reads a line that is no header in the current section.
    pub fn read(&mut self, line: &[char], w: Wanted) -> (ok: bool)
        ensures
            ok == read_line(old(self)@, line@, w) is Some,
            ok ==> read_line(old(self)@, line@, w) == Some(final(self)@),
    {
        let k = self.section;
        if k == PREAMBLE {
            if !w.filedata {
                return true;
            }
            match split_once_on(line, 'v') {
                Some((_, rhs)) => match parse_u8(rhs.as_slice()) {
                    Some(v) => {
                        self.filedata.file_format = Some(v);
                        true
                    },
                    None => false,
                },
                None => false,
            }
        } else if k == GENERAL {
            if !(w.chart || w.customization || w.filedata) {
                return true;
            }
            match key_value_of(line) {
                Some((key, value)) => {
                    if w.chart && !self.chart.general(key.as_slice(), value.as_slice()) {
                        return false;
                    }
                    if w.customization && !self.customization.general(
                        key.as_slice(),
                        value.as_slice(),
                    ) {
                        return false;
                    }
                    if w.filedata && !self.filedata.general(key.as_slice(), value.as_slice()) {
                        return false;
                    }
                    true
                },
                None => false,
            }
        } else if k == EDITOR {
            if !w.editor {
                return true;
            }
            match key_value_of(line) {
                Some((key, value)) => editor_read(&mut self.editor, key.as_slice(), value.as_slice()),
                None => false,
            }
        } else if k == METADATA {
            if !w.metadata {
                return true;
            }
            match key_value_of(line) {
                Some((key, value)) => metadata_read(
                    &mut self.metadata,
                    key.as_slice(),
                    value.as_slice(),
                ),
                None => false,
            }
        } else if k == DIFFICULTY {
            if !(w.chart || w.difficulty) {
                return true;
            }
            match key_value_of(line) {
                Some((key, value)) => {
                    if w.chart && !self.chart.difficulty(key.as_slice(), value.as_slice()) {
                        return false;
                    }
                    if w.difficulty && !self.difficulty.read(key.as_slice(), value.as_slice()) {
                        return false;
                    }
                    true
                },
                None => false,
            }
        } else if k == EVENTS {
            !w.customization
        } else if k == TIMING_POINTS {
            if !w.chart {
                return true;
            }
            match TimingPoint::from_chars(line) {
                Ok(t) => {
                    let ghost before = self.chart.timing_points@;
                    self.chart.timing_points.push(t);
                    assert(timing_views(self.chart.timing_points@) =~= timing_views(before).push(
                        t@,
                    ));
                    true
                },
                Err(_) => false,
            }
        } else if k == COLOURS {
            if !w.customization {
                return true;
            }
            match crate::colours::colour_line(line) {
                Some(c) => {
                    self.customization.colors.push(c);
                    true
                },
                None => false,
            }
        } else {
            if !w.chart {
                return true;
            }
            match crate::hit_object::decode_hit_object(line) {
                Some(h) => {
                    let ghost before = self.chart.hit_objects@;
                    self.chart.hit_objects.push(h);
                    assert(object_views(self.chart.hit_objects@) =~= object_views(before).push(
                        h@,
                    ));
                    true
                },
                None => false,
            }
        }
    }

    /// Takes one line: a header moves to its section, any other line is read in the
    /// current one.
    pub fn advance(&mut self, line: &[char], w: Wanted) -> (r: Result<(), ParseError>)
        ensures
            match step(old(self)@, line@, w) {
                Ok(q) => r is Ok && final(self)@ == q,
                Err((l, s)) => r matches Err(ParseError::InvalidLine { line: l2, section: s2 })
                    && l2@ == l && s2@ == s,
            },
    {
        match header(line, self.section) {
            Some(k) => {
                self.section = k;
                Ok(())
            },
            None => {
                let k = self.section;
                if self.read(line, w) {
                    Ok(())
                } else {
                    Err(invalid_line(line, section_text(k)))
                }
            },
        }
    }
}

/// Sections are only ever left forward: no line leads back to an earlier section, and
/// once `[TimingPoints]` is behind, no line adds a timing point.
pub proof fn lemma_step_forward(p: ProgressView, line: Seq<char>, w: Wanted)
    ensures
        step(p, line, w) matches Ok(q) ==> q.section >= p.section && (p.section > TIMING_POINTS
            ==> q.chart.timing_points == p.chart.timing_points),
{
}

/// Once a document has reached `[HitObjects]`, it stays there to the end, and the
/// timing points gathered by then are all there will be: a `[TimingPoints]` header
/// later in the text opens nothing.
pub proof fn lemma_hit_objects_last(lines: Seq<Seq<char>>, i: int, j: int, w: Wanted)
    requires
        0 <= i <= j <= lines.len(),
        run(lines.take(i), w) is Ok,
        run(lines.take(i), w)->Ok_0.section == HIT_OBJECTS,
        run(lines.take(j), w) is Ok,
    ensures
        run(lines.take(j), w)->Ok_0.section == HIT_OBJECTS,
        run(lines.take(j), w)->Ok_0.chart.timing_points == run(lines.take(i), w)->Ok_0.chart.timing_points,
    decreases j - i,
{
    if j > i {
        assert(lines.take(j).drop_last() =~= lines.take(j - 1));
        if run(lines.take(j - 1), w) is Err {
            assert(run(lines.take(j), w) is Err);
        } else {
            lemma_hit_objects_last(lines, i, j - 1, w);
            let p = run(lines.take(j - 1), w)->Ok_0;
            lemma_step_forward(p, lines.take(j).last(), w);
            assert(header_of(lines.take(j).last(), HIT_OBJECTS) is Some ==> header_of(
                lines.take(j).last(),
                HIT_OBJECTS,
            ) == Some(HIT_OBJECTS));
        }
    }
}

/// Where the chart is not requested, a line of `[TimingPoints]` or `[HitObjects]` is
/// skipped unread, whatever it holds.
pub proof fn lemma_chart_sections_skipped(p: ProgressView, line: Seq<char>, w: Wanted)
    requires
        !w.chart,
        p.section == TIMING_POINTS || p.section == HIT_OBJECTS,
    ensures
        read_line(p, line, w) == Some(p),
        step(p, line, w) is Ok,
{
}

/// A `[TimingPoints]` line whose field count is none of 2, 6, 7 and 8 (three or four
/// fields, say) is an invalid line of that section whenever the chart is requested.
pub proof fn lemma_timing_arity_rejected(p: ProgressView, line: Seq<char>, w: Wanted)
    requires
        w.chart,
        p.section == TIMING_POINTS,
        header_of(line, p.section) is None,
        !timing_arity(split(line, ',').len() as int),
    ensures
        step(p, line, w) == Err::<ProgressView, (Seq<char>, Seq<char>)>(
            (line, "[TimingPoints]"@),
        ),
{
    assert(trim_all(split(line, ',')).len() == split(line, ',').len());
}

} // verus!
