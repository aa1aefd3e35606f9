//! The top-level driver: it walks a document's lines through the section state machine
//! and assembles the requested groups.
use vstd::prelude::*;
use crate::errors::ParseError;
use crate::parts::{Countdown, OverlayPosition, SampleSet};
use crate::records::{
    Chart, ChartView, Customization, CustomizationView, Difficulty, Editor, EditorView,
    Filedata, FiledataView, Metadata, MetadataView,
};
use crate::state::{
    ascii_only, doc_lines, TIMING_POINTS, nonblank, run, step, ChartFields, ChartFieldsView, CustomizationFields,
    CustomizationFieldsView, DifficultyFields, FiledataFields, FiledataFieldsView, Progress,
    ProgressView, Wanted,
};
use crate::text::{chars_of, split_trimmed, views};

verus! {

/// Why a document could not be decoded: an invalid line and the section it was read
/// in, or a requested group's missing field and the group's name.
pub enum Failure {
    Line(Seq<char>, Seq<char>),
    Missing(Seq<char>, Seq<char>),
}

/// The requested groups; `None` for those not requested.
pub struct Decoded {
    pub chart: Option<ChartView>,
    pub customization: Option<CustomizationView>,
    pub difficulty: Option<Difficulty>,
    pub editor: Option<EditorView>,
    pub filedata: Option<FiledataView>,
    pub metadata: Option<MetadataView>,
}

pub open spec fn missing(field: &str, collection: &str) -> Failure {
    Failure::Missing(field@, collection@)
}

/// The chart, once mode and the three rational settings are set.
pub open spec fn chart_of(c: ChartFieldsView) -> Result<ChartView, Failure> {
    if c.mode is None {
        Err(missing("mode", "chart"))
    } else if c.stack_leniency is None {
        Err(missing("stack_leniency", "chart"))
    } else if c.slider_multiplier is None {
        Err(missing("slider_multiplier", "chart"))
    } else if c.slider_tick_rate is None {
        Err(missing("slider_tick_rate", "chart"))
    } else {
        Ok(
            ChartView {
                mode: c.mode->Some_0,
                stack_leniency: c.stack_leniency->Some_0,
                slider_multiplier: c.slider_multiplier->Some_0,
                slider_tick_rate: c.slider_tick_rate->Some_0,
                timing_points: c.timing_points,
                hit_objects: c.hit_objects,
            },
        )
    }
}

/// The customization, unset settings taking their defaults.
pub open spec fn customization_of(u: CustomizationFieldsView) -> CustomizationView {
    CustomizationView {
        sample_set: match u.sample_set {
            Some(v) => v,
            None => SampleSet::Normal,
        },
        letterbox_in_breaks: match u.letterbox_in_breaks {
            Some(v) => v,
            None => false,
        },
        story_fire_in_front: match u.story_fire_in_front {
            Some(v) => v,
            None => true,
        },
        use_skin_sprites: match u.use_skin_sprites {
            Some(v) => v,
            None => false,
        },
        always_show_play_field: match u.always_show_play_field {
            Some(v) => v,
            None => false,
        },
        overlay_position: match u.overlay_position {
            Some(v) => v,
            None => OverlayPosition::NoChange,
        },
        skin_preference: u.skin_preference,
        epilepsy_warning: match u.epilepsy_warning {
            Some(v) => v,
            None => false,
        },
        countdown: match u.countdown {
            Some(v) => v,
            None => Countdown::Normal,
        },
        special_style: match u.special_style {
            Some(v) => v,
            None => false,
        },
        widescreen_storyboard: match u.widescreen_storyboard {
            Some(v) => v,
            None => false,
        },
        samples_match_playback_rate: match u.samples_match_playback_rate {
            Some(v) => v,
            None => false,
        },
        backgrounds: Seq::empty(),
        breaks: Seq::empty(),
        colors: u.colors,
    }
}

/// The difficulty, once all four settings are set.
pub open spec fn difficulty_of(d: DifficultyFields) -> Result<Difficulty, Failure> {
    if d.circle_size is None {
        Err(missing("circle_size", "difficulty"))
    } else if d.hpdrain_rate is None {
        Err(missing("hpdrain_rate", "difficulty"))
    } else if d.overall_difficulty is None {
        Err(missing("overall_difficulty", "difficulty"))
    } else if d.approach_rate is None {
        Err(missing("approach_rate", "difficulty"))
    } else {
        Ok(
            Difficulty {
                circle_size: d.circle_size->Some_0,
                hpdrain_rate: d.hpdrain_rate->Some_0,
                overall_difficulty: d.overall_difficulty->Some_0,
                approach_rate: d.approach_rate->Some_0,
            },
        )
    }
}

/// The file data, once format and audio file are set; lead-in and countdown offset
/// default to 0 and preview time to -1.
pub open spec fn filedata_of(f: FiledataFieldsView) -> Result<FiledataView, Failure> {
    if f.file_format is None {
        Err(missing("file_format", "filedata"))
    } else if f.audio_filename is None {
        Err(missing("audio_filename", "filedata"))
    } else {
        Ok(
            FiledataView {
                file_format: f.file_format->Some_0,
                audio_filename: f.audio_filename->Some_0,
                audio_lead_in: match f.audio_lead_in {
                    Some(v) => v,
                    None => 0,
                },
                audio_hash: f.audio_hash,
                preview_time: match f.preview_time {
                    Some(v) => v,
                    None => -1i64,
                },
                countdown_offset: match f.countdown_offset {
                    Some(v) => v,
                    None => 0,
                },
            },
        )
    }
}

/// The requested groups built from the gathered fields; the first missing field, in
/// the order chart, difficulty, file data, is the failure.
pub open spec fn assemble(p: ProgressView, w: Wanted) -> Result<Decoded, Failure> {
    let c = if w.chart {
        match chart_of(p.chart) {
            Ok(c) => Ok(Some(c)),
            Err(e) => Err(e),
        }
    } else {
        Ok(None)
    };
    let d = if w.difficulty {
        match difficulty_of(p.difficulty) {
            Ok(d) => Ok(Some(d)),
            Err(e) => Err(e),
        }
    } else {
        Ok(None)
    };
    let f = if w.filedata {
        match filedata_of(p.filedata) {
            Ok(f) => Ok(Some(f)),
            Err(e) => Err(e),
        }
    } else {
        Ok(None)
    };
    match (c, d, f) {
        (Err(e), _, _) => Err(e),
        (_, Err(e), _) => Err(e),
        (_, _, Err(e)) => Err(e),
        (Ok(c), Ok(d), Ok(f)) => Ok(
            Decoded {
                chart: c,
                customization: if w.customization {
                    Some(customization_of(p.customization))
                } else {
                    None
                },
                difficulty: d,
                editor: if w.editor {
                    Some(p.editor)
                } else {
                    None
                },
                filedata: f,
                metadata: if w.metadata {
                    Some(p.metadata)
                } else {
                    None
                },
            },
        ),
    }
}

/// What decoding the document `s` for the groups `w` gives.
pub open spec fn decode(s: Seq<char>, w: Wanted) -> Result<Decoded, Failure> {
    match run(doc_lines(s), w) {
        Ok(p) => assemble(p, w),
        Err((line, section)) => Err(Failure::Line(line, section)),
    }
}

pub open spec fn opt_chart(o: Option<Chart>) -> Option<ChartView> {
    match o {
        Some(c) => Some(c@),
        None => None,
    }
}

pub open spec fn opt_customization(o: Option<Customization>) -> Option<CustomizationView> {
    match o {
        Some(c) => Some(c@),
        None => None,
    }
}

pub open spec fn opt_editor(o: Option<Editor>) -> Option<EditorView> {
    match o {
        Some(e) => Some(e@),
        None => None,
    }
}

pub open spec fn opt_filedata(o: Option<Filedata>) -> Option<FiledataView> {
    match o {
        Some(f) => Some(f@),
        None => None,
    }
}

pub open spec fn opt_metadata(o: Option<Metadata>) -> Option<MetadataView> {
    match o {
        Some(m) => Some(m@),
        None => None,
    }
}

/// The groups that `parse_str` returns.
pub type Groups = (
    Option<Chart>,
    Option<Customization>,
    Option<Difficulty>,
    Option<Editor>,
    Option<Filedata>,
    Option<Metadata>,
);

pub open spec fn groups_view(g: Groups) -> Decoded {
    Decoded {
        chart: opt_chart(g.0),
        customization: opt_customization(g.1),
        difficulty: g.2,
        editor: opt_editor(g.3),
        filedata: opt_filedata(g.4),
        metadata: opt_metadata(g.5),
    }
}

/// `r` is what the outcome `d` of decoding says: the groups, or the error.
pub open spec fn reports(d: Result<Decoded, Failure>, r: Result<Groups, ParseError>) -> bool {
    match r {
        Ok(g) => d == Ok::<Decoded, Failure>(groups_view(g)),
        Err(ParseError::InvalidLine { line, section }) => d == Err::<Decoded, Failure>(
            Failure::Line(line@, section@),
        ),
        Err(ParseError::MissingField { field, collection }) => d == Err::<Decoded, Failure>(
            Failure::Missing(field@, collection@),
        ),
        Err(_) => false,
    }
}

/// The document's lines, trimmed, without the blank ones.
pub fn document_lines(s: &str) -> (r: Vec<Vec<char>>)
    ensures
        views(r@) == doc_lines(s@),
{
    let c = chars_of(s);
    let pieces = split_trimmed(c.as_slice(), '\n');
    let ghost g = views(pieces@);
    let mut out: Vec<Vec<char>> = Vec::new();
    let mut i: usize = 0;
    assert(g.take(0) =~= Seq::<Seq<char>>::empty());
    while i < pieces.len()
        invariant
            i <= pieces@.len(),
            g == views(pieces@),
            views(out@) == nonblank(g.take(i as int)),
        decreases pieces@.len() - i,
    {
        assert(g.take(i + 1).drop_last() =~= g.take(i as int));
        assert(g.take(i + 1).last() == pieces@[i as int]@);
        if pieces[i].len() > 0 {
            let ghost before = out@;
            let piece = pieces[i].clone();
            assert(piece@ == pieces@[i as int]@);
            out.push(piece);
            assert(views(out@) =~= views(before).push(piece@));
        }
        i = i + 1;
    }
    assert(g.take(i as int) =~= g);
    out
}

/// Once a prefix of the lines fails, the whole pass fails the same way.
proof fn lemma_run_fails(lines: Seq<Seq<char>>, i: int, w: Wanted)
    requires
        0 <= i <= lines.len(),
        run(lines.take(i), w) is Err,
    ensures
        run(lines, w) == run(lines.take(i), w),
    decreases lines.len() - i,
{
    if i < lines.len() {
        assert(lines.take(i + 1).drop_last() =~= lines.take(i));
        lemma_run_fails(lines, i + 1, w);
    } else {
        assert(lines.take(i) =~= lines);
    }
}

fn missing_field(field: &str, collection: &str) -> (e: ParseError)
    ensures
        e matches ParseError::MissingField { field: f, collection: c } && f@ == field@ && c@
            == collection@,
{
    ParseError::MissingField { field: field.to_owned(), collection: collection.to_owned() }
}

fn chart_group(cf: ChartFields) -> (r: Result<Chart, ParseError>)
    ensures
        match chart_of(cf@) {
            Ok(c) => r is Ok && r->Ok_0@ == c,
            Err(Failure::Missing(f, c)) => r matches Err(
                ParseError::MissingField { field, collection },
            ) && field@ == f && collection@ == c,
            Err(Failure::Line(..)) => false,
        },
{
    let mode = match cf.mode {
        Some(v) => v,
        None => return Err(missing_field("mode", "chart")),
    };
    let stack_leniency = match cf.stack_leniency {
        Some(v) => v,
        None => return Err(missing_field("stack_leniency", "chart")),
    };
    let slider_multiplier = match cf.slider_multiplier {
        Some(v) => v,
        None => return Err(missing_field("slider_multiplier", "chart")),
    };
    let slider_tick_rate = match cf.slider_tick_rate {
        Some(v) => v,
        None => return Err(missing_field("slider_tick_rate", "chart")),
    };
    Ok(
        Chart {
            mode,
            stack_leniency,
            slider_multiplier,
            slider_tick_rate,
            timing_points: cf.timing_points,
            hit_objects: cf.hit_objects,
        },
    )
}

fn difficulty_group(df: DifficultyFields) -> (r: Result<Difficulty, ParseError>)
    ensures
        match difficulty_of(df) {
            Ok(d) => r == Ok::<Difficulty, ParseError>(d),
            Err(Failure::Missing(f, c)) => r matches Err(
                ParseError::MissingField { field, collection },
            ) && field@ == f && collection@ == c,
            Err(Failure::Line(..)) => false,
        },
{
    let circle_size = match df.circle_size {
        Some(v) => v,
        None => return Err(missing_field("circle_size", "difficulty")),
    };
    let hpdrain_rate = match df.hpdrain_rate {
        Some(v) => v,
        None => return Err(missing_field("hpdrain_rate", "difficulty")),
    };
    let overall_difficulty = match df.overall_difficulty {
        Some(v) => v,
        None => return Err(missing_field("overall_difficulty", "difficulty")),
    };
    let approach_rate = match df.approach_rate {
        Some(v) => v,
        None => return Err(missing_field("approach_rate", "difficulty")),
    };
    Ok(Difficulty { circle_size, hpdrain_rate, overall_difficulty, approach_rate })
}

fn filedata_group(ff: FiledataFields) -> (r: Result<Filedata, ParseError>)
    ensures
        match filedata_of(ff@) {
            Ok(f) => r is Ok && r->Ok_0@ == f,
            Err(Failure::Missing(f, c)) => r matches Err(
                ParseError::MissingField { field, collection },
            ) && field@ == f && collection@ == c,
            Err(Failure::Line(..)) => false,
        },
{
    let file_format = match ff.file_format {
        Some(v) => v,
        None => return Err(missing_field("file_format", "filedata")),
    };
    let audio_filename = match ff.audio_filename {
        Some(v) => v,
        None => return Err(missing_field("audio_filename", "filedata")),
    };
    Ok(
        Filedata {
            file_format,
            audio_filename,
            audio_lead_in: match ff.audio_lead_in {
                Some(v) => v,
                None => 0,
            },
            audio_hash: ff.audio_hash,
            preview_time: match ff.preview_time {
                Some(v) => v,
                None => -1,
            },
            countdown_offset: match ff.countdown_offset {
                Some(v) => v,
                None => 0,
            },
        },
    )
}

fn customization_group(uf: CustomizationFields) -> (c: Customization)
    ensures
        c@ == customization_of(uf@),
{
    let c = Customization {
        sample_set: match uf.sample_set {
            Some(v) => v,
            None => SampleSet::Normal,
        },
        letterbox_in_breaks: match uf.letterbox_in_breaks {
            Some(v) => v,
            None => false,
        },
        story_fire_in_front: match uf.story_fire_in_front {
            Some(v) => v,
            None => true,
        },
        use_skin_sprites: match uf.use_skin_sprites {
            Some(v) => v,
            None => false,
        },
        always_show_play_field: match uf.always_show_play_field {
            Some(v) => v,
            None => false,
        },
        overlay_position: match uf.overlay_position {
            Some(v) => v,
            None => OverlayPosition::NoChange,
        },
        skin_preference: uf.skin_preference,
        epilepsy_warning: match uf.epilepsy_warning {
            Some(v) => v,
            None => false,
        },
        countdown: match uf.countdown {
            Some(v) => v,
            None => Countdown::Normal,
        },
        special_style: match uf.special_style {
            Some(v) => v,
            None => false,
        },
        widescreen_storyboard: match uf.widescreen_storyboard {
            Some(v) => v,
            None => false,
        },
        samples_match_playback_rate: match uf.samples_match_playback_rate {
            Some(v) => v,
            None => false,
        },
        backgrounds: Vec::new(),
        breaks: Vec::new(),
        colors: uf.colors,
    };
    assert(c@.backgrounds =~= Seq::empty());
    assert(c@.breaks =~= Seq::empty());
    c
}

/// The requested groups built from the gathered fields.
fn assemble_groups(p: Progress, w: Wanted) -> (r: Result<Groups, ParseError>)
    ensures
        match assemble(p@, w) {
            Ok(d) => r is Ok && groups_view(r->Ok_0) == d,
            Err(Failure::Missing(f, c)) => r matches Err(
                ParseError::MissingField { field, collection },
            ) && field@ == f && collection@ == c,
            Err(Failure::Line(..)) => false,
        },
{
    let Progress {
        section: _,
        chart: cf,
        customization: uf,
        difficulty: df,
        editor,
        filedata: ff,
        metadata,
    } = p;
    let chart = if w.chart {
        match chart_group(cf) {
            Ok(c) => Some(c),
            Err(e) => return Err(e),
        }
    } else {
        None
    };
    let difficulty = if w.difficulty {
        match difficulty_group(df) {
            Ok(d) => Some(d),
            Err(e) => return Err(e),
        }
    } else {
        None
    };
    let filedata = if w.filedata {
        match filedata_group(ff) {
            Ok(f) => Some(f),
            Err(e) => return Err(e),
        }
    } else {
        None
    };
    let customization = if w.customization {
        Some(customization_group(uf))
    } else {
        None
    };
    let editor = if w.editor {
        Some(editor)
    } else {
        None
    };
    let metadata = if w.metadata {
        Some(metadata)
    } else {
        None
    };
    Ok((chart, customization, difficulty, editor, filedata, metadata))
}

/// Decodes a document, producing only the groups whose flag is set.
///
/// The lines are trimmed and blank ones dropped; headers move the section state
/// forward only; each other line is read in its section, or skipped where no requested
/// group needs that section. The first invalid line is an `InvalidLine` naming it and
/// its section; a requested group's unset required field is a `MissingField`.
pub fn parse_str(
    s: &str,
    chart: bool,
    customization: bool,
    difficulty: bool,
    editor: bool,
    filedata: bool,
    metadata: bool,
) -> (r: Result<Groups, ParseError>)
    ensures
        reports(decode(s@, Wanted { chart, customization, difficulty, editor, filedata, metadata }), r),
{
    let w = Wanted { chart, customization, difficulty, editor, filedata, metadata };
    let lines = document_lines(s);
    let ghost g = views(lines@);
    let mut p = Progress::new();
    let mut i: usize = 0;
    assert(g.take(0) =~= Seq::<Seq<char>>::empty());
    while i < lines.len()
        invariant
            i <= lines@.len(),
            g == views(lines@),
            g == doc_lines(s@),
            w == (Wanted { chart, customization, difficulty, editor, filedata, metadata }),
            run(g.take(i as int), w) == Ok::<ProgressView, (Seq<char>, Seq<char>)>(p@),
        decreases lines@.len() - i,
    {
        assert(g.take(i + 1).drop_last() =~= g.take(i as int));
        assert(g.take(i + 1).last() == lines@[i as int]@);
        let ghost p_before = p@;
        match p.advance(lines[i].as_slice(), w) {
            Ok(()) => {},
            Err(e) => {
                proof {
                    let prev = run(g.take(i as int), w);
                    assert(run(g.take(i + 1), w) == step(p_before, lines@[i as int]@, w));
                    assert(run(g.take(i + 1), w) is Err);
                    lemma_run_fails(g, i + 1, w);
                    assert(decode(s@, w) == Err::<Decoded, Failure>(
                        Failure::Line(step(p_before, lines@[i as int]@, w)->Err_0.0,
                        step(p_before, lines@[i as int]@, w)->Err_0.1)));
                    match &e {
                        ParseError::InvalidLine { line, section } => {
                            assert(line@ == step(p_before, lines@[i as int]@, w)->Err_0.0);
                            assert(section@ == step(p_before, lines@[i as int]@, w)->Err_0.1);
                        },
                        _ => {
                            assert(false);
                        },
                    }
                    assert(reports(decode(s@, w), Err(e)));
                }
                return Err(e);
            },
        }
        i = i + 1;
    }
    assert(g.take(i as int) =~= g);
    assemble_groups(p, w)
}

/// The request for the metadata alone.
pub open spec fn metadata_only() -> Wanted {
    Wanted {
        chart: false,
        customization: false,
        difficulty: false,
        editor: false,
        filedata: false,
        metadata: true,
    }
}

/// Asking for the metadata alone, only a line read in `[Metadata]` can make the pass
/// fail: every other section, `[HitObjects]` included, is skipped however malformed
/// its lines are.
proof fn lemma_metadata_only_run(lines: Seq<Seq<char>>)
    ensures
        match run(lines, metadata_only()) {
            Ok(_) => true,
            Err((_, section)) => section == "[Metadata]"@,
        },
    decreases lines.len(),
{
    if lines.len() > 0 {
        lemma_metadata_only_run(lines.drop_last());
    }
}

/// Asking for the metadata alone, decoding a document either gives the metadata and
/// nothing else, or fails on an invalid line of `[Metadata]`.
pub proof fn lemma_metadata_only(s: Seq<char>)
    ensures
        match decode(s, metadata_only()) {
            Ok(d) => d.metadata is Some && d.chart is None && d.customization is None
                && d.difficulty is None && d.editor is None && d.filedata is None,
            Err(Failure::Line(_, section)) => section == "[Metadata]"@,
            Err(Failure::Missing(..)) => false,
        },
{
    lemma_metadata_only_run(doc_lines(s));
}

/// No line opens `[TimingPoints]`.
pub open spec fn no_timing_header(lines: Seq<Seq<char>>) -> bool {
    forall|i: int| 0 <= i < lines.len() ==> ascii_only(#[trigger] lines[i]) != "[TimingPoints]"@
}

proof fn lemma_no_timing_run(lines: Seq<Seq<char>>, w: Wanted)
    requires
        no_timing_header(lines),
    ensures
        run(lines, w) matches Ok(p) ==> p.section != TIMING_POINTS && p.chart.timing_points.len()
            == 0,
    decreases lines.len(),
{
    if lines.len() > 0 {
        let prev = lines.drop_last();
        assert(no_timing_header(prev)) by {
            assert forall|i: int| 0 <= i < prev.len() implies ascii_only(#[trigger] prev[i])
                != "[TimingPoints]"@ by {
                assert(prev[i] == lines[i]);
            }
        }
        lemma_no_timing_run(prev, w);
        assert(ascii_only(lines[lines.len() - 1]) != "[TimingPoints]"@);
    }
}

/// A document in which no line opens `[TimingPoints]` (for instance one that goes from
/// `[General]` straight to `[HitObjects]`) decodes, when it decodes, to a chart
/// without timing points: the absent section is no error.
pub proof fn lemma_skipped_timing_points(s: Seq<char>, w: Wanted)
    requires
        no_timing_header(doc_lines(s)),
    ensures
        decode(s, w) matches Ok(d) ==> (d.chart matches Some(c) ==> c.timing_points.len() == 0),
{
    lemma_no_timing_run(doc_lines(s), w);
}

} // verus!
