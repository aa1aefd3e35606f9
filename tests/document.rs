use beatmap::{parse_str, Countdown, Mode, ParseError, SampleSet};

const FULL: &str = "osu file format v14

[General]
AudioFilename: audio.mp3
AudioLeadIn: 0
PreviewTime: 1200
Countdown: 0
SampleSet: Soft
Mode: 0
LetterboxInBreaks: true
UnknownKey: whatever

[Editor]
Bookmarks: 100,200
DistanceSpacing: 1.2
BeatDivisor: 4
GridSize: 32
TimelineZoom: 2.5

[Metadata]
Title:Song
TitleUnicode:Song
Artist:Someone
Creator:Mapper
Version:Hard
Tags:one,two
BeatmapID:42
BeatmapSetID:7

[Difficulty]
HPDrainRate:5
CircleSize:4.2
OverallDifficulty:8
ApproachRate:9.5
SliderMultiplier:1.4
SliderTickRate:1

[Events]
0,0,\"bg.jpg\",0,0

[TimingPoints]
5000,500.0,4,2,0,80,1,0
6000,-50,4,2,0,80,0,1

[Colours]
Combo1 : 255,128,0
Combo2 : 0,0,255

[HitObjects]
256,192,5000,1,0,0:0:0:0:
256,192,5500,2,0,L|300:192,1,100.0
256,192,6000,12,0,8000
";

const CHART_HEAD: &str = "[General]\nMode: 1\n[Difficulty]\nStackLeniency: 0.7\nSliderMultiplier: 1.4\nSliderTickRate: 1\n";

#[test]
fn full_document_all_groups_but_customization() {
    let doc = FULL.replace("SliderTickRate:1", "SliderTickRate:1\nStackLeniency: 0.7");
    let (chart, customization, difficulty, editor, filedata, metadata) =
        parse_str(&doc, true, false, true, true, true, true).unwrap();
    assert!(customization.is_none());
    let chart = chart.unwrap();
    assert_eq!(chart.mode, Mode::Osu);
    assert_eq!((chart.slider_multiplier.numer(), chart.slider_multiplier.denom()), (7, 5));
    assert_eq!((chart.slider_tick_rate.numer(), chart.slider_tick_rate.denom()), (1, 1));
    assert_eq!((chart.stack_leniency.numer(), chart.stack_leniency.denom()), (7, 10));
    assert_eq!(chart.timing_points.len(), 2);
    assert!(chart.timing_points[1].effects.kiai);
    assert!(!chart.timing_points[1].uninherited);
    assert_eq!(chart.hit_objects.len(), 3);
    let d = difficulty.unwrap();
    assert_eq!((d.circle_size, d.hpdrain_rate, d.overall_difficulty, d.approach_rate), (42, 50, 80, 95));
    let e = editor.unwrap();
    assert_eq!(e.bookmarks, vec![100, 200]);
    assert_eq!(e.beat_divisor, Some(4));
    assert_eq!(e.timeline_zoom.map(|q| (q.numer(), q.denom())), Some((5, 2)));
    let f = filedata.unwrap();
    assert_eq!(f.file_format, 14);
    assert_eq!(f.audio_filename, "audio.mp3");
    assert_eq!(f.preview_time, 1200);
    assert_eq!(f.countdown_offset, 0);
    let m = metadata.unwrap();
    assert_eq!(m.title.as_deref(), Some("Song"));
    assert_eq!(m.tags, vec!["one".to_string(), "two".to_string()]);
    assert_eq!(m.beatmap_id, Some(42));
}

#[test]
fn stack_leniency_missing_is_missing_field() {
    match parse_str(FULL, true, false, false, false, false, false) {
        Err(ParseError::MissingField { field, collection }) => {
            assert_eq!(field, "stack_leniency");
            assert_eq!(collection, "chart");
        }
        other => panic!("{:?}", other.err()),
    }
}

#[test]
fn events_fail_when_customization_is_requested() {
    match parse_str(FULL, false, true, false, false, false, false) {
        Err(ParseError::InvalidLine { line, section }) => {
            assert_eq!(section, "[Events]");
            assert_eq!(line, "0,0,\"bg.jpg\",0,0");
        }
        other => panic!("{:?}", other.err()),
    }
}

#[test]
fn customization_without_events() {
    let doc = "[General]\nSampleSet: Drum\nCountdown: 2\n[Colours]\nCombo1 : 1,2,3\n";
    let (_, c, _, _, _, _) = parse_str(doc, false, true, false, false, false, false).unwrap();
    let c = c.unwrap();
    assert_eq!(c.sample_set, SampleSet::Drum);
    assert_eq!(c.countdown, Countdown::Half);
    assert!(c.story_fire_in_front);
    assert_eq!(c.colors.len(), 1);
    assert_eq!(c.colors[0].rgb(), (1, 2, 3));
}

#[test]
fn timing_point_with_three_fields_is_invalid_line() {
    let doc = format!("{}[TimingPoints]\n0,500,4\n", CHART_HEAD);
    match parse_str(&doc, true, false, false, false, false, false) {
        Err(ParseError::InvalidLine { line, section }) => {
            assert_eq!(line, "0,500,4");
            assert_eq!(section, "[TimingPoints]");
        }
        other => panic!("{:?}", other.err()),
    }
    let doc = format!("{}[TimingPoints]\n0,500,4,1\n", CHART_HEAD);
    assert!(matches!(
        parse_str(&doc, true, false, false, false, false, false),
        Err(ParseError::InvalidLine { .. })
    ));
}

#[test]
fn hit_objects_header_ends_timing_points() {
    let doc = format!("{}[HitObjects]\n256,192,100,1,0\n", CHART_HEAD);
    let (chart, ..) = parse_str(&doc, true, false, false, false, false, false).unwrap();
    let chart = chart.unwrap();
    assert_eq!(chart.mode, Mode::Taiko);
    assert!(chart.timing_points.is_empty());
    assert_eq!(chart.hit_objects.len(), 1);
}

#[test]
fn timing_points_header_after_hit_objects_is_no_header() {
    let doc = format!("{}[HitObjects]\n[TimingPoints]\n0,500\n", CHART_HEAD);
    match parse_str(&doc, true, false, false, false, false, false) {
        Err(ParseError::InvalidLine { line, section }) => {
            assert_eq!(line, "[TimingPoints]");
            assert_eq!(section, "[HitObjects]");
        }
        other => panic!("{:?}", other.err()),
    }
    let (chart, ..) = parse_str(&doc, false, false, false, false, false, false).unwrap();
    assert!(chart.is_none());
}

#[test]
fn metadata_only_skips_malformed_hit_objects() {
    let doc = "[Metadata]\nTitle: A\n[HitObjects]\nthis is not a hit object\n1,2\n";
    let (chart, customization, difficulty, editor, filedata, metadata) =
        parse_str(doc, false, false, false, false, false, true).unwrap();
    assert!(chart.is_none() && customization.is_none() && difficulty.is_none());
    assert!(editor.is_none() && filedata.is_none());
    assert_eq!(metadata.unwrap().title.as_deref(), Some("A"));
}

#[test]
fn blank_and_padded_lines_are_trimmed() {
    let doc = "\r\n  [Metadata]  \r\n\r\n   Artist :  X Y \r\n";
    let (.., metadata) = parse_str(doc, false, false, false, false, false, true).unwrap();
    assert_eq!(metadata.unwrap().artist.as_deref(), Some("X Y"));
}

#[test]
fn header_with_non_ascii_noise_is_recognised() {
    let doc = "\u{feff}[Metadata]\nCreator: me\n";
    let (.., metadata) = parse_str(doc, false, false, false, false, false, true).unwrap();
    assert_eq!(metadata.unwrap().creator.as_deref(), Some("me"));
}

#[test]
fn invalid_value_is_invalid_line() {
    let doc = "[General]\nMode: 9\n";
    match parse_str(doc, true, false, false, false, false, false) {
        Err(ParseError::InvalidLine { line, section }) => {
            assert_eq!(line, "Mode: 9");
            assert_eq!(section, "[General]");
        }
        other => panic!("{:?}", other.err()),
    }
    let doc = "[General]\nno colon here\n";
    assert!(parse_str(doc, true, false, false, false, false, false).is_err());
    assert!(parse_str(doc, false, false, false, false, false, true).is_ok());
}

#[test]
fn missing_difficulty_and_filedata_fields() {
    let doc = "[Difficulty]\nCircleSize: 4\n";
    match parse_str(doc, false, false, true, false, false, false) {
        Err(ParseError::MissingField { field, collection }) => {
            assert_eq!(field, "hpdrain_rate");
            assert_eq!(collection, "difficulty");
        }
        other => panic!("{:?}", other.err()),
    }
    let doc = "osu file format v9\n[General]\n";
    match parse_str(doc, false, false, false, false, true, false) {
        Err(ParseError::MissingField { field, .. }) => assert_eq!(field, "audio_filename"),
        other => panic!("{:?}", other.err()),
    }
}

#[test]
fn preamble_without_version_fails_when_filedata_is_requested() {
    let doc = "hello\n[General]\nAudioFilename: a.mp3\n";
    match parse_str(doc, false, false, false, false, true, false) {
        Err(ParseError::InvalidLine { section, .. }) => assert_eq!(section, "[Preamble]"),
        other => panic!("{:?}", other.err()),
    }
    assert!(parse_str(doc, false, false, false, false, false, false).is_ok());
}

#[test]
fn colours_lines_in_order() {
    let out = beatmap::colours::parse(vec!["Combo1 : 1,2,3", "Combo2: 4,5,6"]).unwrap();
    assert_eq!(out.len(), 2);
    let beatmap::colours::Returns::Color(c) = out[1];
    assert_eq!(c.rgb(), (4, 5, 6));
    match beatmap::colours::parse(vec!["Combo1 : 1,2,3", "bad", "Combo3 : 1,2", "worse"]) {
        Err(errs) => {
            assert_eq!(errs.len(), 3);
            let lines: Vec<&str> = errs
                .iter()
                .map(|e| match e {
                    ParseError::InvalidLine { line, section } => {
                        assert_eq!(section, "[Colours]");
                        line.as_str()
                    }
                    other => panic!("{:?}", other),
                })
                .collect();
            assert_eq!(lines, vec!["bad", "Combo3 : 1,2", "worse"]);
        }
        other => panic!("{:?}", other),
    }
    assert!(beatmap::colours::parse(vec!["Combo1 : 1, 2, 3"]).is_err());
}

#[test]
fn unicode_white_space_is_trimmed() {
    let doc = "[Metadata]\nSource:\u{a0}Game\u{3000}\nVersion:\u{2003}\n";
    let (.., metadata) = parse_str(doc, false, false, false, false, false, true).unwrap();
    let m = metadata.unwrap();
    assert_eq!(m.source.as_deref(), Some("Game"));
    assert_eq!(m.version.as_deref(), Some(""));
}
