use beatmap::{
    Circle, CurveType, HitObject, HitSound, ManiaHold, ParseError, SampleSet, Slider, Spinner,
    TimingPoint,
};

#[test]
fn timing_point_two_fields() {
    let t = TimingPoint::from_str("5000,500.0").unwrap();
    assert_eq!(t.time, 5000);
    assert_eq!(t.beat_length.parse::<f64>().unwrap(), 500.0);
    assert_eq!(t.meter, 4);
    assert_eq!(t.sample_set, SampleSet::Default);
    assert_eq!(t.sample_index, 0);
    assert_eq!(t.volume, 100);
    assert!(t.uninherited);
    assert!(!t.effects.kiai);
    assert!(!t.effects.ommit_barline);
}

#[test]
fn timing_point_eight_fields() {
    let t = TimingPoint::from_str("5000,500.0,3,2,1,80,0,5").unwrap();
    assert_eq!(t.time, 5000);
    assert_eq!(t.beat_length.parse::<f64>().unwrap(), 500.0);
    assert_eq!(t.meter, 3);
    assert_eq!(t.sample_set, SampleSet::Soft);
    assert_eq!(t.sample_index, 1);
    assert_eq!(t.volume, 80);
    assert!(!t.uninherited);
    assert!(t.effects.kiai);
    assert!(t.effects.ommit_barline);
}

#[test]
fn timing_point_six_and_seven_fields() {
    let t = TimingPoint::from_str("-20, -50.5 ,4,1,0,60").unwrap();
    assert_eq!(t.time, -20);
    assert_eq!(t.beat_length, "-50.5");
    assert_eq!(t.sample_set, SampleSet::Normal);
    assert_eq!(t.volume, 60);
    assert!(t.uninherited);
    let t = TimingPoint::from_str("0,1.5E+2,4,0,0,100,1").unwrap();
    assert!(t.uninherited);
    assert_eq!(t.beat_length.parse::<f64>().unwrap(), 150.0);
}

#[test]
fn timing_point_wrong_arity_is_invalid_line() {
    for s in ["5000,500.0,4", "5000,500.0,4,0", "5000", "1,2,3,4,5,6,7,8,9"] {
        match TimingPoint::from_str(s) {
            Err(ParseError::InvalidLine { line, section }) => {
                assert_eq!(line, s);
                assert_eq!(section, "[TimingPoints]");
            }
            other => panic!("{:?}", other),
        }
    }
}

#[test]
fn timing_point_bad_field() {
    assert!(TimingPoint::from_str("x,500").is_err());
    assert!(TimingPoint::from_str("0,fast").is_err());
    assert!(TimingPoint::from_str("0,500,4,0,0,100,1,2").is_err());
}

#[test]
fn slider_three_trailing_fields() {
    let s = Slider::from_str("256,192,1000,2,0,L|300:192,1,100.0").unwrap();
    assert_eq!((s.x, s.y, s.time), (256, 192, 1000));
    assert_eq!(s.curve._type, CurveType::Linear);
    assert_eq!(s.curve.points, vec![(300, 192)]);
    assert_eq!(s.slides, 1);
    assert_eq!(s.length.parse::<f64>().unwrap(), 100.0);
    assert_eq!(s.edge_sounds.len(), 2);
    assert_eq!(s.edge_sounds[0], HitSound { normal: false, whistle: false, finish: false, clap: false });
    assert_eq!(s.edge_sounds[1], HitSound { normal: false, whistle: true, finish: false, clap: false });
    assert_eq!(s.edge_sets, vec![(SampleSet::Default, SampleSet::Default); 2]);
    assert_eq!(s.hit_sample.volume, 100);
    assert_eq!(s.hit_sample.normal_set, SampleSet::Default);
    assert_eq!(s.hit_sample.index, 0);
    assert_eq!(s.hit_sample.filename, None);
}

#[test]
fn slider_full() {
    let s = Slider::from_str("10,20,30,6,2,B|1:1|2:2,2,50,2|8|0,0:0|1:2|3:3,0:0:0:0:").unwrap();
    assert_eq!(s.edge_sounds.len(), 3);
    assert!(s.edge_sounds[1].clap);
    assert_eq!(s.edge_sets[1], (SampleSet::Normal, SampleSet::Soft));
    assert!(s.flags.new_combo);
    assert!(s.hit_sound.whistle);
    assert!(Slider::from_str("10,20,30,2,0,B|1:1,2,50,2,0:0").is_err());
    assert!(Slider::from_str("10,20,30,2,0,B|1:1,2").is_err());
}

#[test]
fn circle_spinner_hold() {
    let c = Circle::from_str("64,128,500,1,0").unwrap();
    assert_eq!((c.x, c.y, c.time), (64, 128, 500));
    let c = Circle::from_str("64,128,500,5,8,1:2:0:70:").unwrap();
    assert!(c.hit_sound.clap);
    assert_eq!(c.hit_sample.volume, 70);
    assert!(Circle::from_str("64,128,500,2,0").is_err());
    let s = Spinner::from_str("256,192,700,8,0,3000").unwrap();
    assert_eq!(s.end_time, 3000);
    let s = Spinner::from_str("256,192,700,12,0,3000,0:0:0:0:").unwrap();
    assert_eq!(s.end_time, 3000);
    let h = ManiaHold::from_str("64,192,100,128,0,900:0:0:0:0:").unwrap();
    assert_eq!(h.end_time, 900);
    assert!(ManiaHold::from_str("64,192,100,128,0,900").is_err());
}

#[test]
fn hit_object_dispatch() {
    assert!(matches!(HitObject::from_str("1,2,3,1,0"), Ok(HitObject::Circle(_))));
    assert!(matches!(HitObject::from_str("1,2,3,8,0,9"), Ok(HitObject::Spinner(_))));
    match HitObject::from_str("1,2,3,3,0") {
        Err(ParseError::InvalidLine { section, .. }) => assert_eq!(section, "[HitObjects]"),
        other => panic!("{:?}", other),
    }
    assert!(HitObject::from_str("1,2,3,1").is_err());
}

#[test]
fn timing_point_default_record() {
    let t = TimingPoint::default();
    assert_eq!(t.time, 0);
    assert_eq!(t.beat_length, "0");
    assert_eq!(t.meter, 4);
    assert_eq!(t.sample_set, SampleSet::Default);
    assert_eq!(t.volume, 100);
    assert!(t.uninherited);
}

#[test]
fn hit_sample_default_record() {
    let h = beatmap::HitSample::default();
    assert_eq!(h.normal_set, SampleSet::Default);
    assert_eq!(h.index, 0);
    assert_eq!(h.volume, 100);
    assert_eq!(h.filename, None);
}
