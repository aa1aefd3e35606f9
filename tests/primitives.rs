use beatmap::{
    from_str_one_decimal, from_str_ratio, Background, Break, Color, Countdown, Curve, CurveType,
    Effects, HalfHitSample, HitSample, HitSound, ObjectType, OverlayPosition, ParseError,
    SampleSet, Type,
};

fn ratio(s: &str) -> (i64, i64) {
    let q = from_str_ratio(s).unwrap();
    (q.numer(), q.denom())
}

#[test]
fn ratio_of_decimals_is_exact() {
    assert_eq!(ratio("1.5"), (3, 2));
    assert_eq!(ratio("3"), (3, 1));
    assert_eq!(ratio(""), (0, 1));
    assert_eq!(ratio(".25"), (1, 4));
    assert_eq!(ratio("0.7"), (7, 10));
    assert_eq!(ratio("1.40"), (7, 5));
    assert_eq!(ratio("5."), (5, 1));
    assert_eq!(ratio("-1.5"), (-3, 2));
    assert_eq!(ratio("0.000001"), (1, 1000000));
}

#[test]
fn ratio_is_reduced_to_lowest_terms() {
    assert_eq!(ratio("0.50"), (1, 2));
    assert_eq!(ratio("12.5"), (25, 2));
    assert_eq!(ratio("10"), (10, 1));
}

#[test]
fn ratio_rejects_malformed_text() {
    for s in ["abc", "1.2.3", "1.-5", "1,5", "-", "1.5e3"] {
        match from_str_ratio(s) {
            Err(ParseError::InvalidToken { token, .. }) => assert_eq!(token, s),
            other => panic!("unexpected {:?} for {}", other, s),
        }
    }
}

#[test]
fn ratio_overflow_is_unknown() {
    assert!(matches!(from_str_ratio("1.0000000000000000000"), Err(ParseError::Unknown(_))));
    assert!(matches!(from_str_ratio("99999999999999999999"), Err(ParseError::Unknown(_))));
    assert!(matches!(from_str_ratio("922337203685477580.8"), Err(ParseError::Unknown(_))));
}

#[test]
fn one_decimal_values() {
    assert_eq!(from_str_one_decimal("5.5").unwrap(), 55);
    assert_eq!(from_str_one_decimal("7").unwrap(), 70);
    assert_eq!(from_str_one_decimal(".5").unwrap(), 5);
    assert_eq!(from_str_one_decimal("5.").unwrap(), 50);
    assert_eq!(from_str_one_decimal(".").unwrap(), 0);
    assert_eq!(from_str_one_decimal("10").unwrap(), 100);
    assert_eq!(from_str_one_decimal("25.5").unwrap(), 255);
}

#[test]
fn one_decimal_rejects() {
    for s in ["5.55", "9.55", "1.2.3", "26", "25.6", "", "a", "-1", "1.x", "+5", "+.5", "1.+"] {
        assert!(
            matches!(from_str_one_decimal(s), Err(ParseError::InvalidToken { .. })),
            "{}",
            s
        );
    }
}

#[test]
fn type_byte_kinds() {
    let t = Type::from_byte(1).unwrap();
    assert_eq!(t.object_type, ObjectType::Circle);
    assert!(!t.new_combo);
    assert_eq!(t.color_skip, 0);
    assert_eq!(Type::from_byte(2).unwrap().object_type, ObjectType::Slider);
    assert_eq!(Type::from_byte(8).unwrap().object_type, ObjectType::Spinner);
    assert_eq!(Type::from_byte(128).unwrap().object_type, ObjectType::ManiaHold);
    let t = Type::from_byte(2 | 4 | 0x50).unwrap();
    assert_eq!(t.object_type, ObjectType::Slider);
    assert!(t.new_combo);
    assert_eq!(t.color_skip, 5);
}

#[test]
fn type_byte_accepts_exactly_one_kind_bit() {
    for b in 0..=255u8 {
        let kind = b & 0x8b;
        let ok = kind == 1 || kind == 2 || kind == 8 || kind == 128;
        match Type::from_byte(b) {
            Ok(t) => {
                assert!(ok, "{}", b);
                assert_eq!(t.new_combo, b & 4 != 0);
                let big_endian = 4 * ((b >> 4) & 1) + 2 * ((b >> 5) & 1) + ((b >> 6) & 1);
                assert_eq!(t.color_skip, big_endian);
            }
            Err(_) => assert!(!ok, "{}", b),
        }
    }
}

#[test]
fn type_from_text() {
    assert_eq!(Type::from_str("5").unwrap().object_type, ObjectType::Circle);
    assert!(Type::from_str("5").unwrap().new_combo);
    assert!(matches!(Type::from_str("3"), Err(ParseError::InvalidToken { .. })));
    assert!(matches!(Type::from_str("256"), Err(ParseError::InvalidToken { .. })));
    match Type::from_str("x") {
        Err(ParseError::InvalidToken { token, expected }) => {
            assert_eq!(token, "x");
            assert_eq!(expected, "u8");
        }
        other => panic!("{:?}", other),
    }
    match Type::from_str("3") {
        Err(ParseError::InvalidToken { expected, .. }) => assert_eq!(expected, "Type"),
        other => panic!("{:?}", other),
    }
    let t = Type::from_str("17").unwrap();
    assert_eq!(t.object_type, ObjectType::Circle);
    assert_eq!(t.color_skip, 4);
    assert_eq!(Type::from_str("65").unwrap().color_skip, 1);
    assert_eq!(Type::from_str("33").unwrap().color_skip, 2);
}

#[test]
fn hit_sound_bits_round_trip() {
    for b in 0..16u8 {
        let h = HitSound::from_byte(b).unwrap();
        assert_eq!(h.normal, b & 1 != 0);
        assert_eq!(h.whistle, b & 2 != 0);
        assert_eq!(h.finish, b & 4 != 0);
        assert_eq!(h.clap, b & 8 != 0);
        assert_eq!(h.bits(), b);
        assert_eq!(HitSound::from_byte(h.bits()).unwrap(), h);
    }
    assert!(HitSound::from_byte(16).is_err());
    assert!(HitSound::from_str("15").is_ok());
    assert!(HitSound::from_str("16").is_err());
    assert!(HitSound::from_str("-1").is_err());
}

#[test]
fn effects_accepts_exactly_four_values() {
    for b in 0..=255u8 {
        let ok = matches!(b, 0 | 1 | 4 | 5);
        match Effects::from_byte(b) {
            Ok(e) => {
                assert!(ok);
                assert_eq!(e.kiai, b & 1 != 0);
                assert_eq!(e.ommit_barline, b & 4 != 0);
            }
            Err(_) => assert!(!ok),
        }
    }
    assert_eq!(Effects::from_str("5").unwrap(), Effects { kiai: true, ommit_barline: true });
    assert!(Effects::from_str("2").is_err());
}

#[test]
fn token_enumerants() {
    assert_eq!(SampleSet::from_str("0").unwrap(), SampleSet::Default);
    assert_eq!(SampleSet::from_str("Soft").unwrap(), SampleSet::Soft);
    assert_eq!(SampleSet::from_str("3").unwrap(), SampleSet::Drum);
    assert!(SampleSet::from_str("4").is_err());
    assert_eq!(Countdown::from_str("0").unwrap(), Countdown::Disabled);
    assert_eq!(Countdown::from_str("3").unwrap(), Countdown::Double);
    assert!(Countdown::from_str("4").is_err());
    assert_eq!(OverlayPosition::from_str("Below").unwrap(), OverlayPosition::Below);
    assert!(OverlayPosition::from_str("below").is_err());
    assert_eq!(CurveType::from_str("P").unwrap(), CurveType::Perfect);
    assert_eq!(CurveType::from_str("C").unwrap(), CurveType::Centripetal);
    match CurveType::from_str("X") {
        Err(ParseError::InvalidToken { token, expected }) => {
            assert_eq!(token, "X");
            assert_eq!(expected, "CurveType");
        }
        other => panic!("{:?}", other),
    }
}

#[test]
fn hit_sample_full_and_short() {
    let h = HitSample::from_str("1:2:3:80:hit.wav").unwrap();
    assert_eq!(h.normal_set, SampleSet::Normal);
    assert_eq!(h.addition_set, SampleSet::Soft);
    assert_eq!(h.index, 3);
    assert_eq!(h.volume, 80);
    assert_eq!(h.filename.as_deref(), Some("hit.wav"));
    let h = HitSample::from_str("0:0").unwrap();
    assert_eq!(h.index, 0);
    assert_eq!(h.volume, 100);
    assert_eq!(h.filename, None);
    let h = HitSample::from_str("0:0:0:0:").unwrap();
    assert_eq!(h.volume, 0);
    assert_eq!(h.filename, None);
    assert!(HitSample::from_str("0").is_err());
    assert!(HitSample::from_str("0:9").is_err());
    let h = HitSample::from_str("0:0:0:100:a:b").unwrap();
    assert_eq!(h.filename.as_deref(), Some("a:b"));
    let h = HitSample::from_str("0:0:0:50: x.wav").unwrap();
    assert_eq!(h.filename.as_deref(), Some(" x.wav"));
    let h = HitSample::from_str("2:3:4").unwrap();
    assert_eq!((h.index, h.volume), (4, 100));
    let h = HitSample::default();
    assert_eq!(h.volume, 100);
}

#[test]
fn half_hit_sample() {
    let h = HalfHitSample::from_str("1:2").unwrap();
    assert_eq!((h.normal_set, h.addition_set), (SampleSet::Normal, SampleSet::Soft));
    assert!(HalfHitSample::from_str("1:2:3").is_err());
    assert!(HalfHitSample::from_str("1").is_err());
    assert!(HalfHitSample::from_str("1 :2").is_err());
    assert!(HalfHitSample::from_str("1: 2").is_err());
}

#[test]
fn curve_points() {
    let c = Curve::from_str("B|1:2|3:4|5:6").unwrap();
    assert_eq!(c._type, CurveType::Bezier);
    assert_eq!(c.points, vec![(1, 2), (3, 4), (5, 6)]);
    let c = Curve::from_str("P|1:2|3:4").unwrap();
    assert_eq!(c.points.len(), 2);
    assert!(Curve::from_str("P|1:2|3:4|5:6").is_err());
    assert!(Curve::from_str("L|1-2").is_err());
    assert!(Curve::from_str("Q|1:2").is_err());
}

#[test]
fn color_triples() {
    let c = Color::from_str("255,128,0").unwrap();
    assert_eq!(c.rgb(), (255, 128, 0));
    assert_eq!(c.tuple(), (255, 128, 0));
    assert!(Color::from_str("255,128").is_err());
    assert!(Color::from_str("256,0,0").is_err());
    assert!(Color::from_str("1, 2, 3").is_err());
    match Color::from_str("1,2") {
        Err(ParseError::InvalidToken { expected, .. }) => assert_eq!(expected, "Color"),
        other => panic!("{:?}", other),
    }
}

#[test]
fn background_from_the_back() {
    let b = Background::from_str("\"bg,one.jpg\",10,-20").unwrap();
    assert_eq!(b.filename, "\"bg,one.jpg\"");
    assert_eq!(b.xoffset, 10);
    assert_eq!(b.yoffset, -20);
    assert!(matches!(
        Background::from_str("bg.jpg"),
        Err(ParseError::SplitError { delimiter: ',', .. })
    ));
    assert!(matches!(Background::from_str("bg.jpg,a,0"), Err(ParseError::InvalidToken { .. })));
}

#[test]
fn break_pairs() {
    let b = Break::from_str("100,2000").unwrap();
    assert_eq!((b.start_time, b.end_time), (100, 2000));
    assert!(matches!(Break::from_str("100"), Err(ParseError::SplitError { .. })));
    assert!(matches!(Break::from_str("100,x"), Err(ParseError::InvalidToken { .. })));
}
