use opengolfcoach_rust::decimal::Decimal;
use opengolfcoach_rust::error::CalcError;
use opengolfcoach_rust::interpret_reply;
use opengolfcoach_rust::outcome::{
    apex_of, assemble, check_close_to, check_in_band, check_lands_at_end,
    check_smash_consistent, check_spin_consistent, check_time_rises, rank_order, read_number, read_outcome,
    read_sample, sample_pointer, Output, PhysicsFault, Quantity, RawOutcome, RawSample, TrajectorySample,
    SAMPLE_LIMIT,
};
use opengolfcoach_rust::shot::{validate, RawShot, ShotMeasurement};

fn tok(text: &str) -> Option<String> {
    Some(text.to_string())
}

fn dec(negative: bool, mantissa: u64, exponent: i32) -> Decimal {
    Decimal { negative, mantissa, exponent }
}

fn raw_sample(t: &str, z: &str) -> RawSample {
    RawSample { t: tok(t), x: tok("1"), y: tok("-2"), z: tok(z), vx: tok("3"), vy: tok("0.0"), vz: tok("-4e0") }
}

fn sample(t: Decimal, z: Decimal) -> TrajectorySample {
    TrajectorySample {
        t,
        x: dec(false, 1, 0),
        y: dec(true, 2, 0),
        z,
        vx: dec(false, 3, 0),
        vy: dec(false, 0, -1),
        vz: dec(true, 4, 0),
    }
}

fn sound() -> RawOutcome {
    RawOutcome {
        carry_distance: tok("10.5"),
        total_distance: tok("12"),
        offline_distance: tok("-2.0"),
        backspin: tok("2500.0"),
        sidespin: tok("0.0"),
        total_spin: tok("2500.0"),
        spin_axis: tok("0.0"),
        club_speed: tok("47"),
        smash_factor: tok("1.4893617021276595"),
        shot_name: tok("Straight"),
        shot_rank: tok("B"),
        shot_color: tok("0x7CB342"),
        samples: vec![
            raw_sample("0.0", "0.0"),
            raw_sample("0.002", "0.5"),
            raw_sample("0.004", "1.5"),
            raw_sample("0.006", "1.50"),
            raw_sample("0.008", "-0.1"),
        ],
        truncated: false,
    }
}

fn shot_with(club_speed: Option<&str>, spin: bool) -> ShotMeasurement {
    shot_at("70", club_speed, spin)
}

fn shot_at(ball_speed: &str, club_speed: Option<&str>, spin: bool) -> ShotMeasurement {
    validate(&RawShot {
        ball_speed: tok(ball_speed),
        vertical_launch_angle: tok("12.5"),
        horizontal_launch_angle: None,
        total_spin: if spin { tok("2500") } else { None },
        spin_axis: if spin { tok("0") } else { None },
        backspin: None,
        sidespin: None,
        club_speed: club_speed.map(|s| s.to_string()),
    })
    .unwrap()
}

fn fault(raw: &RawOutcome, strict: bool) -> PhysicsFault {
    assemble(&shot_with(None, true), raw, strict).unwrap_err()
}

#[test]
fn a_sound_outcome_gives_every_value() {
    let d = assemble(&shot_with(None, true), &sound(), true).unwrap();
    assert_eq!(d.carry_distance, dec(false, 105, -1));
    assert_eq!(d.total_distance, dec(false, 12, 0));
    assert_eq!(d.offline_distance, dec(true, 20, -1));
    assert_eq!(d.apex_height, dec(false, 15, -1));
    assert_eq!(d.flight_time, dec(false, 8, -3));
    assert_eq!(d.backspin, dec(false, 25000, -1));
    assert_eq!(d.sidespin, dec(false, 0, -1));
    assert_eq!(d.total_spin, dec(false, 25000, -1));
    assert_eq!(d.spin_axis, dec(false, 0, -1));
    assert_eq!(d.club_speed, dec(false, 47, 0));
    assert_eq!(d.smash_factor, dec(false, 14893617021276595, -16));
    assert_eq!(d.shot_name, "Straight");
    assert_eq!(d.shot_rank, "B");
    assert_eq!(d.shot_color, "0x7CB342");
    assert!(!d.spin_estimated && d.club_speed_estimated && !d.smash_suspect);
    assert_eq!(d.samples.len(), 5);
    assert_eq!(d.samples[2], sample(dec(false, 4, -3), dec(false, 15, -1)));
    assert_eq!(d.samples[4], sample(dec(false, 8, -3), dec(true, 1, -1)));
}

#[test]
fn marks_follow_the_shot() {
    let d = assemble(&shot_with(Some("47"), false), &sound(), false).unwrap();
    assert!(d.spin_estimated && !d.club_speed_estimated && !d.smash_suspect);
}

#[test]
fn the_apex_is_the_first_of_the_highest_samples() {
    let flight = vec![
        sample(dec(false, 0, 0), dec(false, 0, 0)),
        sample(dec(false, 1, 0), dec(false, 15, -1)),
        sample(dec(false, 2, 0), dec(false, 150, -2)),
        sample(dec(false, 3, 0), dec(true, 9, 0)),
    ];
    assert_eq!(apex_of(&flight), dec(false, 15, -1));
    let falling = vec![
        sample(dec(false, 0, 0), dec(true, 1, 0)),
        sample(dec(false, 1, 0), dec(true, 2, 0)),
    ];
    assert_eq!(apex_of(&falling), dec(true, 1, 0));
    let one = vec![sample(dec(false, 0, 0), dec(false, 7, 3))];
    assert_eq!(apex_of(&one), dec(false, 7, 3));
}

#[test]
fn time_must_rise_from_sample_to_sample() {
    let s = |t: u64| sample(dec(false, t, -3), dec(false, 0, 0));
    assert!(check_time_rises(&vec![]));
    assert!(check_time_rises(&vec![s(5)]));
    assert!(check_time_rises(&vec![s(0), s(2), s(4)]));
    assert!(!check_time_rises(&vec![s(0), s(2), s(2)]));
    assert!(!check_time_rises(&vec![s(3), s(2), s(4)]));
    let mut raw = sound();
    raw.samples[3] = raw_sample("0.004", "1.5");
    assert_eq!(fault(&raw, false), PhysicsFault::DisorderedSamples);
}

#[test]
fn sample_faults() {
    let mut raw = sound();
    raw.truncated = true;
    assert_eq!(fault(&raw, false), PhysicsFault::TooManySamples);
    raw.samples.clear();
    assert_eq!(fault(&raw, false), PhysicsFault::TooManySamples);
    raw.truncated = false;
    assert_eq!(fault(&raw, false), PhysicsFault::NoSamples);
    for bad in ["null", "", "NaN", "1e400"] {
        let mut raw = sound();
        raw.samples[4].vy = tok(bad);
        assert_eq!(fault(&raw, false), PhysicsFault::Unstable(Output::Sample), "{}", bad);
    }
    let mut raw = sound();
    raw.samples[1].z = None;
    raw.carry_distance = None;
    assert_eq!(fault(&raw, false), PhysicsFault::Unstable(Output::Sample));
}

#[test]
fn distance_faults() {
    let mut raw = sound();
    raw.carry_distance = tok("null");
    assert_eq!(fault(&raw, false), PhysicsFault::Unstable(Output::CarryDistance));
    raw.carry_distance = tok("-0.001");
    assert_eq!(fault(&raw, false), PhysicsFault::NegativeCarry);
    raw.carry_distance = tok("-0.0");
    assert!(assemble(&shot_with(None, true), &raw, false).is_ok());
    raw.carry_distance = tok("12.001");
    assert_eq!(fault(&raw, false), PhysicsFault::TotalBelowCarry);
    raw.carry_distance = tok("12.000");
    assert!(assemble(&shot_with(None, true), &raw, false).is_ok());
    raw.total_distance = None;
    assert_eq!(fault(&raw, false), PhysicsFault::Unstable(Output::TotalDistance));
    raw.total_distance = tok("12");
    raw.offline_distance = tok("x");
    assert_eq!(fault(&raw, false), PhysicsFault::Unstable(Output::OfflineDistance));
}

#[test]
fn an_apex_below_the_ground_is_a_fault() {
    let mut raw = sound();
    raw.samples = vec![raw_sample("0", "-0.5")];
    assert_eq!(fault(&raw, false), PhysicsFault::NegativeApex);
    raw.samples = vec![raw_sample("0", "-0.0"), raw_sample("1", "-1")];
    let d = assemble(&shot_with(None, true), &raw, false).unwrap();
    assert_eq!(d.apex_height, dec(true, 0, -1));
}

#[test]
fn a_flight_ends_with_the_first_sample_below_the_ground() {
    let mut raw = sound();
    raw.samples[4] = raw_sample("0.008", "0.0");
    assert!(assemble(&shot_with(None, true), &raw, false).is_ok());
    raw.samples[4] = raw_sample("0.008", "-0.0");
    assert!(assemble(&shot_with(None, true), &raw, false).is_ok());
    raw.samples[4] = raw_sample("0.008", "1e-9");
    assert_eq!(fault(&raw, false), PhysicsFault::NoLanding);
    raw.samples[4] = raw_sample("0.008", "2");
    assert_eq!(fault(&raw, false), PhysicsFault::NoLanding);
    raw.samples[4] = raw_sample("0.008", "-1e-9");
    assert!(assemble(&shot_with(None, true), &raw, false).is_ok());
    raw.samples[2] = raw_sample("0.004", "-1e-9");
    assert_eq!(fault(&raw, false), PhysicsFault::NoLanding);
    raw.samples[2] = raw_sample("0.004", "-0");
    assert!(assemble(&shot_with(None, true), &raw, false).is_ok());
    raw.samples[0] = raw_sample("0.0", "-3");
    assert_eq!(fault(&raw, false), PhysicsFault::NoLanding);
    let s = |z: Decimal| sample(dec(false, 0, 0), z);
    assert!(!check_lands_at_end(&vec![]));
    assert!(check_lands_at_end(&vec![s(dec(true, 1, 0))]));
    assert!(!check_lands_at_end(&vec![s(dec(false, 1, 0))]));
    assert!(check_lands_at_end(&vec![s(dec(false, 0, 0))]));
    assert!(check_lands_at_end(&vec![s(dec(false, 2, 0)), s(dec(true, 0, 3))]));
    assert!(check_lands_at_end(&vec![s(dec(false, 0, 0)), s(dec(false, 1, 0)), s(dec(true, 1, -5))]));
    assert!(!check_lands_at_end(&vec![s(dec(false, 0, 0)), s(dec(true, 1, 0)), s(dec(true, 1, -5))]));
}

#[test]
fn the_offline_distance_is_where_the_flight_ends() {
    let mut raw = sound();
    for text in ["-2", "-2.000", "-20e-1"] {
        raw.offline_distance = tok(text);
        assert!(assemble(&shot_with(None, true), &raw, false).is_ok(), "{}", text);
    }
    for text in ["2", "-2.0000001", "0", "-1.9999"] {
        raw.offline_distance = tok(text);
        assert_eq!(fault(&raw, false), PhysicsFault::MisplacedLanding, "{}", text);
    }
    raw.offline_distance = tok("3");
    raw.samples[4].y = tok("3.0");
    assert!(assemble(&shot_with(None, true), &raw, false).is_ok());
    raw.samples[3].y = tok("3.0");
    raw.samples[4].y = tok("4");
    assert_eq!(fault(&raw, false), PhysicsFault::MisplacedLanding);
}

#[test]
fn each_missing_value_is_named() {
    let slots: [(fn(&mut RawOutcome) -> &mut Option<String>, Output); 9] = [
        (|r| &mut r.backspin, Output::Backspin),
        (|r| &mut r.sidespin, Output::Sidespin),
        (|r| &mut r.total_spin, Output::TotalSpin),
        (|r| &mut r.spin_axis, Output::SpinAxis),
        (|r| &mut r.club_speed, Output::ClubSpeed),
        (|r| &mut r.smash_factor, Output::SmashFactor),
        (|r| &mut r.shot_name, Output::ShotName),
        (|r| &mut r.shot_rank, Output::ShotRank),
        (|r| &mut r.shot_color, Output::ShotColor),
    ];
    for (slot, output) in slots {
        let mut raw = sound();
        *slot(&mut raw) = None;
        assert_eq!(fault(&raw, true), PhysicsFault::Unstable(output));
    }
    let mut raw = sound();
    raw.smash_factor = tok("null");
    assert_eq!(fault(&raw, false), PhysicsFault::Unstable(Output::SmashFactor));
    raw.sidespin = tok("null");
    assert_eq!(fault(&raw, false), PhysicsFault::Unstable(Output::Sidespin));
}

#[test]
fn a_smash_factor_outside_the_band_is_suspect_or_a_fault() {
    for (smash, club, ball, inside) in [
        ("1.0", "70", "70", true),
        ("1", "7e1", "70.0", true),
        ("1.6", "43.75", "70", true),
        ("1.60", "43.750", "70", true),
        ("1.3", "50", "65", true),
        ("0.999", "1000", "999", false),
        ("1.601", "1000", "1601", false),
        ("7", "10", "70", false),
        ("-1.2", "-50", "60", false),
        ("-1.6", "-50", "80", false),
    ] {
        let mut raw = sound();
        raw.smash_factor = tok(smash);
        raw.club_speed = tok(club);
        let shot = shot_at(ball, Some(club), true);
        let d = assemble(&shot, &raw, false).unwrap();
        assert_eq!(d.smash_suspect, !inside, "{}", smash);
        assert_eq!(check_in_band(&d.smash_factor), inside);
        assert!(!d.club_speed_estimated);
        let estimated = shot_at(ball, None, false);
        for (shot, strict) in [(&shot, true), (&estimated, false), (&estimated, true)] {
            let got = assemble(shot, &raw, strict);
            if inside {
                assert!(!got.unwrap().smash_suspect);
            } else {
                assert_eq!(got.unwrap_err(), PhysicsFault::ImplausibleSmash);
            }
        }
    }
}

#[test]
fn the_smash_factor_must_be_ball_speed_over_club_speed() {
    for (smash, club, sound_result) in [
        ("1.4893617021276595", "47", true),
        ("1.4893617021276596", "47.0", true),
        ("1.489361703", "47", true),
        ("1.489361701", "47", true),
        ("1.48936171", "47", false),
        ("1.48936169", "47", false),
        ("1.49", "47", false),
        ("1.000000001", "70", true),
        ("1.0000000011", "70", false),
        ("0.999999999", "70", true),
        ("0.9999999989", "70", false),
        ("7e1", "1", true),
        ("7e-300", "1e301", true),
        ("7e300", "1e-299", true),
        ("7e300", "1e-298", false),
        ("-1.4893617021276595", "-47", true),
        ("-1.4893617021276595", "47", false),
        ("1.4893617021276595", "-47", false),
        ("0", "47", false),
        ("1.5", "0", false),
        ("0", "0", false),
        ("18446744073709551615e-19", "37947076036992655e-15", true),
    ] {
        let mut raw = sound();
        raw.smash_factor = tok(smash);
        raw.club_speed = tok(club);
        let shot = shot_with(Some(club), true);
        let got = assemble(&shot, &raw, false);
        if sound_result {
            assert!(got.is_ok(), "{} {}", smash, club);
        } else {
            assert_eq!(got.unwrap_err(), PhysicsFault::InconsistentSmash, "{} {}", smash, club);
        }
        assert_eq!(
            check_smash_consistent(
                &Decimal::parse(smash).unwrap(),
                &Decimal::parse(club).unwrap(),
                &shot.ball_speed
            ),
            sound_result
        );
    }
    assert!(!check_smash_consistent(&dec(false, 1, 0), &dec(false, 70, 0), &dec(true, 70, 0)));
    let ball = dec(false, 70, 0);
    assert!(check_smash_consistent(&dec(false, 7, i32::MIN), &dec(false, 1, i32::MAX), &dec(false, 7, -1)));
    assert!(check_smash_consistent(&dec(false, 7, -2147483000), &dec(false, 1, 2147483001), &ball));
    assert!(!check_smash_consistent(&dec(false, 7, -2147483000), &dec(false, 1, 2147483000), &ball));
    assert!(!check_smash_consistent(&dec(false, 7, i32::MAX), &dec(false, 1, i32::MAX), &ball));
    assert!(!check_smash_consistent(&dec(false, 7, i32::MIN), &dec(false, 1, i32::MIN), &ball));
    assert!(!check_smash_consistent(&dec(false, u64::MAX, 0), &dec(false, u64::MAX, 0), &ball));
    assert!(check_smash_consistent(
        &dec(false, u64::MAX, 0),
        &dec(false, u64::MAX, 0),
        &dec(false, 3402823669, 29)
    ));
}

#[test]
fn tokens_are_read_as_finite_numbers() {
    assert_eq!(read_number(&None), None);
    assert_eq!(read_number(&tok("null")), None);
    assert_eq!(read_number(&tok("1e309")), None);
    assert_eq!(read_number(&tok("-2.50")), Some(dec(true, 250, -2)));
    assert_eq!(read_sample(&raw_sample("0.5", "2")), Some(sample(dec(false, 5, -1), dec(false, 2, 0))));
    let mut s = raw_sample("0.5", "2");
    s.x = None;
    assert_eq!(read_sample(&s), None);
}

#[test]
fn pointers_address_the_reply() {
    assert_eq!(Output::CarryDistance.pointer(), "/open_golf_coach/carry_distance_meters");
    assert_eq!(Output::TotalDistance.pointer(), "/open_golf_coach/total_distance_meters");
    assert_eq!(Output::OfflineDistance.pointer(), "/open_golf_coach/offline_distance_meters");
    assert_eq!(Output::Backspin.pointer(), "/open_golf_coach/backspin_rpm");
    assert_eq!(Output::Sidespin.pointer(), "/open_golf_coach/sidespin_rpm");
    assert_eq!(Output::TotalSpin.pointer(), "/open_golf_coach/total_spin_rpm");
    assert_eq!(Output::SpinAxis.pointer(), "/open_golf_coach/spin_axis_degrees");
    assert_eq!(Output::ClubSpeed.pointer(), "/open_golf_coach/club_speed_meters_per_second");
    assert_eq!(Output::SmashFactor.pointer(), "/open_golf_coach/smash_factor");
    assert_eq!(Output::ShotName.pointer(), "/open_golf_coach/shot_name/right_handed");
    assert_eq!(Output::ShotRank.pointer(), "/open_golf_coach/shot_rank/right_handed");
    assert_eq!(Output::ShotColor.pointer(), "/open_golf_coach/shot_color_rgb/right_handed");
    assert_eq!(sample_pointer(0, Quantity::Time), "/open_golf_coach/trajectory/points/0/t");
    assert_eq!(sample_pointer(1203, Quantity::Height), "/open_golf_coach/trajectory/points/1203/z");
    assert_eq!(Quantity::Downrange.key(), "x");
    assert_eq!(Quantity::Lateral.key(), "y");
    assert_eq!(Quantity::DownrangeSpeed.key(), "vx");
    assert_eq!(Quantity::LateralSpeed.key(), "vy");
    assert_eq!(Quantity::ClimbSpeed.key(), "vz");
}

const REPLY: &str = "{\"ball_speed_meters_per_second\":70.0,\"carry_distance_meters\":1,\"open_golf_coach\":{\"backspin_rpm\":2500.0,\"carry_distance_meters\":10.5,\"club_speed_meters_per_second\":47.0,\"offline_distance_meters\":-0.0,\"shot_color_rgb\":{\"left_handed\":\"0x000000\",\"right_handed\":\"0x7CB342\"},\"shot_name\":{\"left_handed\":\"Pull\",\"right_handed\":\"Push \\\"Fade\\\"\"},\"shot_rank\":{\"left_handed\":\"C\",\"right_handed\":\"B\"},\"sidespin_rpm\":1e-7,\"smash_factor\":null,\"spin_axis_degrees\":0.0,\"total_distance_meters\":12,\"total_spin_rpm\":2500.0,\"trajectory\":{\"points\":[{\"t\":0.0,\"vx\":68.3,\"vy\":0.0,\"vz\":15.1,\"x\":0.0,\"y\":0.0,\"z\":0.0},{\"t\":0.002,\"vx\":68.2,\"vy\":0.0,\"vz\":null,\"x\":0.13,\"y\":0.0,\"z\":0.03},{\"vx\":1.0,\"x\":5.0}],\"sample_rate_hz\":500.0}}}";

#[test]
fn the_reply_is_taken_apart_by_pointer() {
    let doc = serde_json::from_str::<serde_json::Value>(REPLY).unwrap();
    let raw = read_outcome(&doc);
    assert_eq!(raw.carry_distance, tok("10.5"));
    assert_eq!(raw.total_distance, tok("12"));
    assert_eq!(raw.offline_distance, tok("-0.0"));
    assert_eq!(raw.backspin, tok("2500.0"));
    assert_eq!(raw.sidespin, tok("1e-7"));
    assert_eq!(raw.total_spin, tok("2500.0"));
    assert_eq!(raw.spin_axis, tok("0.0"));
    assert_eq!(raw.club_speed, tok("47.0"));
    assert_eq!(raw.smash_factor, tok("null"));
    assert_eq!(raw.shot_name, tok("Push \"Fade\""));
    assert_eq!(raw.shot_rank, tok("B"));
    assert_eq!(raw.shot_color, tok("0x7CB342"));
    assert!(!raw.truncated);
    assert_eq!(raw.samples.len(), 2);
    assert_eq!(raw.samples[0].t, tok("0.0"));
    assert_eq!(raw.samples[0].vx, tok("68.3"));
    assert_eq!(raw.samples[1].t, tok("0.002"));
    assert_eq!(raw.samples[1].x, tok("0.13"));
    assert_eq!(raw.samples[1].y, tok("0.0"));
    assert_eq!(raw.samples[1].z, tok("0.03"));
    assert_eq!(raw.samples[1].vx, tok("68.2"));
    assert_eq!(raw.samples[1].vy, tok("0.0"));
    assert_eq!(raw.samples[1].vz, tok("null"));
}

#[test]
fn a_reply_without_values_gives_none() {
    for text in ["{}", "[]", "7", "{\"open_golf_coach\":{\"shot_name\":\"Straight\",\"carry_distance_meters\":{}}}"] {
        let doc = serde_json::from_str::<serde_json::Value>(text).unwrap();
        let raw = read_outcome(&doc);
        assert_eq!(raw.total_distance, None);
        assert_eq!(raw.shot_name, None);
        assert_eq!(raw.samples.len(), 0);
        assert!(!raw.truncated);
    }
    let doc = serde_json::from_str::<serde_json::Value>(
        "{\"open_golf_coach\":{\"shot_name\":{\"right_handed\":5},\"carry_distance_meters\":\"far\"}}",
    )
    .unwrap();
    let raw = read_outcome(&doc);
    assert_eq!(raw.shot_name, None);
    assert_eq!(raw.carry_distance, tok("\"far\""));
}

#[test]
fn samples_beyond_the_limit_are_not_taken() {
    let point = "{\"t\":0.0,\"vx\":1.0,\"vy\":0.0,\"vz\":1.0,\"x\":0.0,\"y\":0.0,\"z\":0.0}";
    let reply = |n: usize| {
        format!(
            "{{\"open_golf_coach\":{{\"trajectory\":{{\"points\":[{}]}}}}}}",
            vec![point; n].join(",")
        )
    };
    let doc = serde_json::from_str::<serde_json::Value>(&reply(SAMPLE_LIMIT)).unwrap();
    let raw = read_outcome(&doc);
    assert_eq!(raw.samples.len(), SAMPLE_LIMIT);
    assert!(!raw.truncated);
    let doc = serde_json::from_str::<serde_json::Value>(&reply(SAMPLE_LIMIT + 1)).unwrap();
    let raw = read_outcome(&doc);
    assert_eq!(raw.samples.len(), SAMPLE_LIMIT);
    assert!(raw.truncated);
}

#[test]
fn the_engine_s_refusal_is_passed_on_in_its_words() {
    let shot = shot_with(None, true);
    let e = interpret_reply(&shot, Err("Parse error: line 1".to_string()), false).unwrap_err();
    assert!(e.is_physics() && !e.is_validation());
    match &e {
        CalcError::Engine(detail) => assert_eq!(detail, "Parse error: line 1"),
        _ => panic!("not the engine's refusal"),
    }
    assert_eq!(e.message(), "Calculation failed: Parse error: line 1");
}

#[test]
fn a_reply_that_is_no_json_is_a_fault() {
    let shot = shot_with(None, true);
    for text in ["", "{", "not json", "{\"a\":}"] {
        let e = interpret_reply(&shot, Ok(text.to_string()), false).unwrap_err();
        match e {
            CalcError::Physics(f) => assert_eq!(f, PhysicsFault::UnreadableReply),
            _ => panic!("not a physics failure"),
        }
    }
}

#[test]
fn a_reply_is_read_and_judged() {
    let shot = shot_with(None, true);
    let e = interpret_reply(&shot, Ok(REPLY.to_string()), false).unwrap_err();
    match e {
        CalcError::Physics(f) => assert_eq!(f, PhysicsFault::Unstable(Output::Sample)),
        _ => panic!("not a physics failure"),
    }
    let sound = REPLY
        .replace("\"vz\":null", "\"vz\":15.0")
        .replace("\"z\":0.03", "\"z\":-0.03")
        .replace("\"smash_factor\":null", "\"smash_factor\":1.4893617021276595");
    let e = interpret_reply(&shot, Ok(sound.replace("\"z\":-0.03", "\"z\":0.03")), true).unwrap_err();
    assert_eq!(e.message(), "Calculation failed: the flight does not end at the ground");
    let e = interpret_reply(&shot, Ok(sound.replace("\"offline_distance_meters\":-0.0", "\"offline_distance_meters\":0.1")), true).unwrap_err();
    assert_eq!(e.message(), "Calculation failed: the offline distance is not where the flight ends");
    let d = interpret_reply(&shot, Ok(sound.clone()), true).unwrap();
    assert_eq!(d.carry_distance, dec(false, 105, -1));
    assert_eq!(d.apex_height, dec(false, 0, -1));
    assert_eq!(d.flight_time, dec(false, 2, -3));
    assert_eq!(d.shot_name, "Push \"Fade\"");
    assert_eq!(d.samples.len(), 2);
    let implausible = sound.replace("1.4893617021276595", "1.75").replace("47.0", "40.0");
    let e = interpret_reply(&shot, Ok(implausible.clone()), true).unwrap_err();
    assert_eq!(e.message(), "Calculation failed: the smash factor is outside the plausible band");
    let measured = shot_with(Some("40"), true);
    assert!(interpret_reply(&measured, Ok(implausible.clone()), false).unwrap().smash_suspect);
    assert!(interpret_reply(&shot, Ok(implausible), false).is_err());
    let e = interpret_reply(&shot, Ok(sound.replace("47.0", "48.0")), false).unwrap_err();
    assert_eq!(
        e.message(),
        "Calculation failed: the smash factor times the club speed is not the ball speed"
    );
}

#[test]
fn physics_faults_have_words() {
    let words = |f: PhysicsFault| f.description();
    assert_eq!(words(PhysicsFault::UnreadableReply), "the reply of the engine is not JSON");
    assert_eq!(words(PhysicsFault::TooManySamples), "the flight has too many samples");
    assert_eq!(words(PhysicsFault::NoSamples), "the flight has no samples");
    assert_eq!(
        words(PhysicsFault::Unstable(Output::SmashFactor)),
        "/open_golf_coach/smash_factor is absent or not a finite number"
    );
    assert_eq!(
        words(PhysicsFault::Unstable(Output::Sample)),
        "/open_golf_coach/trajectory/points is absent or not a finite number"
    );
    assert_eq!(words(PhysicsFault::DisorderedSamples), "the flight samples are not in order of time");
    assert_eq!(words(PhysicsFault::NegativeCarry), "the carry distance is below zero");
    assert_eq!(
        words(PhysicsFault::InconsistentSpin),
        "backspin and sidespin do not make up the total spin"
    );
    assert_eq!(
        words(PhysicsFault::ClubSpeedChanged),
        "the club speed is not the one that was measured"
    );
    assert_eq!(words(PhysicsFault::NoLanding), "the flight does not end at the ground");
    assert_eq!(
        words(PhysicsFault::MisplacedLanding),
        "the offline distance is not where the flight ends"
    );
    assert_eq!(words(PhysicsFault::TotalBelowCarry), "the total distance is below the carry distance");
    assert_eq!(words(PhysicsFault::NegativeApex), "the apex is below the ground");
    assert_eq!(words(PhysicsFault::ImplausibleSmash), "the smash factor is outside the plausible band");
    assert_eq!(
        words(PhysicsFault::InconsistentSmash),
        "the smash factor times the club speed is not the ball speed"
    );
    assert_eq!(
        CalcError::Physics(PhysicsFault::NoSamples).message(),
        "Calculation failed: the flight has no samples"
    );
}

#[test]
fn ranks_are_ordered_from_the_best_on() {
    let order = |s: &str| rank_order(&s.to_string());
    assert_eq!(order("S+"), Some(0));
    assert_eq!(order("S"), Some(1));
    assert_eq!(order("A"), Some(2));
    assert_eq!(order("B"), Some(3));
    assert_eq!(order("C"), Some(4));
    assert_eq!(order("D"), Some(5));
    assert_eq!(order("E"), Some(6));
    for text in ["", "F", "s", "S++", " A", "AB"] {
        assert_eq!(order(text), None, "{:?}", text);
    }
}

#[test]
fn the_club_speed_of_the_reply_must_be_the_measured_one() {
    for (measured, reported, kept) in [
        ("47", "47.0", true),
        ("47", "47.00000004", true),
        ("47", "46.99999996", true),
        ("47", "47.00000005", false),
        ("47", "46.99999995", false),
        ("47", "47.08403418803419", false),
        ("47", "-47", false),
        ("-47", "-47.0", true),
        ("0", "0.0", true),
        ("0", "-0.0", true),
        ("-0.0", "0", true),
        ("0", "1e-300", false),
        ("1e-300", "0", false),
        ("1e-300", "1.0000000001e-300", true),
        ("4.7e1", "0.47e2", true),
        ("47", "470", false),
    ] {
        let a = Decimal::parse(reported).unwrap();
        let b = Decimal::parse(measured).unwrap();
        assert_eq!(check_close_to(&a, &b), kept, "{} {}", measured, reported);
    }
    let mut raw = sound();
    let shot = shot_with(Some("47"), true);
    assert!(assemble(&shot, &raw, false).is_ok());
    raw.club_speed = tok("47.08403418803419");
    raw.smash_factor = tok("1.4867035335258");
    assert_eq!(assemble(&shot, &raw, false).unwrap_err(), PhysicsFault::ClubSpeedChanged);
    let estimated = assemble(&shot_with(None, true), &raw, false).unwrap();
    assert!(estimated.club_speed_estimated);
    raw.smash_factor = None;
    assert_eq!(assemble(&shot, &raw, false).unwrap_err(), PhysicsFault::ClubSpeedChanged);
    raw.club_speed = None;
    assert_eq!(
        assemble(&shot, &raw, false).unwrap_err(),
        PhysicsFault::Unstable(Output::ClubSpeed)
    );
}

#[test]
fn backspin_and_sidespin_must_make_up_the_total_spin() {
    for (back, side, total, consistent) in [
        ("2500.0", "0.0", "2500.0", true),
        ("0", "0", "0", true),
        ("0.0", "-0.0", "0e5", true),
        ("3", "4", "5", true),
        ("-3", "-4", "5", true),
        ("3", "4", "5.000001", true),
        ("3", "4", "5.00001", false),
        ("3", "4", "4.99999", false),
        ("3", "4", "-5", true),
        ("5.235985097694785", "2999.995430739863", "3000.0", true),
        ("5.235985097694785", "-2999.995430739863", "3000.0", true),
        ("2462.019382530521", "434.1204441673258", "2500", true),
        ("2462.019382530521", "434.1204441673258", "2500.01", false),
        ("2462.02", "434.1204441673258", "2500", false),
        ("1", "900", "2500", false),
        ("2500", "0", "0", false),
        ("0", "0", "2500", false),
        ("1e-7", "1e-7", "0", true),
        ("1e-300", "3e-7", "4e-7", true),
        ("6e11", "8e11", "1e12", false),
        ("6e11", "8e11", "999999999999.999999", true),
        ("6e10", "8e10", "1e11", true),
        ("1e12", "0", "1e12", false),
        ("0", "1e300", "1e300", false),
    ] {
        let (b, s, t) = (
            Decimal::parse(back).unwrap(),
            Decimal::parse(side).unwrap(),
            Decimal::parse(total).unwrap(),
        );
        assert_eq!(check_spin_consistent(&b, &s, &t), consistent, "{} {} {}", back, side, total);
    }
    let mut raw = sound();
    raw.sidespin = tok("900");
    assert_eq!(fault(&raw, false), PhysicsFault::InconsistentSpin);
    raw.total_spin = tok("2657.0660511172846");
    assert!(assemble(&shot_with(None, true), &raw, false).is_ok());
    raw.spin_axis = None;
    assert_eq!(fault(&raw, false), PhysicsFault::Unstable(Output::SpinAxis));
    raw.spin_axis = tok("19.8");
    raw.total_spin = tok("2600");
    raw.club_speed = None;
    assert_eq!(fault(&raw, false), PhysicsFault::InconsistentSpin);
}
