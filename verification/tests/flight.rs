use opengolfcoach_rust::derive_values;
use opengolfcoach_rust::decimal::Decimal;
use opengolfcoach_rust::error::CalcError;
use opengolfcoach_rust::outcome::{rank_order, DerivedShotValues, Output, PhysicsFault};
use opengolfcoach_rust::shot::RawShot;

fn shot(fields: &[(&str, &str)]) -> RawShot {
    let get = |k: &str| fields.iter().find(|(n, _)| *n == k).map(|(_, v)| v.to_string());
    RawShot {
        ball_speed: get("ball_speed"),
        vertical_launch_angle: get("vertical"),
        horizontal_launch_angle: get("horizontal"),
        total_spin: get("total_spin"),
        spin_axis: get("spin_axis"),
        backspin: get("backspin"),
        sidespin: get("sidespin"),
        club_speed: get("club_speed"),
    }
}

fn fly(fields: &[(&str, &str)]) -> DerivedShotValues {
    derive_values(&shot(fields), false).unwrap()
}

fn num(d: &Decimal) -> f64 {
    d.render().parse::<f64>().unwrap()
}

fn zero() -> Decimal {
    Decimal::zero()
}

#[test]
fn driver_scenario_is_straight_with_the_baseline_carry() {
    let d = fly(&[
        ("ball_speed", "70.0"),
        ("vertical", "12.5"),
        ("horizontal", "0.0"),
        ("total_spin", "2500.0"),
        ("spin_axis", "0.0"),
    ]);
    assert_eq!(num(&d.backspin), 2500.0);
    assert_eq!(num(&d.sidespin), 0.0);
    assert_eq!(num(&d.total_spin), 2500.0);
    assert_eq!(num(&d.spin_axis), 0.0);
    assert_eq!(num(&d.offline_distance), 0.0);
    assert_eq!(d.shot_name, "Straight");
    assert_eq!(d.shot_rank, "B");
    assert_eq!(d.shot_color, "0x7CB342");
    let carry = num(&d.carry_distance);
    assert!(230.2 < carry && carry < 231.2, "carry {}", carry);
    let total = num(&d.total_distance);
    assert!(235.4 < total && total < 236.4, "total {}", total);
    let apex = num(&d.apex_height);
    assert!(27.3 < apex && apex < 28.3, "apex {}", apex);
    let time = num(&d.flight_time);
    assert!(6.4 < time && time < 6.7, "time {}", time);
    assert!(!d.spin_estimated && d.club_speed_estimated && !d.smash_suspect);
    assert!(d.samples.len() > 3000 && d.samples.len() < 3500);
    assert_eq!(num(&d.samples[0].t), 0.0);
    assert_eq!(num(&d.samples[0].z), 0.0);
    assert!(num(&d.samples[d.samples.len() - 1].z) < 0.0);
    assert_eq!(d.flight_time, d.samples[d.samples.len() - 1].t);
}

#[test]
fn no_spin_and_no_side_angle_fly_straight() {
    let d = fly(&[("ball_speed", "70.0"), ("vertical", "12.5")]);
    assert!(d.offline_distance.is_zero());
    assert_eq!(d.shot_name, "Straight");
    assert!(d.spin_estimated);
    assert!(d.backspin.is_zero() && d.sidespin.is_zero() && d.total_spin.is_zero());
    for s in d.samples.iter() {
        assert!(s.y.is_zero());
    }
    let e = fly(&[("ball_speed", "45"), ("vertical", "20"), ("horizontal", "0"), ("backspin", "0"), ("sidespin", "0")]);
    assert!(e.offline_distance.is_zero());
    assert_eq!(e.shot_name, "Straight");
    assert!(!e.spin_estimated);
}

#[test]
fn a_lone_half_of_a_spin_pair_counts_as_not_measured() {
    let a = fly(&[("ball_speed", "70.0"), ("vertical", "12.5")]);
    let b = fly(&[("ball_speed", "70.0"), ("vertical", "12.5"), ("total_spin", "2500"), ("sidespin", "300")]);
    assert!(b.spin_estimated);
    assert_eq!(a.carry_distance, b.carry_distance);
    assert_eq!(a.offline_distance, b.offline_distance);
}

#[test]
fn total_spin_and_axis_win_over_measured_components() {
    let a = fly(&[("ball_speed", "70.0"), ("vertical", "12.5"), ("total_spin", "2500"), ("spin_axis", "0")]);
    let b = fly(&[
        ("ball_speed", "70.0"), ("vertical", "12.5"), ("total_spin", "2500"), ("spin_axis", "0"),
        ("backspin", "1"), ("sidespin", "900"),
    ]);
    assert_eq!(a.carry_distance, b.carry_distance);
    assert_eq!(num(&b.backspin), 2500.0);
    assert_eq!(num(&b.sidespin), 0.0);
    assert!(b.offline_distance.is_zero());
}

#[test]
fn distances_and_apex_are_never_below_zero() {
    let speeds = ["0.5", "20", "45.5", "70", "95"];
    let angles = ["-90", "-5", "0", "0.05", "12.5", "45", "89", "90"];
    let spins = [("0", "0", "0"), ("2500", "0", "3"), ("9000", "-30", "-15"), ("3000", "89.9", "20")];
    for speed in speeds {
        for angle in angles {
            for (total, axis, side) in spins {
                let raw = shot(&[
                    ("ball_speed", speed), ("vertical", angle), ("horizontal", side),
                    ("total_spin", total), ("spin_axis", axis),
                ]);
                match derive_values(&raw, false) {
                    Ok(d) => {
                        assert!(zero().le(&d.carry_distance), "{} {} {}", speed, angle, total);
                        assert!(d.carry_distance.le(&d.total_distance), "{} {} {}", speed, angle, total);
                        assert!(zero().le(&d.apex_height), "{} {} {}", speed, angle, total);
                        assert!(num(&d.total_distance) >= num(&d.carry_distance));
                        assert!(num(&d.carry_distance) >= 0.0 && num(&d.apex_height) >= 0.0);
                        for s in d.samples.iter() {
                            assert!(s.z.le(&d.apex_height));
                        }
                    }
                    Err(e) => assert!(e.is_physics(), "{}", e.message()),
                }
            }
        }
    }
}

#[test]
fn spin_survives_the_round_trip() {
    for (total, axis) in [("2500", "10"), ("3000", "-45"), ("7000", "88.9"), ("1200.5", "-88.9"), ("4000", "0")] {
        let there = fly(&[("ball_speed", "60"), ("vertical", "15"), ("total_spin", total), ("spin_axis", axis)]);
        let back = fly(&[
            ("ball_speed", "60"), ("vertical", "15"),
            ("backspin", &there.backspin.render()), ("sidespin", &there.sidespin.render()),
        ]);
        let t: f64 = total.parse().unwrap();
        let a: f64 = axis.parse().unwrap();
        assert!((num(&back.total_spin) - t).abs() < 1e-6 * t, "{} {}", total, axis);
        assert!((num(&back.spin_axis) - a).abs() < 1e-6, "{} {}", total, axis);
        let square = num(&there.backspin).powi(2) + num(&there.sidespin).powi(2);
        assert!((square - t * t).abs() < 1e-6 * t * t);
        assert!((num(&there.backspin) - t * a.to_radians().cos()).abs() < 1e-6 * t);
        assert!((num(&there.sidespin) - t * a.to_radians().sin()).abs() < 1e-6 * t);
    }
}

#[test]
fn a_faster_ball_carries_farther() {
    let mut last = 0.0;
    for speed in ["30", "40", "50", "60", "70", "80"] {
        let d = fly(&[("ball_speed", speed), ("vertical", "12.5"), ("total_spin", "2500"), ("spin_axis", "0")]);
        let carry = num(&d.carry_distance);
        assert!(carry > last, "{} carries {} after {}", speed, carry, last);
        last = carry;
    }
}

#[test]
fn smash_factor_is_ball_speed_over_measured_club_speed() {
    let d = fly(&[("ball_speed", "70.0"), ("vertical", "12.5"), ("total_spin", "2500"), ("spin_axis", "10"), ("club_speed", "47")]);
    assert!(!d.club_speed_estimated);
    assert_eq!(num(&d.club_speed), 47.0);
    assert!((num(&d.smash_factor) - 70.0 / 47.0).abs() < 1e-12);
    assert!(!d.smash_suspect);
}

#[test]
fn an_estimated_club_speed_gives_a_plausible_smash_factor() {
    for (speed, angle, spin) in [("70", "12.5", "2500"), ("40", "32", "9000"), ("53.6", "16", "7000"), ("20", "60", "100")] {
        let d = derive_values(
            &shot(&[("ball_speed", speed), ("vertical", angle), ("total_spin", spin), ("spin_axis", "0")]),
            true,
        )
        .unwrap();
        assert!(d.club_speed_estimated && !d.smash_suspect);
        let smash = num(&d.smash_factor);
        assert!(1.0 <= smash && smash <= 1.6, "{}", smash);
        assert!((num(&d.club_speed) * smash - num(&opengolfcoach_rust::decimal::Decimal::parse(speed).unwrap())).abs() < 1e-9);
    }
}

#[test]
fn an_implausible_smash_factor_is_marked_or_refused() {
    let fields = [("ball_speed", "70.0"), ("vertical", "12.5"), ("total_spin", "2500"), ("spin_axis", "10"), ("club_speed", "10")];
    let d = fly(&fields);
    assert!(d.smash_suspect);
    assert_eq!(num(&d.smash_factor), 7.0);
    let e = derive_values(&shot(&fields), true).unwrap_err();
    match e {
        CalcError::Physics(f) => assert_eq!(f, PhysicsFault::ImplausibleSmash),
        _ => panic!("not a physics failure"),
    }
}

#[test]
fn a_club_at_rest_gives_no_smash_factor() {
    let e = derive_values(
        &shot(&[("ball_speed", "70.0"), ("vertical", "12.5"), ("club_speed", "0")]),
        false,
    )
    .unwrap_err();
    match e {
        CalcError::Physics(f) => assert_eq!(f, PhysicsFault::Unstable(Output::SmashFactor)),
        _ => panic!("not a physics failure"),
    }
}

#[test]
fn a_spin_axis_near_the_side_stays_finite_with_one_label() {
    let right = fly(&[("ball_speed", "70.0"), ("vertical", "12.5"), ("total_spin", "3000"), ("spin_axis", "89.9")]);
    assert!((num(&right.backspin) - 5.235985).abs() < 1e-3);
    assert!((num(&right.sidespin) - 2999.995431).abs() < 1e-3);
    assert_eq!(right.shot_name, "Straight Slice");
    assert_eq!(right.shot_rank, "D");
    assert!(num(&right.offline_distance) > 0.0);
    let left = fly(&[("ball_speed", "70.0"), ("vertical", "12.5"), ("total_spin", "3000"), ("spin_axis", "-89.9")]);
    assert!((num(&left.sidespin) + 2999.995431).abs() < 1e-3);
    assert_eq!(left.shot_name, "Duck Hook");
    assert_eq!(left.shot_rank, "E");
    assert!(num(&left.offline_distance) < 0.0);
    for axis in ["89.999999", "-89.999999", "90", "-90"] {
        let d = fly(&[("ball_speed", "50"), ("vertical", "25"), ("total_spin", "3000"), ("spin_axis", axis)]);
        assert!(num(&d.backspin).is_finite() && num(&d.sidespin).is_finite());
        assert!(!d.shot_name.is_empty());
    }
}

#[test]
fn a_flight_that_does_not_settle_is_a_physics_failure() {
    for fields in [
        vec![("ball_speed", "1e-200"), ("vertical", "12.5"), ("total_spin", "2500"), ("spin_axis", "10")],
        vec![("ball_speed", "1e5"), ("vertical", "90"), ("total_spin", "2500"), ("spin_axis", "10")],
        vec![("ball_speed", "1e308"), ("vertical", "45")],
        vec![("ball_speed", "70"), ("vertical", "12"), ("total_spin", "1e308"), ("spin_axis", "45")],
        vec![("ball_speed", "1e-320"), ("vertical", "0")],
    ] {
        let e = derive_values(&shot(&fields), false).unwrap_err();
        assert!(e.is_physics(), "{}", e.message());
        assert!(e.message().starts_with("Calculation failed: "));
    }
}

#[test]
fn a_faulty_request_never_reaches_the_engine() {
    for fields in [
        vec![("vertical", "12.5")],
        vec![("ball_speed", "70")],
        vec![("ball_speed", "0"), ("vertical", "12.5")],
        vec![("ball_speed", "70"), ("vertical", "95")],
        vec![("ball_speed", "70"), ("vertical", "12"), ("club_speed", "fast")],
    ] {
        let e = derive_values(&shot(&fields), false).unwrap_err();
        assert!(e.is_validation(), "{}", e.message());
    }
}

#[test]
fn a_wilder_curve_ranks_lower() {
    let rank = |axis: &str| {
        let d = fly(&[("ball_speed", "60"), ("vertical", "14"), ("horizontal", "0"), ("total_spin", "3000"), ("spin_axis", axis)]);
        (d.shot_name.clone(), rank_order(&d.shot_rank).unwrap())
    };
    assert_eq!(rank("0"), ("Straight".to_string(), 3));
    assert_eq!(rank("3"), ("Straight".to_string(), 3));
    assert_eq!(rank("3.001"), ("Straight Fade".to_string(), 2));
    assert_eq!(rank("12"), ("Straight Fade".to_string(), 2));
    assert_eq!(rank("12.001"), ("Straight Slice".to_string(), 5));
    assert_eq!(rank("-3"), ("Straight".to_string(), 3));
    assert_eq!(rank("-3.001"), ("Straight Draw".to_string(), 2));
    assert_eq!(rank("-12"), ("Straight Draw".to_string(), 2));
    assert_eq!(rank("-12.001"), ("Straight Hook".to_string(), 5));
    let putt = fly(&[("ball_speed", "3"), ("vertical", "0.05")]);
    assert_eq!(putt.shot_name, "Putt");
    assert_eq!(rank_order(&putt.shot_rank), None);
}
