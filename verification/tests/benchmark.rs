use opengolfcoach_rust::benchmark::{compare, Cohort, CohortTable, Mark, Standing};
use opengolfcoach_rust::decimal::Decimal;
use opengolfcoach_rust::derive_values;
use opengolfcoach_rust::shot::RawShot;

fn dec(text: &str) -> Decimal {
    Decimal::parse(text).unwrap()
}

fn table(marks: &[(&str, u8)]) -> Option<CohortTable> {
    CohortTable::new(marks.iter().map(|(v, p)| Mark { value: dec(v), percentile: *p }).collect())
}

#[test]
fn a_table_needs_rising_values_and_percentiles() {
    assert!(table(&[]).is_none());
    assert!(table(&[("100", 50)]).is_some());
    assert!(table(&[("100", 101)]).is_none());
    assert!(table(&[("100", 10), ("150", 50), ("200.5", 50), ("2005e-1", 90)]).is_none());
    assert!(table(&[("100", 10), ("150", 50), ("200.5", 50), ("201", 100)]).is_some());
    assert!(table(&[("100", 10), ("100.0", 50)]).is_none());
    assert!(table(&[("150", 10), ("100", 50)]).is_none());
    assert!(table(&[("100", 50), ("150", 10)]).is_none());
    assert!(table(&[("100", 50), ("150", 60), ("200", 101)]).is_none());
    assert!(table(&[("-5", 0), ("0", 1), ("1e-9", 2)]).is_some());
    let t = table(&[("100", 10), ("150", 50)]).unwrap();
    assert_eq!(
        *t.marks(),
        vec![Mark { value: dec("100"), percentile: 10 }, Mark { value: dec("150"), percentile: 50 }]
    );
}

#[test]
fn a_value_stands_at_the_last_mark_it_reaches() {
    let t = table(&[("100", 10), ("150", 25), ("200", 50), ("250", 75), ("300", 90)]).unwrap();
    for (value, percentile) in [
        ("100", 10), ("149.999", 10), ("150", 25), ("1.5e2", 25), ("199", 25), ("200.0", 50),
        ("249.99", 50), ("250", 75), ("299.9", 75), ("300", 90),
    ] {
        assert_eq!(t.percentile_of(&dec(value)), percentile, "{}", value);
    }
}

#[test]
fn values_outside_the_table_stand_at_its_ends() {
    let t = table(&[("100", 10), ("150", 25), ("300", 90)]).unwrap();
    for value in ["99.999", "0", "-50", "-1e300", "1e-300"] {
        assert_eq!(t.percentile_of(&dec(value)), 10, "{}", value);
    }
    for value in ["300", "300.001", "1e9", "1e300"] {
        assert_eq!(t.percentile_of(&dec(value)), 90, "{}", value);
    }
    let one = table(&[("5", 42)]).unwrap();
    for value in ["-1", "5", "6"] {
        assert_eq!(one.percentile_of(&dec(value)), 42);
    }
}

#[test]
fn a_larger_value_never_stands_lower() {
    let t = table(&[("100", 10), ("150", 25), ("200", 50), ("250", 75), ("300", 90)]).unwrap();
    let values = ["-10", "0", "99", "100", "101", "150", "199.5", "200", "260", "300", "1e5"];
    for (i, a) in values.iter().enumerate() {
        for b in &values[i..] {
            assert!(t.percentile_of(&dec(a)) <= t.percentile_of(&dec(b)), "{} {}", a, b);
        }
    }
}

#[test]
fn a_shot_is_compared_metric_by_metric() {
    let cohort = Cohort {
        carry_distance: table(&[("150", 10), ("200", 40), ("230", 70), ("260", 95)]).unwrap(),
        club_speed: table(&[("35", 20), ("42", 50), ("50", 90)]).unwrap(),
        smash_factor: table(&[("1.30", 25), ("1.42", 50), ("1.48", 80)]).unwrap(),
    };
    let d = derive_values(
        &RawShot {
            ball_speed: Some("70.0".to_string()),
            vertical_launch_angle: Some("12.5".to_string()),
            horizontal_launch_angle: None,
            total_spin: Some("2500".to_string()),
            spin_axis: Some("0".to_string()),
            backspin: None,
            sidespin: None,
            club_speed: None,
        },
        false,
    )
    .unwrap();
    assert_eq!(
        compare(&d, &cohort),
        Standing { carry_distance: 70, club_speed: 50, smash_factor: 80 }
    );
}
