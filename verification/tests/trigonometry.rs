use asteroids::utils::trig::{cos, sin, FULL_TURN, HALF_TURN, QUARTER_TURN};

#[test]
fn sine_and_cosine_at_the_quarter_turns() {
    assert_eq!(sin(0), 0);
    assert_eq!(cos(0), 1000);
    assert_eq!(sin(QUARTER_TURN), 1000);
    assert_eq!(cos(QUARTER_TURN), 0);
    assert_eq!(sin(HALF_TURN), 0);
    assert_eq!(cos(HALF_TURN), -1000);
    assert_eq!(sin(-QUARTER_TURN), -1000);
    assert_eq!(cos(-QUARTER_TURN), 0);
    assert_eq!(sin(FULL_TURN), 0);
    assert_eq!(cos(FULL_TURN), 1000);
}

#[test]
fn sine_of_a_twelfth_turn_is_a_half() {
    assert_eq!(sin(523_599), 500);
    assert_eq!(sin(-523_599), -500);
    assert_eq!(cos(1_047_198), 500);
}

#[test]
fn sine_of_an_eighth_turn() {
    assert_eq!(sin(785_398), 706);
    assert_eq!(cos(785_398), 706);
}

#[test]
fn sine_repeats_after_a_full_turn() {
    let mut angle: i64 = -3 * FULL_TURN;
    while angle < 3 * FULL_TURN {
        assert_eq!(sin(angle), sin(angle + FULL_TURN));
        assert_eq!(cos(angle), cos(angle - FULL_TURN));
        angle += 100_003;
    }
}

#[test]
fn sine_stays_within_a_thousand_at_the_ends_of_the_range() {
    for angle in [i64::MIN, i64::MIN + 1, -1, 0, 1, i64::MAX - 1, i64::MAX] {
        assert!(sin(angle) >= -1000 && sin(angle) <= 1000);
        assert!(cos(angle) >= -1000 && cos(angle) <= 1000);
    }
}

#[test]
fn sine_is_close_to_the_true_sine_within_a_turn() {
    let mut angle: i64 = -FULL_TURN;
    while angle <= FULL_TURN {
        let radians = angle as f64 / 1_000_000.0;
        assert!((sin(angle) as f64 - 1000.0 * radians.sin()).abs() < 3.0);
        assert!((cos(angle) as f64 - 1000.0 * radians.cos()).abs() < 3.0);
        angle += 4_999;
    }
}
