use asteroids::utils::trig::{HALF_TURN, QUARTER_TURN};
use asteroids::Vector;

#[test]
fn new_and_zero() {
    let v = Vector::new(3, -4);
    assert_eq!(v.x, 3);
    assert_eq!(v.y, -4);
    assert_eq!(Vector::zero(), Vector::new(0, 0));
}

#[test]
fn length_of_a_three_four_five_triangle() {
    assert_eq!(Vector::new(3_000, 4_000).length(), 5_000);
    assert_eq!(Vector::new(-3_000, 4_000).length(), 5_000);
    assert_eq!(Vector::new(0, 0).length(), 0);
}

#[test]
fn length_rounds_down() {
    assert_eq!(Vector::new(1, 1).length(), 1);
    assert_eq!(Vector::new(1_000, 1_000).length(), 1_414);
}

#[test]
fn length_of_the_longest_vector() {
    assert_eq!(Vector::new(i64::MIN, i64::MIN).length(), 13_043_817_825_332_782_212);
    assert_eq!(Vector::new(i64::MIN, 0).length(), 1u64 << 63);
}

#[test]
fn normalize_gives_a_vector_of_one_unit() {
    assert_eq!(Vector::new(3_000, 4_000).normalize(), Vector::new(600, 800));
    assert_eq!(Vector::new(0, -250_000).normalize(), Vector::new(0, -1_000));
    assert_eq!(Vector::new(-7, 0).normalize(), Vector::new(-1_000, 0));
}

#[test]
fn normalize_of_the_zero_vector_is_the_zero_vector() {
    assert_eq!(Vector::new(0, 0).normalize(), Vector::new(0, 0));
}

#[test]
fn normalize_of_the_longest_vector() {
    assert_eq!(Vector::new(i64::MIN, i64::MIN).normalize(), Vector::new(-707, -707));
    assert_eq!(Vector::new(i64::MAX, 0).normalize(), Vector::new(1_000, 0));
}

#[test]
fn dot_product_in_thousandths() {
    assert_eq!(Vector::new(2_000, 3_000).dot(&Vector::new(4_000, 5_000)), 23_000);
    assert_eq!(Vector::new(1_000, 0).dot(&Vector::new(0, 1_000)), 0);
    assert_eq!(Vector::new(-1_500, 0).dot(&Vector::new(1_001, 0)), -1_501);
}

#[test]
fn dot_product_stops_at_the_ends() {
    assert_eq!(Vector::new(i64::MIN, i64::MIN).dot(&Vector::new(i64::MIN, i64::MIN)), i64::MAX);
    assert_eq!(Vector::new(i64::MAX, i64::MAX).dot(&Vector::new(i64::MIN, i64::MIN)), i64::MIN);
}

#[test]
fn scale_by_a_factor_in_thousandths() {
    assert_eq!(Vector::new(600, 800).scale(25_000), Vector::new(15_000, 20_000));
    assert_eq!(Vector::new(250_000, -100_000).scale(16), Vector::new(4_000, -1_600));
    assert_eq!(Vector::new(999, -999).scale(1), Vector::new(0, 0));
    assert_eq!(Vector::new(i64::MAX, i64::MIN).scale(2_000), Vector::new(i64::MAX, i64::MIN));
}

#[test]
fn add_and_sub() {
    assert_eq!(Vector::new(1, 2).add(&Vector::new(30, 40)), Vector::new(31, 42));
    assert_eq!(Vector::new(1, 2).sub(&Vector::new(30, 40)), Vector::new(-29, -38));
}

#[test]
fn add_and_sub_stop_at_the_ends() {
    assert_eq!(Vector::new(i64::MAX, i64::MIN).add(&Vector::new(1, -1)), Vector::new(i64::MAX, i64::MIN));
    assert_eq!(Vector::new(i64::MIN, i64::MAX).sub(&Vector::new(1, -1)), Vector::new(i64::MIN, i64::MAX));
}

#[test]
fn distance_between_points() {
    assert_eq!(Vector::new(100_000, 100_000).distance(&Vector::new(103_000, 104_000)), 5_000);
    assert_eq!(Vector::new(0, 0).distance(&Vector::new(0, 0)), 0);
    assert_eq!(Vector::new(-1, 0).distance(&Vector::new(1, 0)), 2);
    assert_eq!(Vector::new(0, 0).distance(&Vector::new(1_000, 1_000)), 1_414);
}

#[test]
fn distance_stops_at_the_largest() {
    assert_eq!(Vector::new(i64::MIN, i64::MIN).distance(&Vector::new(i64::MAX, i64::MAX)), u64::MAX);
    assert_eq!(Vector::new(i64::MIN, 0).distance(&Vector::new(i64::MAX, 0)), u64::MAX);
    assert_eq!(Vector::new(i64::MIN, 0).distance(&Vector::new(i64::MAX - 1, 0)), u64::MAX - 1);
}

#[test]
fn rotate_by_quarter_turns() {
    assert_eq!(Vector::new(1_000, 0).rotate(QUARTER_TURN), Vector::new(0, 1_000));
    assert_eq!(Vector::new(1_000, 0).rotate(HALF_TURN), Vector::new(-1_000, 0));
    assert_eq!(Vector::new(0, 1_000).rotate(-QUARTER_TURN), Vector::new(1_000, 0));
    assert_eq!(Vector::new(3_000, 4_000).rotate(0), Vector::new(3_000, 4_000));
}

#[test]
fn rotate_by_a_twelfth_turn() {
    assert_eq!(Vector::new(3_000, 4_000).rotate(523_599), Vector::new(595, 4_960));
}

fn length_squared(v: Vector) -> i128 {
    (v.x as i128) * (v.x as i128) + (v.y as i128) * (v.y as i128)
}

#[test]
fn normalize_of_short_vectors() {
    assert_eq!(Vector::new(1, 1).normalize(), Vector::new(707, 707));
    assert_eq!(Vector::new(2, 1).normalize(), Vector::new(894, 447));
    assert_eq!(Vector::new(10, 10).normalize(), Vector::new(707, 707));
    assert_eq!(Vector::new(-1, 3).normalize(), Vector::new(-316, 948));
    assert_eq!(Vector::new(1, 0).normalize(), Vector::new(1_000, 0));
    assert_eq!(Vector::new(0, -1).normalize(), Vector::new(0, -1_000));
}

#[test]
fn normalize_of_vectors_about_where_the_finer_root_ends() {
    assert_eq!(Vector::new(1 << 39, 1 << 39).normalize(), Vector::new(707, 707));
    assert_eq!(Vector::new(1 << 40, 1 << 40).normalize(), Vector::new(707, 707));
    assert_eq!(Vector::new((1 << 40) - 1, 0).normalize(), Vector::new(1_000, 0));
    assert_eq!(Vector::new(1 << 40, 0).normalize(), Vector::new(1_000, 0));
}

#[test]
fn normalize_gives_one_unit_to_within_two_thousandths() {
    let mut x: i64 = -40;
    while x <= 40 {
        let mut y: i64 = -40;
        while y <= 40 {
            if x != 0 || y != 0 {
                for scale in [1, 7, 1_000, 999_983, 1 << 38, 1 << 50] {
                    let unit = Vector::new(x * scale, y * scale).normalize();
                    assert!(length_squared(unit) > 998 * 998);
                    assert!(length_squared(unit) < 1_001 * 1_001);
                }
            }
            y += 1;
        }
        x += 1;
    }
}

#[test]
fn with_length_brings_a_vector_to_a_length() {
    assert_eq!(Vector::new(3_000, 4_000).with_length(25_000), Vector::new(15_000, 20_000));
    assert_eq!(Vector::new(1, 1).with_length(30_000), Vector::new(21_213, 21_213));
    assert_eq!(Vector::new(1, 2).with_length(9), Vector::new(4, 8));
    assert_eq!(Vector::new(1, 1).with_length(524_287), Vector::new(370_726, 370_726));
    assert_eq!(Vector::new(0, 0).with_length(1_000), Vector::new(0, 0));
    assert_eq!(Vector::new(5, 0).with_length(0), Vector::new(0, 0));
}

#[test]
fn with_length_of_a_negative_length_turns_the_vector_round() {
    assert_eq!(Vector::new(1, 1).with_length(-1_000), Vector::new(-707, -707));
}

#[test]
fn with_length_stops_at_the_ends() {
    assert_eq!(Vector::new(-1, 0).with_length(i64::MIN), Vector::new(i64::MAX, 0));
    assert_eq!(Vector::new(1, 0).with_length(i64::MAX), Vector::new(i64::MAX, 0));
    assert_eq!(Vector::new(1, 0).with_length(i64::MIN), Vector::new(i64::MIN, 0));
}

#[test]
fn bearing_and_unit_vectors() {
    assert_eq!(Vector::bearing(0), Vector::new(1_000, 0));
    assert_eq!(Vector::bearing(785_398), Vector::new(706, 706));
    assert_eq!(Vector::unit(0), Vector::new(1_000, 0));
    assert_eq!(Vector::unit(QUARTER_TURN), Vector::new(0, 1_000));
    assert_eq!(Vector::unit(523_599), Vector::new(865, 500));
    assert_eq!(Vector::unit(785_398), Vector::new(707, 707));
}

#[test]
fn rotate_by_an_eighth_turn() {
    assert_eq!(Vector::new(1_000, 0).rotate(785_398), Vector::new(707, 707));
}

#[test]
fn rotate_keeps_the_length_to_within_two_thousandths_of_it() {
    let vectors = [
        Vector::new(1_000, 0),
        Vector::new(30_000, 40_000),
        Vector::new(-250_000, 1),
        Vector::new(123_456_789, -987_654_321),
        Vector::new(1 << 50, -(1 << 49)),
    ];
    for v in vectors {
        let mut angle: i64 = -6_300_000;
        while angle < 6_300_000 {
            let w = v.rotate(angle);
            let wx = (w.x as i128).abs();
            let wy = (w.y as i128).abs();
            assert!(1_000_000 * length_squared(w) < 1_002_001 * length_squared(v));
            assert!(1_000_000 * ((wx + 1) * (wx + 1) + (wy + 1) * (wy + 1)) > 996_004 * length_squared(v));
            angle += 211_111;
        }
    }
}
