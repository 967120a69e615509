use asteroids::utils::fixed::{
    age, charge, drain, elapsed_time, integer_sqrt, quotient, saturate, scale, wide_product, UNIT,
};

#[test]
fn unit_is_a_thousand() {
    assert_eq!(UNIT, 1000);
}

#[test]
fn saturate_keeps_values_in_range() {
    assert_eq!(saturate(0), 0);
    assert_eq!(saturate(-5), -5);
    assert_eq!(saturate(i64::MAX as i128), i64::MAX);
    assert_eq!(saturate(i64::MIN as i128), i64::MIN);
}

#[test]
fn saturate_stops_at_the_ends() {
    assert_eq!(saturate(i64::MAX as i128 + 1), i64::MAX);
    assert_eq!(saturate(i64::MIN as i128 - 1), i64::MIN);
    assert_eq!(saturate(i128::MAX), i64::MAX);
    assert_eq!(saturate(i128::MIN), i64::MIN);
}

#[test]
fn wide_product_is_exact() {
    assert_eq!(wide_product(3, -4), -12);
    assert_eq!(wide_product(i64::MAX, i64::MAX), (i64::MAX as i128) * (i64::MAX as i128));
    assert_eq!(wide_product(i64::MIN, i64::MIN), 1i128 << 126);
    assert_eq!(wide_product(i64::MIN, i64::MAX), (i64::MIN as i128) * (i64::MAX as i128));
}

#[test]
fn quotient_rounds_toward_zero() {
    assert_eq!(quotient(7, 2), 3);
    assert_eq!(quotient(-7, 2), -3);
    assert_eq!(quotient(6, 2), 3);
    assert_eq!(quotient(-6, 2), -3);
    assert_eq!(quotient(1, 1000), 0);
    assert_eq!(quotient(-1, 1000), 0);
    assert_eq!(quotient(0, 5), 0);
}

#[test]
fn scale_multiplies_in_thousandths() {
    assert_eq!(scale(250_000, 16), 4_000);
    assert_eq!(scale(1_500, 1_500), 2_250);
    assert_eq!(scale(-1_999, 1), -1);
    assert_eq!(scale(999, 1), 0);
    assert_eq!(scale(-999, 1), 0);
    assert_eq!(scale(123, 0), 0);
}

#[test]
fn negative_elapsed_time_counts_as_none() {
    assert_eq!(elapsed_time(-1), 0);
    assert_eq!(elapsed_time(i64::MIN), 0);
    assert_eq!(elapsed_time(0), 0);
    assert_eq!(elapsed_time(16), 16);
}

#[test]
fn charge_runs_up_to_the_limit() {
    assert_eq!(charge(0, 50, 2000), 50);
    assert_eq!(charge(1950, 50, 2000), 2000);
    assert_eq!(charge(1990, 50, 2000), 2000);
    assert_eq!(charge(2000, 50, 2000), 2000);
    assert_eq!(charge(100, -50, 2000), 100);
    assert_eq!(charge(100, i64::MAX, 2000), 2000);
}

#[test]
fn drain_runs_down_to_zero() {
    assert_eq!(drain(100, 30), 70);
    assert_eq!(drain(100, 100), 0);
    assert_eq!(drain(100, 130), 0);
    assert_eq!(drain(0, 10), 0);
    assert_eq!(drain(100, -30), 100);
    assert_eq!(drain(100, i64::MAX), 0);
}

#[test]
fn age_adds_time_and_stops_at_the_largest() {
    assert_eq!(age(0, 16), 16);
    assert_eq!(age(990, 16), 1006);
    assert_eq!(age(5, -16), 5);
    assert_eq!(age(i64::MAX - 1, 16), i64::MAX);
}

#[test]
fn integer_sqrt_rounds_down() {
    assert_eq!(integer_sqrt(0), 0);
    assert_eq!(integer_sqrt(1), 1);
    assert_eq!(integer_sqrt(2), 1);
    assert_eq!(integer_sqrt(3), 1);
    assert_eq!(integer_sqrt(4), 2);
    assert_eq!(integer_sqrt(24), 4);
    assert_eq!(integer_sqrt(25), 5);
    assert_eq!(integer_sqrt(26), 5);
    assert_eq!(integer_sqrt(1_000_000), 1_000);
    assert_eq!(integer_sqrt(999_999), 999);
}

#[test]
fn integer_sqrt_of_the_largest_numbers() {
    assert_eq!(integer_sqrt(u128::MAX), u64::MAX);
    assert_eq!(integer_sqrt((u64::MAX as u128) * (u64::MAX as u128)), u64::MAX);
    assert_eq!(integer_sqrt((u64::MAX as u128) * (u64::MAX as u128) - 1), u64::MAX - 1);
    assert_eq!(integer_sqrt(1u128 << 126), 1u64 << 63);
}

#[test]
fn integer_sqrt_squares_around_its_argument() {
    let mut n: u128 = 0;
    while n < 5_000 {
        let r = integer_sqrt(n) as u128;
        assert!(r * r <= n);
        assert!(n < (r + 1) * (r + 1));
        n += 1;
    }
}
