use asteroids::utils::random::scale_draw;
use asteroids::{random_number, random_number_max, RandomSource};

#[test]
fn draws_come_in_the_order_given() {
    let mut source = RandomSource::new(vec![7, 8, 9]);
    assert_eq!(source.remaining(), 3);
    assert_eq!(source.next(), 7);
    assert_eq!(random_number(&mut source), 8);
    assert_eq!(source.remaining(), 1);
    assert_eq!(source.next(), 9);
    assert_eq!(source.remaining(), 0);
}

#[test]
fn a_source_that_is_used_up_draws_zero() {
    let mut source = RandomSource::new(vec![5]);
    assert_eq!(source.next(), 5);
    assert_eq!(source.next(), 0);
    assert_eq!(source.next(), 0);
    assert_eq!(source.remaining(), 0);
    assert_eq!(random_number_max(&mut source, 800_000), 0);
}

#[test]
fn an_empty_source_draws_zero() {
    let mut source = RandomSource::new(Vec::new());
    assert_eq!(source.remaining(), 0);
    assert_eq!(random_number(&mut source), 0);
}

#[test]
fn refill_replaces_what_is_left() {
    let mut source = RandomSource::new(vec![1, 2, 3]);
    assert_eq!(source.next(), 1);
    source.refill(vec![10, 20]);
    assert_eq!(source.remaining(), 2);
    assert_eq!(source.next(), 10);
    assert_eq!(source.next(), 20);
    assert_eq!(source.next(), 0);
}

#[test]
fn scale_draw_takes_the_fraction_of_the_bound() {
    assert_eq!(scale_draw(0, 800_000), 0);
    assert_eq!(scale_draw(0x8000_0000, 800_000), 400_000);
    assert_eq!(scale_draw(0x4000_0000, 800_000), 200_000);
    assert_eq!(scale_draw(u32::MAX, 800_000), 799_999);
    assert_eq!(scale_draw(u32::MAX, 1), 0);
    assert_eq!(scale_draw(u32::MAX, 0), 0);
    assert_eq!(scale_draw(0x8000_0000, i64::MAX), i64::MAX / 2);
}

#[test]
fn scale_draw_of_a_negative_bound() {
    assert_eq!(scale_draw(0x8000_0000, -800_000), -400_000);
    assert_eq!(scale_draw(u32::MAX, -800_000), -799_999);
    assert_eq!(scale_draw(1, -800_000), 0);
    assert_eq!(scale_draw(u32::MAX, i64::MIN), -9_223_372_034_707_292_160);
}

#[test]
fn random_number_max_stays_below_the_bound() {
    let mut source = RandomSource::new(vec![0, 1, 0x7fff_ffff, 0x8000_0000, 0xffff_fffe, u32::MAX]);
    while source.remaining() > 0 {
        let r = random_number_max(&mut source, 600_000);
        assert!(r >= 0 && r < 600_000);
    }
}

#[test]
fn random_number_max_uses_one_draw() {
    let mut source = RandomSource::new(vec![0x8000_0000, 0x4000_0000]);
    assert_eq!(random_number_max(&mut source, 100), 50);
    assert_eq!(source.remaining(), 1);
    assert_eq!(random_number_max(&mut source, 100), 25);
    assert_eq!(source.remaining(), 0);
}
