use asteroids::components::countdown::{COUNT_TIME, FIRST_COUNT, LAST_COUNT};
use asteroids::{Announcer, Area, Countdown, Explosion, GameEvent, GameObjectType, Vector};

fn arena() -> Area {
    Area { width: 800_000, height: 600_000 }
}

#[test]
fn explosion_ages_and_ends_after_a_second() {
    let mut explosion = Explosion { time: 0, position: Vector::new(10_000, 20_000) };
    assert_eq!(explosion.get_type(), GameObjectType::Explosion);
    assert_eq!(explosion.radius(), 10_000);
    assert!(!explosion.is_expired());
    explosion.move_t(1000, arena());
    assert_eq!(explosion.time, 1000);
    assert!(!explosion.is_expired());
    explosion.move_t(1, arena());
    assert_eq!(explosion.time, 1001);
    assert!(explosion.is_expired());
    assert_eq!(explosion.current_position(), Vector::new(10_000, 20_000));
}

#[test]
fn explosion_cannot_be_put_out() {
    let mut explosion = Explosion { time: 500, position: Vector::new(1, 2) };
    explosion.expire();
    assert!(!explosion.is_expired());
    assert_eq!(explosion, Explosion { time: 500, position: Vector::new(1, 2) });
}

#[test]
fn explosion_does_not_age_backwards() {
    let mut explosion = Explosion { time: 500, position: Vector::new(1, 2) };
    explosion.move_t(-100, arena());
    assert_eq!(explosion.time, 500);
}

#[test]
fn explosion_age_stops_at_the_largest_time() {
    let mut explosion = Explosion { time: 1, position: Vector::new(1, 2) };
    explosion.move_t(i64::MAX, arena());
    assert_eq!(explosion.time, i64::MAX);
    assert!(explosion.is_expired());
}

#[test]
fn announcer_ends_after_three_seconds() {
    let mut announcer =
        Announcer { time: 0, position: Vector::new(5_000, 5_000), text: String::from("Round 2") };
    assert_eq!(announcer.get_type(), GameObjectType::Announcer);
    assert_eq!(announcer.radius(), 10_000);
    announcer.move_t(3000, arena());
    assert!(!announcer.is_expired());
    announcer.move_t(1, arena());
    assert!(announcer.is_expired());
    assert_eq!(announcer.text, "Round 2");
    assert_eq!(announcer.current_position(), Vector::new(5_000, 5_000));
    announcer.expire();
    assert_eq!(announcer.time, 3001);
}

#[test]
fn countdown_starts_at_five() {
    let countdown = Countdown::new(Vector::new(380_000, 292_000));
    assert_eq!(countdown.count, FIRST_COUNT);
    assert_eq!(countdown.count, 5);
    assert_eq!(countdown.time, 0);
    assert_eq!(countdown.text(), "5");
    assert_eq!(countdown.get_type(), GameObjectType::Countdown);
    assert_eq!(countdown.radius(), 10_000);
    assert!(!countdown.is_expired());
}

#[test]
fn countdown_counts_once_the_second_is_over() {
    let mut countdown = Countdown::new(Vector::new(380_000, 292_000));
    assert_eq!(countdown.move_t(1000, arena()), None);
    assert_eq!(countdown.count, 5);
    assert_eq!(countdown.time, COUNT_TIME);
    assert_eq!(countdown.move_t(1, arena()), None);
    assert_eq!(countdown.count, 4);
    assert_eq!(countdown.time, 0);
    assert_eq!(countdown.text(), "4");
}

#[test]
fn countdown_counts_at_most_once_in_a_call() {
    let mut countdown = Countdown::new(Vector::new(380_000, 292_000));
    assert_eq!(countdown.move_t(5000, arena()), None);
    assert_eq!(countdown.count, 4);
    assert_eq!(countdown.time, 0);
}

#[test]
fn countdown_calls_for_the_wave_when_it_is_over() {
    let mut countdown = Countdown::new(Vector::new(380_000, 292_000));
    let mut events = Vec::new();
    let mut steps = 0;
    while steps < 6 {
        events.push(countdown.move_t(1001, arena()));
        steps += 1;
    }
    assert_eq!(events, vec![None, None, None, None, None, Some(GameEvent::SpawnAsteroids)]);
    assert_eq!(countdown.count, LAST_COUNT);
    assert_eq!(countdown.count, -1);
    assert_eq!(countdown.text(), "-1");
    assert!(countdown.is_expired());
}

#[test]
fn countdown_that_is_over_stays_over() {
    let mut countdown = Countdown { time: 0, position: Vector::new(0, 0), count: -1 };
    assert_eq!(countdown.move_t(5000, arena()), Some(GameEvent::SpawnAsteroids));
    assert_eq!(countdown.count, -1);
    assert!(countdown.is_expired());
    countdown.expire();
    assert_eq!(countdown.count, -1);
}

#[test]
fn countdown_outside_the_arena_is_brought_in() {
    let small = Area { width: 10_000, height: 10_000 };
    let mut countdown = Countdown::new(Vector::new(-15_000, -3_000));
    countdown.move_t(16, small);
    assert_eq!(countdown.current_position(), Vector::new(10_000, 10_000));
}
