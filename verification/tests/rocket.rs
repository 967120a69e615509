use asteroids::components::rocket::{
    heading, pointing, ASTEROID_DAMAGE, BULLET_DAMAGE, MAX_BURST_TIME, MAX_SHIELD_TIME, MAX_THRUST,
    ROCKET_DAMAGE, ROCKET_RADIUS,
};
use asteroids::utils::trig::{HALF_TURN, QUARTER_TURN};
use asteroids::{
    Area, Bullet, GameObject, GameObjectFactory, GameObjectType, GamepadState, Rocket, Vector,
};

fn arena() -> Area {
    Area { width: 800_000, height: 600_000 }
}

fn rocket_at(position: Vector) -> Rocket {
    match GameObjectFactory::new().create_rocket(position, Vector::new(50_000, 50_000), String::from("blue")) {
        GameObject::Rocket(rocket) => rocket,
        _ => panic!("the factory made something else"),
    }
}

fn rocket() -> Rocket {
    rocket_at(Vector::new(100_000, 100_000))
}

fn controls() -> GamepadState {
    GamepadState::new()
}

fn only_bullet(shots: Vec<GameObject>) -> Bullet {
    assert_eq!(shots.len(), 1);
    match &shots[0] {
        GameObject::Bullet(bullet) => bullet.clone(),
        _ => panic!("a shot that is no bullet"),
    }
}

#[test]
fn constants_of_a_rocket() {
    assert_eq!(MAX_SHIELD_TIME, 2_000);
    assert_eq!(MAX_BURST_TIME, 2_500);
    assert_eq!(MAX_THRUST, 100_000);
    assert_eq!(ROCKET_RADIUS, 20_000);
    assert_eq!(ASTEROID_DAMAGE, 100);
    assert_eq!(BULLET_DAMAGE, 50);
    assert_eq!(ROCKET_DAMAGE, 500);
}

#[test]
fn a_new_rocket_is_at_rest_and_unharmed() {
    let r = rocket();
    assert_eq!(r.score, 0);
    assert_eq!(r.damage, 0);
    assert_eq!(r.score_pos, Vector::new(50_000, 50_000));
    assert_eq!(r.position, Vector::new(100_000, 100_000));
    assert_eq!(r.rotation, 0);
    assert_eq!(r.speed, Vector::new(0, 0));
    assert_eq!(r.acc, Vector::new(0, 0));
    assert_eq!(r.thrust, 0);
    assert_eq!(r.last_shot, 0);
    assert!(!r.shield_on);
    assert_eq!(r.shield_time, 0);
    assert_eq!(r.bullet_color, "blue");
    assert_eq!(r.burst_time, 0);
    assert_eq!(r.get_type(), GameObjectType::Rocket);
    assert_eq!(r.radius(), 20_000);
    assert_eq!(r.current_position(), Vector::new(100_000, 100_000));
}

#[test]
fn a_rocket_is_never_over() {
    let mut r = rocket();
    assert!(!r.is_expired());
    r.expire();
    assert!(!r.is_expired());
    r.collision_with(GameObjectType::Rocket, &GameObjectFactory::new());
    assert!(!r.is_expired());
}

#[test]
fn throttle_maps_to_thrust() {
    let mut r = rocket();
    let mut state = controls();
    state.thrust = 1000;
    r.update(16, &state);
    assert_eq!(r.thrust, 100_000);
    assert_eq!(r.acc, Vector::new(0, -100_000));
    state.thrust = 500;
    r.update(16, &state);
    assert_eq!(r.thrust, 50_000);
    assert_eq!(r.acc, Vector::new(0, -50_000));
    state.thrust = 0;
    r.update(16, &state);
    assert_eq!(r.thrust, 0);
    assert_eq!(r.acc, Vector::new(0, 0));
}

#[test]
fn throttle_out_of_range_leaves_the_thrust() {
    let mut r = rocket();
    let mut state = controls();
    state.thrust = 700;
    r.update(16, &state);
    assert_eq!(r.thrust, 70_000);
    state.thrust = 1001;
    r.update(16, &state);
    assert_eq!(r.thrust, 70_000);
    state.thrust = -1;
    r.update(16, &state);
    assert_eq!(r.thrust, 70_000);
    state.thrust = i64::MAX;
    r.update(16, &state);
    assert_eq!(r.thrust, 70_000);
    assert_eq!(r.acc, Vector::new(0, -70_000));
}

#[test]
fn the_stick_turns_the_rocket_by_a_tenth_of_a_radian() {
    let mut r = rocket();
    let mut state = controls();
    state.rotate = 1000;
    r.update(16, &state);
    assert_eq!(r.rotation, 100_000);
    r.update(500, &state);
    assert_eq!(r.rotation, 200_000);
    state.rotate = -500;
    r.update(16, &state);
    assert_eq!(r.rotation, 150_000);
}

#[test]
fn the_rotation_is_never_brought_back_into_one_turn() {
    let mut r = rocket();
    let mut state = controls();
    state.rotate = 1000;
    let mut steps = 0;
    while steps < 100 {
        r.update(16, &state);
        steps += 1;
    }
    assert_eq!(r.rotation, 10_000_000);
}

#[test]
fn the_rotation_stops_at_the_ends_of_its_range() {
    let mut r = rocket();
    r.rotation = i64::MAX - 5;
    let mut state = controls();
    state.rotate = i64::MAX;
    r.update(16, &state);
    assert_eq!(r.rotation, i64::MAX);
    state.rotate = i64::MIN;
    r.update(16, &state);
    r.update(16, &state);
    assert_eq!(r.rotation, i64::MIN);
}

#[test]
fn the_acceleration_follows_the_heading() {
    let mut r = rocket();
    let mut state = controls();
    state.thrust = 1000;
    r.rotation = 523_599 - 100_000;
    state.rotate = 1000;
    r.update(16, &state);
    assert_eq!(r.rotation, 523_599);
    assert_eq!(r.acc, Vector::new(50_044, -86_576));
    r.rotation = QUARTER_TURN;
    state.rotate = 0;
    r.update(16, &state);
    assert_eq!(r.acc, Vector::new(100_000, 0));
    r.rotation = HALF_TURN;
    r.update(16, &state);
    assert_eq!(r.acc, Vector::new(0, 100_000));
}

#[test]
fn a_rocket_gains_speed_and_moves() {
    let mut r = rocket();
    let mut state = controls();
    state.thrust = 1000;
    r.update(100, &state);
    r.move_t(100, arena());
    assert_eq!(r.speed, Vector::new(0, -10_000));
    assert_eq!(r.position, Vector::new(100_000, 99_000));
    r.move_t(100, arena());
    assert_eq!(r.speed, Vector::new(0, -20_000));
    assert_eq!(r.position, Vector::new(100_000, 97_000));
}

#[test]
fn a_rocket_wraps_around_the_arena() {
    let mut r = rocket_at(Vector::new(100_000, 1_000));
    r.speed = Vector::new(0, -100_000);
    r.move_t(20, arena());
    assert_eq!(r.position, Vector::new(100_000, 600_000));
    r.speed = Vector::new(0, 100_000);
    r.move_t(20, arena());
    assert_eq!(r.position, Vector::new(100_000, 0));
}

#[test]
fn the_shield_charges_while_it_is_held_up() {
    let mut r = rocket();
    let mut state = controls();
    state.shield = true;
    r.update(50, &state);
    assert!(r.shield_on);
    assert_eq!(r.shield_time, 50);
    assert!(r.is_shield_active());
    r.move_t(50, arena());
    assert_eq!(r.shield_time, 100);
    r.update(1_899, &state);
    assert_eq!(r.shield_time, 1_999);
    assert!(r.is_shield_active());
    r.update(50, &state);
    assert_eq!(r.shield_time, 2_000);
    assert!(!r.is_shield_active());
    r.move_t(50, arena());
    assert_eq!(r.shield_time, 2_000);
}

#[test]
fn the_shield_drains_while_it_is_let_down() {
    let mut r = rocket();
    r.shield_time = 120;
    r.shield_on = true;
    let state = controls();
    r.update(50, &state);
    assert!(!r.shield_on);
    assert_eq!(r.shield_time, 70);
    assert!(!r.is_shield_active());
    r.move_t(50, arena());
    assert_eq!(r.shield_time, 20);
    r.update(50, &state);
    assert_eq!(r.shield_time, 0);
    r.move_t(50, arena());
    assert_eq!(r.shield_time, 0);
}

#[test]
fn a_shield_without_charge_gives_no_cover() {
    let factory = GameObjectFactory::new();
    let mut shielded = rocket();
    shielded.shield_on = true;
    shielded.shield_time = 0;
    let mut unshielded = rocket();
    assert!(!shielded.is_shield_active());
    let a = shielded.collision_with(GameObjectType::Asteroid, &factory);
    let b = unshielded.collision_with(GameObjectType::Asteroid, &factory);
    assert_eq!(shielded.damage, 100);
    assert_eq!(unshielded.damage, 100);
    assert_eq!(shielded.shield_time, 0);
    assert_eq!(a.len(), 1);
    assert_eq!(b.len(), 1);
}

#[test]
fn a_full_shield_gives_no_cover() {
    let factory = GameObjectFactory::new();
    let mut r = rocket();
    r.shield_on = true;
    r.shield_time = MAX_SHIELD_TIME;
    assert!(!r.is_shield_active());
    r.collision_with(GameObjectType::Bullet, &factory);
    assert_eq!(r.damage, 50);
    assert_eq!(r.shield_time, MAX_SHIELD_TIME);
}

#[test]
fn a_charged_shield_that_is_let_down_gives_no_cover() {
    let factory = GameObjectFactory::new();
    let mut r = rocket();
    r.shield_on = false;
    r.shield_time = 1_000;
    assert!(!r.is_shield_active());
    r.collision_with(GameObjectType::Rocket, &factory);
    assert_eq!(r.damage, 500);
    assert_eq!(r.shield_time, 1_000);
}

#[test]
fn damage_without_a_shield() {
    let factory = GameObjectFactory::new();
    let mut r = rocket();
    assert_eq!(r.collision_with(GameObjectType::Asteroid, &factory).len(), 1);
    assert_eq!(r.damage, 100);
    assert!(r.collision_with(GameObjectType::Bullet, &factory).is_empty());
    assert_eq!(r.damage, 150);
    assert!(r.collision_with(GameObjectType::Rocket, &factory).is_empty());
    assert_eq!(r.damage, 650);
    assert!(r.collision_with(GameObjectType::Explosion, &factory).is_empty());
    assert!(r.collision_with(GameObjectType::Announcer, &factory).is_empty());
    assert!(r.collision_with(GameObjectType::Countdown, &factory).is_empty());
    assert_eq!(r.damage, 650);
    assert_eq!(r.score, 0);
}

#[test]
fn damage_stops_at_the_largest_count() {
    let factory = GameObjectFactory::new();
    let mut r = rocket();
    r.damage = u64::MAX - 10;
    r.collision_with(GameObjectType::Bullet, &factory);
    assert_eq!(r.damage, u64::MAX);
}

#[test]
fn a_protecting_shield_takes_the_hit() {
    let factory = GameObjectFactory::new();
    let mut r = rocket();
    r.shield_on = true;
    r.shield_time = 1_000;
    assert!(r.is_shield_active());
    assert!(r.collision_with(GameObjectType::Bullet, &factory).is_empty());
    assert_eq!(r.damage, 0);
    assert_eq!(r.shield_time, 1_010);
    assert!(r.collision_with(GameObjectType::Rocket, &factory).is_empty());
    assert_eq!(r.damage, 0);
    assert_eq!(r.shield_time, 1_060);
    let sparks = r.collision_with(GameObjectType::Asteroid, &factory);
    assert_eq!(r.damage, 0);
    assert_eq!(r.shield_time, 1_060);
    assert_eq!(sparks.len(), 1);
}

#[test]
fn a_shield_that_absorbs_stops_at_its_full_charge() {
    let factory = GameObjectFactory::new();
    let mut r = rocket();
    r.shield_on = true;
    r.shield_time = 1_995;
    r.collision_with(GameObjectType::Rocket, &factory);
    assert_eq!(r.shield_time, 2_000);
    assert_eq!(r.damage, 0);
    r.collision_with(GameObjectType::Rocket, &factory);
    assert_eq!(r.damage, 500);
}

#[test]
fn an_asteroid_leaves_an_explosion_where_the_rocket_is() {
    let factory = GameObjectFactory::new();
    let mut r = rocket_at(Vector::new(123_000, 456_000));
    let sparks = r.collision_with(GameObjectType::Asteroid, &factory);
    assert_eq!(sparks.len(), 1);
    match &sparks[0] {
        GameObject::Explosion(explosion) => {
            assert_eq!(explosion.position, Vector::new(123_000, 456_000));
            assert_eq!(explosion.time, 0);
        }
        _ => panic!("no explosion"),
    }
}

#[test]
fn the_first_shot_is_fired_at_once() {
    let mut r = rocket();
    r.speed = Vector::new(1_000, 2_000);
    let shots = r.fire_on(50, 4);
    let b = only_bullet(shots);
    assert!(!b.expired);
    assert_eq!(b.start_position, Vector::new(100_000, 75_000));
    assert_eq!(b.position, Vector::new(100_000, 75_000));
    assert_eq!(b.speed, Vector::new(1_000, -248_000));
    assert_eq!(b.color, "blue");
    assert_eq!(b.rocket, 4);
    assert_eq!(r.last_shot, 10);
    assert_eq!(r.burst_time, 50);
}

#[test]
fn a_bullet_leaves_along_the_heading() {
    let mut r = rocket();
    r.rotation = 523_599;
    let b = only_bullet(r.fire_on(16, 0));
    assert_eq!(b.start_position, Vector::new(112_511, 78_356));
    assert_eq!(b.speed, Vector::new(125_111, -216_442));
    let mut r = rocket();
    r.rotation = QUARTER_TURN;
    let b = only_bullet(r.fire_on(16, 0));
    assert_eq!(b.start_position, Vector::new(125_000, 100_000));
    assert_eq!(b.speed, Vector::new(250_000, 0));
}

#[test]
fn shots_come_every_fifth_frame_until_the_gun_is_hot() {
    let mut r = rocket();
    let mut state = controls();
    state.fire = true;
    let mut frames_with_a_shot = Vec::new();
    let mut frame = 1;
    while frame <= 80 {
        let shots = r.update(50, &state);
        assert!(shots.len() <= 1);
        if shots.len() == 1 {
            frames_with_a_shot.push(frame);
        }
        frame += 1;
    }
    assert_eq!(frames_with_a_shot, vec![1, 6, 11, 16, 21, 26, 31, 36, 41, 46]);
    assert_eq!(r.burst_time, MAX_BURST_TIME);
}

#[test]
fn the_time_since_the_last_shot_runs_while_the_trigger_is_held() {
    let mut r = rocket();
    assert_eq!(r.fire_on(50, 0).len(), 1);
    assert_eq!(r.last_shot, 10);
    assert_eq!(r.fire_on(50, 0).len(), 0);
    assert_eq!(r.last_shot, 60);
    assert_eq!(r.fire_on(140, 0).len(), 0);
    assert_eq!(r.last_shot, 200);
    assert_eq!(r.fire_on(1, 0).len(), 0);
    assert_eq!(r.last_shot, 201);
    assert_eq!(r.fire_on(1, 0).len(), 1);
    assert_eq!(r.last_shot, 10);
    assert_eq!(r.burst_time, 242);
}

#[test]
fn a_hot_gun_does_not_fire() {
    let mut r = rocket();
    r.burst_time = 2_460;
    assert_eq!(r.fire_on(50, 0).len(), 0);
    assert_eq!(r.burst_time, 2_500);
    assert_eq!(r.last_shot, 50);
    let mut r = rocket();
    r.burst_time = 2_449;
    assert_eq!(r.fire_on(50, 0).len(), 1);
    assert_eq!(r.burst_time, 2_499);
    let mut r = rocket();
    r.burst_time = 2_450;
    assert_eq!(r.fire_on(50, 0).len(), 0);
    assert_eq!(r.burst_time, 2_500);
}

#[test]
fn releasing_the_trigger_makes_the_gun_ready_and_cools_it() {
    let mut r = rocket();
    let mut state = controls();
    state.fire = true;
    assert_eq!(r.update(50, &state).len(), 1);
    assert_eq!(r.update(50, &state).len(), 0);
    assert_eq!(r.burst_time, 100);
    state.fire = false;
    assert_eq!(r.update(30, &state).len(), 0);
    assert_eq!(r.last_shot, 0);
    assert_eq!(r.burst_time, 70);
    state.fire = true;
    assert_eq!(r.update(50, &state).len(), 1);
    assert_eq!(r.burst_time, 120);
    r.fire_off(500);
    assert_eq!(r.burst_time, 0);
    assert_eq!(r.last_shot, 0);
}

#[test]
fn a_hot_gun_fires_again_once_it_has_cooled() {
    let mut r = rocket();
    r.burst_time = MAX_BURST_TIME;
    r.last_shot = 300;
    assert_eq!(r.fire_on(50, 0).len(), 0);
    r.fire_off(51);
    assert_eq!(r.burst_time, 2_449);
    assert_eq!(r.fire_on(50, 0).len(), 1);
}

#[test]
fn update_names_the_rocket_that_owns_the_bullet() {
    let mut r = rocket();
    let mut state = controls();
    state.fire = true;
    state.rocket_index = 7;
    let b = only_bullet(r.update(16, &state));
    assert_eq!(b.rocket, 7);
}

#[test]
fn update_fires_along_the_heading_it_has_just_turned_to() {
    let mut r = rocket();
    r.rotation = QUARTER_TURN - 100_000;
    let mut state = controls();
    state.fire = true;
    state.rotate = 1000;
    let b = only_bullet(r.update(16, &state));
    assert_eq!(b.speed, Vector::new(250_000, 0));
    assert_eq!(b.start_position, Vector::new(125_000, 100_000));
}

#[test]
fn a_rocket_that_has_not_turned_points_up() {
    assert_eq!(heading(0), Vector::new(0, -1_000));
}

#[test]
fn the_heading_turns_with_the_rotation() {
    assert_eq!(heading(QUARTER_TURN), Vector::new(1_000, 0));
    assert_eq!(heading(HALF_TURN), Vector::new(0, 1_000));
    assert_eq!(heading(-QUARTER_TURN), Vector::new(-1_000, 0));
    assert_eq!(heading(523_599), Vector::new(500, -865));
    assert_eq!(heading(100_000), Vector::new(100, -994));
    assert_eq!(heading(785_398), Vector::new(707, -707));
}

#[test]
fn the_heading_at_the_ends_of_the_range_of_the_rotation() {
    assert_eq!(heading(i64::MIN), Vector::new(726, -686));
    assert_eq!(heading(i64::MAX), Vector::new(-726, -686));
}

fn length_squared(v: Vector) -> i128 {
    (v.x as i128) * (v.x as i128) + (v.y as i128) * (v.y as i128)
}

#[test]
fn the_heading_is_one_unit_long_whatever_the_rotation() {
    let mut rotation: i64 = -7_000_000;
    while rotation < 7_000_000 {
        let h = heading(rotation);
        assert!(length_squared(h) > 998 * 998);
        assert!(length_squared(h) < 1_001 * 1_001);
        let p = pointing(rotation);
        assert!(p.x != 0 || p.y != 0);
        rotation += 9_973;
    }
}

#[test]
fn the_acceleration_is_as_long_as_the_thrust_whatever_the_rotation() {
    let mut r = rocket();
    let mut state = controls();
    state.thrust = 1000;
    state.rotate = 377;
    let mut turns = 0;
    while turns < 500 {
        r.update(16, &state);
        assert!(length_squared(r.acc) > 99_998 * 99_998);
        assert!(length_squared(r.acc) < 100_001 * 100_001);
        turns += 1;
    }
    state.thrust = 0;
    r.update(16, &state);
    assert_eq!(r.acc, Vector::new(0, 0));
}

#[test]
fn a_bullet_leaves_at_the_muzzle_speed_whatever_the_rotation() {
    let mut rotation: i64 = 0;
    while rotation < 6_300_000 {
        let mut r = rocket();
        r.rotation = rotation;
        let b = only_bullet(r.fire_on(16, 0));
        assert!(length_squared(b.speed) > 249_998 * 249_998);
        assert!(length_squared(b.speed) < 250_001 * 250_001);
        let offset = b.start_position.sub(&r.position);
        assert!(length_squared(offset) > 24_998 * 24_998);
        assert!(length_squared(offset) < 25_001 * 25_001);
        rotation += 123_457;
    }
}

#[test]
fn two_rockets_that_differ_in_the_uncharged_shield_alone_fare_alike() {
    let factory = GameObjectFactory::new();
    let mut up = rocket_at(Vector::new(40_000, 50_000));
    up.shield_on = true;
    up.shield_time = 0;
    up.damage = 250;
    let mut down = rocket_at(Vector::new(40_000, 50_000));
    down.shield_on = false;
    down.shield_time = 0;
    down.damage = 250;
    let sparks_up = up.collision_with(GameObjectType::Asteroid, &factory);
    let sparks_down = down.collision_with(GameObjectType::Asteroid, &factory);
    assert_eq!(up.damage, 350);
    assert_eq!(down.damage, 350);
    assert!(up.shield_on);
    assert!(!down.shield_on);
    assert_eq!(up.shield_time, down.shield_time);
    assert_eq!(up.position, down.position);
    assert_eq!(up.score, down.score);
    assert_eq!(sparks_up.len(), 1);
    assert_eq!(sparks_down.len(), 1);
    assert_eq!(sparks_up[0].current_position(), Vector::new(40_000, 50_000));
    assert_eq!(sparks_down[0].current_position(), Vector::new(40_000, 50_000));
    assert_eq!(sparks_up[0].get_type(), GameObjectType::Explosion);
    assert_eq!(sparks_down[0].get_type(), GameObjectType::Explosion);
}
