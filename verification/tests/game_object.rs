use asteroids::{
    Announcer, Area, AsteroidSize, Countdown, Explosion, GameEvent, GameObject, GameObjectFactory,
    GameObjectType, RandomSource, Vector,
};

fn arena() -> Area {
    Area { width: 800_000, height: 600_000 }
}

fn one_of_each() -> Vec<GameObject> {
    let factory = GameObjectFactory::new();
    vec![
        factory.create_asteroid(AsteroidSize::Medium, Vector::new(10_000, 10_000), Vector::new(1_000, 0)),
        factory.create_rocket(Vector::new(20_000, 20_000), Vector::new(50_000, 50_000), String::from("red")),
        factory.create_explosion(Vector::new(30_000, 30_000)),
        factory.create_bullet(0, Vector::new(40_000, 40_000), Vector::new(0, 1_000), String::from("red")),
        GameObject::Announcer(Announcer {
            time: 0,
            position: Vector::new(50_000, 50_000),
            text: String::from("go"),
        }),
        GameObject::Countdown(Countdown::new(Vector::new(60_000, 60_000))),
    ]
}

#[test]
fn every_object_knows_its_kind_place_and_radius() {
    let objects = one_of_each();
    let mut types = Vec::new();
    let mut radii = Vec::new();
    let mut places = Vec::new();
    for object in &objects {
        types.push(object.get_type());
        radii.push(object.radius());
        places.push(object.current_position().x);
        assert!(!object.is_expired());
    }
    assert_eq!(
        types,
        vec![
            GameObjectType::Asteroid,
            GameObjectType::Rocket,
            GameObjectType::Explosion,
            GameObjectType::Bullet,
            GameObjectType::Announcer,
            GameObjectType::Countdown,
        ]
    );
    assert_eq!(radii, vec![20_000, 20_000, 10_000, 3_000, 10_000, 10_000]);
    assert_eq!(places, vec![10_000, 20_000, 30_000, 40_000, 50_000, 60_000]);
}

#[test]
fn only_asteroids_and_bullets_can_be_told_to_expire() {
    let mut objects = one_of_each();
    let mut over = Vec::new();
    for object in &mut objects {
        object.expire();
        over.push(object.is_expired());
    }
    assert_eq!(over, vec![true, false, false, true, false, false]);
}

#[test]
fn moving_keeps_the_kind_and_only_a_countdown_asks_for_anything() {
    let mut objects = one_of_each();
    match &mut objects[5] {
        GameObject::Countdown(countdown) => countdown.count = 0,
        _ => panic!("no countdown"),
    }
    let mut events = Vec::new();
    for object in &mut objects {
        let kind = object.get_type();
        events.push(object.move_t(1_001, arena()));
        assert_eq!(object.get_type(), kind);
    }
    assert_eq!(events, vec![None, None, None, None, None, Some(GameEvent::SpawnAsteroids)]);
    assert_eq!(objects[0].current_position(), Vector::new(11_001, 10_000));
    assert_eq!(objects[3].current_position(), Vector::new(40_000, 41_001));
    assert!(objects[2].is_expired());
    assert!(objects[5].is_expired());
    assert!(!objects[4].is_expired());
}

#[test]
fn a_collision_keeps_the_kind_and_the_place() {
    let factory = GameObjectFactory::new();
    for objtype in [
        GameObjectType::Asteroid,
        GameObjectType::Rocket,
        GameObjectType::Explosion,
        GameObjectType::Bullet,
        GameObjectType::Announcer,
        GameObjectType::Countdown,
    ] {
        let mut random = RandomSource::new(vec![1, 2, 3, 4]);
        for mut object in one_of_each() {
            let kind = object.get_type();
            let place = object.current_position();
            let radius = object.radius();
            let collision = object.collision_with(objtype, &factory, &mut random);
            assert_eq!(object.get_type(), kind);
            assert_eq!(object.current_position(), place);
            assert_eq!(object.radius(), radius);
            if !object.is_solid() {
                assert!(collision.objects.is_empty());
                assert_eq!(collision.scorer, None);
            }
            for made in &collision.objects {
                assert!(made.get_type() != GameObjectType::Rocket);
            }
        }
    }
}

#[test]
fn explosions_announcements_and_countdowns_take_no_collision() {
    let factory = GameObjectFactory::new();
    let mut random = RandomSource::new(vec![1, 2, 3, 4]);
    let mut explosion = GameObject::Explosion(Explosion { time: 7, position: Vector::new(1, 2) });
    let collision = explosion.collision_with(GameObjectType::Rocket, &factory, &mut random);
    assert!(collision.objects.is_empty());
    assert_eq!(collision.scorer, None);
    assert_eq!(random.remaining(), 4);
    match explosion {
        GameObject::Explosion(e) => assert_eq!(e, Explosion { time: 7, position: Vector::new(1, 2) }),
        _ => panic!("no explosion"),
    }
}

#[test]
fn wrap_brings_a_point_back_into_the_arena() {
    let area = arena();
    assert_eq!(area.wrap(Vector::new(100, 200)), Vector::new(100, 200));
    assert_eq!(area.wrap(Vector::new(0, 0)), Vector::new(0, 0));
    assert_eq!(area.wrap(Vector::new(800_000, 600_000)), Vector::new(800_000, 600_000));
    assert_eq!(area.wrap(Vector::new(800_001, 600_001)), Vector::new(0, 0));
    assert_eq!(area.wrap(Vector::new(-1, -1)), Vector::new(800_000, 600_000));
    assert_eq!(area.wrap(Vector::new(i64::MAX, i64::MIN)), Vector::new(0, 600_000));
    assert_eq!(area.wrap(Vector::new(-1, 300_000)), Vector::new(800_000, 300_000));
}
