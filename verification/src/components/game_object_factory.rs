//! The factory that makes the objects of the game.
use vstd::prelude::*;
use crate::components::asteroid::{fragment_speed_for, Asteroid, AsteroidSize};
use crate::components::bullet::Bullet;
use crate::components::explosion::Explosion;
use crate::components::rocket::{lemma_heading_sizes, Rocket};
use crate::engine::arena::Area;
use crate::engine::object::GameObject;
use crate::utils::random::{
    draw_at, draws_after, fraction_of, lemma_fraction_bounds, random_number_max, RandomSource,
};
use crate::utils::vmath::Vector;

verus! {

/// The number of draws that one asteroid of a wave takes: two for where it
/// is and two for how it drifts.
pub const WAVE_DRAWS: u64 = 4;

/// The `k`-th asteroid of a wave in `area` with speeds below `max_speed`
/// along each axis, for the draws `draws`.
pub open spec fn wave_asteroid(area: Area, max_speed: i64, draws: Seq<u32>, k: int) -> Asteroid {
    Asteroid::fresh(
        AsteroidSize::Large,
        Vector {
            x: fraction_of(draw_at(draws, 4 * k), area.width as int) as i64,
            y: fraction_of(draw_at(draws, 4 * k + 1), area.height as int) as i64,
        },
        Vector {
            x: fraction_of(draw_at(draws, 4 * k + 2), max_speed as int) as i64,
            y: fraction_of(draw_at(draws, 4 * k + 3), max_speed as int) as i64,
        },
    )
}

/// A wave of `nof` asteroids.
pub open spec fn wave(nof: nat, area: Area, max_speed: i64, draws: Seq<u32>) -> Seq<GameObject> {
    Seq::new(nof, |k: int| GameObject::Asteroid(wave_asteroid(area, max_speed, draws, k)))
}

/// The rocket that the factory makes.
pub open spec fn fresh_rocket(pos: Vector, score_position: Vector, color: String) -> Rocket {
    Rocket {
        score: 0,
        damage: 0,
        score_pos: score_position,
        position: pos,
        rotation: 0,
        speed: Vector { x: 0, y: 0 },
        acc: Vector { x: 0, y: 0 },
        thrust: 0,
        last_shot: 0,
        shield_on: false,
        shield_time: 0,
        bullet_color: color,
        burst_time: 0,
    }
}

/// Makes the objects of the game.
#[derive(Debug, Clone, Copy)]
pub struct GameObjectFactory {}

impl GameObjectFactory {
    pub fn new() -> (factory: Self) {
        GameObjectFactory {  }
    }

    /// A new asteroid of the given size.
    pub fn create_asteroid(
        &self,
        size: AsteroidSize,
        position: Vector,
        speed: Vector,
    ) -> (object: GameObject)
        ensures
            object == GameObject::Asteroid(Asteroid::fresh(size, position, speed)),
            object.wf(),
    {
        GameObject::Asteroid(
            Asteroid {
                size,
                expired: false,
                position,
                rotation: 0,
                speed,
                acc: Vector::new(0, 0),
                radius: size.radius(),
            },
        )
    }

    pub fn create_asteroid_small(&self, position: Vector, speed: Vector) -> (object: GameObject)
        ensures
            object == GameObject::Asteroid(Asteroid::fresh(AsteroidSize::Small, position, speed)),
            object.wf(),
    {
        self.create_asteroid(AsteroidSize::Small, position, speed)
    }

    pub fn create_asteroid_medium(&self, position: Vector, speed: Vector) -> (object: GameObject)
        ensures
            object == GameObject::Asteroid(Asteroid::fresh(AsteroidSize::Medium, position, speed)),
            object.wf(),
    {
        self.create_asteroid(AsteroidSize::Medium, position, speed)
    }

    pub fn create_asteroid_large(&self, position: Vector, speed: Vector) -> (object: GameObject)
        ensures
            object == GameObject::Asteroid(Asteroid::fresh(AsteroidSize::Large, position, speed)),
            object.wf(),
    {
        self.create_asteroid(AsteroidSize::Large, position, speed)
    }

    /// The two fragments of an asteroid of size `size` at `position` that
    /// drifted with `speed`: one size smaller, where the asteroid was, and
    /// pushed apart by the next four draws of `random`. A small asteroid
    /// leaves nothing, and takes no draw.
    pub fn create_fragment_pair(
        &self,
        size: AsteroidSize,
        position: Vector,
        speed: Vector,
        random: &mut RandomSource,
    ) -> (pair: Option<(GameObject, GameObject)>)
        ensures
            pair == match size.smaller_spec() {
                Some(s) => Some(
                    (
                        GameObject::Asteroid(
                            Asteroid::fragment_of(s, position, speed, old(random)@, 0),
                        ),
                        GameObject::Asteroid(
                            Asteroid::fragment_of(s, position, speed, old(random)@, 1),
                        ),
                    ),
                ),
                None => None,
            },
            final(random)@ == draws_after(old(random)@, if size == AsteroidSize::Small { 0int } else { 4int }),
    {
        match size.smaller() {
            Some(s) => {
                let first_angle = random.next();
                let first_force = random.next();
                let second_angle = random.next();
                let second_force = random.next();
                let first = self.create_asteroid(
                    s,
                    position,
                    fragment_speed_for(s, speed, first_angle, first_force),
                );
                let second = self.create_asteroid(
                    s,
                    position,
                    fragment_speed_for(s, speed, second_angle, second_force),
                );
                Some((first, second))
            },
            None => {
                None
            },
        }
    }

    pub fn create_explosion(&self, position: Vector) -> (object: GameObject)
        ensures
            object == GameObject::Explosion(Explosion { time: 0, position }),
            object.wf(),
    {
        GameObject::Explosion(Explosion { time: 0, position })
    }

    /// A bullet of the rocket at index `owner` that starts at `origin`.
    pub fn create_bullet(
        &self,
        owner: usize,
        origin: Vector,
        speed: Vector,
        color: String,
    ) -> (object: GameObject)
        ensures
            object == GameObject::Bullet(
                Bullet {
                    expired: false,
                    start_position: origin,
                    position: origin,
                    speed,
                    color,
                    rocket: owner,
                },
            ),
            object.wf(),
    {
        GameObject::Bullet(
            Bullet {
                expired: false,
                start_position: origin,
                position: origin,
                speed,
                color,
                rocket: owner,
            },
        )
    }

    /// A wave of `nof` large asteroids. Each takes four draws of `random`:
    /// its place along each axis of `area`, then its speed along each axis,
    /// from zero up to, not including, `max_speed`.
    pub fn create_asteroids(
        &self,
        nof: u64,
        area: Area,
        max_speed: i64,
        random: &mut RandomSource,
    ) -> (asteroids: Vec<GameObject>)
        ensures
            asteroids@ == wave(nof as nat, area, max_speed, old(random)@),
            final(random)@ == draws_after(old(random)@, 4 * nof),
            forall|i: int| 0 <= i < asteroids@.len() ==> (#[trigger] asteroids@[i]).wf(),
            area.wf() ==> forall|i: int|
                0 <= i < asteroids@.len() ==> area.contains(
                    (#[trigger] asteroids@[i]).current_position(),
                ),
            max_speed > 0 ==> forall|i: int|
                0 <= i < asteroids@.len() ==> (#[trigger] asteroids@[i] matches GameObject::Asteroid(a)
                    && 0 <= a.speed.x < max_speed && 0 <= a.speed.y < max_speed),
    {
        let mut i: u64 = 0;
        let mut asteroids: Vec<GameObject> = Vec::new();
        let ghost draws = random@;
        while i < nof
            invariant
                0 <= i <= nof,
                draws == old(random)@,
                random@ == draws_after(draws, 4 * i),
                asteroids@.len() == i,
                forall|k: int|
                    0 <= k < i ==> #[trigger] asteroids@[k] == GameObject::Asteroid(
                        wave_asteroid(area, max_speed, draws, k),
                    ),
            decreases nof - i,
        {
            let x = random_number_max(random, area.width);
            let y = random_number_max(random, area.height);
            let position = Vector { x, y };
            let speed_x = random_number_max(random, max_speed);
            let speed_y = random_number_max(random, max_speed);
            let speed = Vector { x: speed_x, y: speed_y };
            asteroids.push(self.create_asteroid_large(position, speed));
            i += 1;
        }
        proof {
            assert forall|k: int| 0 <= k < asteroids@.len() implies (#[trigger] asteroids@[k]).wf()
                && (area.wf() ==> area.contains(asteroids@[k].current_position())) && (max_speed > 0
                ==> (asteroids@[k] matches GameObject::Asteroid(a) && 0 <= a.speed.x < max_speed && 0
                <= a.speed.y < max_speed)) by {
                lemma_fraction_bounds(draw_at(draws, 4 * k), area.width as int);
                lemma_fraction_bounds(draw_at(draws, 4 * k + 1), area.height as int);
                lemma_fraction_bounds(draw_at(draws, 4 * k + 2), max_speed as int);
                lemma_fraction_bounds(draw_at(draws, 4 * k + 3), max_speed as int);
            }
        }
        asteroids
    }

    /// A new rocket at rest at `pos`, pointing up, that shows its score at
    /// `score_position` and fires bullets of colour `color`.
    pub fn create_rocket(
        &self,
        pos: Vector,
        score_position: Vector,
        color: String,
    ) -> (object: GameObject)
        ensures
            object == GameObject::Rocket(fresh_rocket(pos, score_position, color)),
            object.wf(),
    {
        proof {
            // without thrust there is no acceleration
            lemma_heading_sizes(0, 0);
        }
        GameObject::Rocket(
            Rocket {
                score: 0,
                damage: 0,
                score_pos: score_position,
                position: pos,
                rotation: 0,
                speed: Vector::zero(),
                acc: Vector::zero(),
                thrust: 0,
                last_shot: 0,
                shield_on: false,
                shield_time: 0,
                bullet_color: color,
                burst_time: 0,
            },
        )
    }
}

} // verus!
