//! The shots that the rockets fire.
use vstd::prelude::*;
use crate::components::explosion::Explosion;
use crate::components::game_object_factory::GameObjectFactory;
use crate::engine::arena::{Area, GameObjectType};
use crate::engine::object::{Collision, GameObject};
use crate::utils::fixed::{clamp_i64, elapsed, elapsed_time, saturate};
use crate::utils::vmath::Vector;

verus! {

/// The radius of a bullet, in thousandths of a unit.
pub const BULLET_RADIUS: i64 = 3_000;

/// How far a bullet flies, in thousandths of a unit.
pub const BULLET_RANGE: u64 = 700_000;

/// What a hit is worth to the rocket that fired the bullet.
pub const HIT_SCORE: u64 = 100;

/// A bullet.
///
/// `rocket` is the index of the rocket that fired it. The index is only
/// looked up when the bullet scores, and a rocket that is no longer found
/// there scores nothing.
#[derive(Debug, Clone)]
pub struct Bullet {
    pub expired: bool,
    /// Where the flight is measured from: where the bullet started, moved
    /// along whenever the bullet crosses an edge of the arena, so that the
    /// distance to it stays the distance flown.
    pub start_position: Vector,
    pub position: Vector,
    pub speed: Vector,
    pub color: String,
    pub rocket: usize,
}

impl Bullet {
    pub open spec fn get_type_spec(&self) -> GameObjectType {
        GameObjectType::Bullet
    }

    pub open spec fn current_position_spec(&self) -> Vector {
        self.position
    }

    pub open spec fn radius_spec(&self) -> i64 {
        BULLET_RADIUS
    }

    /// It is spent once it has hit something or has flown further than
    /// `BULLET_RANGE`.
    pub open spec fn is_expired_spec(&self) -> bool {
        self.expired || self.position.distance_spec(self.start_position) > BULLET_RANGE
    }

    /// Where the bullet gets to in `delta_t` milliseconds if no edge of the
    /// arena is in its way.
    pub open spec fn heads_for(self, delta_t: int) -> Vector {
        self.position.add_spec(self.speed.scale_spec(elapsed(delta_t)))
    }

    /// The bullet `delta_t` milliseconds later: it has flown on, has come
    /// back into the arena where it left it, and is marked if it was spent
    /// before.
    pub open spec fn moved(self, delta_t: int, game_area: Area) -> Bullet {
        let flown = self.heads_for(delta_t);
        let position = game_area.wrapped(flown);
        Bullet {
            expired: self.is_expired_spec(),
            start_position: Vector {
                x: clamp_i64(self.start_position.x + (position.x - flown.x)) as i64,
                y: clamp_i64(self.start_position.y + (position.y - flown.y)) as i64,
            },
            position,
            speed: self.speed,
            color: self.color,
            rocket: self.rocket,
        }
    }

    /// Whether a collision with an object of type `objtype` stops a bullet.
    pub open spec fn stopped_by(objtype: GameObjectType) -> bool {
        objtype == GameObjectType::Asteroid || objtype == GameObjectType::Rocket
    }

    /// The bullet after a collision with an object of type `objtype`.
    pub open spec fn collided(self, objtype: GameObjectType) -> Bullet {
        if Self::stopped_by(objtype) {
            Bullet { expired: true, ..self }
        } else {
            self
        }
    }

    /// What a collision with an object of type `objtype` leaves behind: an
    /// explosion where the bullet is, if the bullet was stopped.
    pub open spec fn sparks(self, objtype: GameObjectType) -> Seq<GameObject> {
        if Self::stopped_by(objtype) {
            seq![GameObject::Explosion(Explosion { time: 0, position: self.position })]
        } else {
            Seq::empty()
        }
    }

    /// The index of the rocket that scores by a collision with an object
    /// of type `objtype`: the one that fired the bullet, if the bullet was
    /// stopped.
    pub open spec fn scorer(self, objtype: GameObjectType) -> Option<usize> {
        if Self::stopped_by(objtype) {
            Some(self.rocket)
        } else {
            None
        }
    }

    #[verifier::when_used_as_spec(get_type_spec)]
    pub fn get_type(&self) -> (t: GameObjectType)
        ensures
            t == self.get_type_spec(),
    {
        GameObjectType::Bullet
    }

    #[verifier::when_used_as_spec(current_position_spec)]
    pub fn current_position(&self) -> (p: Vector)
        ensures
            p == self.current_position_spec(),
    {
        self.position
    }

    #[verifier::when_used_as_spec(radius_spec)]
    pub fn radius(&self) -> (r: i64)
        ensures
            r == self.radius_spec(),
    {
        BULLET_RADIUS
    }

    #[verifier::when_used_as_spec(is_expired_spec)]
    pub fn is_expired(&self) -> (b: bool)
        ensures
            b == self.is_expired_spec(),
    {
        self.expired || self.position.distance(&self.start_position) > BULLET_RANGE
    }

    pub fn expire(&mut self)
        ensures
            *final(self) == (Bullet { expired: true, ..*old(self) }),
            final(self).is_expired(),
    {
        self.expired = true;
    }

    /// Lets the bullet fly for `delta_t` milliseconds.
    pub fn move_t(&mut self, delta_t: i64, game_area: Area)
        ensures
            *final(self) == old(self).moved(delta_t as int, game_area),
            old(self).is_expired() ==> final(self).is_expired(),
            game_area.wf() ==> game_area.contains(final(self).position),
    {
        self.expired = self.is_expired();
        let flown = self.position.add(&self.speed.scale(elapsed_time(delta_t)));
        let position = game_area.wrap(flown);
        self.start_position = Vector::new(
            saturate(self.start_position.x as i128 + (position.x as i128 - flown.x as i128)),
            saturate(self.start_position.y as i128 + (position.y as i128 - flown.y as i128)),
        );
        self.position = position;
    }

    /// Stops the bullet if it met an asteroid or a rocket. A bullet that
    /// is stopped leaves an explosion where it is, and scores for the
    /// rocket that fired it.
    pub fn collision_with(
        &mut self,
        objtype: GameObjectType,
        objfactory: &GameObjectFactory,
    ) -> (collision: Collision)
        ensures
            *final(self) == old(self).collided(objtype),
            collision.objects@ == old(self).sparks(objtype),
            collision.scorer == old(self).scorer(objtype),
            old(self).is_expired() ==> final(self).is_expired(),
            Self::stopped_by(objtype) ==> final(self).is_expired(),
    {
        let mut objects = Vec::new();
        if objtype == GameObjectType::Asteroid || objtype == GameObjectType::Rocket {
            self.expire();
            objects.push(objfactory.create_explosion(self.position));
            Collision { objects, scorer: Some(self.rocket) }
        } else {
            Collision { objects, scorer: None }
        }
    }
}

} // verus!
