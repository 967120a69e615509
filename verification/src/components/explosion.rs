//! The flash that a hit leaves behind.
use vstd::prelude::*;
use crate::engine::arena::{Area, GameObjectType};
use crate::utils::fixed::{age, aged};
use crate::utils::vmath::Vector;

verus! {

/// How long an explosion lasts, in milliseconds.
pub const EXPLOSION_TIME: i64 = 1000;

/// The radius of an explosion, in thousandths of a unit. Nothing collides
/// with an explosion.
pub const EXPLOSION_RADIUS: i64 = 10_000;

/// An explosion: it stays where it is and ages.
#[derive(Debug, Clone, Copy, PartialEq, Eq, Structural)]
pub struct Explosion {
    /// Its age, in milliseconds.
    pub time: i64,
    pub position: Vector,
}

impl Explosion {
    /// Its age is not negative.
    pub open spec fn wf(&self) -> bool {
        self.time >= 0
    }

    pub open spec fn get_type_spec(&self) -> GameObjectType {
        GameObjectType::Explosion
    }

    pub open spec fn current_position_spec(&self) -> Vector {
        self.position
    }

    pub open spec fn radius_spec(&self) -> i64 {
        EXPLOSION_RADIUS
    }

    /// It is over once it is older than `EXPLOSION_TIME`.
    pub open spec fn is_expired_spec(&self) -> bool {
        self.time > EXPLOSION_TIME
    }

    /// The explosion `delta_t` milliseconds later.
    pub open spec fn moved(self, delta_t: int, game_area: Area) -> Explosion {
        Explosion {
            time: aged(self.time as int, delta_t) as i64,
            position: game_area.wrapped(self.position),
        }
    }

    #[verifier::when_used_as_spec(get_type_spec)]
    pub fn get_type(&self) -> (t: GameObjectType)
        ensures
            t == self.get_type_spec(),
    {
        GameObjectType::Explosion
    }

    #[verifier::when_used_as_spec(current_position_spec)]
    pub fn current_position(&self) -> (p: Vector)
        ensures
            p == self.current_position_spec(),
    {
        self.position
    }

    #[verifier::when_used_as_spec(radius_spec)]
    pub fn radius(&self) -> (r: i64)
        ensures
            r == self.radius_spec(),
    {
        EXPLOSION_RADIUS
    }

    #[verifier::when_used_as_spec(is_expired_spec)]
    pub fn is_expired(&self) -> (b: bool)
        ensures
            b == self.is_expired_spec(),
    {
        self.time > EXPLOSION_TIME
    }

    /// An explosion cannot be put out: it ends by age alone.
    pub fn expire(&mut self)
        ensures
            *final(self) == *old(self),
    {
    }

    /// Ages the explosion by `delta_t` milliseconds.
    pub fn move_t(&mut self, delta_t: i64, game_area: Area)
        ensures
            *final(self) == old(self).moved(delta_t as int, game_area),
            old(self).wf() ==> final(self).wf(),
            old(self).is_expired() ==> final(self).is_expired(),
            game_area.wf() ==> game_area.contains(final(self).position),
    {
        self.time = age(self.time, delta_t);
        self.position = game_area.wrap(self.position);
    }
}

} // verus!
