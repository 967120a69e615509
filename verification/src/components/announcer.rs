//! A line of text shown for a few seconds.
use vstd::prelude::*;
use crate::engine::arena::{Area, GameObjectType};
use crate::utils::fixed::{age, aged};
use crate::utils::vmath::Vector;

verus! {

/// How long an announcement stays, in milliseconds.
pub const ANNOUNCER_TIME: i64 = 3000;

/// The radius of an announcement, in thousandths of a unit. Nothing
/// collides with an announcement.
pub const ANNOUNCER_RADIUS: i64 = 10_000;

/// An announcement: it stays where it is and ages.
#[derive(Debug, Clone)]
pub struct Announcer {
    /// Its age, in milliseconds.
    pub time: i64,
    pub position: Vector,
    pub text: String,
}

impl Announcer {
    /// Its age is not negative.
    pub open spec fn wf(&self) -> bool {
        self.time >= 0
    }

    pub open spec fn get_type_spec(&self) -> GameObjectType {
        GameObjectType::Announcer
    }

    pub open spec fn current_position_spec(&self) -> Vector {
        self.position
    }

    pub open spec fn radius_spec(&self) -> i64 {
        ANNOUNCER_RADIUS
    }

    /// It is over once it is older than `ANNOUNCER_TIME`.
    pub open spec fn is_expired_spec(&self) -> bool {
        self.time > ANNOUNCER_TIME
    }

    /// The announcement `delta_t` milliseconds later.
    pub open spec fn moved(self, delta_t: int, game_area: Area) -> Announcer {
        Announcer {
            time: aged(self.time as int, delta_t) as i64,
            position: game_area.wrapped(self.position),
            text: self.text,
        }
    }

    #[verifier::when_used_as_spec(get_type_spec)]
    pub fn get_type(&self) -> (t: GameObjectType)
        ensures
            t == self.get_type_spec(),
    {
        GameObjectType::Announcer
    }

    #[verifier::when_used_as_spec(current_position_spec)]
    pub fn current_position(&self) -> (p: Vector)
        ensures
            p == self.current_position_spec(),
    {
        self.position
    }

    #[verifier::when_used_as_spec(radius_spec)]
    pub fn radius(&self) -> (r: i64)
        ensures
            r == self.radius_spec(),
    {
        ANNOUNCER_RADIUS
    }

    #[verifier::when_used_as_spec(is_expired_spec)]
    pub fn is_expired(&self) -> (b: bool)
        ensures
            b == self.is_expired_spec(),
    {
        self.time > ANNOUNCER_TIME
    }

    /// An announcement cannot be taken down: it ends by age alone.
    pub fn expire(&mut self)
        ensures
            *final(self) == *old(self),
    {
    }

    /// Ages the announcement by `delta_t` milliseconds.
    pub fn move_t(&mut self, delta_t: i64, game_area: Area)
        ensures
            *final(self) == old(self).moved(delta_t as int, game_area),
            old(self).wf() ==> final(self).wf(),
            old(self).is_expired() ==> final(self).is_expired(),
            game_area.wf() ==> game_area.contains(final(self).position),
    {
        self.time = age(self.time, delta_t);
        self.position = game_area.wrap(self.position);
    }
}

} // verus!
