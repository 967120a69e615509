//! The objects of the game as one closed type, and what all of them can do.
use vstd::prelude::*;
use crate::components::announcer::Announcer;
use crate::components::asteroid::Asteroid;
use crate::components::bullet::Bullet;
use crate::components::countdown::Countdown;
use crate::components::explosion::Explosion;
use crate::components::game_object_factory::GameObjectFactory;
use crate::components::rocket::Rocket;
use crate::engine::arena::{Area, GameEvent, GameObjectType};
use crate::utils::random::{draws_after, RandomSource};
use crate::utils::vmath::Vector;

verus! {

/// An object of the game. The kinds are closed: what two objects do to
/// each other is decided by matching on them.
#[derive(Debug, Clone)]
pub enum GameObject {
    Asteroid(Asteroid),
    Rocket(Rocket),
    Explosion(Explosion),
    Bullet(Bullet),
    Announcer(Announcer),
    Countdown(Countdown),
}

/// What a collision leaves behind.
#[derive(Debug, Clone)]
pub struct Collision {
    /// The objects that the collision made.
    pub objects: Vec<GameObject>,
    /// The index of the rocket that scores by the collision, if one does.
    pub scorer: Option<usize>,
}

impl GameObject {
    /// The object is well formed for its kind.
    pub open spec fn wf(&self) -> bool {
        match self {
            GameObject::Asteroid(o) => o.wf(),
            GameObject::Rocket(o) => o.wf(),
            GameObject::Explosion(o) => o.wf(),
            GameObject::Bullet(_) => true,
            GameObject::Announcer(o) => o.wf(),
            GameObject::Countdown(o) => o.wf(),
        }
    }

    pub open spec fn get_type_spec(&self) -> GameObjectType {
        match self {
            GameObject::Asteroid(_) => GameObjectType::Asteroid,
            GameObject::Rocket(_) => GameObjectType::Rocket,
            GameObject::Explosion(_) => GameObjectType::Explosion,
            GameObject::Bullet(_) => GameObjectType::Bullet,
            GameObject::Announcer(_) => GameObjectType::Announcer,
            GameObject::Countdown(_) => GameObjectType::Countdown,
        }
    }

    pub open spec fn current_position_spec(&self) -> Vector {
        match self {
            GameObject::Asteroid(o) => o.position,
            GameObject::Rocket(o) => o.position,
            GameObject::Explosion(o) => o.position,
            GameObject::Bullet(o) => o.position,
            GameObject::Announcer(o) => o.position,
            GameObject::Countdown(o) => o.position,
        }
    }

    pub open spec fn radius_spec(&self) -> i64 {
        match self {
            GameObject::Asteroid(o) => o.radius_spec(),
            GameObject::Rocket(o) => o.radius_spec(),
            GameObject::Explosion(o) => o.radius_spec(),
            GameObject::Bullet(o) => o.radius_spec(),
            GameObject::Announcer(o) => o.radius_spec(),
            GameObject::Countdown(o) => o.radius_spec(),
        }
    }

    /// The object is over and will be taken out of the game.
    pub open spec fn is_expired_spec(&self) -> bool {
        match self {
            GameObject::Asteroid(o) => o.is_expired_spec(),
            GameObject::Rocket(o) => o.is_expired_spec(),
            GameObject::Explosion(o) => o.is_expired_spec(),
            GameObject::Bullet(o) => o.is_expired_spec(),
            GameObject::Announcer(o) => o.is_expired_spec(),
            GameObject::Countdown(o) => o.is_expired_spec(),
        }
    }

    /// Asteroids, rockets and bullets collide, unless their radius is zero
    /// or less; explosions, announcements and countdowns collide with
    /// nothing.
    pub open spec fn is_solid_spec(&self) -> bool {
        match self {
            GameObject::Asteroid(o) => o.radius_spec() > 0,
            GameObject::Rocket(_) => true,
            GameObject::Bullet(_) => true,
            _ => false,
        }
    }

    /// The distance between the two objects, rounded down.
    pub open spec fn distance_spec(&self, other: &GameObject) -> nat {
        self.current_position_spec().distance_spec(other.current_position_spec())
    }

    /// Two objects collide when both are solid and their distance is less
    /// than the sum of their radii.
    pub open spec fn collides_spec(&self, other: &GameObject) -> bool {
        &&& self.is_solid_spec()
        &&& other.is_solid_spec()
        &&& self.distance_spec(other) < self.radius_spec() + other.radius_spec()
    }

    /// The object once it is told to expire. Only asteroids and bullets
    /// can be told.
    pub open spec fn expire_spec(self) -> GameObject {
        match self {
            GameObject::Asteroid(o) => GameObject::Asteroid(Asteroid { expired: true, ..o }),
            GameObject::Bullet(o) => GameObject::Bullet(Bullet { expired: true, ..o }),
            _ => self,
        }
    }

    /// Where the object gets to in `delta_t` milliseconds if no edge of the
    /// arena is in its way. Explosions, announcements and countdowns stay
    /// where they are.
    pub open spec fn heads_for(self, delta_t: int) -> Vector {
        match self {
            GameObject::Asteroid(o) => o.heads_for(delta_t),
            GameObject::Rocket(o) => o.heads_for(delta_t),
            GameObject::Bullet(o) => o.heads_for(delta_t),
            _ => self.current_position_spec(),
        }
    }

    /// The object `delta_t` milliseconds later.
    pub open spec fn moved(self, delta_t: int, game_area: Area) -> GameObject {
        match self {
            GameObject::Asteroid(o) => GameObject::Asteroid(o.moved(delta_t, game_area)),
            GameObject::Rocket(o) => GameObject::Rocket(o.moved(delta_t, game_area)),
            GameObject::Explosion(o) => GameObject::Explosion(o.moved(delta_t, game_area)),
            GameObject::Bullet(o) => GameObject::Bullet(o.moved(delta_t, game_area)),
            GameObject::Announcer(o) => GameObject::Announcer(o.moved(delta_t, game_area)),
            GameObject::Countdown(o) => GameObject::Countdown(o.moved(delta_t, game_area)),
        }
    }

    /// What the object asks of the simulation after `delta_t` more
    /// milliseconds. Only a countdown asks for anything.
    pub open spec fn signal(&self, delta_t: int) -> Option<GameEvent> {
        match self {
            GameObject::Countdown(o) => o.signal(delta_t),
            _ => None,
        }
    }

    /// The object after a collision with an object of type `objtype`.
    pub open spec fn collided(self, objtype: GameObjectType) -> GameObject {
        match self {
            GameObject::Asteroid(o) => GameObject::Asteroid(o.collided(objtype)),
            GameObject::Rocket(o) => GameObject::Rocket(o.collided(objtype)),
            GameObject::Bullet(o) => GameObject::Bullet(o.collided(objtype)),
            _ => self,
        }
    }

    /// The objects that a collision with an object of type `objtype`
    /// makes, for the draws `draws`.
    pub open spec fn debris(self, objtype: GameObjectType, draws: Seq<u32>) -> Seq<GameObject> {
        match self {
            GameObject::Asteroid(o) => o.debris(objtype, draws),
            GameObject::Rocket(o) => o.sparks(objtype),
            GameObject::Bullet(o) => o.sparks(objtype),
            _ => Seq::empty(),
        }
    }

    /// The index of the rocket that scores by a collision with an object
    /// of type `objtype`, if one does.
    pub open spec fn scorer(self, objtype: GameObjectType) -> Option<usize> {
        match self {
            GameObject::Bullet(o) => o.scorer(objtype),
            _ => None,
        }
    }

    /// The number of draws that a collision with an object of type
    /// `objtype` takes.
    pub open spec fn draws_used(self, objtype: GameObjectType) -> int {
        match self {
            GameObject::Asteroid(o) => o.draws_used(objtype),
            _ => 0,
        }
    }

    #[verifier::when_used_as_spec(get_type_spec)]
    pub fn get_type(&self) -> (t: GameObjectType)
        ensures
            t == self.get_type_spec(),
    {
        match self {
            GameObject::Asteroid(o) => o.get_type(),
            GameObject::Rocket(o) => o.get_type(),
            GameObject::Explosion(o) => o.get_type(),
            GameObject::Bullet(o) => o.get_type(),
            GameObject::Announcer(o) => o.get_type(),
            GameObject::Countdown(o) => o.get_type(),
        }
    }

    #[verifier::when_used_as_spec(current_position_spec)]
    pub fn current_position(&self) -> (p: Vector)
        ensures
            p == self.current_position_spec(),
    {
        match self {
            GameObject::Asteroid(o) => o.current_position(),
            GameObject::Rocket(o) => o.current_position(),
            GameObject::Explosion(o) => o.current_position(),
            GameObject::Bullet(o) => o.current_position(),
            GameObject::Announcer(o) => o.current_position(),
            GameObject::Countdown(o) => o.current_position(),
        }
    }

    #[verifier::when_used_as_spec(radius_spec)]
    pub fn radius(&self) -> (r: i64)
        ensures
            r == self.radius_spec(),
    {
        match self {
            GameObject::Asteroid(o) => o.radius(),
            GameObject::Rocket(o) => o.radius(),
            GameObject::Explosion(o) => o.radius(),
            GameObject::Bullet(o) => o.radius(),
            GameObject::Announcer(o) => o.radius(),
            GameObject::Countdown(o) => o.radius(),
        }
    }

    #[verifier::when_used_as_spec(is_expired_spec)]
    pub fn is_expired(&self) -> (b: bool)
        ensures
            b == self.is_expired_spec(),
    {
        match self {
            GameObject::Asteroid(o) => o.is_expired(),
            GameObject::Rocket(o) => o.is_expired(),
            GameObject::Explosion(o) => o.is_expired(),
            GameObject::Bullet(o) => o.is_expired(),
            GameObject::Announcer(o) => o.is_expired(),
            GameObject::Countdown(o) => o.is_expired(),
        }
    }

    #[verifier::when_used_as_spec(is_solid_spec)]
    pub fn is_solid(&self) -> (b: bool)
        ensures
            b == self.is_solid_spec(),
    {
        match self {
            GameObject::Asteroid(o) => o.radius() > 0,
            GameObject::Rocket(_) => true,
            GameObject::Bullet(_) => true,
            _ => false,
        }
    }

    /// Tells the object to expire.
    pub fn expire(&mut self)
        ensures
            *final(self) == old(self).expire_spec(),
            final(self).get_type() == old(self).get_type(),
            old(self).is_expired() ==> final(self).is_expired(),
    {
        match self {
            GameObject::Asteroid(o) => o.expire(),
            GameObject::Rocket(o) => o.expire(),
            GameObject::Explosion(o) => o.expire(),
            GameObject::Bullet(o) => o.expire(),
            GameObject::Announcer(o) => o.expire(),
            GameObject::Countdown(o) => o.expire(),
        }
    }

    /// Moves the object on by `delta_t` milliseconds, a negative time
    /// counting as none, and returns what it asks of the simulation.
    ///
    /// Afterwards the object lies in the arena, it is of the kind it was,
    /// and if it was over before it is still over.
    pub fn move_t(&mut self, delta_t: i64, game_area: Area) -> (event: Option<GameEvent>)
        ensures
            *final(self) == old(self).moved(delta_t as int, game_area),
            event == old(self).signal(delta_t as int),
            final(self).get_type() == old(self).get_type(),
            old(self).wf() ==> final(self).wf(),
            old(self).is_expired() ==> final(self).is_expired(),
            game_area.wf() ==> game_area.contains(final(self).current_position()),
    {
        match self {
            GameObject::Asteroid(o) => {
                o.move_t(delta_t, game_area);
                None
            },
            GameObject::Rocket(o) => {
                o.move_t(delta_t, game_area);
                None
            },
            GameObject::Explosion(o) => {
                o.move_t(delta_t, game_area);
                None
            },
            GameObject::Bullet(o) => {
                o.move_t(delta_t, game_area);
                None
            },
            GameObject::Announcer(o) => {
                o.move_t(delta_t, game_area);
                None
            },
            GameObject::Countdown(o) => o.move_t(delta_t, game_area),
        }
    }

    /// Lets the object take a collision with an object of type `objtype`
    /// and returns what the collision leaves behind.
    ///
    /// Afterwards the object is of the kind it was, and if it was over
    /// before it is still over.
    pub fn collision_with(
        &mut self,
        objtype: GameObjectType,
        objfactory: &GameObjectFactory,
        random: &mut RandomSource,
    ) -> (collision: Collision)
        ensures
            *final(self) == old(self).collided(objtype),
            collision.objects@ == old(self).debris(objtype, old(random)@),
            collision.scorer == old(self).scorer(objtype),
            final(random)@ == draws_after(old(random)@, old(self).draws_used(objtype)),
            final(self).get_type() == old(self).get_type(),
            old(self).wf() ==> final(self).wf(),
            old(self).is_expired() ==> final(self).is_expired(),
            forall|i: int|
                0 <= i < collision.objects@.len() ==> (#[trigger] collision.objects@[i]).wf(),
            forall|i: int|
                0 <= i < collision.objects@.len() ==> (#[trigger] collision.objects@[i]).get_type()
                    != GameObjectType::Rocket,
    {
        match self {
            GameObject::Asteroid(o) => Collision {
                objects: o.collision_with(objtype, objfactory, random),
                scorer: None,
            },
            GameObject::Rocket(o) => {
                Collision { objects: o.collision_with(objtype, objfactory), scorer: None }
            },
            GameObject::Bullet(o) => {
                o.collision_with(objtype, objfactory)
            },
            _ => {
                Collision { objects: Vec::new(), scorer: None }
            },
        }
    }

    /// The distance between the two objects, rounded down.
    pub fn distance(&self, other: &GameObject) -> (d: u64)
        ensures
            d == self.distance_spec(other),
    {
        self.current_position().distance(&other.current_position())
    }

    /// Whether the two objects collide.
    #[verifier::when_used_as_spec(collides_spec)]
    pub fn collides(&self, other: &GameObject) -> (b: bool)
        ensures
            b == self.collides_spec(other),
    {
        self.is_solid() && other.is_solid() && (self.distance(other) as i128) < self.radius() as i128
            + other.radius() as i128
    }
}

/// However an object moves, it ends up in the arena: each coordinate is at
/// least zero and at most the arena's size along that axis. The object
/// stays of its kind and as well formed as it was, and what was over stays
/// over.
pub proof fn lemma_moved_in_arena(object: GameObject, delta_t: int, game_area: Area)
    requires
        game_area.wf(),
    ensures
        game_area.contains(object.moved(delta_t, game_area).current_position()),
        object.moved(delta_t, game_area).get_type() == object.get_type(),
        object.wf() ==> object.moved(delta_t, game_area).wf(),
        object.is_expired() ==> object.moved(delta_t, game_area).is_expired(),
{
}

/// In an arena with an extent, an object that has moved is short of the far
/// edges, unless on its way it left the arena below zero, which brings it
/// to the far edge, or came to rest on a far edge itself.
pub proof fn lemma_moved_short_of_far_edge(object: GameObject, delta_t: int, game_area: Area)
    requires
        game_area.width > 0,
        game_area.height > 0,
        0 <= object.heads_for(delta_t).x,
        object.heads_for(delta_t).x != game_area.width,
        0 <= object.heads_for(delta_t).y,
        object.heads_for(delta_t).y != game_area.height,
    ensures
        0 <= object.moved(delta_t, game_area).current_position().x < game_area.width,
        0 <= object.moved(delta_t, game_area).current_position().y < game_area.height,
{
}

/// A collision leaves an object of its kind and as well formed as it was,
/// and what was over stays over.
pub proof fn lemma_collided_keeps_kind(object: GameObject, objtype: GameObjectType)
    ensures
        object.collided(objtype).get_type() == object.get_type(),
        object.wf() ==> object.collided(objtype).wf(),
        object.is_expired() ==> object.collided(objtype).is_expired(),
        object.collided(objtype).current_position() == object.current_position(),
        object.collided(objtype).radius() == object.radius(),
{
}

} // verus!
