//! The rockets that the players steer.
use vstd::prelude::*;
use crate::components::bullet::Bullet;
use crate::components::explosion::Explosion;
use crate::components::game_object_factory::GameObjectFactory;
use crate::engine::arena::{Area, GameObjectType};
use crate::engine::input::GamepadState;
use crate::engine::object::GameObject;
use crate::utils::fixed::{
    age, aged, charge, charged, clamp_i64, drain, drained, elapsed, elapsed_time, saturate, UNIT,
};
use vstd::arithmetic::div_mod::lemma_fundamental_div_mod_converse;
use crate::utils::fixed::{is_floor_sqrt, lemma_isqrt_unique};
use crate::utils::trig::{lemma_sin_cos_apart, sin, sin_wide, QUARTER_TURN};
use crate::utils::vmath::{lemma_with_length, square, Vector, FINE};

verus! {

/// The shield's charge time at which it is full, in milliseconds.
pub const MAX_SHIELD_TIME: i64 = 2000;

/// The burst time at which the gun is too hot to fire, in milliseconds.
pub const MAX_BURST_TIME: i64 = 2500;

/// The radius of a rocket, in thousandths of a unit.
pub const ROCKET_RADIUS: i64 = 20_000;

/// The thrust at full throttle, in thousandths of a unit per second squared.
pub const MAX_THRUST: i64 = 100_000;

/// The thrust per thousandth of throttle.
pub const THRUST_RATE: i64 = 100;

/// The turn that the stick's full deflection gives in one update, in
/// microradians per thousandth of deflection: a tenth of a radian in all.
pub const TURN_RATE: i64 = 100;

/// The time that has to pass from one shot to the next, in milliseconds.
pub const SHOT_INTERVAL: i64 = 200;

/// What the time since the last shot is set to by a shot, in milliseconds.
/// Zero is kept for a gun whose trigger was released.
pub const SHOT_TIME: i64 = 10;

/// How far in front of the rocket a bullet starts, in thousandths of a unit.
pub const MUZZLE_DISTANCE: i64 = 25_000;

/// The speed of a bullet against the rocket that fires it, in thousandths
/// of a unit per second.
pub const MUZZLE_SPEED: i64 = 250_000;

/// The damage that an asteroid does to an unshielded rocket.
pub const ASTEROID_DAMAGE: u64 = 100;

/// The damage that a bullet does to an unshielded rocket.
pub const BULLET_DAMAGE: u64 = 50;

/// The damage that another rocket does to an unshielded rocket.
pub const ROCKET_DAMAGE: u64 = 500;

/// The charge time that a shield gains from a bullet it stops, in
/// milliseconds.
pub const BULLET_ABSORB_TIME: i64 = 10;

/// The charge time that a shield gains from a rocket it stops, in
/// milliseconds.
pub const ROCKET_ABSORB_TIME: i64 = 50;

/// A vector that points where a rocket with the given rotation points: the
/// rotation is counted from a quarter turn before the first axis, so that a
/// rotation of zero points up, against the second axis. The vector is about
/// one unit long and never zero.
pub open spec fn pointing_spec(rotation: int) -> Vector {
    Vector::bearing_spec(rotation - QUARTER_TURN)
}

/// The direction in which a rocket with the given rotation points, as a
/// vector of one unit.
pub open spec fn heading_spec(rotation: int) -> Vector {
    pointing_spec(rotation).normalize_spec()
}

/// The acceleration of a rocket: a vector as long as its thrust, pointing
/// where the rocket points.
pub open spec fn acc_spec(thrust: int, rotation: int) -> Vector {
    pointing_spec(rotation).with_length_spec(thrust)
}

/// From the rocket to where its bullets start: `MUZZLE_DISTANCE` along its
/// heading.
pub open spec fn muzzle_offset(rotation: int) -> Vector {
    pointing_spec(rotation).with_length_spec(MUZZLE_DISTANCE as int)
}

/// The velocity of a bullet against the rocket that fires it:
/// `MUZZLE_SPEED` along its heading.
pub open spec fn muzzle_velocity(rotation: int) -> Vector {
    pointing_spec(rotation).with_length_spec(MUZZLE_SPEED as int)
}

/// A vector that points where a rocket with the given rotation points.
pub fn pointing(rotation: i64) -> (v: Vector)
    ensures
        v == pointing_spec(rotation as int),
        -UNIT <= v.x <= UNIT,
        -UNIT <= v.y <= UNIT,
        v.x != 0 || v.y != 0,
{
    proof {
        lemma_sin_cos_apart(rotation - QUARTER_TURN);
    }
    Vector { x: sin(rotation), y: sin_wide(rotation as i128 - QUARTER_TURN as i128) }
}

/// The direction in which a rocket with the given rotation points, as a
/// vector of one unit, to within two thousandths.
pub fn heading(rotation: i64) -> (v: Vector)
    ensures
        v == heading_spec(rotation as int),
        -UNIT <= v.x <= UNIT,
        -UNIT <= v.y <= UNIT,
        square(UNIT - 2) < v.length_squared() < square(UNIT + 1),
{
    pointing(rotation).normalize()
}

/// A rocket that has not turned points straight up.
pub proof fn lemma_heading_at_rest()
    ensures
        heading_spec(0) == (Vector { x: 0, y: -1000i64 }),
{
    crate::utils::trig::lemma_sin_cos_at_zero();
    let up = Vector { x: 0, y: -1000i64 };
    assert(pointing_spec(0) == up);
    assert(up.length_squared() * square(FINE as int) == 1_048_576_000 * 1_048_576_000)
        by (nonlinear_arith)
        requires
            up.length_squared() == square(0) + square(-1000),
    ;
    assert(is_floor_sqrt(up.length_squared() * square(FINE as int), 1_048_576_000)) by (nonlinear_arith)
        requires
            up.length_squared() * square(FINE as int) == 1_048_576_000 * 1_048_576_000,
    ;
    lemma_isqrt_unique(up.length_squared() * square(FINE as int), 1_048_576_000);
    assert(up.fine_length() == 1_048_576_000);
    assert(0 * 1000 * up.fine_scale() == 0 && -1000 * 1000 * up.fine_scale() == -1000
        * 1_048_576_000) by (nonlinear_arith)
        requires
            up.fine_scale() == 1_048_576,
    ;
    lemma_fundamental_div_mod_converse(1000int * 1_048_576_000int, 1_048_576_000int, 1000int, 0int);
    vstd::arithmetic::div_mod::lemma_div_basics(1_048_576_000int);
}

/// Whatever its rotation, the heading of a rocket is one unit long to
/// within two thousandths, its acceleration is as long as its thrust, its
/// bullets start `MUZZLE_DISTANCE` from it and leave it at `MUZZLE_SPEED`:
/// each shorter by less than two thousandths and longer by less than one.
/// Without thrust there is no acceleration.
pub proof fn lemma_heading_sizes(thrust: int, rotation: int)
    ensures
        square(UNIT - 2) < heading_spec(rotation).length_squared() < square(UNIT + 1),
        9 <= thrust <= MAX_THRUST ==> square(thrust - 2) < acc_spec(thrust, rotation).length_squared()
            < square(thrust + 1),
        0 <= thrust < 9 ==> acc_spec(thrust, rotation).length_squared() <= 2 * square(thrust),
        thrust == 0 ==> acc_spec(thrust, rotation) == (Vector { x: 0, y: 0 }),
        square(MUZZLE_DISTANCE - 2) < muzzle_offset(rotation).length_squared() < square(
            MUZZLE_DISTANCE + 1,
        ),
        square(MUZZLE_SPEED - 2) < muzzle_velocity(rotation).length_squared() < square(MUZZLE_SPEED + 1),
{
    lemma_sin_cos_apart(rotation - QUARTER_TURN);
    crate::utils::trig::lemma_sin_cos_bounds(rotation - QUARTER_TURN);
    let p = pointing_spec(rotation);
    lemma_with_length(p, UNIT as int);
    lemma_with_length(p, thrust);
    lemma_with_length(p, MUZZLE_DISTANCE as int);
    lemma_with_length(p, MUZZLE_SPEED as int);
    if 0 <= thrust < 9 {
        let a = acc_spec(thrust, rotation);
        assert(a.length_squared() <= 2 * square(thrust)) by (nonlinear_arith)
            requires
                a.length_squared() == square(a.x as int) + square(a.y as int),
                -thrust <= a.x <= thrust,
                -thrust <= a.y <= thrust,
        ;
    }
}

/// A count raised by `by`, held at the largest `u64`.
pub open spec fn raised(count: u64, by: u64) -> u64 {
    if count + by > u64::MAX {
        u64::MAX
    } else {
        (count + by) as u64
    }
}

/// A rocket.
#[derive(Debug, Clone)]
pub struct Rocket {
    pub score: u64,
    /// The damage taken so far. It is shown, and nothing follows from it.
    pub damage: u64,
    /// Where the score is shown.
    pub score_pos: Vector,
    pub position: Vector,
    /// In microradians; it is never brought back into one turn.
    pub rotation: i64,
    pub speed: Vector,
    pub acc: Vector,
    /// From zero to `MAX_THRUST`.
    pub thrust: i64,
    /// The time since the last shot, in milliseconds; zero while the
    /// trigger is released.
    pub last_shot: i64,
    /// Whether the player holds the shield up.
    pub shield_on: bool,
    /// The shield's charge time, from zero to `MAX_SHIELD_TIME`.
    pub shield_time: i64,
    pub bullet_color: String,
    /// For how long the gun has been firing, from zero to `MAX_BURST_TIME`.
    pub burst_time: i64,
}

impl Rocket {
    /// The thrust and the timers are within their ranges, and the
    /// acceleration is the thrust along the heading.
    pub open spec fn wf(&self) -> bool {
        &&& 0 <= self.thrust <= MAX_THRUST
        &&& 0 <= self.shield_time <= MAX_SHIELD_TIME
        &&& 0 <= self.burst_time <= MAX_BURST_TIME
        &&& 0 <= self.last_shot
        &&& self.acc == acc_spec(self.thrust as int, self.rotation as int)
    }

    pub open spec fn get_type_spec(&self) -> GameObjectType {
        GameObjectType::Rocket
    }

    pub open spec fn current_position_spec(&self) -> Vector {
        self.position
    }

    pub open spec fn radius_spec(&self) -> i64 {
        ROCKET_RADIUS
    }

    /// A rocket is never over.
    pub open spec fn is_expired_spec(&self) -> bool {
        false
    }

    /// The shield protects while it is held up and its charge time is
    /// strictly between zero and `MAX_SHIELD_TIME`.
    pub open spec fn is_shield_active_spec(&self) -> bool {
        self.shield_on && 0 < self.shield_time < MAX_SHIELD_TIME
    }

    /// The rocket with the throttle at `value` thousandths. A value below
    /// zero or above 1000 leaves the thrust as it is.
    pub open spec fn thrust_spec(self, value: int) -> Rocket {
        let thrust = if 0 <= value <= UNIT {
            THRUST_RATE * value
        } else {
            self.thrust as int
        };
        Rocket {
            thrust: thrust as i64,
            acc: acc_spec(thrust, self.rotation as int),
            ..self
        }
    }

    /// The rocket turned by the stick's deflection of `value` thousandths.
    pub open spec fn rotate_spec(self, value: int) -> Rocket {
        let rotation = clamp_i64(self.rotation + value * TURN_RATE);
        Rocket {
            rotation: rotation as i64,
            acc: acc_spec(self.thrust as int, rotation),
            ..self
        }
    }

    /// The rocket after `delta_t` milliseconds with the shield held up
    /// (`on`) or let down: the charge time runs up to `MAX_SHIELD_TIME` or
    /// down to zero.
    pub open spec fn shield_spec(self, on: bool, delta_t: int) -> Rocket {
        Rocket {
            shield_on: on,
            shield_time: (if on {
                charged(self.shield_time as int, delta_t, MAX_SHIELD_TIME as int)
            } else {
                drained(self.shield_time as int, delta_t)
            }) as i64,
            ..self
        }
    }

    /// The rocket after `delta_t` milliseconds with the trigger released:
    /// the gun is ready at once, and cools as fast as it heats.
    pub open spec fn fire_off_spec(self, delta_t: int) -> Rocket {
        Rocket {
            last_shot: 0,
            burst_time: drained(self.burst_time as int, delta_t) as i64,
            ..self
        }
    }

    /// The burst time after `delta_t` more milliseconds of fire.
    pub open spec fn burst_after(&self, delta_t: int) -> int {
        charged(self.burst_time as int, delta_t, MAX_BURST_TIME as int)
    }

    /// Whether the gun fires when the trigger is held for `delta_t` more
    /// milliseconds: it is ready or the last shot is more than
    /// `SHOT_INTERVAL` old, and the gun is not too hot.
    pub open spec fn fires(&self, delta_t: int) -> bool {
        (self.last_shot == 0 || self.last_shot > SHOT_INTERVAL) && self.burst_after(delta_t)
            < MAX_BURST_TIME
    }

    /// The rocket after `delta_t` milliseconds with the trigger held.
    pub open spec fn fire_on_spec(self, delta_t: int) -> Rocket {
        Rocket {
            last_shot: (if self.fires(delta_t) {
                SHOT_TIME as int
            } else {
                aged(self.last_shot as int, delta_t)
            }) as i64,
            burst_time: self.burst_after(delta_t) as i64,
            ..self
        }
    }

    /// The bullet that the rocket fires, for the rocket at index `owner`:
    /// it starts `MUZZLE_DISTANCE` ahead and leaves at `MUZZLE_SPEED`
    /// against the rocket.
    pub open spec fn bullet_spec(&self, owner: usize) -> Bullet {
        let start = self.position.add_spec(muzzle_offset(self.rotation as int));
        Bullet {
            expired: false,
            start_position: start,
            position: start,
            speed: muzzle_velocity(self.rotation as int).add_spec(self.speed),
            color: self.bullet_color,
            rocket: owner,
        }
    }

    /// The rocket before it fires or holds fire in an update: throttle,
    /// stick and shield have taken effect.
    pub open spec fn steered(self, delta_t: int, state: GamepadState) -> Rocket {
        self.thrust_spec(state.thrust as int).rotate_spec(state.rotate as int).shield_spec(
            state.shield,
            delta_t,
        )
    }

    /// The rocket after an update with the controls `state`.
    pub open spec fn updated(self, delta_t: int, state: GamepadState) -> Rocket {
        let steered = self.steered(delta_t, state);
        if state.fire {
            steered.fire_on_spec(delta_t)
        } else {
            steered.fire_off_spec(delta_t)
        }
    }

    /// The bullets that an update with the controls `state` fires: one or
    /// none.
    pub open spec fn shots(self, delta_t: int, state: GamepadState) -> Seq<GameObject> {
        let steered = self.steered(delta_t, state);
        if state.fire && steered.fires(delta_t) {
            seq![GameObject::Bullet(steered.bullet_spec(state.rocket_index))]
        } else {
            Seq::empty()
        }
    }

    /// The speed of the rocket `delta_t` milliseconds later.
    pub open spec fn speed_after(self, delta_t: int) -> Vector {
        self.speed.add_spec(self.acc.scale_spec(elapsed(delta_t)))
    }

    /// Where the rocket gets to in `delta_t` milliseconds if no edge of the
    /// arena is in its way: it moves with the speed that it has gained.
    pub open spec fn heads_for(self, delta_t: int) -> Vector {
        self.position.add_spec(self.speed_after(delta_t).scale_spec(elapsed(delta_t)))
    }

    /// The rocket `delta_t` milliseconds later: it has gained speed, has
    /// moved on and come back into the arena where it left it, and its
    /// shield has charged or drained.
    pub open spec fn moved(self, delta_t: int, game_area: Area) -> Rocket {
        Rocket {
            speed: self.speed_after(delta_t),
            position: game_area.wrapped(self.heads_for(delta_t)),
            shield_time: (if self.shield_on {
                charged(self.shield_time as int, delta_t, MAX_SHIELD_TIME as int)
            } else {
                drained(self.shield_time as int, delta_t)
            }) as i64,
            ..self
        }
    }

    /// The rocket with `by` more damage.
    pub open spec fn damaged(self, by: u64) -> Rocket {
        Rocket { damage: raised(self.damage, by), ..self }
    }

    /// The rocket with `by` milliseconds more charge time on its shield, up
    /// to `MAX_SHIELD_TIME`.
    pub open spec fn absorbed(self, by: i64) -> Rocket {
        Rocket {
            shield_time: charged(self.shield_time as int, by as int, MAX_SHIELD_TIME as int) as i64,
            ..self
        }
    }

    /// The rocket after a collision with an object of type `objtype`.
    /// Without a protecting shield it takes damage from an asteroid, a
    /// bullet or a rocket; with one, the shield gains charge time from a
    /// bullet or a rocket. Nothing else touches it.
    pub open spec fn collided(self, objtype: GameObjectType) -> Rocket {
        match objtype {
            GameObjectType::Asteroid => if self.is_shield_active_spec() {
                self
            } else {
                self.damaged(ASTEROID_DAMAGE)
            },
            GameObjectType::Bullet => if self.is_shield_active_spec() {
                self.absorbed(BULLET_ABSORB_TIME)
            } else {
                self.damaged(BULLET_DAMAGE)
            },
            GameObjectType::Rocket => if self.is_shield_active_spec() {
                self.absorbed(ROCKET_ABSORB_TIME)
            } else {
                self.damaged(ROCKET_DAMAGE)
            },
            _ => self,
        }
    }

    /// What a collision with an object of type `objtype` leaves behind: an
    /// explosion where the rocket is, if it was an asteroid.
    pub open spec fn sparks(self, objtype: GameObjectType) -> Seq<GameObject> {
        if objtype == GameObjectType::Asteroid {
            seq![GameObject::Explosion(Explosion { time: 0, position: self.position })]
        } else {
            Seq::empty()
        }
    }

    /// Applies the controls `state` for a frame of `delta_t` milliseconds
    /// and returns the bullet that was fired, if one was. The bullet is
    /// owned by the rocket at index `state.rocket_index`.
    pub fn update(&mut self, delta_t: i64, state: &GamepadState) -> (shots: Vec<GameObject>)
        ensures
            *final(self) == old(self).updated(delta_t as int, *state),
            shots@ == old(self).shots(delta_t as int, *state),
            old(self).wf() ==> final(self).wf(),
    {
        self.thrust(state.thrust);
        self.rotate(state.rotate);
        if state.shield {
            self.shield_on(delta_t);
        } else {
            self.shield_off(delta_t);
        }
        if state.fire {
            self.fire_on(delta_t, state.rocket_index)
        } else {
            self.fire_off(delta_t);
            Vec::new()
        }
    }

    /// Lets the gun rest for `delta_t` milliseconds.
    pub fn fire_off(&mut self, delta_t: i64)
        ensures
            *final(self) == old(self).fire_off_spec(delta_t as int),
            old(self).wf() ==> final(self).wf(),
    {
        self.last_shot = 0;
        self.burst_time = drain(self.burst_time, delta_t);
    }

    /// Holds the trigger for `delta_t` milliseconds and returns the bullet
    /// that was fired, if one was, owned by the rocket at index `owner`.
    pub fn fire_on(&mut self, delta_t: i64, owner: usize) -> (shots: Vec<GameObject>)
        ensures
            *final(self) == old(self).fire_on_spec(delta_t as int),
            shots@ == if old(self).fires(delta_t as int) {
                seq![GameObject::Bullet(old(self).bullet_spec(owner))]
            } else {
                Seq::empty()
            },
            old(self).wf() ==> final(self).wf(),
    {
        self.burst_time = charge(self.burst_time, delta_t, MAX_BURST_TIME);
        if (self.last_shot == 0 || self.last_shot > SHOT_INTERVAL) && self.burst_time
            < MAX_BURST_TIME {
            self.last_shot = SHOT_TIME;
            let pointing = pointing(self.rotation);
            let rotvec = pointing.with_length(MUZZLE_DISTANCE);
            let tempo = pointing.with_length(MUZZLE_SPEED).add(&self.speed);
            let start = self.position.add(&rotvec);
            let bullet = Bullet {
                expired: false,
                start_position: start,
                position: start,
                speed: tempo,
                color: self.bullet_color.clone(),
                rocket: owner,
            };
            let mut shots = Vec::new();
            shots.push(GameObject::Bullet(bullet));
            shots
        } else {
            self.last_shot = age(self.last_shot, delta_t);
            Vec::new()
        }
    }

    fn thrust(&mut self, value: i64)
        ensures
            *final(self) == old(self).thrust_spec(value as int),
    {
        if value >= 0 && value <= UNIT {
            self.thrust = THRUST_RATE * value;
        }
        self.update_acc();
    }

    fn rotate(&mut self, value: i64)
        ensures
            *final(self) == old(self).rotate_spec(value as int),
    {
        self.rotation = saturate(self.rotation as i128 + (value as i128) * (TURN_RATE as i128));
        self.update_acc();
    }

    fn shield_on(&mut self, delta_t: i64)
        ensures
            *final(self) == old(self).shield_spec(true, delta_t as int),
    {
        self.shield_on = true;
        self.shield_time = charge(self.shield_time, delta_t, MAX_SHIELD_TIME);
    }

    fn shield_off(&mut self, delta_t: i64)
        ensures
            *final(self) == old(self).shield_spec(false, delta_t as int),
    {
        self.shield_on = false;
        self.shield_time = drain(self.shield_time, delta_t);
    }

    fn update_acc(&mut self)
        ensures
            *final(self) == (Rocket {
                acc: acc_spec(old(self).thrust as int, old(self).rotation as int),
                ..*old(self)
            }),
    {
        self.acc = pointing(self.rotation).with_length(self.thrust);
    }

    #[verifier::when_used_as_spec(is_shield_active_spec)]
    pub fn is_shield_active(&self) -> (b: bool)
        ensures
            b == self.is_shield_active_spec(),
    {
        self.shield_on && (self.shield_time > 0) && (self.shield_time < MAX_SHIELD_TIME)
    }

    #[verifier::when_used_as_spec(get_type_spec)]
    pub fn get_type(&self) -> (t: GameObjectType)
        ensures
            t == self.get_type_spec(),
    {
        GameObjectType::Rocket
    }

    #[verifier::when_used_as_spec(current_position_spec)]
    pub fn current_position(&self) -> (p: Vector)
        ensures
            p == self.current_position_spec(),
    {
        self.position
    }

    #[verifier::when_used_as_spec(radius_spec)]
    pub fn radius(&self) -> (r: i64)
        ensures
            r == self.radius_spec(),
    {
        ROCKET_RADIUS
    }

    #[verifier::when_used_as_spec(is_expired_spec)]
    pub fn is_expired(&self) -> (b: bool)
        ensures
            b == self.is_expired_spec(),
    {
        false
    }

    /// A rocket cannot be put out.
    pub fn expire(&mut self)
        ensures
            *final(self) == *old(self),
    {
    }

    /// Moves the rocket on by `delta_t` milliseconds.
    pub fn move_t(&mut self, delta_t: i64, game_area: Area)
        ensures
            *final(self) == old(self).moved(delta_t as int, game_area),
            old(self).wf() ==> final(self).wf(),
            game_area.wf() ==> game_area.contains(final(self).position),
    {
        let dt = elapsed_time(delta_t);
        self.speed = self.speed.add(&self.acc.scale(dt));
        self.position = game_area.wrap(self.position.add(&self.speed.scale(dt)));
        if self.shield_on {
            self.shield_time = charge(self.shield_time, delta_t, MAX_SHIELD_TIME);
        } else {
            self.shield_time = drain(self.shield_time, delta_t);
        }
    }

    /// Takes the damage of a collision with an object of type `objtype`,
    /// or charges the shield that stopped it, and returns what the
    /// collision leaves behind.
    pub fn collision_with(
        &mut self,
        objtype: GameObjectType,
        objfactory: &GameObjectFactory,
    ) -> (objects: Vec<GameObject>)
        ensures
            *final(self) == old(self).collided(objtype),
            objects@ == old(self).sparks(objtype),
            old(self).wf() ==> final(self).wf(),
    {
        let mut objects = Vec::new();
        if objtype == GameObjectType::Asteroid {
            if !self.is_shield_active() {
                self.damage = self.damage.saturating_add(ASTEROID_DAMAGE);
            }
            objects.push(objfactory.create_explosion(self.position));
        } else if objtype == GameObjectType::Bullet {
            if !self.is_shield_active() {
                self.damage = self.damage.saturating_add(BULLET_DAMAGE);
            } else {
                self.shield_time = charge(self.shield_time, BULLET_ABSORB_TIME, MAX_SHIELD_TIME);
            }
        } else if objtype == GameObjectType::Rocket {
            if !self.is_shield_active() {
                self.damage = self.damage.saturating_add(ROCKET_DAMAGE);
            } else {
                self.shield_time = charge(self.shield_time, ROCKET_ABSORB_TIME, MAX_SHIELD_TIME);
            }
        }
        objects
    }
}

/// A shield that is held up but has no charge protects no more than one
/// that is let down. Of two rockets that differ in nothing but that the
/// one holds its uncharged shield up and the other has let it down, an
/// asteroid does the same to both: it adds `ASTEROID_DAMAGE` to the damage,
/// as far as the count goes, and leaves one explosion where the rocket is;
/// afterwards the two still differ in nothing but the shield.
pub proof fn lemma_uncharged_shield_gives_no_cover(rocket: Rocket)
    requires
        rocket.shield_on,
        rocket.shield_time == 0,
    ensures
        !rocket.is_shield_active(),
        rocket.collided(GameObjectType::Asteroid).damage == raised(rocket.damage, ASTEROID_DAMAGE),
        rocket.damage <= u64::MAX - ASTEROID_DAMAGE ==> rocket.collided(
            GameObjectType::Asteroid,
        ).damage == rocket.damage + ASTEROID_DAMAGE,
        rocket.collided(GameObjectType::Asteroid) == (Rocket {
            shield_on: true,
            ..(Rocket { shield_on: false, ..rocket }).collided(GameObjectType::Asteroid)
        }),
        (Rocket { shield_on: false, ..rocket }).collided(GameObjectType::Asteroid).damage == raised(
            rocket.damage,
            ASTEROID_DAMAGE,
        ),
        rocket.sparks(GameObjectType::Asteroid) == (Rocket { shield_on: false, ..rocket }).sparks(
            GameObjectType::Asteroid,
        ),
        rocket.sparks(GameObjectType::Asteroid) == seq![
            GameObject::Explosion(Explosion { time: 0, position: rocket.position }),
        ],
{
}

/// The rocket after the trigger was held through frames of the lengths
/// `frames`, one after the other.
pub open spec fn held_fire(rocket: Rocket, frames: Seq<int>) -> Rocket
    decreases frames.len(),
{
    if frames.len() == 0 {
        rocket
    } else {
        held_fire(rocket, frames.drop_last()).fire_on_spec(frames.last())
    }
}

/// The number of shots that are fired while the trigger is held through
/// frames of the lengths `frames`.
pub open spec fn shots_fired(rocket: Rocket, frames: Seq<int>) -> nat
    decreases frames.len(),
{
    if frames.len() == 0 {
        0
    } else {
        shots_fired(rocket, frames.drop_last()) + if held_fire(rocket, frames.drop_last()).fires(
            frames.last(),
        ) {
            1nat
        } else {
            0nat
        }
    }
}

/// While the trigger is held, a shot is fired in a frame exactly if the
/// gun was ready or the last shot is more than `SHOT_INTERVAL` old, and the
/// burst, the frame included, is still short of `MAX_BURST_TIME`. A shot
/// sets the time since the last shot to `SHOT_TIME`; a frame without one
/// adds its length to it.
pub proof fn lemma_fire_cadence(rocket: Rocket, delta_t: int)
    requires
        rocket.wf(),
    ensures
        rocket.fires(delta_t) <==> ((rocket.last_shot == 0 || rocket.last_shot > SHOT_INTERVAL)
            && rocket.burst_time + elapsed(delta_t) < MAX_BURST_TIME),
        rocket.fires(delta_t) ==> rocket.fire_on_spec(delta_t).last_shot == SHOT_TIME,
        !rocket.fires(delta_t) ==> rocket.fire_on_spec(delta_t).last_shot == aged(
            rocket.last_shot as int,
            delta_t,
        ),
        rocket.fire_on_spec(delta_t).burst_time == if rocket.burst_time + elapsed(delta_t)
            > MAX_BURST_TIME {
            MAX_BURST_TIME as int
        } else {
            rocket.burst_time + elapsed(delta_t)
        },
{
}

/// Once the burst has reached `MAX_BURST_TIME`, holding the trigger fires
/// nothing more, however long it is held.
pub proof fn lemma_hot_gun_stays_silent(rocket: Rocket, frames: Seq<int>)
    requires
        rocket.wf(),
        rocket.burst_time == MAX_BURST_TIME,
    ensures
        held_fire(rocket, frames).burst_time == MAX_BURST_TIME,
        held_fire(rocket, frames).wf(),
        shots_fired(rocket, frames) == 0,
        forall|delta_t: int| !held_fire(rocket, frames).fires(delta_t),
    decreases frames.len(),
{
    if frames.len() > 0 {
        lemma_hot_gun_stays_silent(rocket, frames.drop_last());
    }
}

} // verus!
