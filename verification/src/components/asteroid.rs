//! The asteroids, and how they break apart.
use vstd::prelude::*;
use crate::components::game_object_factory::GameObjectFactory;
use crate::engine::arena::{Area, GameObjectType};
use crate::engine::object::GameObject;
use crate::utils::fixed::{elapsed, elapsed_time, UNIT};
use crate::utils::random::{
    draw_at, draws_after, fraction_of, lemma_fraction_bounds, scale_draw, RandomSource,
};
use crate::utils::trig::{
    cos_spec, lemma_sin_cos_apart, lemma_sin_cos_bounds, sin_spec, QUARTER_TURN,
};
use crate::utils::vmath::{lemma_product_lengths, lemma_with_length, square, Vector};

verus! {

/// The radius of a small asteroid, in thousandths of a unit.
pub const SMALL_RADIUS: i64 = 10_000;

/// The radius of a medium asteroid, in thousandths of a unit.
pub const MEDIUM_RADIUS: i64 = 20_000;

/// The radius of a large asteroid, in thousandths of a unit.
pub const LARGE_RADIUS: i64 = 30_000;

/// Half the angle over which the push on a fragment is spread: an eighth of
/// a turn to either side, in microradians.
pub const IMPULSE_SPREAD: i64 = 785_398;

/// The least push on a medium fragment, in thousandths of a unit per second.
pub const IMPULSE_FLOOR: i64 = 30_000;

/// The span above `IMPULSE_FLOOR` from which the push on a medium fragment
/// is drawn, in thousandths of a unit per second.
pub const IMPULSE_SPAN: i64 = 50_000;

/// The number of draws that one fragment takes.
pub const FRAGMENT_DRAWS: usize = 2;

/// The three sizes of asteroid.
#[derive(Debug, Clone, Copy, PartialEq, Eq, Structural)]
pub enum AsteroidSize {
    Small,
    Medium,
    Large,
}

impl AsteroidSize {
    /// The radius of an asteroid of this size.
    pub open spec fn radius_spec(&self) -> i64 {
        match self {
            AsteroidSize::Small => SMALL_RADIUS,
            AsteroidSize::Medium => MEDIUM_RADIUS,
            AsteroidSize::Large => LARGE_RADIUS,
        }
    }

    /// The size of the fragments of an asteroid of this size: the next
    /// smaller one, and none for a small asteroid.
    pub open spec fn smaller_spec(&self) -> Option<AsteroidSize> {
        match self {
            AsteroidSize::Small => None,
            AsteroidSize::Medium => Some(AsteroidSize::Small),
            AsteroidSize::Large => Some(AsteroidSize::Medium),
        }
    }

    /// The rank of the size: 1 for small, 2 for medium, 3 for large.
    pub open spec fn rank(&self) -> nat {
        match self {
            AsteroidSize::Small => 1,
            AsteroidSize::Medium => 2,
            AsteroidSize::Large => 3,
        }
    }

    /// By how much the push on a fragment of this size is scaled: smaller
    /// fragments are pushed harder.
    pub open spec fn impulse_factor(&self) -> int {
        match self {
            AsteroidSize::Small => 2,
            _ => 1,
        }
    }

    #[verifier::when_used_as_spec(radius_spec)]
    pub fn radius(&self) -> (r: i64)
        ensures
            r == self.radius_spec(),
    {
        match self {
            AsteroidSize::Small => SMALL_RADIUS,
            AsteroidSize::Medium => MEDIUM_RADIUS,
            AsteroidSize::Large => LARGE_RADIUS,
        }
    }

    #[verifier::when_used_as_spec(smaller_spec)]
    pub fn smaller(&self) -> (size: Option<AsteroidSize>)
        ensures
            size == self.smaller_spec(),
            size matches Some(s) ==> s.rank() + 1 == self.rank(),
    {
        match self {
            AsteroidSize::Small => None,
            AsteroidSize::Medium => Some(AsteroidSize::Small),
            AsteroidSize::Large => Some(AsteroidSize::Medium),
        }
    }
}

/// The direction in which the fragments of an asteroid with the given speed
/// are pushed apart, before it is turned by chance: at a right angle to the
/// way the asteroid drifts, and along the second axis for one at rest.
pub open spec fn impulse_direction(speed: Vector) -> Vector {
    let along = if speed.x == 0 && speed.y == 0 {
        Vector { x: UNIT, y: 0 }
    } else {
        speed.normalize_spec()
    };
    Vector { x: (-along.y) as i64, y: along.x }
}

/// The angle by which a draw turns the push on a fragment: from an eighth
/// of a turn to one side to an eighth of a turn to the other.
pub open spec fn impulse_angle(draw: u32) -> int {
    fraction_of(draw, QUARTER_TURN as int) - IMPULSE_SPREAD
}

/// The strength of the push that a draw gives a fragment of size `size`:
/// from `IMPULSE_FLOOR` up to, not including, `IMPULSE_FLOOR + IMPULSE_SPAN`,
/// times the factor of the size.
pub open spec fn impulse_force(size: AsteroidSize, draw: u32) -> int {
    (fraction_of(draw, IMPULSE_SPAN as int) + IMPULSE_FLOOR) * size.impulse_factor()
}

/// Whatever is drawn, the push on a fragment is turned by an eighth of a
/// turn at most to either side, and its strength is at least
/// `IMPULSE_FLOOR` and less than `IMPULSE_FLOOR + IMPULSE_SPAN`, times the
/// factor of the fragment's size.
pub proof fn lemma_impulse_bounds(size: AsteroidSize, angle_draw: u32, force_draw: u32)
    ensures
        -IMPULSE_SPREAD <= impulse_angle(angle_draw) < IMPULSE_SPREAD,
        IMPULSE_FLOOR * size.impulse_factor() <= impulse_force(size, force_draw) < (IMPULSE_FLOOR
            + IMPULSE_SPAN) * size.impulse_factor(),
{
    lemma_fraction_bounds(angle_draw, QUARTER_TURN as int);
    lemma_fraction_bounds(force_draw, IMPULSE_SPAN as int);
}

/// The way the push on a fragment of an asteroid with the given speed
/// points, once it is turned by `angle`: the direction of the push, turned.
/// The vector is about a thousand units long; what counts is where it
/// points.
pub open spec fn impulse_heading(speed: Vector, angle: int) -> Vector {
    let across = impulse_direction(speed);
    let turn = Vector::bearing_spec(angle);
    Vector {
        x: (across.x * turn.x - across.y * turn.y) as i64,
        y: (across.x * turn.y + across.y * turn.x) as i64,
    }
}

/// The push on a fragment of size `size` of an asteroid with speed `speed`,
/// for the two draws that turn and scale it: the difference between the
/// speed of the fragment and that of the asteroid.
pub open spec fn impulse(
    size: AsteroidSize,
    speed: Vector,
    angle_draw: u32,
    force_draw: u32,
) -> Vector {
    impulse_heading(speed, impulse_angle(angle_draw)).with_length_spec(
        impulse_force(size, force_draw),
    )
}

/// The speed of a fragment of size `size` of an asteroid with speed
/// `speed`, for the two draws that turn and scale the push.
pub open spec fn fragment_speed(
    size: AsteroidSize,
    speed: Vector,
    angle_draw: u32,
    force_draw: u32,
) -> Vector {
    speed.add_spec(impulse(size, speed, angle_draw, force_draw))
}

/// The direction of the push is never zero, and no component of it is
/// longer than a unit.
pub proof fn lemma_impulse_direction(speed: Vector)
    ensures
        impulse_direction(speed).x != 0 || impulse_direction(speed).y != 0,
        -UNIT <= impulse_direction(speed).x <= UNIT,
        -UNIT <= impulse_direction(speed).y <= UNIT,
{
    if speed.x != 0 || speed.y != 0 {
        lemma_with_length(speed, UNIT as int);
    }
}

/// The heading of the push is never zero, and no component of it is longer
/// than two thousand units.
pub proof fn lemma_impulse_heading(speed: Vector, angle: int)
    ensures
        impulse_heading(speed, angle).x != 0 || impulse_heading(speed, angle).y != 0,
        impulse_heading(speed, angle).x == impulse_direction(speed).x * Vector::bearing_spec(angle).x
            - impulse_direction(speed).y * Vector::bearing_spec(angle).y,
        impulse_heading(speed, angle).y == impulse_direction(speed).x * Vector::bearing_spec(angle).y
            + impulse_direction(speed).y * Vector::bearing_spec(angle).x,
{
    lemma_impulse_direction(speed);
    lemma_sin_cos_apart(angle);
    lemma_sin_cos_bounds(angle);
    let a: int = impulse_direction(speed).x as int;
    let b: int = impulse_direction(speed).y as int;
    let c: int = cos_spec(angle);
    let d: int = sin_spec(angle);
    let x = a * c - b * d;
    let y = a * d + b * c;
    assert(-2_000_000 <= x <= 2_000_000 && -2_000_000 <= y <= 2_000_000) by (nonlinear_arith)
        requires
            x == a * c - b * d,
            y == a * d + b * c,
            -1000 <= a <= 1000,
            -1000 <= b <= 1000,
            -1000 <= c <= 1000,
            -1000 <= d <= 1000,
    ;
    // the squared lengths multiply, and neither is zero
    lemma_product_lengths(a, b, c, d);
    assert(a * a + b * b >= 1 && c * c + d * d >= 1) by (nonlinear_arith)
        requires
            a != 0 || b != 0,
            c != 0 || d != 0,
    ;
    assert((a * a + b * b) * (c * c + d * d) >= 1) by (nonlinear_arith)
        requires
            a * a + b * b >= 1,
            c * c + d * d >= 1,
    ;
    if x == 0 && y == 0 {
        assert(x * x + y * y == 0) by (nonlinear_arith)
            requires
                x == 0,
                y == 0,
        ;
    }
}

/// The push on a fragment points within an eighth of a turn of the
/// direction across the way the asteroid drifts: along that direction the
/// heading of the push is at least as long as across it.
pub proof fn lemma_impulse_turn(speed: Vector, angle_draw: u32)
    ensures
        ({
            let across = impulse_direction(speed);
            let heading = impulse_heading(speed, impulse_angle(angle_draw));
            let along = across.x * heading.x + across.y * heading.y;
            let aside = across.x * heading.y - across.y * heading.x;
            -along <= aside <= along
        }),
{
    let angle = impulse_angle(angle_draw);
    lemma_fraction_bounds(angle_draw, QUARTER_TURN as int);
    lemma_impulse_heading(speed, angle);
    lemma_impulse_direction(speed);
    crate::utils::trig::lemma_sin_below_cos(angle);
    lemma_sin_cos_bounds(angle);
    let a: int = impulse_direction(speed).x as int;
    let b: int = impulse_direction(speed).y as int;
    let c: int = cos_spec(angle);
    let d: int = sin_spec(angle);
    let x = a * c - b * d;
    let y = a * d + b * c;
    let n = a * a + b * b;
    assert(a * x + b * y == c * n && a * y - b * x == d * n) by (nonlinear_arith)
        requires
            x == a * c - b * d,
            y == a * d + b * c,
            n == a * a + b * b,
    ;
    assert(-(c * n) <= d * n <= c * n) by (nonlinear_arith)
        requires
            -c <= d <= c,
            n == a * a + b * b,
    ;
    let heading = impulse_heading(speed, angle);
    assert(heading.x == x && heading.y == y);
    assert(a * heading.x + b * heading.y == a * x + b * y && a * heading.y - b * heading.x == a * y - b
        * x) by (nonlinear_arith)
        requires
            heading.x == x,
            heading.y == y,
    ;
}

/// The push on a fragment is as strong as its draw makes it, to within two
/// thousandths of a unit per second, however the asteroid drifts, and at
/// rest too. So a medium fragment is pushed with at least `IMPULSE_FLOOR`,
/// less two thousandths, and less than `IMPULSE_FLOOR + IMPULSE_SPAN`, and
/// a small one with twice as much. Unless a speed is at the end of its
/// range, the push is the difference between the speed of the fragment and
/// that of the asteroid.
pub proof fn lemma_impulse_size(
    size: AsteroidSize,
    speed: Vector,
    angle_draw: u32,
    force_draw: u32,
)
    ensures
        square(impulse_force(size, force_draw) - 2) < impulse(
            size,
            speed,
            angle_draw,
            force_draw,
        ).length_squared() < square(impulse_force(size, force_draw) + 1),
        square(IMPULSE_FLOOR * size.impulse_factor() - 2) < impulse(
            size,
            speed,
            angle_draw,
            force_draw,
        ).length_squared() < square((IMPULSE_FLOOR + IMPULSE_SPAN) * size.impulse_factor()),
        -0x4000_0000_0000_0000 <= speed.x <= 0x4000_0000_0000_0000 && -0x4000_0000_0000_0000
            <= speed.y <= 0x4000_0000_0000_0000 ==> fragment_speed(
            size,
            speed,
            angle_draw,
            force_draw,
        ).sub_spec(speed) == impulse(size, speed, angle_draw, force_draw),
{
    let angle = impulse_angle(angle_draw);
    let force = impulse_force(size, force_draw);
    let heading = impulse_heading(speed, angle);
    let push = impulse(size, speed, angle_draw, force_draw);
    lemma_impulse_bounds(size, angle_draw, force_draw);
    lemma_impulse_heading(speed, angle);
    lemma_with_length(heading, force);
    let low = IMPULSE_FLOOR * size.impulse_factor();
    let high = (IMPULSE_FLOOR + IMPULSE_SPAN) * size.impulse_factor();
    assert(square(low - 2) <= square(force - 2) && square(force + 1) <= square(high)) by (nonlinear_arith)
        requires
            9 <= low <= force < high,
    ;
}

/// The speed of a fragment of size `size` of an asteroid with speed
/// `speed`, for the two draws that turn and scale the push. The fragment
/// differs in speed from the asteroid by at least `IMPULSE_FLOOR`, less two
/// thousandths, and by less than `IMPULSE_FLOOR + IMPULSE_SPAN`, times the
/// factor of its size.
pub fn fragment_speed_for(
    size: AsteroidSize,
    speed: Vector,
    angle_draw: u32,
    force_draw: u32,
) -> (v: Vector)
    ensures
        v == fragment_speed(size, speed, angle_draw, force_draw),
        -0x4000_0000_0000_0000 <= speed.x <= 0x4000_0000_0000_0000 && -0x4000_0000_0000_0000
            <= speed.y <= 0x4000_0000_0000_0000 ==> square(IMPULSE_FLOOR * size.impulse_factor() - 2)
            < v.sub_spec(speed).length_squared() < square(
            (IMPULSE_FLOOR + IMPULSE_SPAN) * size.impulse_factor(),
        ),
{
    proof {
        lemma_impulse_size(size, speed, angle_draw, force_draw);
    }
    let base_dir = if speed.x == 0 && speed.y == 0 {
        Vector::new(UNIT, 0)
    } else {
        speed.normalize()
    };
    let perp = Vector { x: -base_dir.y, y: base_dir.x };
    let angle = scale_draw(angle_draw, QUARTER_TURN) - IMPULSE_SPREAD;
    let force = scale_draw(force_draw, IMPULSE_SPAN) + IMPULSE_FLOOR;
    let force = match size {
        AsteroidSize::Small => 2 * force,
        _ => force,
    };
    let turn = Vector::bearing(angle);
    assert(-1_000_000 <= perp.x * turn.x <= 1_000_000 && -1_000_000 <= perp.y * turn.y <= 1_000_000
        && -1_000_000 <= perp.x * turn.y <= 1_000_000 && -1_000_000 <= perp.y * turn.x <= 1_000_000)
        by (nonlinear_arith)
        requires
            -1000 <= perp.x <= 1000,
            -1000 <= perp.y <= 1000,
            -1000 <= turn.x <= 1000,
            -1000 <= turn.y <= 1000,
    ;
    let heading = Vector {
        x: perp.x * turn.x - perp.y * turn.y,
        y: perp.x * turn.y + perp.y * turn.x,
    };
    let impulse = heading.with_length(force);
    speed.add(&impulse)
}

/// An asteroid.
#[derive(Debug, Clone, Copy, PartialEq, Eq, Structural)]
pub struct Asteroid {
    pub size: AsteroidSize,
    pub expired: bool,
    pub position: Vector,
    pub rotation: i64,
    pub speed: Vector,
    pub acc: Vector,
    pub radius: i64,
}

impl Asteroid {
    /// The radius is that of the size.
    pub open spec fn wf(&self) -> bool {
        self.radius == self.size.radius_spec()
    }

    /// A new asteroid of size `size` at `position` that drifts with `speed`.
    pub open spec fn fresh(size: AsteroidSize, position: Vector, speed: Vector) -> Asteroid {
        Asteroid {
            size,
            expired: false,
            position,
            rotation: 0,
            speed,
            acc: Vector { x: 0, y: 0 },
            radius: size.radius_spec(),
        }
    }

    pub open spec fn get_type_spec(&self) -> GameObjectType {
        GameObjectType::Asteroid
    }

    pub open spec fn current_position_spec(&self) -> Vector {
        self.position
    }

    pub open spec fn radius_spec(&self) -> i64 {
        self.radius
    }

    pub open spec fn is_expired_spec(&self) -> bool {
        self.expired
    }

    /// The speed of the asteroid `delta_t` milliseconds later.
    pub open spec fn speed_after(self, delta_t: int) -> Vector {
        self.speed.add_spec(self.acc.scale_spec(elapsed(delta_t)))
    }

    /// Where the asteroid gets to in `delta_t` milliseconds if no edge of
    /// the arena is in its way: it moves with the speed that it has gained.
    pub open spec fn heads_for(self, delta_t: int) -> Vector {
        self.position.add_spec(self.speed_after(delta_t).scale_spec(elapsed(delta_t)))
    }

    /// The asteroid `delta_t` milliseconds later: it has gained speed, has
    /// moved on and come back into the arena where it left it.
    pub open spec fn moved(self, delta_t: int, game_area: Area) -> Asteroid {
        Asteroid {
            speed: self.speed_after(delta_t),
            position: game_area.wrapped(self.heads_for(delta_t)),
            ..self
        }
    }

    /// Whether a collision with an object of type `objtype` breaks an
    /// asteroid.
    pub open spec fn broken_by(objtype: GameObjectType) -> bool {
        objtype == GameObjectType::Bullet || objtype == GameObjectType::Rocket
    }

    /// The asteroid after a collision with an object of type `objtype`.
    pub open spec fn collided(self, objtype: GameObjectType) -> Asteroid {
        if Self::broken_by(objtype) {
            Asteroid { expired: true, ..self }
        } else {
            self
        }
    }

    /// The `k`-th fragment, of size `size`, of an asteroid at `position`
    /// that drifted with `speed`, for the draws `draws`: it starts where
    /// the asteroid was.
    pub open spec fn fragment_of(
        size: AsteroidSize,
        position: Vector,
        speed: Vector,
        draws: Seq<u32>,
        k: int,
    ) -> Asteroid {
        Self::fresh(
            size,
            position,
            fragment_speed(size, speed, draw_at(draws, 2 * k), draw_at(draws, 2 * k + 1)),
        )
    }

    /// The two fragments that the asteroid breaks into, for the draws
    /// `draws`; none for a small asteroid.
    pub open spec fn fragments(self, draws: Seq<u32>) -> Seq<GameObject> {
        match self.size.smaller_spec() {
            Some(size) => seq![
                GameObject::Asteroid(Self::fragment_of(size, self.position, self.speed, draws, 0)),
                GameObject::Asteroid(Self::fragment_of(size, self.position, self.speed, draws, 1)),
            ],
            None => Seq::empty(),
        }
    }

    /// The number of draws that breaking the asteroid takes.
    pub open spec fn fragment_draws(self) -> int {
        if self.size == AsteroidSize::Small {
            0
        } else {
            2 * FRAGMENT_DRAWS
        }
    }

    /// What a collision with an object of type `objtype` leaves behind.
    pub open spec fn debris(self, objtype: GameObjectType, draws: Seq<u32>) -> Seq<GameObject> {
        if Self::broken_by(objtype) {
            self.fragments(draws)
        } else {
            Seq::empty()
        }
    }

    /// The number of draws that a collision with an object of type
    /// `objtype` takes.
    pub open spec fn draws_used(self, objtype: GameObjectType) -> int {
        if Self::broken_by(objtype) {
            self.fragment_draws()
        } else {
            0
        }
    }

    #[verifier::when_used_as_spec(get_type_spec)]
    pub fn get_type(&self) -> (t: GameObjectType)
        ensures
            t == self.get_type_spec(),
    {
        GameObjectType::Asteroid
    }

    #[verifier::when_used_as_spec(current_position_spec)]
    pub fn current_position(&self) -> (p: Vector)
        ensures
            p == self.current_position_spec(),
    {
        self.position
    }

    #[verifier::when_used_as_spec(radius_spec)]
    pub fn radius(&self) -> (r: i64)
        ensures
            r == self.radius_spec(),
    {
        self.radius
    }

    #[verifier::when_used_as_spec(is_expired_spec)]
    pub fn is_expired(&self) -> (b: bool)
        ensures
            b == self.is_expired_spec(),
    {
        self.expired
    }

    pub fn expire(&mut self)
        ensures
            *final(self) == (Asteroid { expired: true, ..*old(self) }),
    {
        self.expired = true;
    }

    /// Moves the asteroid on by `delta_t` milliseconds.
    pub fn move_t(&mut self, delta_t: i64, game_area: Area)
        ensures
            *final(self) == old(self).moved(delta_t as int, game_area),
            old(self).wf() ==> final(self).wf(),
            old(self).is_expired() ==> final(self).is_expired(),
            game_area.wf() ==> game_area.contains(final(self).position),
    {
        let dt = elapsed_time(delta_t);
        self.speed = self.speed.add(&self.acc.scale(dt));
        self.position = game_area.wrap(self.position.add(&self.speed.scale(dt)));
    }

    /// Breaks the asteroid if it met a bullet or a rocket, and returns its
    /// fragments: two of the next smaller size, pushed apart by the next
    /// four draws of `random`, or none if it was small. An asteroid that
    /// is broken already breaks again.
    pub fn collision_with(
        &mut self,
        objtype: GameObjectType,
        objfactory: &GameObjectFactory,
        random: &mut RandomSource,
    ) -> (objects: Vec<GameObject>)
        ensures
            *final(self) == old(self).collided(objtype),
            objects@ == old(self).debris(objtype, old(random)@),
            final(random)@ == draws_after(old(random)@, old(self).draws_used(objtype)),
            old(self).wf() ==> final(self).wf(),
            old(self).is_expired() ==> final(self).is_expired(),
            Self::broken_by(objtype) ==> final(self).is_expired(),
            objects@.len() == if Self::broken_by(objtype) && old(self).size != AsteroidSize::Small {
                2int
            } else {
                0int
            },
            forall|i: int|
                0 <= i < objects@.len() ==> (#[trigger] objects@[i] matches GameObject::Asteroid(a)
                    && a.wf() && a.size.rank() + 1 == old(self).size.rank() && a.position == old(
                    self,
                ).position && !a.expired),
    {
        let mut objects = Vec::new();
        if objtype == GameObjectType::Bullet || objtype == GameObjectType::Rocket {
            match objfactory.create_fragment_pair(self.size, self.position, self.speed, random) {
                Some((first, second)) => {
                    objects.push(first);
                    objects.push(second);
                },
                None => {},
            }
            self.expire();
        }
        objects
    }
}

/// Breaking an asteroid takes it down one size: a bullet or a rocket breaks
/// a large asteroid into exactly two medium ones and a medium asteroid into
/// exactly two small ones, and of a small asteroid nothing is left. The
/// fragments start where the asteroid was.
pub proof fn lemma_fragments_are_one_size_smaller(
    asteroid: Asteroid,
    objtype: GameObjectType,
    draws: Seq<u32>,
)
    requires
        Asteroid::broken_by(objtype),
    ensures
        asteroid.collided(objtype).is_expired(),
        asteroid.size == AsteroidSize::Large ==> asteroid.debris(objtype, draws).len() == 2,
        asteroid.size == AsteroidSize::Medium ==> asteroid.debris(objtype, draws).len() == 2,
        asteroid.size == AsteroidSize::Small ==> asteroid.debris(objtype, draws).len() == 0,
        forall|i: int|
            0 <= i < asteroid.debris(objtype, draws).len() ==> {
                &&& #[trigger] asteroid.debris(objtype, draws)[i] matches GameObject::Asteroid(fragment)
                &&& asteroid.size == AsteroidSize::Large ==> fragment.size == AsteroidSize::Medium
                &&& asteroid.size == AsteroidSize::Medium ==> fragment.size == AsteroidSize::Small
                &&& fragment.size.rank() + 1 == asteroid.size.rank()
                &&& fragment.position == asteroid.position
                &&& fragment.wf()
                &&& !fragment.is_expired()
            },
{
}

} // verus!
