//! The game: the live set of objects, the round, and the frame that
//! advances both.
//!
//! A frame has four steps. The rockets take their controls and may fire.
//! Every object moves on, and a countdown that has run out calls in the
//! next wave of asteroids. The objects that are over are taken out, and a
//! live set without asteroids and without a countdown starts the countdown
//! to the next round. Last, the objects that collide take their collisions,
//! and what the collisions made joins the live set.
use vstd::prelude::*;
use crate::components::countdown::Countdown;
use crate::components::game_object_factory::{fresh_rocket, wave, GameObjectFactory};
use crate::engine::arena::{Area, GameObjectType};
use crate::engine::collision::{
    colliding_pairs, find_collisions, lemma_colliding_pairs, lemma_resolved_keeps_places,
    lemma_resolved_spends, resolve_collisions, resolved, same_places, same_rocket, Pass,
};
use crate::engine::input::{GamepadState, GamepadStates};
use crate::engine::object::GameObject;
use crate::utils::fixed::{clamp_i64, div_toward_zero, saturate};
use crate::utils::random::{draws_after, lemma_spent_twice, spent, RandomSource};
use crate::utils::vmath::Vector;

verus! {

/// The round in which a game starts.
pub const FIRST_ROUND: u32 = 1;

/// The number of asteroids in a wave, per round.
pub const WAVE_SIZE: u64 = 2;

/// The bound on the speed of the asteroids of a wave along each axis, per
/// round, in thousandths of a unit per second.
pub const WAVE_SPEED: i64 = 50_000;

/// The gap between two rockets where they start, in thousandths of a unit.
pub const ROCKET_GAP: i64 = 50_000;

/// The height at which the rockets start, in thousandths of a unit.
pub const ROCKET_HEIGHT: i64 = 200_000;

/// Where the first score is shown, along both axes, in thousandths of a
/// unit.
pub const SCORE_MARGIN: i64 = 50_000;

/// The gap between two scores, in thousandths of a unit.
pub const SCORE_GAP: i64 = 150_000;

/// How far left of the middle of the arena the countdown is shown, in
/// thousandths of a unit.
pub const COUNTDOWN_LEFT: i64 = 20_000;

/// How far above the middle of the arena the countdown is shown, in
/// thousandths of a unit.
pub const COUNTDOWN_UP: i64 = 8_000;

/// Where the rocket with the index `n` starts in `area`.
pub open spec fn rocket_position(area: Area, n: usize) -> Vector {
    Vector {
        x: clamp_i64(div_toward_zero(area.width as int, 3) + n * ROCKET_GAP) as i64,
        y: ROCKET_HEIGHT,
    }
}

/// Where the score of the rocket with the index `n` is shown.
pub open spec fn score_position(n: usize) -> Vector {
    Vector { x: clamp_i64(SCORE_MARGIN + n * SCORE_GAP) as i64, y: SCORE_MARGIN }
}

/// Where the countdown is shown in `area`: a little left of and above the
/// middle.
pub open spec fn countdown_position(area: Area) -> Vector {
    Vector {
        x: (div_toward_zero(area.width as int, 2) - COUNTDOWN_LEFT) as i64,
        y: (div_toward_zero(area.height as int, 2) - COUNTDOWN_UP) as i64,
    }
}

/// The round after `round`. The count stops at the largest `u32`.
pub open spec fn next_round(round: u32) -> u32 {
    if round == u32::MAX {
        round
    } else {
        (round + 1) as u32
    }
}

/// The live set once the rocket that `state` names has taken its
/// controls: the bullet it fired, if any, comes last. Controls that name
/// no rocket change nothing.
pub open spec fn steered(
    shapes: Seq<GameObject>,
    delta_t: int,
    state: GamepadState,
) -> Seq<GameObject> {
    if state.rocket_index < shapes.len() {
        match shapes[state.rocket_index as int] {
            GameObject::Rocket(rocket) => shapes.update(
                state.rocket_index as int,
                GameObject::Rocket(rocket.updated(delta_t, state)),
            ) + rocket.shots(delta_t, state),
            _ => shapes,
        }
    } else {
        shapes
    }
}

/// The live set once all of `states` have taken effect, in their order.
pub open spec fn steered_all(
    shapes: Seq<GameObject>,
    delta_t: int,
    states: Seq<GamepadState>,
) -> Seq<GameObject>
    decreases states.len(),
{
    if states.len() == 0 {
        shapes
    } else {
        steered(steered_all(shapes, delta_t, states.drop_last()), delta_t, states.last())
    }
}

/// The live set with every object moved on by `delta_t` milliseconds.
pub open spec fn moved_all(shapes: Seq<GameObject>, delta_t: int, area: Area) -> Seq<GameObject> {
    Seq::new(shapes.len(), |i: int| shapes[i].moved(delta_t, area))
}

/// Whether an object of the live set calls for the next wave after
/// `delta_t` more milliseconds.
pub open spec fn wave_due(shapes: Seq<GameObject>, delta_t: int) -> bool {
    exists|i: int| 0 <= i < shapes.len() && (#[trigger] shapes[i]).signal(delta_t) is Some
}

/// The test that picks the objects that stay in the live set.
pub open spec fn alive() -> spec_fn(GameObject) -> bool {
    |object: GameObject| !object.is_expired()
}

/// The live set without the objects that are over, the others in their
/// order.
pub open spec fn purged(shapes: Seq<GameObject>) -> Seq<GameObject> {
    shapes.filter(alive())
}

/// The arena is cleared: the live set holds no asteroid and no countdown.
pub open spec fn cleared(shapes: Seq<GameObject>) -> bool {
    forall|i: int|
        0 <= i < shapes.len() ==> (#[trigger] shapes[i]).get_type() != GameObjectType::Asteroid
            && shapes[i].get_type() != GameObjectType::Countdown
}

/// The state of a game.
pub struct World {
    pub round: u32,
    pub game_area: Area,
    /// The live set. The rockets come first, in the order in which they
    /// were made, so that the index of a rocket never changes.
    pub shapes: Seq<GameObject>,
    pub number_of_rockets: usize,
}

impl World {
    /// Every object is well formed, the round is at least the first, and
    /// the rockets are the first `number_of_rockets` objects of the live
    /// set.
    pub open spec fn wf(self) -> bool {
        &&& self.round >= FIRST_ROUND
        &&& self.number_of_rockets <= self.shapes.len() <= usize::MAX
        &&& forall|i: int|
            0 <= i < self.shapes.len() ==> (i < self.number_of_rockets <==> (
            #[trigger] self.shapes[i]).get_type() == GameObjectType::Rocket)
        &&& forall|i: int| 0 <= i < self.shapes.len() ==> (#[trigger] self.shapes[i]).wf()
    }

    /// The number of asteroids in the next wave.
    pub open spec fn wave_size(self) -> nat {
        (WAVE_SIZE * self.round) as nat
    }

    /// The bound on the speed of the asteroids of the next wave.
    pub open spec fn wave_speed(self) -> i64 {
        (WAVE_SPEED * self.round) as i64
    }

    /// The number of draws that the next wave takes.
    pub open spec fn wave_draws(self) -> nat {
        4 * self.wave_size()
    }

    /// A number of draws that is enough for a frame in which `states`
    /// controls take effect: those of a wave, and eight for every pair of
    /// the objects that can be in the live set when the collisions are
    /// resolved.
    pub open spec fn frame_draws(self, states: nat) -> nat {
        let most = self.shapes.len() + states + self.wave_size() + 1;
        (self.wave_draws() + 4 * most * (most - 1)) as nat
    }

    /// The game with one more rocket.
    pub open spec fn with_rocket(self, color: String) -> World {
        World {
            shapes: self.shapes.insert(
                self.number_of_rockets as int,
                GameObject::Rocket(
                    fresh_rocket(
                        rocket_position(self.game_area, self.number_of_rockets),
                        score_position(self.number_of_rockets),
                        color,
                    ),
                ),
            ),
            number_of_rockets: (self.number_of_rockets + 1) as usize,
            ..self
        }
    }

    /// The game once the rockets have taken their controls.
    pub open spec fn after_controls(self, delta_t: int, states: Seq<GamepadState>) -> World {
        World { shapes: steered_all(self.shapes, delta_t, states), ..self }
    }

    /// The game with the next wave of asteroids in it.
    pub open spec fn with_wave(self, draws: Seq<u32>) -> World {
        World {
            shapes: self.shapes + wave(self.wave_size(), self.game_area, self.wave_speed(), draws),
            ..self
        }
    }

    /// The game once every object has moved on and the wave that a
    /// countdown called for has come in.
    pub open spec fn after_motion(self, delta_t: int, draws: Seq<u32>) -> World {
        let moved = World { shapes: moved_all(self.shapes, delta_t, self.game_area), ..self };
        if wave_due(self.shapes, delta_t) {
            moved.with_wave(draws)
        } else {
            moved
        }
    }

    /// The number of draws that the motion takes.
    pub open spec fn motion_draws(self, delta_t: int) -> int {
        if wave_due(self.shapes, delta_t) {
            4 * (self.wave_size() as int)
        } else {
            0
        }
    }

    /// The game with a countdown started and the round counted on.
    pub open spec fn with_new_round(self) -> World {
        World {
            shapes: self.shapes.push(
                GameObject::Countdown(
                    Countdown {
                        time: 0,
                        position: countdown_position(self.game_area),
                        count: crate::components::countdown::FIRST_COUNT,
                    },
                ),
            ),
            round: next_round(self.round),
            ..self
        }
    }

    /// The game once the objects that are over are taken out and, if that
    /// leaves the arena cleared, the next round is started.
    pub open spec fn after_cleaning(self) -> World {
        let kept = World { shapes: purged(self.shapes), ..self };
        if cleared(kept.shapes) {
            kept.with_new_round()
        } else {
            kept
        }
    }

    /// The collision pass over the live set, for the draws `draws`.
    pub open spec fn collision_pass(self, draws: Seq<u32>) -> Pass {
        resolved(
            Pass { shapes: self.shapes, spawned: Seq::empty(), draws },
            colliding_pairs(self.shapes),
        )
    }

    /// The game once the collisions are resolved and what they made has
    /// joined the live set.
    pub open spec fn after_collisions(self, draws: Seq<u32>) -> World {
        let pass = self.collision_pass(draws);
        World { shapes: pass.shapes + pass.spawned, ..self }
    }

    /// The game one frame later.
    pub open spec fn after_frame(
        self,
        delta_t: int,
        states: Seq<GamepadState>,
        draws: Seq<u32>,
    ) -> World {
        let steered = self.after_controls(delta_t, states);
        steered.after_motion(delta_t, draws).after_cleaning().after_collisions(
            draws_after(draws, steered.motion_draws(delta_t)),
        )
    }

    /// The draws that are left after a frame.
    pub open spec fn draws_after_frame(
        self,
        delta_t: int,
        states: Seq<GamepadState>,
        draws: Seq<u32>,
    ) -> Seq<u32> {
        let steered = self.after_controls(delta_t, states);
        steered.after_motion(delta_t, draws).after_cleaning().collision_pass(
            draws_after(draws, steered.motion_draws(delta_t)),
        ).draws
    }
}

/// `object` is one of the first `upto` objects of `before`, at index `m` or
/// later, and is not over.
pub open spec fn kept_from(before: Seq<GameObject>, object: GameObject, m: int, upto: int) -> bool {
    exists|at: int| m <= at < upto && #[trigger] before[at] == object && !object.is_expired()
}

/// None of the first `n` objects of `shapes` is over.
pub open spec fn starts_alive(shapes: Seq<GameObject>, n: int) -> bool {
    forall|i: int| 0 <= i < n ==> !(#[trigger] shapes[i]).is_expired()
}

/// Takes the objects that are over out of the live set. The others keep
/// their order: no object moves to a higher index, and the objects before
/// the first one that is over stay where they are.
pub fn purge_expired(shapes: &mut Vec<GameObject>)
    ensures
        final(shapes)@ == purged(old(shapes)@),
        forall|m: int|
            0 <= m < final(shapes)@.len() ==> kept_from(
                old(shapes)@,
                #[trigger] final(shapes)@[m],
                m,
                old(shapes)@.len() as int,
            ),
        forall|n: int|
            0 <= n <= old(shapes)@.len() && #[trigger] starts_alive(old(shapes)@, n)
                ==> final(shapes)@.len() >= n && final(shapes)@.take(n) == old(shapes)@.take(n),
{
    let mut all: Vec<GameObject> = Vec::new();
    core::mem::swap(&mut all, shapes);
    let ghost before = all@;
    for object in it: all
        invariant
            it.seq() == before,
            before == old(shapes)@,
            shapes@ == before.take(it.index() as int).filter(alive()),
            shapes@.len() <= it.index(),
            forall|m: int|
                0 <= m < shapes@.len() ==> kept_from(before, #[trigger] shapes@[m], m, it.index() as int),
            forall|n: int|
                0 <= n <= it.index() && #[trigger] starts_alive(before, n) ==> shapes@.len() >= n
                    && shapes@.take(n) == before.take(n),
    {
        let ghost k = it.index() as int;
        let ghost kept = shapes@;
        if !object.is_expired() {
            shapes.push(object);
        }
        proof {
            reveal(Seq::filter);
            assert(before.take(k + 1).drop_last() =~= before.take(k));
            assert forall|n: int| 0 <= n <= k + 1 && #[trigger] starts_alive(before, n) implies shapes@.len()
                >= n && shapes@.take(n) == before.take(n) by {
                if n > k {
                    assert(starts_alive(before, k));
                }
            }
        }
    }
    assert(before.take(before.len() as int) =~= before);
}

/// Whether the arena is cleared: no asteroid and no countdown is left.
pub fn is_cleared(shapes: &Vec<GameObject>) -> (b: bool)
    ensures
        b == cleared(shapes@),
{
    let mut nof_asteroids: usize = 0;
    let mut nof_countdowns: usize = 0;
    let mut i: usize = 0;
    while i < shapes.len()
        invariant
            0 <= i <= shapes@.len(),
            nof_asteroids <= i,
            nof_countdowns <= i,
            (nof_asteroids == 0 && nof_countdowns == 0) <==> cleared(shapes@.take(i as int)),
        decreases shapes@.len() - i,
    {
        let objtype = shapes[i].get_type();
        proof {
            let after = shapes@.take(i + 1);
            assert(after[i as int] == shapes@[i as int]);
        }
        if objtype == GameObjectType::Asteroid {
            nof_asteroids += 1;
        }
        if objtype == GameObjectType::Countdown {
            nof_countdowns += 1;
        }
        i += 1;
    }
    assert(shapes@.take(shapes@.len() as int) =~= shapes@);
    nof_asteroids == 0 && nof_countdowns == 0
}

/// A game.
pub struct Game {
    round: u32,
    game_area: Area,
    objfactory: GameObjectFactory,
    shapes: Vec<GameObject>,
    number_of_rockets: usize,
}

impl View for Game {
    type V = World;

    closed spec fn view(&self) -> World {
        World {
            round: self.round,
            game_area: self.game_area,
            shapes: self.shapes@,
            number_of_rockets: self.number_of_rockets,
        }
    }
}

impl Game {
    /// The state of the game is well formed.
    pub open spec fn wf(&self) -> bool {
        self@.wf()
    }

    /// A game in an arena of the given size, in its first round and with
    /// nothing in it.
    pub fn new(game_width: i64, game_height: i64) -> (game: Game)
        ensures
            game.wf(),
            game@ == (World {
                round: FIRST_ROUND,
                game_area: Area { width: game_width, height: game_height },
                shapes: Seq::empty(),
                number_of_rockets: 0,
            }),
    {
        Game {
            round: FIRST_ROUND,
            game_area: Area { width: game_width, height: game_height },
            objfactory: GameObjectFactory::new(),
            shapes: Vec::new(),
            number_of_rockets: 0,
        }
    }

    pub fn round(&self) -> (round: u32)
        ensures
            round == self@.round,
    {
        self.round
    }

    pub fn game_area(&self) -> (area: Area)
        ensures
            area == self@.game_area,
    {
        self.game_area
    }

    pub fn number_of_rockets(&self) -> (n: usize)
        ensures
            n == self@.number_of_rockets,
    {
        self.number_of_rockets
    }

    /// The live set, for whoever draws it.
    pub fn shapes(&self) -> (shapes: &Vec<GameObject>)
        ensures
            shapes@ == self@.shapes,
    {
        &self.shapes
    }

    /// Advances the game by one frame of `delta_t` milliseconds, a negative
    /// time counting as none: the rockets take the controls `states`,
    /// every object moves on, the objects that are over are taken out and
    /// the round is counted on if the arena is cleared, and the collisions
    /// are resolved. Random numbers are taken from `random`, no more of
    /// them than `draws_for_frame` says.
    pub fn animate_frame(&mut self, delta_t: i64, states: &GamepadStates, random: &mut RandomSource)
        requires
            old(self).wf(),
        ensures
            final(self).wf(),
            final(self)@ == old(self)@.after_frame(delta_t as int, states@, old(random)@),
            final(random)@ == old(self)@.draws_after_frame(delta_t as int, states@, old(random)@),
            spent(old(random)@, final(random)@, old(self)@.frame_draws(states@.len()) as int),
    {
        self.update_rockets(delta_t, states);
        self.update_game_objects(delta_t, random);
        self.check_collisions(random);
        proof {
            lemma_frame_spends(old(self)@, delta_t as int, states@, old(random)@);
        }
    }

    /// The number of draws that `spawn_asteroids` takes, or the largest
    /// `usize` if that is less.
    pub fn draws_for_wave(&self) -> (n: usize)
        ensures
            n == if self@.wave_draws() > usize::MAX {
                usize::MAX as nat
            } else {
                self@.wave_draws()
            },
    {
        let draws: u64 = 4 * (WAVE_SIZE * (self.round as u64));
        if draws > usize::MAX as u64 {
            usize::MAX
        } else {
            draws as usize
        }
    }

    /// A number of draws that is enough for the next frame, if `states` are
    /// its controls: a source that holds as many does not run dry in it.
    /// The largest `usize` stands for any number beyond it.
    pub fn draws_for_frame(&self, states: &GamepadStates) -> (n: usize)
        ensures
            n == if self@.frame_draws(states@.len()) > usize::MAX {
                usize::MAX as nat
            } else {
                self@.frame_draws(states@.len())
            },
    {
        let wave: u128 = (WAVE_SIZE * (self.round as u64)) as u128;
        let most: u128 = self.shapes.len() as u128 + states.len() as u128 + wave + 1;
        if most > 0xffff_ffff {
            assert(4 * most * (most - 1) > 0xffff_ffff_ffff_ffff) by (nonlinear_arith)
                requires
                    most >= 0x1_0000_0000,
            ;
            usize::MAX
        } else {
            assert(0 <= most * (most - 1) <= 0xffff_ffff * 0xffff_ffff) by (nonlinear_arith)
                requires
                    1 <= most <= 0xffff_ffff,
            ;
            assert(4 * most * (most - 1) == 4 * (most * (most - 1))) by (nonlinear_arith);
            let draws: u128 = 4 * wave + 4 * (most * (most - 1));
            if draws > usize::MAX as u128 {
                usize::MAX
            } else {
                draws as usize
            }
        }
    }

    /// Puts a new rocket into the game and returns its index, which it
    /// keeps for good. The rockets' bullets are of colour `color`.
    pub fn create_rocket(&mut self, color: String) -> (index: usize)
        requires
            old(self).wf(),
        ensures
            final(self).wf(),
            index == old(self)@.number_of_rockets,
            final(self)@ == old(self)@.with_rocket(color),
    {
        let n = self.number_of_rockets;
        assert(0 <= n * ROCKET_GAP <= 0xffff_ffff_ffff_ffff * 50_000 && 0 <= n * SCORE_GAP
            <= 0xffff_ffff_ffff_ffff * 150_000) by (nonlinear_arith)
            requires
                0 <= n <= 0xffff_ffff_ffff_ffff,
                ROCKET_GAP == 50_000,
                SCORE_GAP == 150_000,
        ;
        let position = Vector {
            x: saturate((self.game_area.width / 3) as i128 + (n as i128) * (ROCKET_GAP as i128)),
            y: ROCKET_HEIGHT,
        };
        let score_position = Vector {
            x: saturate(SCORE_MARGIN as i128 + (n as i128) * (SCORE_GAP as i128)),
            y: SCORE_MARGIN,
        };
        let rocket = self.objfactory.create_rocket(position, score_position, color);
        self.shapes.insert(n, rocket);
        // the length of a vector is a `usize`, so there is room for the count
        assert(self.shapes@.len() == self.shapes.len());
        self.number_of_rockets = n + 1;
        n
    }

    fn update_rockets(&mut self, delta_t: i64, states: &GamepadStates)
        requires
            old(self).wf(),
        ensures
            final(self).wf(),
            final(self)@ == old(self)@.after_controls(delta_t as int, states@),
    {
        let mut i: usize = 0;
        while i < states.len()
            invariant
                0 <= i <= states@.len(),
                self.wf(),
                self@ == old(self)@.after_controls(delta_t as int, states@.take(i as int)),
            decreases states@.len() - i,
        {
            proof {
                assert(states@.take(i + 1).drop_last() =~= states@.take(i as int));
            }
            if let Some(state) = states.get(i) {
                self.update_rocket(delta_t, &state);
            }
            i += 1;
        }
        assert(states@.take(states@.len() as int) =~= states@);
    }

    fn update_rocket(&mut self, delta_t: i64, state: &GamepadState)
        requires
            old(self).wf(),
        ensures
            final(self).wf(),
            final(self)@ == (World {
                shapes: steered(old(self)@.shapes, delta_t as int, *state),
                ..old(self)@
            }),
    {
        if state.rocket_index < self.shapes.len() {
            let mut bullets: Vec<GameObject> = Vec::new();
            match &mut self.shapes[state.rocket_index] {
                GameObject::Rocket(rocket) => {
                    bullets = rocket.update(delta_t, state);
                },
                _ => {},
            }
            self.shapes.append(&mut bullets);
            assert(self.shapes@.len() == self.shapes.len());
            assert(self@.shapes =~= steered(old(self)@.shapes, delta_t as int, *state));
        }
    }

    fn clean_shapes(&mut self)
        requires
            old(self).wf(),
        ensures
            final(self).wf(),
            final(self)@ == old(self)@.after_cleaning(),
    {
        purge_expired(&mut self.shapes);
        proof {
            let n = self.number_of_rockets as int;
            let before = old(self)@.shapes;
            assert(starts_alive(before, n));
            assert forall|i: int| 0 <= i < self.shapes@.len() implies (i < n <==> (
            #[trigger] self.shapes@[i]).get_type() == GameObjectType::Rocket)
                && self.shapes@[i].wf() by {
                if i < n {
                    assert(before[i] == before.take(n)[i]);
                }
            }
        }
        if is_cleared(&self.shapes) {
            self.start_new_round();
        }
    }

    fn start_new_round(&mut self)
        requires
            old(self).wf(),
        ensures
            final(self).wf(),
            final(self)@ == old(self)@.with_new_round(),
    {
        let countdown = Countdown::new(
            Vector {
                x: self.game_area.width / 2 - COUNTDOWN_LEFT,
                y: self.game_area.height / 2 - COUNTDOWN_UP,
            },
        );
        self.shapes.push(GameObject::Countdown(countdown));
        assert(self.shapes@.len() == self.shapes.len());
        if self.round < u32::MAX {
            self.round += 1;
        }
    }

    /// Brings the next wave into the game: two large asteroids for every
    /// round so far, each somewhere in the arena, with a speed along each
    /// axis from zero up to, not including, 50 units per second for every
    /// round so far. Place and speed are taken from `random`.
    pub fn spawn_asteroids(&mut self, random: &mut RandomSource)
        requires
            old(self).wf(),
        ensures
            final(self).wf(),
            final(self)@ == old(self)@.with_wave(old(random)@),
            final(random)@ == draws_after(old(random)@, 4 * (old(self)@.wave_size() as int)),
    {
        let mut asteroids = self.objfactory.create_asteroids(
            WAVE_SIZE * (self.round as u64),
            self.game_area,
            WAVE_SPEED * (self.round as i64),
            random,
        );
        self.shapes.append(&mut asteroids);
        assert(self.shapes@.len() == self.shapes.len());
    }

    fn update_game_objects(&mut self, delta_t: i64, random: &mut RandomSource)
        requires
            old(self).wf(),
        ensures
            final(self).wf(),
            final(self)@ == old(self)@.after_motion(delta_t as int, old(random)@).after_cleaning(),
            final(random)@ == draws_after(old(random)@, old(self)@.motion_draws(delta_t as int)),
    {
        let mut due = false;
        let mut i: usize = 0;
        let len = self.shapes.len();
        while i < len
            invariant
                0 <= i <= len,
                len == self.shapes@.len(),
                len == old(self)@.shapes.len(),
                self.round == old(self).round,
                self.game_area == old(self).game_area,
                self.number_of_rockets == old(self).number_of_rockets,
                old(self).wf(),
                forall|k: int|
                    0 <= k < i ==> #[trigger] self.shapes@[k] == old(self)@.shapes[k].moved(
                        delta_t as int,
                        self.game_area,
                    ),
                forall|k: int| i <= k < len ==> #[trigger] self.shapes@[k] == old(self)@.shapes[k],
                due <==> exists|k: int|
                    0 <= k < i && (#[trigger] old(self)@.shapes[k]).signal(delta_t as int) is Some,
                forall|k: int|
                    0 <= k < len ==> (#[trigger] self.shapes@[k]).get_type() == old(
                        self,
                    )@.shapes[k].get_type() && self.shapes@[k].wf(),
            decreases len - i,
        {
            let event = self.shapes[i].move_t(delta_t, self.game_area);
            if event.is_some() {
                due = true;
            }
            i += 1;
        }
        assert(self@.shapes =~= moved_all(old(self)@.shapes, delta_t as int, old(self)@.game_area));
        if due {
            self.spawn_asteroids(random);
        }
        self.clean_shapes();
    }

    fn check_collisions(&mut self, random: &mut RandomSource)
        requires
            old(self).wf(),
        ensures
            final(self).wf(),
            final(self)@ == old(self)@.after_collisions(old(random)@),
            final(random)@ == old(self)@.collision_pass(old(random)@).draws,
    {
        let pairs = find_collisions(&self.shapes);
        let factory = self.objfactory;
        let mut objects = resolve_collisions(&mut self.shapes, &pairs, &factory, random);
        self.shapes.append(&mut objects);
        assert(self.shapes@.len() == self.shapes.len());
    }
}

/// After the objects have moved, every object of the live set lies in the
/// arena: each coordinate is at least zero and at most the arena's size
/// along that axis. This holds of the asteroids of a wave that has just
/// come in as well.
pub proof fn lemma_motion_ends_in_arena(world: World, delta_t: int, draws: Seq<u32>)
    requires
        world.game_area.wf(),
    ensures
        forall|i: int|
            0 <= i < world.after_motion(delta_t, draws).shapes.len() ==> world.game_area.contains(
                (#[trigger] world.after_motion(delta_t, draws).shapes[i]).current_position(),
            ),
{
    let after = world.after_motion(delta_t, draws).shapes;
    let moved = moved_all(world.shapes, delta_t, world.game_area);
    assert forall|i: int| 0 <= i < after.len() implies world.game_area.contains(
        (#[trigger] after[i]).current_position(),
    ) by {
        if i >= moved.len() {
            // an asteroid of the wave: its place is a fraction of each side
            let k = i - moved.len();
            crate::utils::random::lemma_fraction_bounds(
                crate::utils::random::draw_at(draws, 4 * k),
                world.game_area.width as int,
            );
            crate::utils::random::lemma_fraction_bounds(
                crate::utils::random::draw_at(draws, 4 * k + 1),
                world.game_area.height as int,
            );
        }
    }
}

/// Taking out what is over a second time takes out nothing more.
pub proof fn lemma_purged_stays(shapes: Seq<GameObject>)
    ensures
        purged(purged(shapes)) == purged(shapes),
        forall|i: int| 0 <= i < purged(shapes).len() ==> !(#[trigger] purged(shapes)[i]).is_expired(),
    decreases shapes.len(),
{
    reveal(Seq::filter);
    if shapes.len() > 0 {
        lemma_purged_stays(shapes.drop_last());
        let rest = purged(shapes.drop_last());
        if !shapes.last().is_expired() {
            assert(purged(shapes).drop_last() =~= rest);
        }
    }
}

/// When the last asteroid is gone and no countdown runs, the next round
/// starts: the round is counted on by one, and one countdown, with its
/// full count ahead of it, joins the live set as its last object. It is
/// the only countdown there.
pub proof fn lemma_cleared_arena_starts_round(world: World)
    requires
        world.wf(),
        cleared(purged(world.shapes)),
    ensures
        world.after_cleaning().round == next_round(world.round),
        world.round < u32::MAX ==> world.after_cleaning().round == world.round + 1,
        world.after_cleaning().shapes.len() == purged(world.shapes).len() + 1,
        world.after_cleaning().shapes.drop_last() == purged(world.shapes),
        world.after_cleaning().shapes.last() == GameObject::Countdown(
            Countdown {
                time: 0,
                position: countdown_position(world.game_area),
                count: crate::components::countdown::FIRST_COUNT,
            },
        ),
        !world.after_cleaning().shapes.last().is_expired(),
        forall|i: int|
            0 <= i < world.after_cleaning().shapes.len() ==> ((
            #[trigger] world.after_cleaning().shapes[i]).get_type() == GameObjectType::Countdown <==> i
                == world.after_cleaning().shapes.len() - 1),
{
}

/// While a countdown runs, no round starts: the live set only loses what is
/// over, and the round stays as it is, even if no asteroid is left.
pub proof fn lemma_running_countdown_holds_round(world: World, at: int)
    requires
        0 <= at < world.shapes.len(),
        world.shapes[at].get_type() == GameObjectType::Countdown,
        !world.shapes[at].is_expired(),
    ensures
        world.after_cleaning().round == world.round,
        world.after_cleaning().shapes == purged(world.shapes),
{
    // the countdown survives the purge, so the arena is not cleared
    world.shapes.lemma_filter_contains(alive(), at);
}

/// Cleaning the live set twice is cleaning it once: a round that has just
/// started does not start again.
pub proof fn lemma_round_starts_once(world: World)
    requires
        world.wf(),
    ensures
        world.after_cleaning().after_cleaning() == world.after_cleaning(),
{
    lemma_purged_stays(world.shapes);
    if cleared(purged(world.shapes)) {
        // the countdown that has just started is not over, and it keeps
        // the arena from being cleared again
        lemma_cleared_arena_starts_round(world);
        reveal(Seq::filter);
    }
}

/// A frame never counts the round down, and never changes the arena or the
/// number of rockets.
pub proof fn lemma_round_never_falls(
    world: World,
    delta_t: int,
    states: Seq<GamepadState>,
    draws: Seq<u32>,
)
    ensures
        world.after_frame(delta_t, states, draws).round >= world.round,
        world.after_frame(delta_t, states, draws).round == world.round || world.after_frame(
            delta_t,
            states,
            draws,
        ).round == world.round + 1,
        world.after_frame(delta_t, states, draws).game_area == world.game_area,
        world.after_frame(delta_t, states, draws).number_of_rockets == world.number_of_rockets,
{
}

/// Controls add at most one object each to the live set: the bullet that
/// the rocket fires.
pub proof fn lemma_steered_all_len(shapes: Seq<GameObject>, delta_t: int, states: Seq<GamepadState>)
    ensures
        shapes.len() <= steered_all(shapes, delta_t, states).len() <= shapes.len() + states.len(),
    decreases states.len(),
{
    if states.len() > 0 {
        lemma_steered_all_len(shapes, delta_t, states.drop_last());
    }
}

/// A frame uses no more draws than `frame_draws` allows for.
pub proof fn lemma_frame_spends(
    world: World,
    delta_t: int,
    states: Seq<GamepadState>,
    draws: Seq<u32>,
)
    requires
        world.after_controls(delta_t, states).after_motion(delta_t, draws).after_cleaning().shapes.len()
            <= usize::MAX,
    ensures
        spent(
            draws,
            world.draws_after_frame(delta_t, states, draws),
            world.frame_draws(states.len()) as int,
        ),
{
    let steered = world.after_controls(delta_t, states);
    let moved = steered.after_motion(delta_t, draws);
    let cleaned = moved.after_cleaning();
    let for_motion = steered.motion_draws(delta_t);
    let left = draws_after(draws, for_motion);
    lemma_steered_all_len(world.shapes, delta_t, states);
    let n = cleaned.shapes.len() as int;
    let most = world.shapes.len() + states.len() + world.wave_size() + 1;
    lemma_colliding_pairs(cleaned.shapes);
    let pairs = colliding_pairs(cleaned.shapes);
    lemma_resolved_spends(Pass { shapes: cleaned.shapes, spawned: Seq::empty(), draws: left }, pairs);
    let after = world.draws_after_frame(delta_t, states, draws);
    assert(8 * pairs.len() <= 4 * most * (most - 1)) by (nonlinear_arith)
        requires
            2 * pairs.len() <= n * (n - 1),
            0 <= n <= most,
    ;
    lemma_spent_twice(draws, left, after, world.wave_draws() as int, 4 * most * (most - 1));
}

/// Controls leave every object at its index and of its kind, and every
/// rocket the rocket it was.
pub proof fn lemma_steered_all_keeps_places(
    shapes: Seq<GameObject>,
    delta_t: int,
    states: Seq<GamepadState>,
)
    ensures
        same_places(shapes, steered_all(shapes, delta_t, states)),
    decreases states.len(),
{
    if states.len() > 0 {
        lemma_steered_all_keeps_places(shapes, delta_t, states.drop_last());
    }
}

/// Taking out what is over leaves the objects before the first one that is
/// over where they are.
pub proof fn lemma_purged_keeps_start(shapes: Seq<GameObject>, n: int)
    requires
        0 <= n <= shapes.len(),
        starts_alive(shapes, n),
    ensures
        purged(shapes).len() >= n,
        purged(shapes).take(n) == shapes.take(n),
    decreases shapes.len(),
{
    reveal(Seq::filter);
    if shapes.len() > 0 {
        let rest = shapes.drop_last();
        if n < shapes.len() {
            lemma_purged_keeps_start(rest, n);
            assert(purged(shapes).take(n) =~= purged(rest).take(n));
        } else {
            lemma_purged_keeps_start(rest, n - 1);
            assert(purged(rest) =~= purged(rest).take(n - 1));
        }
    }
}

/// A rocket keeps its index for good: after a frame the rocket that was at
/// an index is still there. So the index that a bullet holds of its rocket
/// never comes to name another rocket.
pub proof fn lemma_rockets_keep_their_index(
    world: World,
    delta_t: int,
    states: Seq<GamepadState>,
    draws: Seq<u32>,
    index: int,
)
    requires
        world.wf(),
        0 <= index < world.number_of_rockets,
    ensures
        index < world.after_frame(delta_t, states, draws).shapes.len(),
        same_rocket(world.shapes[index], world.after_frame(delta_t, states, draws).shapes[index]),
{
    let n = world.number_of_rockets as int;
    let steered = world.after_controls(delta_t, states);
    lemma_steered_all_keeps_places(world.shapes, delta_t, states);
    let moved = steered.after_motion(delta_t, draws);
    lemma_purged_keeps_start(moved.shapes, n);
    let cleaned = moved.after_cleaning();
    assert(moved.shapes[index] == moved.shapes.take(n)[index]);
    let left = draws_after(draws, steered.motion_draws(delta_t));
    lemma_resolved_keeps_places(
        Pass { shapes: cleaned.shapes, spawned: Seq::empty(), draws: left },
        colliding_pairs(cleaned.shapes),
    );
}

} // verus!
