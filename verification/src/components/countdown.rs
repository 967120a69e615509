//! The countdown between two rounds.
use vstd::prelude::*;
use vstd::string::to_string_from_display_ensures;
use crate::engine::arena::{Area, GameEvent, GameObjectType};
use crate::utils::fixed::{age, aged};
use crate::utils::vmath::Vector;

verus! {

/// The time from one count to the next, in milliseconds.
pub const COUNT_TIME: i64 = 1000;

/// The count a countdown starts at.
pub const FIRST_COUNT: i32 = 5;

/// The count at which a countdown is over and the next wave is due.
pub const LAST_COUNT: i32 = -1;

/// The radius of a countdown, in thousandths of a unit. Nothing collides
/// with a countdown.
pub const COUNTDOWN_RADIUS: i64 = 10_000;

/// A countdown: it counts down by one for every second that passes, and
/// calls for the next wave of asteroids when it reaches `LAST_COUNT`.
#[derive(Debug, Clone, Copy, PartialEq, Eq, Structural)]
pub struct Countdown {
    /// The time since the last count, in milliseconds.
    pub time: i64,
    pub position: Vector,
    pub count: i32,
}

impl Countdown {
    /// The count has not passed `LAST_COUNT`, and the time is not negative.
    pub open spec fn wf(&self) -> bool {
        &&& self.time >= 0
        &&& self.count >= LAST_COUNT
    }

    pub open spec fn get_type_spec(&self) -> GameObjectType {
        GameObjectType::Countdown
    }

    pub open spec fn current_position_spec(&self) -> Vector {
        self.position
    }

    pub open spec fn radius_spec(&self) -> i64 {
        COUNTDOWN_RADIUS
    }

    /// It is over once the count is `LAST_COUNT`.
    pub open spec fn is_expired_spec(&self) -> bool {
        self.count == LAST_COUNT
    }

    /// Whether `delta_t` more milliseconds bring the next count. A
    /// countdown that is over counts no further.
    pub open spec fn ticks(&self, delta_t: int) -> bool {
        aged(self.time as int, delta_t) > COUNT_TIME && self.count > LAST_COUNT
    }

    /// The count `delta_t` milliseconds later.
    pub open spec fn count_after(&self, delta_t: int) -> int {
        if self.ticks(delta_t) {
            self.count - 1
        } else {
            self.count as int
        }
    }

    /// The time since the last count, `delta_t` milliseconds later.
    pub open spec fn time_after(&self, delta_t: int) -> int {
        if self.ticks(delta_t) {
            0
        } else {
            aged(self.time as int, delta_t)
        }
    }

    /// What the countdown asks for after `delta_t` more milliseconds: the
    /// next wave, if it is then over.
    pub open spec fn signal(&self, delta_t: int) -> Option<GameEvent> {
        if self.count_after(delta_t) == LAST_COUNT {
            Some(GameEvent::SpawnAsteroids)
        } else {
            None
        }
    }

    /// The countdown `delta_t` milliseconds later.
    pub open spec fn moved(self, delta_t: int, game_area: Area) -> Countdown {
        Countdown {
            time: self.time_after(delta_t) as i64,
            position: game_area.wrapped(self.position),
            count: self.count_after(delta_t) as i32,
        }
    }

    /// A countdown at `position` that starts at `FIRST_COUNT`.
    pub fn new(position: Vector) -> (countdown: Countdown)
        ensures
            countdown == (Countdown { time: 0, position, count: FIRST_COUNT }),
            countdown.wf(),
    {
        Countdown { time: 0, position, count: FIRST_COUNT }
    }

    /// The text that shows the count `count`, for the counts from
    /// `LAST_COUNT` to `FIRST_COUNT`.
    pub open spec fn count_text(count: int) -> Seq<char> {
        if count == 5 {
            seq!['5']
        } else if count == 4 {
            seq!['4']
        } else if count == 3 {
            seq!['3']
        } else if count == 2 {
            seq!['2']
        } else if count == 1 {
            seq!['1']
        } else if count == 0 {
            seq!['0']
        } else {
            seq!['-', '1']
        }
    }

    /// The count as it is shown: in decimal digits.
    pub fn text(&self) -> (text: String)
        ensures
            LAST_COUNT <= self.count <= FIRST_COUNT ==> text@ == Self::count_text(self.count as int),
            !(LAST_COUNT <= self.count <= FIRST_COUNT) ==> to_string_from_display_ensures::<i32>(
                &self.count,
                text,
            ),
    {
        proof {
            reveal_strlit("5");
            reveal_strlit("4");
            reveal_strlit("3");
            reveal_strlit("2");
            reveal_strlit("1");
            reveal_strlit("0");
            reveal_strlit("-1");
        }
        match self.count {
            5 => "5".to_string(),
            4 => "4".to_string(),
            3 => "3".to_string(),
            2 => "2".to_string(),
            1 => "1".to_string(),
            0 => "0".to_string(),
            -1 => "-1".to_string(),
            _ => self.count.to_string(),
        }
    }

    #[verifier::when_used_as_spec(get_type_spec)]
    pub fn get_type(&self) -> (t: GameObjectType)
        ensures
            t == self.get_type_spec(),
    {
        GameObjectType::Countdown
    }

    #[verifier::when_used_as_spec(current_position_spec)]
    pub fn current_position(&self) -> (p: Vector)
        ensures
            p == self.current_position_spec(),
    {
        self.position
    }

    #[verifier::when_used_as_spec(radius_spec)]
    pub fn radius(&self) -> (r: i64)
        ensures
            r == self.radius_spec(),
    {
        COUNTDOWN_RADIUS
    }

    #[verifier::when_used_as_spec(is_expired_spec)]
    pub fn is_expired(&self) -> (b: bool)
        ensures
            b == self.is_expired_spec(),
    {
        self.count == LAST_COUNT
    }

    /// A countdown cannot be called off: it ends by its count alone.
    pub fn expire(&mut self)
        ensures
            *final(self) == *old(self),
    {
    }

    /// Lets `delta_t` milliseconds pass. At most one count goes by in one
    /// call, and the time beyond it is dropped. Returns the call for the
    /// next wave when the countdown is over.
    pub fn move_t(&mut self, delta_t: i64, game_area: Area) -> (event: Option<GameEvent>)
        ensures
            *final(self) == old(self).moved(delta_t as int, game_area),
            event == old(self).signal(delta_t as int),
            old(self).wf() ==> final(self).wf(),
            event is Some <==> final(self).is_expired(),
            old(self).is_expired() ==> final(self).is_expired(),
            game_area.wf() ==> game_area.contains(final(self).position),
    {
        self.time = age(self.time, delta_t);
        self.position = game_area.wrap(self.position);
        if self.time > COUNT_TIME && self.count > LAST_COUNT {
            self.count = self.count - 1;
            self.time = 0;
        }
        if self.count == LAST_COUNT {
            Some(GameEvent::SpawnAsteroids)
        } else {
            None
        }
    }
}

} // verus!
