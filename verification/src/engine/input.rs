//! What the players ask of their rockets in one frame.
use vstd::prelude::*;

verus! {

/// One player's controls in one frame.
///
/// `rotate` and `thrust` are in thousandths of the full deflection of the
/// stick: 1000 is all the way.
#[derive(Debug, Clone, Copy, PartialEq, Eq, Structural)]
pub struct GamepadState {
    pub gamepad_index: usize,
    pub rocket_index: usize,
    pub rotate: i64,
    pub thrust: i64,
    pub shield: bool,
    pub fire: bool,
}

impl GamepadState {
    /// Controls at rest, for the first rocket.
    pub fn new() -> (state: GamepadState)
        ensures
            state == (GamepadState {
                gamepad_index: 0,
                rocket_index: 0,
                rotate: 0,
                thrust: 0,
                shield: false,
                fire: false,
            }),
    {
        GamepadState {
            gamepad_index: 0,
            rocket_index: 0,
            rotate: 0,
            thrust: 0,
            shield: false,
            fire: false,
        }
    }
}

/// The controls of all players in one frame, in the order in which they
/// take effect.
pub struct GamepadStates {
    inner: Vec<GamepadState>,
}

impl View for GamepadStates {
    type V = Seq<GamepadState>;

    closed spec fn view(&self) -> Seq<GamepadState> {
        self.inner@
    }
}

impl GamepadStates {
    /// No controls.
    pub fn new() -> (states: GamepadStates)
        ensures
            states@ == Seq::<GamepadState>::empty(),
    {
        GamepadStates { inner: Vec::new() }
    }

    /// Adds `state` after the controls that are there.
    pub fn push(&mut self, state: &GamepadState)
        ensures
            final(self)@ == old(self)@.push(*state),
    {
        self.inner.push(*state);
    }

    /// The controls at `index`, if there are any.
    pub fn get(&self, index: usize) -> (state: Option<GamepadState>)
        ensures
            state == if index < self@.len() { Some(self@[index as int]) } else { None },
    {
        if index < self.inner.len() {
            Some(self.inner[index])
        } else {
            None
        }
    }

    /// The number of controls.
    pub fn len(&self) -> (n: usize)
        ensures
            n == self@.len(),
    {
        self.inner.len()
    }

    /// Whether there are no controls.
    pub fn is_empty(&self) -> (b: bool)
        ensures
            b == (self@.len() == 0),
    {
        self.inner.len() == 0
    }
}

} // verus!
