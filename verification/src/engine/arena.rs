//! The arena, the kinds of object that live in it, and what an object can
//! ask of the simulation.
use vstd::prelude::*;
use crate::utils::vmath::Vector;

verus! {

/// The kind of an object. An object keeps its kind for as long as it lives.
#[derive(Debug, Clone, Copy, PartialEq, Eq, Structural)]
pub enum GameObjectType {
    Asteroid,
    Rocket,
    Explosion,
    Bullet,
    Announcer,
    Countdown,
}

/// What an object asks of the simulation that owns it.
#[derive(Debug, Clone, Copy, PartialEq, Eq, Structural)]
pub enum GameEvent {
    /// A countdown has run out: the next wave of asteroids is due.
    SpawnAsteroids,
}

/// The rectangle in which the objects move. Its edges are joined: what
/// leaves on one side comes back on the other.
#[derive(Debug, Clone, Copy, PartialEq, Eq, Structural)]
pub struct Area {
    pub width: i64,
    pub height: i64,
}

/// A coordinate brought back into the arena: past the far edge it becomes
/// zero, below zero it becomes the far edge.
pub open spec fn wrap_axis(v: int, bound: int) -> int {
    if v > bound {
        0
    } else if v < 0 {
        bound
    } else {
        v
    }
}

/// A wrapped coordinate lies on the arena's axis, and short of the far
/// edge unless it came from below zero or sat on the far edge already.
pub proof fn lemma_wrap_axis(v: int, bound: int)
    requires
        bound >= 0,
    ensures
        0 <= wrap_axis(v, bound) <= bound,
        (0 <= v && v != bound && bound > 0) ==> wrap_axis(v, bound) < bound,
        0 <= v <= bound ==> wrap_axis(v, bound) == v,
{
}

impl Area {
    /// Neither side is negative.
    pub open spec fn wf(self) -> bool {
        self.width >= 0 && self.height >= 0
    }

    /// `p` lies in the arena, edges included.
    pub open spec fn contains(self, p: Vector) -> bool {
        0 <= p.x <= self.width && 0 <= p.y <= self.height
    }

    /// `p` with each coordinate wrapped.
    pub open spec fn wrapped(self, p: Vector) -> Vector {
        Vector {
            x: wrap_axis(p.x as int, self.width as int) as i64,
            y: wrap_axis(p.y as int, self.height as int) as i64,
        }
    }

    /// Brings `p` back into the arena.
    pub fn wrap(&self, p: Vector) -> (q: Vector)
        ensures
            q == self.wrapped(p),
            self.wf() ==> self.contains(q),
            self.contains(p) ==> q == p,
    {
        let mut q = p;
        if q.x > self.width {
            q.x = 0;
        }
        if q.x < 0 {
            q.x = self.width;
        }
        if q.y > self.height {
            q.y = 0;
        }
        if q.y < 0 {
            q.y = self.height;
        }
        q
    }
}

} // verus!
