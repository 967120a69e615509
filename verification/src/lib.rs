//! Simulation core of an arcade shooter in which rockets break drifting
//! asteroids apart, round after round, in an arena that wraps around at its
//! edges.
//!
//! Every quantity is a fixed-point integer: lengths in thousandths of a unit,
//! times in milliseconds, angles in microradians. Random numbers and the
//! time that has passed are handed in by whoever drives the game, and the
//! live set is handed out to whoever draws it.
pub mod components;
pub mod engine;
pub mod utils;

pub use components::Announcer;
pub use components::Asteroid;
pub use components::AsteroidSize;
pub use components::Bullet;
pub use components::Countdown;
pub use components::Explosion;
pub use components::GameObjectFactory;
pub use components::Rocket;
pub use engine::Area;
pub use engine::Collision;
pub use engine::Game;
pub use engine::GameEvent;
pub use engine::GameObject;
pub use engine::GameObjectType;
pub use engine::GamepadState;
pub use engine::GamepadStates;
pub use utils::random_number;
pub use utils::random_number_max;
pub use utils::RandomSource;
pub use utils::Vector;
