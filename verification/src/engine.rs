//! The live set of objects and the frame that advances it.
pub mod arena;
pub mod collision;
pub mod game;
pub mod input;
pub mod object;

pub use arena::Area;
pub use arena::GameEvent;
pub use arena::GameObjectType;
pub use input::GamepadState;
pub use input::GamepadStates;
pub use object::GameObject;
pub use object::Collision;
pub use game::Game;
pub use game::World;
