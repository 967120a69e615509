//! The objects of the game, one kind per module.
pub mod announcer;
pub mod asteroid;
pub mod bullet;
pub mod countdown;
pub mod explosion;
pub mod game_object_factory;
pub mod rocket;

pub use announcer::Announcer;
pub use asteroid::Asteroid;
pub use asteroid::AsteroidSize;
pub use bullet::Bullet;
pub use countdown::Countdown;
pub use explosion::Explosion;
pub use game_object_factory::GameObjectFactory;
pub use rocket::Rocket;
