//! Arithmetic that the simulation is built on.
pub mod fixed;
pub mod random;
pub mod trig;
pub mod vmath;

pub use random::random_number;
pub use random::random_number_max;
pub use random::RandomSource;
pub use vmath::Vector;
