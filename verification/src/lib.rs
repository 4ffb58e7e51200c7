//! Simulation core for a real-time multiplayer bumper-car arena.
//!
//! All quantities are fixed-point numbers: an `i64` counts units of
//! `1 / FX_ONE`, so the kinematics, the angle bookkeeping and the
//! separating-axis collision test are exact integer arithmetic. The
//! transport layer around this core converts to and from its wire
//! format at the boundary.

pub mod car;
pub mod fixed;
pub mod game;
pub mod intersection;
pub mod ring_buffer;

pub use car::Car;
pub use car::CarConfig;
pub use car::CarPosition;
pub use car::CarView;
pub use car::Control;
pub use fixed::FX_ONE;
pub use fixed::FX_PI;
pub use fixed::FX_TWO_PI;
pub use game::BumperCars;
pub use game::GameError;
pub use game::Id;
pub use game::Player;
pub use intersection::Corner;
pub use intersection::Edge;
pub use intersection::Rectangle;
pub use ring_buffer::RingBuffer;
pub use ring_buffer::RingBufferError;
pub use ring_buffer::RingBufferIterator;
