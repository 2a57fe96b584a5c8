//! Canvas sketches: a blue circle and a spray-can particle effect.
//!
//! The library computes every frame as a display list in fixed-point
//! arithmetic; a host replays the list on a real drawing surface.

pub mod angle;
pub mod bluecircle;
pub mod fixed;
pub mod greeting;
pub mod particle;
pub mod random;
pub mod replay;
pub mod simulator;
pub mod spraycan;
pub mod surface;
