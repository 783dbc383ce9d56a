//! The gameplay core of a single-lane dodging and collecting arcade game.
//!
//! A player-controlled car moves up and down a scrolling road, avoiding
//! obstacles and picking up bonus items while the road keeps getting faster.
//! The crate holds the rules of one frame of that game: input handling,
//! timers, movement, scrolling and recycling of the road objects, collision
//! resolution, scoring and the transition to the lost state.
//!
//! All quantities are fixed-point integers: time in nanoseconds, lengths in
//! thousandths of a pixel, speeds in thousandths of a pixel per second and
//! dimensionless factors in thousandths.

pub mod units;
pub mod decimal;
pub mod timer;
pub mod session;
pub mod world;
pub mod dice;
pub mod contact;
pub mod label;
pub mod game;
pub mod readout;
