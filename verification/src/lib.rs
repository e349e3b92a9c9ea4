//! A discrete-time PID (proportional-integral-derivative) feedback
//! controller over exact rational arithmetic.
//!
//! The arithmetic core, [`pid::Pid`], computes the three terms from an
//! error and an explicit elapsed time; [`clock::ClockTracker`] turns
//! timestamps into elapsed time; [`controller::PidController`] composes
//! the two and is what a control loop calls.

pub mod clock;
pub mod controller;
pub mod laws;
pub mod pid;
pub mod rational;

pub use clock::ClockTracker;
pub use controller::PidController;
pub use pid::Pid;
pub use rational::Rational;
