//! Verified decision core of a 2D physics world in which a controllable
//! player is driven towards goal regions by searched move sequences.
//!
//! The crate holds the discrete rules of the simulation and of the search:
//! which primitive a world object becomes, which floor contacts a move
//! pushes against, when a run counts as won, how a rollout schedules and
//! scores its ticks, how a generation of move sequences is ranked, bred and
//! streamed to a consumer. Real numbers cross the crate's boundary as
//! single-precision bit patterns (see [`scalar`]), so that every rule on
//! them is stated over integers.

pub mod scalar;
pub mod moves;
pub mod ranking;
pub mod locomotion;
pub mod genome;
pub mod agent;
pub mod rollout;
pub mod genetic;
pub mod training;
pub mod search;
pub mod world;
pub mod session;
