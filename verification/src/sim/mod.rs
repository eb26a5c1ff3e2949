//! Simulations: the generation loop and the pieces it is built from.

use vstd::prelude::*;

pub mod chance;
pub mod clock;
pub mod course;
pub mod cull;
pub mod earlystopper;
pub mod iterlimit;
pub mod message;
pub mod rank;
pub mod select;
pub mod seq;

verus! {

/// Nanoseconds, as the simulator accumulates them.
pub type NanoSecond = i64;

/// Which end of the fitness scale counts as best.
#[derive(Clone, Copy, Debug, PartialEq, Eq, Structural)]
pub enum FitnessType {
    /// Higher scores are better.
    Maximize,
    /// Lower scores are better.
    Minimize,
}

/// What one call of `step` reports.
#[derive(Clone, Copy, Debug, PartialEq, Eq, Structural)]
pub enum StepResult {
    /// A generation was completed; the simulation can go on.
    Success,
    /// The simulation failed; the error can be fetched with `get`.
    Failure,
    /// A stopping criterion was met; nothing was changed.
    Done,
}

/// What `run` reports when it returns.
#[derive(Clone, Copy, Debug, PartialEq, Eq, Structural)]
pub enum RunResult {
    /// The simulation failed; the error can be fetched with `get`.
    Failure,
    /// A stopping criterion was met.
    Done,
}

} // verus!
