//! A genetic-algorithm engine whose selection, replacement and stopping
//! rules are proved against their contracts.
//!
//! A population of candidate solutions is evolved generation by generation:
//! a selector chooses parent pairs, each pair is recombined and its child
//! mutated, part of the population makes room for the children, and the
//! simulation ends when its generations are used up or the best score has
//! stopped moving.
//!
//! - `pheno` holds what the engine asks of a candidate solution.
//! - `sim::rank` ranks scores; `sim::select` holds the selection strategies
//!   that are built on it.
//! - `sim::cull` is the replacement policy.
//! - `sim::iterlimit` and `sim::earlystopper` are the two stopping criteria.
//! - `sim::seq` is the simulator that puts them together.
//! - `sim::course` holds what is true of the states that a run goes
//!   through.
//! - `sim::chance` and `sim::clock` are the engine's two windows on the
//!   outside: random numbers and the steady clock.

pub mod pheno;
pub mod sim;
