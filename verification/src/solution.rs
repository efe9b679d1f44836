//! The pluggable solution abstraction: the one thing a host program supplies.
//! The engine only ever builds fresh solutions through a builder, explores
//! the neighborhood of the current population, and reads a scalar fitness.

use vstd::prelude::*;
use crate::candidate::Candidate;

verus! {

/// A domain-specific solution value. Nothing is assumed of these methods:
/// the engine is correct for every implementation.
///
/// `Clone` lets the engine hand out value copies of a solution, so that a
/// population slot can be read and released before the expensive exploration
/// work starts.
pub trait Solution: Sized + Clone {
    /// Carries whatever state fresh-solution construction needs, a shared
    /// random source for instance. The engine owns it and serializes all
    /// construction calls through it.
    type Builder;

    /// Builds one fresh solution.
    fn make(builder: &mut Self::Builder) -> Self;

    /// Produces a new solution out of the neighborhood of the candidate at
    /// `index` within a point-in-time copy of the population.
    fn explore(field: &Vec<Candidate<Self>>, index: usize) -> Self;

    /// The scalar fitness of this solution. Derived once per candidate, at
    /// construction time.
    fn evaluate(&self) -> i64;
}

} // verus!
