//! Candidate state: a solution paired with its fitness, and the working
//! wrapper that adds the retry budget used to detect and replace stagnant
//! population members.

use vstd::prelude::*;
use crate::solution::Solution;

verus! {

/// A solution value paired with the scalar fitness derived from it once, at
/// construction time. Candidates are compared by fitness only.
pub struct Candidate<S: Solution> {
    pub solution: S,
    pub fitness: i64,
}

impl<S: Solution> Candidate<S> {
    /// Wraps a solution, deriving its fitness.
    pub fn new(solution: S) -> (c: Candidate<S>)
        ensures
            c.solution == solution,
    {
        let fitness = solution.evaluate();
        Candidate { solution, fitness }
    }

    /// A value copy with the same fitness, so a reader can keep a candidate
    /// after releasing the population slot it came from.
    pub fn duplicate(&self) -> (c: Candidate<S>)
        ensures
            c.fitness == self.fitness,
    {
        Candidate { solution: self.solution.clone(), fitness: self.fitness }
    }
}

/// A population member: a candidate plus the refinement attempts it has left
/// before it counts as stagnant and is replaced by a fresh candidate.
pub struct WorkingCandidate<S: Solution> {
    pub candidate: Candidate<S>,
    pub retries: usize,
}

impl<S: Solution> WorkingCandidate<S> {
    pub fn new(candidate: Candidate<S>, retries: usize) -> (w: WorkingCandidate<S>)
        ensures
            w.candidate == candidate,
            w.retries == retries,
    {
        WorkingCandidate { candidate, retries }
    }

    /// Burns one retry after a refinement attempt that brought no
    /// improvement. The counter stops at zero; it never wraps.
    pub fn deplete(&mut self)
        ensures
            final(self).candidate == old(self).candidate,
            final(self).retries == (if old(self).retries > 0 {
                old(self).retries - 1
            } else {
                0int
            }),
    {
        if self.retries > 0 {
            self.retries = self.retries - 1;
        }
    }

    /// An exhausted retry budget: the member is stagnant and must be
    /// replaced by a freshly built candidate, whatever its fitness.
    pub fn expired(&self) -> (e: bool)
        ensures
            e <==> self.retries == 0,
    {
        self.retries == 0
    }
}

/// The fitness column of a candidate sequence.
pub open spec fn fitnesses_of<S: Solution>(s: Seq<Candidate<S>>) -> Seq<i64> {
    Seq::new(s.len(), |i: int| s[i].fitness)
}

} // verus!
