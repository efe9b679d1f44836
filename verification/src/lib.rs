//! An artificial-bee-colony style population optimizer: a fixed population of
//! candidate solutions is refined under a deterministic round-robin schedule
//! of worker and observer roles, with weighted random selection for the
//! observer role, monotone tracking of the best candidate found, and an
//! optional streaming sink that receives every improvement.

pub mod candidate;
pub mod hive;
pub mod scaling;
pub mod solution;
pub mod task;
