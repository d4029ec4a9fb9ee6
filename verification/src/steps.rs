//! The extent of a training run in batches and superbatches.
use vstd::prelude::*;

verus! {

/// How many batches a run is made of, and how they are grouped into superbatches.
#[derive(Clone, Copy, Debug, PartialEq, Eq, Structural)]
pub struct TrainingSteps {
    /// Positions per batch.
    pub batch_size: usize,
    /// Batches per superbatch.
    pub batches_per_superbatch: usize,
    /// Number of the first superbatch, counted from one.
    pub start_superbatch: usize,
    /// Number of the last superbatch.
    pub end_superbatch: usize,
}

} // verus!
