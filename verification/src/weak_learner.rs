//! The oracle that hands the boosters their hypotheses.

use vstd::prelude::*;
use crate::common::utils::on_simplex;
use crate::sample::Sample;

verus! {

/// A weak learner: given a sample and a distribution over its examples, it
/// returns a hypothesis that does well under that distribution.
///
/// The boosters promise the learner a probability distribution with one
/// weight per example. They take whatever hypothesis comes back.
pub trait WeakLearner {
    /// The hypotheses that this learner produces.
    type Hypothesis;

    /// Returns a hypothesis for `sample` weighted by `dist`.
    fn produce(&self, sample: &Sample, dist: &[i64]) -> Self::Hypothesis
        requires
            on_simplex(dist@),
            dist@.len() == sample.size(),
    ;
}

} // verus!
