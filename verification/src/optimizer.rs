//! The mathematical program that recomputes the distribution.

use vstd::prelude::*;
use crate::common::fixed::SCALE;
use crate::common::utils::is_margin_column;
use crate::common::utils::on_simplex;

verus! {

/// What the optimizer hands back after a round.
pub struct OptimizerStep {
    /// The distribution over the examples that solves the program.
    pub distribution: Vec<i64>,
    /// The value of the program at that distribution, in units. The plain
    /// booster takes it as its dual bound; the regularized booster computes
    /// its dual bound itself.
    pub objective: i64,
    /// The entropy of that distribution relative to the uniform one, in
    /// units. Only the regularized booster reads it.
    pub entropy: i64,
}

/// An optimizer step as the contracts speak of it.
pub struct StepView {
    pub distribution: Seq<i64>,
    pub objective: int,
    pub entropy: int,
}

impl View for OptimizerStep {
    type V = StepView;

    open spec fn view(&self) -> StepView {
        StepView {
            distribution: self.distribution@,
            objective: self.objective as int,
            entropy: self.entropy as int,
        }
    }
}

/// The solver of the linear or quadratic program over the distributions
/// whose weights stay below the cap.
///
/// A booster owns its optimizer. It promises the optimizer a distribution
/// and one margin per example, and it checks what comes back before it
/// relies on it: nothing is taken on trust from an implementation.
pub trait DistributionOptimizer: Sized {
    /// Sets the program up for `n_sample` examples whose weights may not
    /// exceed `weight_upper_bound`; `eta` is the regularization parameter,
    /// `None` for the linear program.
    fn initialize(n_sample: usize, weight_upper_bound: i64, eta: Option<i128>) -> Self
        requires
            n_sample >= 1,
            1 <= weight_upper_bound <= SCALE,
    ;

    /// Adds the hypothesis with the margins `margins` to the program and
    /// solves it again, starting from `dist`.
    fn update(&mut self, dist: &[i64], margins: &[i64]) -> OptimizerStep
        requires
            on_simplex(dist@),
            is_margin_column(margins@, dist@.len() as int),
    ;

    /// The weights on the hypotheses that were added so far, in their order.
    fn final_weights(&self) -> Vec<i64>;
}

} // verus!
