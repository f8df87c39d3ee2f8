//! The boosters and what they share: the round's verdict, the errors, and
//! the rule that ends a run.

use vstd::prelude::*;
use crate::common::fixed::min_int;
use crate::weak_learner::WeakLearner;

pub mod erlpboost;
pub mod gbm;
pub mod lpboost;

verus! {

/// What a booster says after a round.
#[derive(Clone, Copy, Debug, PartialEq, Eq, Structural)]
pub enum State {
    /// The gap is still open: run another round.
    Continue,
    /// The run is over.
    Terminate,
}

/// Why a booster gives up.
#[derive(Clone, Copy, Debug, PartialEq, Eq, Structural)]
pub enum BoostError {
    /// The sample has no example.
    EmptySample,
    /// A label is neither plus one nor minus one.
    NonBinaryLabels,
    /// The capping parameter lies outside `[1, n]`.
    CappingOutOfRange,
    /// The tolerance is not positive, or too large for the booster.
    ToleranceOutOfRange,
    /// The logarithm of `n / nu` was not supplied, or is out of range.
    LogarithmOutOfRange,
    /// A round was asked for before the booster was set up.
    NotPreprocessed,
    /// The optimizer handed back something that is no solution.
    OptimizerInfeasible,
}

/// Whether an error is a fault of the configuration, found before any round.
pub open spec fn is_configuration(error: BoostError) -> bool {
    error != BoostError::OptimizerInfeasible && error != BoostError::NotPreprocessed
}

impl BoostError {
    /// Whether the error is a fault of the configuration, found when the
    /// booster is set up and before any round.
    pub fn is_configuration_error(self) -> (b: bool)
        ensures
            b == is_configuration(self),
    {
        match self {
            BoostError::OptimizerInfeasible => false,
            BoostError::NotPreprocessed => false,
            _ => true,
        }
    }
}

/// The dual bound of a booster that has none yet. It stands for minus
/// infinity: no primal bound comes within a tolerance of it.
pub const NO_DUAL_BOUND: i64 = i64::MIN;

/// The gap between the primal and the dual bound is at most `tolerance`.
pub open spec fn gap_closed(primal: int, dual: int, tolerance: int) -> bool {
    primal - dual <= tolerance
}

/// Whether the gap between the bounds is at most `tolerance`.
pub fn stopping_rule(primal: i64, dual: i64, tolerance: i64) -> (stop: bool)
    ensures
        stop == gap_closed(primal as int, dual as int, tolerance as int),
{
    primal as i128 - dual as i128 <= tolerance as i128
}

/// The primal bound after a round in which the objective was `value`.
pub fn tighten(primal: i64, value: i64) -> (bound: i64)
    ensures
        bound == min_int(primal as int, value as int),
        bound <= primal,
{
    if value < primal {
        value
    } else {
        primal
    }
}

/// A boosting algorithm over hypotheses of type `H`, round by round.
///
/// The boosters of this library say in their own contracts what each step
/// does; the trait only lets a caller drive any of them.
pub trait Booster<H> {
    /// What a run ends with.
    type Output;

    /// Sets the booster up for a run.
    fn preprocess<W>(&mut self, weak_learner: &W) -> Result<(), BoostError> where
        W: WeakLearner<Hypothesis = H>,
    ;

    /// Runs round `iteration`. The rounds are numbered from one.
    fn boost<W>(&mut self, weak_learner: &W, iteration: usize) -> Result<State, BoostError> where
        W: WeakLearner<Hypothesis = H>,

        requires
            iteration >= 1,
    ;

    /// Builds what the run ends with.
    fn postprocess<W>(&mut self, weak_learner: &W) -> Result<Self::Output, BoostError> where
        W: WeakLearner<Hypothesis = H>,
    ;
}

/// Whether a run goes on after `round` rounds, the last of which answered
/// `state`: it does while rounds are left in the budget and the booster has
/// not ended the run.
pub fn goes_on(round: usize, max_rounds: usize, state: State) -> (more: bool)
    ensures
        more == (round < max_rounds && state == State::Continue),
{
    round < max_rounds && match state {
        State::Continue => true,
        State::Terminate => false,
    }
}

/// Drives a booster through a whole run: sets it up, runs the rounds one,
/// two and so on for as long as `goes_on` says, and builds the result. The
/// number of rounds that ran comes back with it. The first error of the
/// booster ends the run and comes back in its place.
///
/// What the booster does in each step is its own; whatever it does, a run
/// stays within its budget, and it runs a round wherever the budget has one.
pub fn run_rounds<H, B, W>(booster: &mut B, weak_learner: &W, max_rounds: usize) -> (made: Result<
    (B::Output, usize),
    BoostError,
>) where B: Booster<H>, W: WeakLearner<Hypothesis = H>
    ensures
        made is Ok ==> made->Ok_0.1 <= max_rounds,
        made is Ok ==> (made->Ok_0.1 == 0 <==> max_rounds == 0),
{
    match booster.preprocess(weak_learner) {
        Err(e) => {
            return Err(e);
        },
        Ok(()) => {},
    }
    let mut round: usize = 0;
    let mut state = State::Continue;
    while goes_on(round, max_rounds, state)
        invariant
            round <= max_rounds,
            round == 0 ==> state == State::Continue,
        decreases max_rounds - round,
    {
        round = round + 1;
        match booster.boost(weak_learner, round) {
            Err(e) => {
                return Err(e);
            },
            Ok(next) => {
                state = next;
            },
        }
    }
    match booster.postprocess(weak_learner) {
        Err(e) => Err(e),
        Ok(output) => Ok((output, round)),
    }
}

} // verus!
