//! The entropy-regularized booster.
//!
//! The linear program of the plain booster is stabilized by an entropy term,
//! weighted by one over the regularization parameter. The objective of a
//! round is the edge of the new hypothesis plus that term, the dual bound is
//! the largest edge over the history plus that term, and the run ends once
//! the two come within half the tolerance of each other, or after a number
//! of rounds that the tolerance and the capping parameter bound beforehand.
//!
//! Logarithms are not computed here. The caller supplies the natural
//! logarithm of the number of examples over the capping parameter, which
//! the booster checks against the bounds that integer arithmetic can tell,
//! and the optimizer reports the entropy of each distribution that it hands
//! back.

use vstd::prelude::*;
use vstd::arithmetic::div_mod::lemma_fundamental_div_mod;
use crate::booster::Booster;
use crate::booster::BoostError;
use crate::booster::gap_closed;
use crate::booster::NO_DUAL_BOUND;
use crate::booster::State;
use crate::booster::stopping_rule;
use crate::booster::tighten;
use crate::common::capping::check_nu;
use crate::common::capping::lemma_uniform_within_cap;
use crate::common::capping::upper_bound;
use crate::common::capping::valid_nu;
use crate::common::capping::weight_cap;
use crate::common::fixed::ceil_quot;
use crate::common::fixed::div_ceil;
use crate::common::fixed::lemma_ceil_quot_is_least;
use crate::common::fixed::LOG_CAP;
use crate::common::fixed::max_int;
use crate::common::fixed::min_int;
use crate::common::fixed::SCALE;
use crate::common::fixed::SCALE_SQUARED;
use crate::common::utils::capped;
use crate::common::utils::edge;
use crate::common::utils::edge_of_hypothesis;
use crate::common::utils::is_capped;
use crate::common::utils::is_distribution;
use crate::common::utils::is_margin_column;
use crate::common::utils::lemma_edge_bound;
use crate::common::utils::lemma_uniform_on_simplex;
use crate::common::utils::on_simplex;
use crate::common::utils::uniform;
use crate::common::utils::uniform_distribution;
use crate::hypothesis::assemble;
use crate::hypothesis::Classifier;
use crate::hypothesis::CombinedHypothesis;
use crate::hypothesis::is_weighting;
use crate::hypothesis::margins_of;
use crate::optimizer::DistributionOptimizer;
use crate::optimizer::OptimizerStep;
use crate::optimizer::StepView;
use crate::research::Research;
use crate::sample::binary_labels;
use crate::sample::Sample;
use crate::weak_learner::WeakLearner;

verus! {

/// The regularization parameter, in units: one half, or the logarithm over
/// half the tolerance if that is larger.
pub open spec fn eta_of(log_ratio: int, half_tolerance: int) -> int {
    max_int((SCALE as int) / 2, (log_ratio * SCALE) / half_tolerance)
}

/// The number of rounds after which a run is over in any case: four over
/// half the tolerance, or eight times the logarithm over the square of half
/// the tolerance if that is larger, rounded up, and held at `usize::MAX`.
pub open spec fn max_iter_of(log_ratio: int, half_tolerance: int) -> int {
    min_int(
        usize::MAX as int,
        max_int(
            ceil_quot(4 * SCALE, half_tolerance),
            ceil_quot(8 * log_ratio * SCALE, half_tolerance * half_tolerance),
        ),
    )
}

/// The entropy term of the objective, in units: the entropy over the
/// regularization parameter, rounded down.
pub open spec fn regularizer(entropy: int, eta: int) -> int {
    (entropy * SCALE) / eta
}

/// The objective of a round: the edge of the hypothesis with the margins
/// `column` under `dist`, plus the entropy term.
pub open spec fn objective(dist: Seq<i64>, column: Seq<i64>, entropy: int, eta: int) -> int {
    edge(dist, column) + regularizer(entropy, eta)
}

/// The largest edge under `dist` among the first `k` of `columns`.
pub open spec fn max_edge(dist: Seq<i64>, columns: Seq<Seq<i64>>, k: int) -> int
    decreases k,
{
    if k <= 1 {
        edge(dist, columns[0])
    } else {
        max_int(max_edge(dist, columns, k - 1), edge(dist, columns[k - 1]))
    }
}

/// Every one of `columns` holds one margin per example.
pub open spec fn are_margin_columns(columns: Seq<Seq<i64>>, n: int) -> bool {
    forall|j: int| 0 <= j < columns.len() ==> is_margin_column(#[trigger] columns[j], n)
}

/// The largest edge over a history lies between minus one and one, is at
/// least the edge of each hypothesis, and is the edge of one of them.
pub proof fn lemma_max_edge(dist: Seq<i64>, columns: Seq<Seq<i64>>, k: int)
    requires
        on_simplex(dist),
        are_margin_columns(columns, dist.len() as int),
        1 <= k <= columns.len(),
    ensures
        -SCALE <= max_edge(dist, columns, k) <= SCALE,
        forall|j: int|
            0 <= j < k ==> edge(dist, #[trigger] columns[j]) <= max_edge(dist, columns, k),
        exists|j: int| 0 <= j < k && edge(dist, columns[j]) == max_edge(dist, columns, k),
    decreases k,
{
    lemma_edge_bound(dist, columns[k - 1]);
    if k > 1 {
        lemma_max_edge(dist, columns, k - 1);
    }
}

/// The regularization parameter is at least one half, and the entropy term
/// of an entropy up to the cap is at most twice the entropy.
pub proof fn lemma_regularizer_bound(entropy: int, eta: int)
    requires
        0 <= entropy,
        eta >= SCALE / 2,
    ensures
        0 <= regularizer(entropy, eta) <= 2 * entropy,
{
    let q = (entropy * SCALE) / eta;
    lemma_fundamental_div_mod(entropy * SCALE, eta);
    assert(0 <= q <= 2 * entropy) by (nonlinear_arith)
        requires
            entropy * SCALE == eta * q + (entropy * SCALE) % eta,
            0 <= (entropy * SCALE) % eta < eta,
            eta >= 500_000_000,
            SCALE == 1_000_000_000,
            0 <= entropy,
    ;
}

/// Computes the regularization parameter from the logarithm of the number
/// of examples over the capping parameter and half the tolerance.
pub fn regularization_param(log_ratio: i64, half_tolerance: i64) -> (eta: i128)
    requires
        0 <= log_ratio <= LOG_CAP,
        half_tolerance >= 1,
    ensures
        eta == eta_of(log_ratio as int, half_tolerance as int),
        eta >= SCALE / 2,
{
    assert(0 <= log_ratio * SCALE <= 45_000_000_000_000_000_000) by (nonlinear_arith)
        requires
            0 <= log_ratio <= 45_000_000_000,
            SCALE == 1_000_000_000,
    ;
    let quotient: i128 = (log_ratio as i128 * SCALE as i128) / half_tolerance as i128;
    if quotient > (SCALE / 2) as i128 {
        quotient
    } else {
        (SCALE / 2) as i128
    }
}

/// Computes the number of rounds after which a run is over in any case.
pub fn max_loop(log_ratio: i64, half_tolerance: i64) -> (max_iter: usize)
    requires
        0 <= log_ratio <= LOG_CAP,
        1 <= half_tolerance < SCALE,
    ensures
        max_iter == max_iter_of(log_ratio as int, half_tolerance as int),
        max_iter >= 5,
{
    let h: u128 = half_tolerance as u128;
    assert(h * h <= 1_000_000_000_000_000_000) by (nonlinear_arith)
        requires
            0 <= h < 1_000_000_000,
    ;
    assert(h * h >= 1) by (nonlinear_arith)
        requires
            h >= 1,
    ;
    assert(0 <= 8 * log_ratio * SCALE <= 360_000_000_000_000_000_000) by (nonlinear_arith)
        requires
            0 <= log_ratio <= 45_000_000_000,
            SCALE == 1_000_000_000,
    ;
    let first = div_ceil(4 * SCALE as u128, h);
    let second = div_ceil(8 * (log_ratio as u128) * SCALE as u128, h * h);
    proof {
        lemma_ceil_quot_is_least(4 * SCALE, h as int, first as int);
        assert(first >= 5) by (nonlinear_arith)
            requires
                first * h >= 4 * SCALE,
                h < SCALE,
                SCALE == 1_000_000_000,
        ;
    }
    let most = if first > second {
        first
    } else {
        second
    };
    if most > usize::MAX as u128 {
        usize::MAX
    } else {
        most as usize
    }
}

/// Computes the entropy term of the objective.
pub fn regularize(entropy: i64, eta: i128) -> (term: i64)
    requires
        0 <= entropy <= LOG_CAP,
        eta >= SCALE / 2,
    ensures
        term == regularizer(entropy as int, eta as int),
        0 <= term <= 2 * entropy,
{
    proof {
        lemma_regularizer_bound(entropy as int, eta as int);
    }
    assert(0 <= entropy * SCALE <= 45_000_000_000_000_000_000) by (nonlinear_arith)
        requires
            0 <= entropy <= 45_000_000_000,
            SCALE == 1_000_000_000,
    ;
    let term: i128 = (entropy as i128 * SCALE as i128) / eta;
    term as i64
}

/// Computes the largest edge under `dist` over the history `columns`.
pub fn largest_edge(dist: &[i64], columns: &Vec<Vec<i64>>) -> (best: i64)
    requires
        on_simplex(dist@),
        columns@.len() >= 1,
        forall|j: int|
            0 <= j < columns@.len() ==> is_margin_column(
                (#[trigger] columns@[j])@,
                dist@.len() as int,
            ),
    ensures
        best == max_edge(
            dist@,
            Seq::new(columns@.len(), |j: int| columns@[j]@),
            columns@.len() as int,
        ),
        -SCALE <= best <= SCALE,
{
    let ghost history = Seq::new(columns@.len(), |j: int| columns@[j]@);
    let mut best = edge_of_hypothesis(dist, columns[0].as_slice());
    let mut k: usize = 1;
    while k < columns.len()
        invariant
            1 <= k <= columns@.len(),
            on_simplex(dist@),
            history == Seq::new(columns@.len(), |j: int| columns@[j]@),
            forall|j: int|
                0 <= j < columns@.len() ==> is_margin_column(
                    (#[trigger] columns@[j])@,
                    dist@.len() as int,
                ),
            best == max_edge(dist@, history, k as int),
            -SCALE <= best <= SCALE,
        decreases columns@.len() - k,
    {
        let e = edge_of_hypothesis(dist, columns[k].as_slice());
        if e > best {
            best = e;
        }
        k = k + 1;
    }
    best
}

/// Half of a tolerance, rounded towards zero.
pub open spec fn half_of(tolerance: int) -> int {
    if tolerance >= 0 {
        tolerance / 2
    } else {
        -((-tolerance) / 2)
    }
}

/// Whether `log_ratio` can be the natural logarithm of `n` over the capping
/// parameter `nu`, in units and up to one unit of rounding: it lies between
/// zero and the cap on logarithms, and between one minus the inverse of the
/// ratio and the ratio minus one, as every logarithm does.
pub open spec fn plausible_logarithm(log_ratio: int, n: int, nu: int) -> bool {
    &&& 0 <= log_ratio <= LOG_CAP
    &&& (log_ratio - 1 + SCALE) * nu <= n * SCALE_SQUARED
    &&& (log_ratio + 1) * n >= n * SCALE - nu
}

/// Checks a logarithm that the caller supplies against the bounds that
/// integer arithmetic can tell.
pub fn check_logarithm(log_ratio: i64, n_sample: usize, nu: i64) -> (ok: bool)
    requires
        valid_nu(nu as int, n_sample as int),
    ensures
        ok == plausible_logarithm(log_ratio as int, n_sample as int, nu as int),
{
    if log_ratio < 0 || log_ratio > LOG_CAP {
        return false;
    }
    let whole: i128 = n_sample as i128 * SCALE_SQUARED;
    let factor: i128 = log_ratio as i128 - 1 + SCALE as i128;
    let upper = match factor.checked_mul(nu as i128) {
        Some(product) => product <= whole,
        None => {
            assert(factor * nu >= 0) by (nonlinear_arith)
                requires
                    factor >= 0,
                    nu >= 0,
            ;
            false
        },
    };
    assert(0 <= (log_ratio + 1) * n_sample <= 45_000_000_001 * 0xffff_ffff_ffff_ffff)
        by (nonlinear_arith)
        requires
            0 <= log_ratio <= 45_000_000_000,
            0 <= n_sample <= 0xffff_ffff_ffff_ffff,
    ;
    let lower = (log_ratio as i128 + 1) * n_sample as i128 >= n_sample as i128 * SCALE as i128
        - nu as i128;
    upper && lower
}

/// The state of a regularized booster, as the contracts speak of it.
pub struct ERLPBoostView {
    /// The number of examples.
    pub n: nat,
    /// Whether every label of the sample is plus or minus one.
    pub binary: bool,
    /// The capping parameter, in units.
    pub nu: int,
    /// Half the tolerance, in units.
    pub half_tolerance: int,
    /// The logarithm of `n` over the capping parameter, if it was supplied.
    pub log_ratio: Option<int>,
    /// Whether the booster was set up and may run rounds.
    pub ready: bool,
    /// The regularization parameter, in units.
    pub eta: int,
    /// The number of rounds after which the run is over in any case.
    pub max_iter: int,
    /// The distribution over the examples.
    pub dist: Seq<i64>,
    /// The entropy of the distribution relative to the uniform one.
    pub entropy: int,
    /// The primal bound: the least objective seen so far.
    pub primal: int,
    /// The dual bound: the regularized value of the last distribution.
    pub dual: int,
    /// The margins of the hypotheses in the history, in their order.
    pub columns: Seq<Seq<i64>>,
    /// The round at which the gap closed; the bound on the rounds before.
    pub terminated: int,
}

impl ERLPBoostView {
    /// The state of a booster that was just made for a sample of `n`
    /// examples: no capping, a tolerance of one over `n`, no logarithm yet,
    /// the uniform distribution, and no dual bound.
    pub open spec fn initial(n: nat, binary: bool) -> Self {
        ERLPBoostView {
            n,
            binary,
            nu: SCALE as int,
            half_tolerance: if n == 0 {
                (SCALE as int) / 2
            } else {
                ((SCALE as int) / (n as int)) / 2
            },
            log_ratio: None,
            ready: false,
            eta: (SCALE as int) / 2,
            max_iter: usize::MAX as int,
            dist: if n == 0 {
                Seq::empty()
            } else {
                uniform(n)
            },
            entropy: 0,
            primal: SCALE as int,
            dual: NO_DUAL_BOUND as int,
            columns: Seq::empty(),
            terminated: usize::MAX as int,
        }
    }

    /// The first fault of the configuration that setting up finds, if there
    /// is one. A capping parameter out of range is not among them: it is
    /// refused when it is set.
    pub open spec fn configuration_error(self) -> Option<BoostError> {
        if self.n == 0 {
            Some(BoostError::EmptySample)
        } else if !self.binary {
            Some(BoostError::NonBinaryLabels)
        } else if !(1 <= self.half_tolerance < SCALE) {
            Some(BoostError::ToleranceOutOfRange)
        } else if !(self.log_ratio is Some && plausible_logarithm(
            self.log_ratio->0,
            self.n as int,
            self.nu,
        )) {
            Some(BoostError::LogarithmOutOfRange)
        } else {
            None
        }
    }

    /// What holds of every state: the capping parameter lies between one
    /// and the number of examples, wherever there is an example; and a
    /// booster that is set up has a valid configuration, the parameters that
    /// follow from it, a distribution on the capped simplex with an entropy
    /// in range, and a history of margin columns.
    pub open spec fn inv(self) -> bool {
        &&& self.n >= 1 ==> valid_nu(self.nu, self.n as int)
        &&& self.ready ==> {
            &&& self.configuration_error() is None
            &&& self.eta == eta_of(self.log_ratio->0, self.half_tolerance)
            &&& self.max_iter == max_iter_of(self.log_ratio->0, self.half_tolerance)
            &&& on_simplex(self.dist)
            &&& self.dist.len() == self.n
            &&& capped(self.dist, weight_cap(self.nu))
            &&& 0 <= self.entropy <= LOG_CAP
            &&& -SCALE <= self.primal <= SCALE
            &&& are_margin_columns(self.columns, self.n as int)
        }
    }

    /// The state after setting up: with a valid configuration the
    /// parameters are computed, the distribution is uniform, the history
    /// empty, the primal bound one and the dual bound none; with a faulty
    /// one the booster is not set up.
    pub open spec fn preprocessed(self) -> Self {
        if self.configuration_error() is Some {
            ERLPBoostView { ready: false, ..self }
        } else {
            ERLPBoostView {
                ready: true,
                eta: eta_of(self.log_ratio->0, self.half_tolerance),
                max_iter: max_iter_of(self.log_ratio->0, self.half_tolerance),
                dist: uniform(self.n),
                entropy: 0,
                primal: SCALE as int,
                dual: NO_DUAL_BOUND as int,
                columns: Seq::empty(),
                terminated: max_iter_of(self.log_ratio->0, self.half_tolerance),
                ..self
            }
        }
    }

    /// The primal bound after a hypothesis with the margins `column`.
    pub open spec fn primal_after(self, column: Seq<i64>) -> int {
        min_int(self.primal, objective(self.dist, column, self.entropy, self.eta))
    }

    /// What the first half of round `iteration` answers, when the new
    /// hypothesis has the margins `column`: `Terminate` past the bound on
    /// the rounds or when the gap is closed, `Continue` when the optimizer
    /// is to be asked.
    pub open spec fn proposal_verdict(self, iteration: int, column: Seq<i64>) -> Result<
        State,
        BoostError,
    > {
        if !self.ready {
            Err(BoostError::NotPreprocessed)
        } else if self.max_iter < iteration {
            Ok(State::Terminate)
        } else if gap_closed(self.primal_after(column), self.dual, self.half_tolerance) {
            Ok(State::Terminate)
        } else {
            Ok(State::Continue)
        }
    }

    /// The state after the first half of round `iteration`.
    pub open spec fn after_proposal(self, iteration: int, column: Seq<i64>) -> Self {
        if !self.ready || self.max_iter < iteration {
            self
        } else if gap_closed(self.primal_after(column), self.dual, self.half_tolerance) {
            ERLPBoostView { primal: self.primal_after(column), terminated: iteration, ..self }
        } else {
            ERLPBoostView { primal: self.primal_after(column), ..self }
        }
    }

    /// Whether `step` holds a distribution over the examples that respects
    /// the cap, with an entropy that is not negative and at most the cap on
    /// logarithms.
    pub open spec fn feasible(self, step: StepView) -> bool {
        &&& on_simplex(step.distribution)
        &&& step.distribution.len() == self.n
        &&& capped(step.distribution, weight_cap(self.nu))
        &&& 0 <= step.entropy <= LOG_CAP
    }

    /// The dual bound after the hypothesis with the margins `column` joined
    /// the history and the optimizer handed back `step`.
    pub open spec fn dual_after(self, column: Seq<i64>, step: StepView) -> int {
        max_edge(step.distribution, self.columns.push(column), self.columns.len() as int + 1)
            + regularizer(step.entropy, self.eta)
    }

    /// What the second half of a round answers, when the optimizer handed
    /// back `step`.
    pub open spec fn update_verdict(self, step: StepView) -> Result<State, BoostError> {
        if !self.ready {
            Err(BoostError::NotPreprocessed)
        } else if !self.feasible(step) {
            Err(BoostError::OptimizerInfeasible)
        } else {
            Ok(State::Continue)
        }
    }

    /// The state after the second half of a round.
    pub open spec fn after_update(self, column: Seq<i64>, step: StepView) -> Self {
        if !self.ready {
            self
        } else if !self.feasible(step) {
            ERLPBoostView { ready: false, columns: Seq::empty(), ..self }
        } else {
            ERLPBoostView {
                dist: step.distribution,
                entropy: step.entropy,
                dual: self.dual_after(column, step),
                columns: self.columns.push(column),
                ..self
            }
        }
    }

    /// What round `iteration` answers as a whole.
    pub open spec fn verdict(self, iteration: int, column: Seq<i64>, step: StepView) -> Result<
        State,
        BoostError,
    > {
        if self.proposal_verdict(iteration, column) == Ok::<State, BoostError>(State::Continue) {
            self.after_proposal(iteration, column).update_verdict(step)
        } else {
            self.proposal_verdict(iteration, column)
        }
    }

    /// The state after round `iteration` as a whole.
    pub open spec fn after_round(self, iteration: int, column: Seq<i64>, step: StepView) -> Self {
        if self.proposal_verdict(iteration, column) == Ok::<State, BoostError>(State::Continue) {
            self.after_proposal(iteration, column).after_update(column, step)
        } else {
            self.after_proposal(iteration, column)
        }
    }

    /// The state after the rounds one to `k`, round `j` with the margins
    /// `columns[j - 1]` and the step `steps[j - 1]`.
    pub open spec fn after_rounds(
        self,
        columns: Seq<Seq<i64>>,
        steps: Seq<StepView>,
        k: nat,
    ) -> Self
        decreases k,
    {
        if k == 0 {
            self
        } else {
            self.after_rounds(columns, steps, (k - 1) as nat).after_round(
                k as int,
                columns[k - 1],
                steps[k - 1],
            )
        }
    }

    /// Whether each of the rounds one to `k` answers `Continue`.
    pub open spec fn all_continue(
        self,
        columns: Seq<Seq<i64>>,
        steps: Seq<StepView>,
        k: nat,
    ) -> bool
        decreases k,
    {
        k == 0 || (self.all_continue(columns, steps, (k - 1) as nat) && self.after_rounds(
            columns,
            steps,
            (k - 1) as nat,
        ).verdict(k as int, columns[k - 1], steps[k - 1]) == Ok::<State, BoostError>(
            State::Continue,
        ))
    }
}

/// The hypotheses of a run, each with its margins on the examples.
struct History<F> {
    hypotheses: Vec<F>,
    columns: Vec<Vec<i64>>,
}

impl<F> History<F> {
    /// The margins of the hypotheses, in their order.
    spec fn margins(self) -> Seq<Seq<i64>> {
        Seq::new(self.columns@.len(), |j: int| self.columns@[j]@)
    }

    /// There is one column of margins per hypothesis.
    spec fn paired(self) -> bool {
        self.hypotheses@.len() == self.columns@.len()
    }

    /// The empty history.
    fn new() -> (history: Self)
        ensures
            history.paired(),
            history.hypotheses@.len() == 0,
            history.margins() == Seq::<Seq<i64>>::empty(),
    {
        History { hypotheses: Vec::new(), columns: Vec::new() }
    }

    /// Appends a hypothesis and its margins.
    fn push(&mut self, h: F, column: Vec<i64>)
        requires
            old(self).paired(),
        ensures
            final(self).paired(),
            final(self).hypotheses@ == old(self).hypotheses@.push(h),
            final(self).margins() == old(self).margins().push(column@),
    {
        self.hypotheses.push(h);
        self.columns.push(column);
    }
}

/// The entropy-regularized booster over hypotheses of type `F`, with an
/// optimizer of type `O` for its quadratic programs.
pub struct ERLPBoost<'a, F, O> {
    sample: &'a Sample,
    dist: Vec<i64>,
    entropy: i64,
    gamma_hat: i64,
    gamma_star: i64,
    eta: i128,
    half_tolerance: i64,
    log_ratio: Option<i64>,
    qp_model: Option<O>,
    history: History<F>,
    weights: Vec<i64>,
    n_sample: usize,
    nu: i64,
    terminated: usize,
    max_iter: usize,
}

impl<'a, F, O> ERLPBoost<'a, F, O> {
    #[verifier::type_invariant]
    spec fn well_formed(self) -> bool {
        &&& self.n_sample == self.sample.size()
        &&& self.history.paired()
        &&& self@.inv()
    }

    /// The state of the booster.
    pub closed spec fn view(&self) -> ERLPBoostView {
        ERLPBoostView {
            n: self.sample.size(),
            binary: binary_labels(self.sample.labels()),
            nu: self.nu as int,
            half_tolerance: self.half_tolerance as int,
            log_ratio: match self.log_ratio {
                Some(l) => Some(l as int),
                None => None,
            },
            ready: self.qp_model is Some,
            eta: self.eta as int,
            max_iter: self.max_iter as int,
            dist: self.dist@,
            entropy: self.entropy as int,
            primal: self.gamma_hat as int,
            dual: self.gamma_star as int,
            columns: self.history.margins(),
            terminated: self.terminated as int,
        }
    }

    /// The hypotheses of the rounds so far, in their order.
    pub closed spec fn history(&self) -> Seq<F> {
        self.history.hypotheses@
    }

    /// The weights that the optimizer gave when the booster last asked.
    pub closed spec fn last_weights(&self) -> Seq<i64> {
        self.weights@
    }

    /// The sample that the booster was made for.
    pub closed spec fn sample_of(&self) -> Sample {
        *self.sample
    }

    /// Makes a booster for `sample`, without capping, with a tolerance of
    /// one over the number of examples and with the uniform distribution.
    /// The logarithm of the number of examples over the capping parameter
    /// has to be supplied before the booster is set up.
    pub fn init(sample: &'a Sample) -> (booster: Self)
        ensures
            booster@ == ERLPBoostView::initial(sample.size(), binary_labels(sample.labels())),
            booster.history().len() == 0,
            booster.sample_of() == *sample,
            booster@.inv(),
    {
        let n_sample = sample.shape().0;
        let uni: i64 = if n_sample == 0 {
            SCALE
        } else {
            (SCALE as u64 / n_sample as u64) as i64
        };
        let dist = if n_sample == 0 {
            Vec::new()
        } else {
            uniform_distribution(n_sample)
        };
        ERLPBoost {
            sample,
            dist,
            entropy: 0,
            gamma_hat: SCALE,
            gamma_star: NO_DUAL_BOUND,
            eta: (SCALE / 2) as i128,
            half_tolerance: uni / 2,
            log_ratio: None,
            qp_model: None,
            history: History::new(),
            weights: Vec::new(),
            n_sample,
            nu: SCALE,
            terminated: usize::MAX,
            max_iter: usize::MAX,
        }
    }

    /// Sets the capping parameter, in units. A parameter below one or above
    /// the number of examples is refused. The logarithm that was supplied
    /// for the old parameter is dropped, and the booster has to be set up
    /// again before its next round.
    pub fn nu(self, nu: i64) -> (set: Result<Self, BoostError>)
        ensures
            set is Ok <==> valid_nu(nu as int, self@.n as int),
            set is Err ==> set->Err_0 == BoostError::CappingOutOfRange,
            set is Ok ==> {
                &&& set->Ok_0@ == (ERLPBoostView {
                    nu: nu as int,
                    log_ratio: None,
                    ready: false,
                    ..self@
                })
                &&& set->Ok_0.history() == self.history()
                &&& set->Ok_0.sample_of() == self.sample_of()
                &&& set->Ok_0@.inv()
            },
    {
        let mut booster = self;
        proof {
            use_type_invariant(&booster);
        }
        if !check_nu(nu, booster.n_sample) {
            return Err(BoostError::CappingOutOfRange);
        }
        booster.qp_model = None;
        booster.log_ratio = None;
        booster.nu = nu;
        Ok(booster)
    }

    /// Supplies the natural logarithm of the number of examples over the
    /// capping parameter, in units. The booster has to be set up again
    /// before its next round.
    pub fn log_ratio(self, log_ratio: i64) -> (booster: Self)
        ensures
            booster@ == (ERLPBoostView {
                log_ratio: Some(log_ratio as int),
                ready: false,
                ..self@
            }),
            booster.history() == self.history(),
            booster.sample_of() == self.sample_of(),
            booster@.inv(),
    {
        let mut booster = self;
        proof {
            use_type_invariant(&booster);
        }
        booster.qp_model = None;
        booster.log_ratio = Some(log_ratio);
        booster
    }

    /// Sets the tolerance, in units; the booster works with half of it. The
    /// booster has to be set up again before its next round.
    pub fn tolerance(self, tolerance: i64) -> (booster: Self)
        ensures
            booster@ == (ERLPBoostView {
                half_tolerance: half_of(tolerance as int),
                ready: false,
                ..self@
            }),
            booster.history() == self.history(),
            booster.sample_of() == self.sample_of(),
            booster@.inv(),
    {
        let mut booster = self;
        proof {
            use_type_invariant(&booster);
        }
        booster.qp_model = None;
        booster.half_tolerance = tolerance / 2;
        booster
    }

    /// The round at which the gap closed; before that, the bound on the
    /// number of rounds, and `usize::MAX` before the booster is set up.
    pub fn terminated(&self) -> (round: usize)
        ensures
            round == self@.terminated,
    {
        self.terminated
    }

    /// The distribution over the examples.
    pub fn distribution(&self) -> (dist: &[i64])
        ensures
            dist@ == self@.dist,
    {
        self.dist.as_slice()
    }

    /// The primal bound: the least objective seen so far.
    pub fn primal_bound(&self) -> (bound: i64)
        ensures
            bound == self@.primal,
    {
        self.gamma_hat
    }

    /// The dual bound: the regularized value of the last distribution.
    pub fn dual_bound(&self) -> (bound: i64)
        ensures
            bound == self@.dual,
    {
        self.gamma_star
    }

    /// Half the tolerance, in units.
    pub fn half_tolerance(&self) -> (half: i64)
        ensures
            half == self@.half_tolerance,
    {
        self.half_tolerance
    }

    /// The capping parameter, in units.
    pub fn capping(&self) -> (nu: i64)
        ensures
            nu == self@.nu,
    {
        self.nu
    }

    /// The regularization parameter, in units.
    pub fn eta(&self) -> (eta: i128)
        ensures
            eta == self@.eta,
    {
        self.eta
    }

    /// The number of rounds after which the run is over in any case.
    pub fn max_iter(&self) -> (max_iter: usize)
        ensures
            max_iter == self@.max_iter,
    {
        self.max_iter
    }

    /// The number of hypotheses in the history.
    pub fn rounds(&self) -> (rounds: usize)
        ensures
            rounds == self@.columns.len(),
            rounds == self.history().len(),
    {
        proof {
            use_type_invariant(self);
        }
        self.history.hypotheses.len()
    }

    /// The hypotheses of the rounds so far, in their order.
    pub fn hypotheses(&self) -> (hypotheses: &[F])
        ensures
            hypotheses@ == self.history(),
    {
        self.history.hypotheses.as_slice()
    }

    /// The weights that the optimizer gave when the booster last asked for
    /// them, at the end of a run.
    pub fn weights(&self) -> (weights: &[i64])
        ensures
            weights@ == self.last_weights(),
    {
        self.weights.as_slice()
    }

    /// Whether the booster is set up and may run rounds.
    pub fn is_ready(&self) -> (ready: bool)
        ensures
            ready == self@.ready,
    {
        self.qp_model.is_some()
    }
}

impl<'a, F, O> ERLPBoost<'a, F, O> where F: Classifier + Clone, O: DistributionOptimizer {
    /// Sets the booster up for a run: checks the configuration, computes the
    /// regularization parameter and the bound on the rounds, resets the
    /// distribution to the uniform one, clears the history, resets the
    /// bounds, and sets the optimizer up.
    ///
    /// With a faulty configuration the booster is left as it was, but for
    /// being no longer set up.
    pub fn preprocess<W>(&mut self, _weak_learner: &W) -> (done: Result<(), BoostError>) where
        W: WeakLearner<Hypothesis = F>,

        ensures
            final(self)@ == old(self)@.preprocessed(),
            done == match old(self)@.configuration_error() {
                Some(e) => Err::<(), BoostError>(e),
                None => Ok::<(), BoostError>(()),
            },
            done is Ok ==> final(self).history().len() == 0,
            done is Err ==> final(self).history() == old(self).history(),
            final(self).sample_of() == old(self).sample_of(),
            final(self)@.inv(),
    {
        proof {
            use_type_invariant(&*self);
        }
        self.qp_model = None;
        let n_sample = self.n_sample;
        if n_sample == 0 {
            return Err(BoostError::EmptySample);
        }
        if !self.sample.is_valid_binary_instance() {
            return Err(BoostError::NonBinaryLabels);
        }
        if self.half_tolerance < 1 || self.half_tolerance >= SCALE {
            return Err(BoostError::ToleranceOutOfRange);
        }
        let log_ratio = match self.log_ratio {
            None => {
                return Err(BoostError::LogarithmOutOfRange);
            },
            Some(l) => l,
        };
        if !check_logarithm(log_ratio, n_sample, self.nu) {
            return Err(BoostError::LogarithmOutOfRange);
        }
        let eta = regularization_param(log_ratio, self.half_tolerance);
        let max_iter = max_loop(log_ratio, self.half_tolerance);
        let cap = upper_bound(self.nu);
        let model = O::initialize(n_sample, cap, Some(eta));
        proof {
            lemma_uniform_within_cap(n_sample as nat, self.nu as int);
        }
        self.dist = uniform_distribution(n_sample);
        self.entropy = 0;
        self.gamma_hat = SCALE;
        self.gamma_star = NO_DUAL_BOUND;
        self.eta = eta;
        self.max_iter = max_iter;
        self.terminated = max_iter;
        self.history = History::new();
        self.qp_model = Some(model);
        Ok(())
    }

    /// The first half of round `iteration`: takes in the margins `column` of
    /// the hypothesis that the weak learner produced.
    ///
    /// Past the bound on the rounds nothing changes and the run is over.
    /// Otherwise the primal bound drops to the objective of the hypothesis
    /// if that is lower, and the run is over if the primal bound is within
    /// half the tolerance of the dual bound. `Continue` says that the
    /// optimizer is to be asked, and `commit` takes its answer.
    pub fn propose(&mut self, iteration: usize, column: &[i64]) -> (verdict: Result<
        State,
        BoostError,
    >)
        requires
            is_margin_column(column@, old(self)@.n as int),
        ensures
            final(self)@ == old(self)@.after_proposal(iteration as int, column@),
            verdict == old(self)@.proposal_verdict(iteration as int, column@),
            final(self).history() == old(self).history(),
            final(self).sample_of() == old(self).sample_of(),
            final(self)@.inv(),
    {
        proof {
            use_type_invariant(&*self);
        }
        if self.qp_model.is_none() {
            return Err(BoostError::NotPreprocessed);
        }
        if self.max_iter < iteration {
            return Ok(State::Terminate);
        }
        proof {
            lemma_edge_bound(self.dist@, column@);
        }
        let value = edge_of_hypothesis(self.dist.as_slice(), column) + regularize(
            self.entropy,
            self.eta,
        );
        let primal = tighten(self.gamma_hat, value);
        self.gamma_hat = primal;
        if stopping_rule(primal, self.gamma_star, self.half_tolerance) {
            self.terminated = iteration;
            return Ok(State::Terminate);
        }
        Ok(State::Continue)
    }

    /// The second half of a round: takes in what the optimizer handed back
    /// for the hypothesis `h` with the margins `column`.
    ///
    /// The distribution and its entropy become the current ones, `h` joins
    /// the history, and the dual bound becomes the largest edge over the
    /// history plus the entropy term. A step whose distribution is not on
    /// the capped simplex, or whose entropy is negative or above the cap on
    /// logarithms, ends the run with an error: the history is dropped, and
    /// the booster is no longer set up.
    pub fn commit(&mut self, h: F, column: Vec<i64>, step: OptimizerStep) -> (verdict: Result<
        State,
        BoostError,
    >)
        requires
            is_margin_column(column@, old(self)@.n as int),
        ensures
            final(self)@ == old(self)@.after_update(column@, step@),
            verdict == old(self)@.update_verdict(step@),
            verdict is Ok ==> final(self).history() == old(self).history().push(h),
            verdict == Err::<State, BoostError>(BoostError::NotPreprocessed) ==>
                final(self).history() == old(self).history(),
            verdict == Err::<State, BoostError>(BoostError::OptimizerInfeasible) ==>
                final(self).history().len() == 0,
            final(self).sample_of() == old(self).sample_of(),
            final(self)@.inv(),
    {
        proof {
            use_type_invariant(&*self);
        }
        if self.qp_model.is_none() {
            return Err(BoostError::NotPreprocessed);
        }
        let feasible = step.distribution.len() == self.n_sample && is_distribution(
            step.distribution.as_slice(),
        ) && is_capped(step.distribution.as_slice(), upper_bound(self.nu)) && 0 <= step.entropy
            && step.entropy <= LOG_CAP;
        if !feasible {
            self.qp_model = None;
            self.history = History::new();
            return Err(BoostError::OptimizerInfeasible);
        }
        let mut history: History<F> = History::new();
        std::mem::swap(&mut self.history, &mut history);
        history.push(h, column);
        proof {
            lemma_max_edge(
                step.distribution@,
                history.margins(),
                history.margins().len() as int,
            );
        }
        assert forall|j: int| 0 <= j < history.columns@.len() implies is_margin_column(
            (#[trigger] history.columns@[j])@,
            step.distribution@.len() as int,
        ) by {
            assert(history.margins()[j] == history.columns@[j]@);
        }
        let best = largest_edge(step.distribution.as_slice(), &history.columns);
        let dual = best + regularize(step.entropy, self.eta);
        std::mem::swap(&mut self.history, &mut history);
        self.dist = step.distribution;
        self.entropy = step.entropy;
        self.gamma_star = dual;
        Ok(State::Continue)
    }

    /// Runs round `iteration`: past the bound on the rounds the run is over
    /// at once; else the weak learner is asked for a hypothesis under the
    /// current distribution, and unless the gap closes with it, the
    /// optimizer updates the distribution.
    ///
    /// Whatever the learner and the optimizer hand back, the primal bound
    /// does not rise and the distribution stays on the capped simplex.
    pub fn boost<W>(&mut self, weak_learner: &W, iteration: usize) -> (verdict: Result<
        State,
        BoostError,
    >) where W: WeakLearner<Hypothesis = F>
        ensures
            !old(self)@.ready ==> verdict == Err::<State, BoostError>(BoostError::NotPreprocessed)
                && final(self)@ == old(self)@,
            verdict == Err::<State, BoostError>(BoostError::NotPreprocessed) ==> !old(self)@.ready,
            old(self)@.ready && old(self)@.max_iter < iteration ==> verdict == Ok::<
                State,
                BoostError,
            >(State::Terminate) && final(self)@ == old(self)@,
            old(self)@.ready ==> exists|column: Seq<i64>, step: StepView|
                is_margin_column(column, old(self)@.n as int) && final(self)@ == old(
                    self,
                )@.after_round(iteration as int, column, step) && verdict == old(self)@.verdict(
                    iteration as int,
                    column,
                    step,
                ),
            verdict == Ok::<State, BoostError>(State::Continue) ==> final(self).history().len()
                == old(self).history().len() + 1 && final(self).history().drop_last() == old(
                self,
            ).history(),
            verdict == Ok::<State, BoostError>(State::Terminate) ==>
                final(self).history() == old(self).history(),
            verdict == Err::<State, BoostError>(BoostError::NotPreprocessed) ==>
                final(self).history() == old(self).history(),
            verdict == Err::<State, BoostError>(BoostError::OptimizerInfeasible) ==>
                final(self).history().len() == 0 && !final(self)@.ready,
            verdict is Err ==> verdict->Err_0 == BoostError::NotPreprocessed || verdict->Err_0
                == BoostError::OptimizerInfeasible,
            final(self)@.primal <= old(self)@.primal,
            verdict == Ok::<State, BoostError>(State::Terminate) && iteration <= old(self)@.max_iter
                ==> gap_closed(final(self)@.primal, final(self)@.dual, final(self)@.half_tolerance)
                && final(self)@.terminated == iteration,
            verdict == Ok::<State, BoostError>(State::Continue) ==> !gap_closed(
                final(self)@.primal,
                old(self)@.dual,
                final(self)@.half_tolerance,
            ) && final(self)@.terminated == old(self)@.terminated && iteration <= old(
                self,
            )@.max_iter && final(self)@.ready,
            final(self)@.n == old(self)@.n,
            final(self)@.nu == old(self)@.nu,
            final(self)@.half_tolerance == old(self)@.half_tolerance,
            final(self)@.log_ratio == old(self)@.log_ratio,
            final(self)@.max_iter == old(self)@.max_iter,
            final(self)@.eta == old(self)@.eta,
            final(self).sample_of() == old(self).sample_of(),
            final(self)@.inv(),
    {
        proof {
            use_type_invariant(&*self);
        }
        if self.qp_model.is_none() {
            return Err(BoostError::NotPreprocessed);
        }
        if self.max_iter < iteration {
            proof {
                let column = Seq::new(self@.n, |i: int| 0i64);
                let step = StepView { distribution: Seq::empty(), objective: 0, entropy: 0 };
                assert(self@ == self@.after_round(iteration as int, column, step));
            }
            return Ok(State::Terminate);
        }
        let h = weak_learner.produce(self.sample, self.dist.as_slice());
        let column = margins_of(self.sample, &h);
        let ghost before = self@;
        match self.propose(iteration, column.as_slice()) {
            Ok(State::Continue) => {},
            other => {
                proof {
                    let step = StepView { distribution: Seq::empty(), objective: 0, entropy: 0 };
                    assert(other == before.verdict(iteration as int, column@, step));
                }
                return other;
            },
        }
        proof {
            use_type_invariant(&*self);
        }
        let mut held: Option<O> = None;
        std::mem::swap(&mut self.qp_model, &mut held);
        let mut model = match held {
            None => {
                return Err(BoostError::NotPreprocessed);
            },
            Some(model) => model,
        };
        let step = model.update(self.dist.as_slice(), column.as_slice());
        self.qp_model = Some(model);
        let ghost taken = step@;
        let ghost margins = column@;
        let verdict = self.commit(h, column, step);
        assert(verdict == before.verdict(iteration as int, margins, taken));
        verdict
    }

    /// Ends a run: asks the optimizer for its weights on the hypotheses and
    /// builds the combined hypothesis, leaving out the pairs of weight zero.
    ///
    /// Weights that are no probability distribution over the history are the
    /// optimizer's fault, and no model is built.
    pub fn postprocess<W>(&mut self, _weak_learner: &W) -> (made: Result<
        CombinedHypothesis<F>,
        BoostError,
    >) where W: WeakLearner<Hypothesis = F>
        ensures
            final(self)@ == old(self)@,
            final(self).history() == old(self).history(),
            final(self).sample_of() == old(self).sample_of(),
            final(self)@.inv(),
            !old(self)@.ready ==> made is Err && made->Err_0 == BoostError::NotPreprocessed,
            old(self)@.ready ==> (made is Ok <==> is_weighting(
                final(self).last_weights(),
                final(self).history().len(),
            )),
            old(self)@.ready && made is Err ==> made->Err_0 == BoostError::OptimizerInfeasible,
            made is Ok ==> made->Ok_0.combines(final(self).last_weights(), final(self).history()),
    {
        proof {
            use_type_invariant(&*self);
        }
        let weights = match &self.qp_model {
            None => {
                return Err(BoostError::NotPreprocessed);
            },
            Some(model) => model.final_weights(),
        };
        self.weights = weights;
        match assemble(self.weights.as_slice(), self.history.hypotheses.as_slice()) {
            Some(model) => Ok(model),
            None => Err(BoostError::OptimizerInfeasible),
        }
    }

    /// Runs the booster from the start: sets it up, runs rounds until one
    /// answers `Terminate`, and builds the combined hypothesis. The number
    /// of the last round comes back with it.
    ///
    /// The run ends with the first round that answers `Terminate`, so that
    /// every round before the last added a hypothesis to the history, and it
    /// never takes more hypotheses into its history than the bound on the
    /// rounds allows. Only a run of `usize::MAX` rounds ends without that
    /// answer.
    pub fn run<W>(&mut self, weak_learner: &W) -> (made: Result<
        (CombinedHypothesis<F>, usize),
        BoostError,
    >) where W: WeakLearner<Hypothesis = F>
        ensures
            old(self)@.configuration_error() is Some ==> made is Err && Some(made->Err_0) == old(
                self,
            )@.configuration_error(),
            made is Err ==> Some(made->Err_0) == old(self)@.configuration_error() || made->Err_0
                == BoostError::OptimizerInfeasible,
            made is Ok ==> {
                &&& made->Ok_0.0.combines(final(self).last_weights(), final(self).history())
                &&& final(self)@.ready
                &&& final(self).history().len() <= final(self)@.max_iter
                &&& final(self).history().len() + 1 == made->Ok_0.1 || made->Ok_0.1
                    == usize::MAX
                &&& made->Ok_0.1 <= final(self)@.max_iter + 1
                &&& made->Ok_0.1 <= final(self)@.max_iter && final(self).history().len()
                    < made->Ok_0.1 ==> final(self)@.terminated == made->Ok_0.1 && gap_closed(
                    final(self)@.primal,
                    final(self)@.dual,
                    final(self)@.half_tolerance,
                )
            },
            final(self)@.max_iter == old(self)@.preprocessed().max_iter,
            final(self)@.n == old(self)@.n,
            final(self)@.nu == old(self)@.nu,
            final(self)@.half_tolerance == old(self)@.half_tolerance,
            final(self).sample_of() == old(self).sample_of(),
            final(self)@.inv(),
    {
        match self.preprocess(weak_learner) {
            Err(e) => {
                return Err(e);
            },
            Ok(()) => {},
        }
        let mut iteration: usize = 0;
        let mut state = State::Continue;
        while state == State::Continue && iteration < usize::MAX
            invariant
                self@.ready,
                self@.inv(),
                self@.n == old(self)@.n,
                self@.nu == old(self)@.nu,
                self@.half_tolerance == old(self)@.half_tolerance,
                self@.max_iter == old(self)@.preprocessed().max_iter,
                self.sample_of() == old(self).sample_of(),
                old(self)@.configuration_error() is None,
                state == State::Continue ==> self.history().len() == iteration && iteration
                    <= self@.max_iter,
                state == State::Terminate ==> iteration >= 1 && self.history().len() + 1
                    == iteration && self.history().len() <= self@.max_iter && iteration
                    <= self@.max_iter + 1
                    && (iteration <= self@.max_iter ==> self@.terminated == iteration
                    && gap_closed(self@.primal, self@.dual, self@.half_tolerance)),
            decreases usize::MAX - iteration, if state == State::Continue { 1int } else { 0int },
        {
            iteration = iteration + 1;
            match self.boost(weak_learner, iteration) {
                Err(e) => {
                    return Err(e);
                },
                Ok(next) => {
                    state = next;
                },
            }
        }
        match self.postprocess(weak_learner) {
            Err(e) => Err(e),
            Ok(model) => Ok((model, iteration)),
        }
    }
}

impl<'a, F, O> Booster<F> for ERLPBoost<'a, F, O> where
    F: Classifier + Clone,
    O: DistributionOptimizer,
 {
    type Output = CombinedHypothesis<F>;

    /// Sets the booster up, as the method of the booster itself does: with
    /// a valid configuration the run starts afresh, and a faulty one is
    /// refused with its first fault.
    fn preprocess<W>(&mut self, weak_learner: &W) -> (done: Result<(), BoostError>) where
        W: WeakLearner<Hypothesis = F>,

        ensures
            final(self)@ == old(self)@.preprocessed(),
            done == match old(self)@.configuration_error() {
                Some(e) => Err::<(), BoostError>(e),
                None => Ok::<(), BoostError>(()),
            },
            done is Ok ==> final(self).history().len() == 0,
            done is Err ==> final(self).history() == old(self).history(),
            final(self).sample_of() == old(self).sample_of(),
            final(self)@.inv(),
    {
        ERLPBoost::preprocess(self, weak_learner)
    }

    /// Runs a round, as the method of the booster itself does, and with
    /// all that the method promises of a round.
    fn boost<W>(&mut self, weak_learner: &W, iteration: usize) -> (verdict: Result<
        State,
        BoostError,
    >) where W: WeakLearner<Hypothesis = F>
        ensures
            !old(self)@.ready ==> verdict == Err::<State, BoostError>(BoostError::NotPreprocessed)
                && final(self)@ == old(self)@,
            verdict == Err::<State, BoostError>(BoostError::NotPreprocessed) ==> !old(self)@.ready,
            old(self)@.ready && old(self)@.max_iter < iteration ==> verdict == Ok::<
                State,
                BoostError,
            >(State::Terminate) && final(self)@ == old(self)@,
            old(self)@.ready ==> exists|column: Seq<i64>, step: StepView|
                is_margin_column(column, old(self)@.n as int) && final(self)@ == old(
                    self,
                )@.after_round(iteration as int, column, step) && verdict == old(self)@.verdict(
                    iteration as int,
                    column,
                    step,
                ),
            verdict == Ok::<State, BoostError>(State::Continue) ==> final(self).history().len()
                == old(self).history().len() + 1 && final(self).history().drop_last() == old(
                self,
            ).history(),
            verdict == Ok::<State, BoostError>(State::Terminate) ==>
                final(self).history() == old(self).history(),
            verdict == Err::<State, BoostError>(BoostError::NotPreprocessed) ==>
                final(self).history() == old(self).history(),
            verdict == Err::<State, BoostError>(BoostError::OptimizerInfeasible) ==>
                final(self).history().len() == 0 && !final(self)@.ready,
            verdict is Err ==> verdict->Err_0 == BoostError::NotPreprocessed || verdict->Err_0
                == BoostError::OptimizerInfeasible,
            final(self)@.primal <= old(self)@.primal,
            verdict == Ok::<State, BoostError>(State::Terminate) && iteration <= old(self)@.max_iter
                ==> gap_closed(final(self)@.primal, final(self)@.dual, final(self)@.half_tolerance)
                && final(self)@.terminated == iteration,
            verdict == Ok::<State, BoostError>(State::Continue) ==> !gap_closed(
                final(self)@.primal,
                old(self)@.dual,
                final(self)@.half_tolerance,
            ) && final(self)@.terminated == old(self)@.terminated && iteration <= old(
                self,
            )@.max_iter && final(self)@.ready,
            final(self)@.n == old(self)@.n,
            final(self)@.nu == old(self)@.nu,
            final(self)@.half_tolerance == old(self)@.half_tolerance,
            final(self)@.log_ratio == old(self)@.log_ratio,
            final(self)@.max_iter == old(self)@.max_iter,
            final(self)@.eta == old(self)@.eta,
            final(self).sample_of() == old(self).sample_of(),
            final(self)@.inv(),
    {
        ERLPBoost::boost(self, weak_learner, iteration)
    }

    /// Builds the combined hypothesis, as the method of the booster itself
    /// does: a booster that is not set up has none; else the optimizer is
    /// asked for its weights, which are kept, and the model is built of
    /// them and the history exactly when they are a probability
    /// distribution with one weight per hypothesis.
    fn postprocess<W>(&mut self, weak_learner: &W) -> (made: Result<
        CombinedHypothesis<F>,
        BoostError,
    >) where W: WeakLearner<Hypothesis = F>
        ensures
            final(self)@ == old(self)@,
            final(self).history() == old(self).history(),
            final(self).sample_of() == old(self).sample_of(),
            final(self)@.inv(),
            !old(self)@.ready ==> made is Err && made->Err_0 == BoostError::NotPreprocessed,
            old(self)@.ready ==> (made is Ok <==> is_weighting(
                final(self).last_weights(),
                final(self).history().len(),
            )),
            old(self)@.ready && made is Err ==> made->Err_0 == BoostError::OptimizerInfeasible,
            made is Ok ==> made->Ok_0.combines(final(self).last_weights(), final(self).history()),
    {
        ERLPBoost::postprocess(self, weak_learner)
    }
}

impl<'a, F, O> Research for ERLPBoost<'a, F, O> where
    F: Classifier + Clone,
    O: DistributionOptimizer,
 {
    type Output = Result<CombinedHypothesis<F>, BoostError>;

    /// The combined hypothesis that the run would end with now.
    fn current_hypothesis(&self) -> (made: Self::Output)
        ensures
            !self@.ready ==> made is Err && made->Err_0 == BoostError::NotPreprocessed,
            self@.ready && made is Err ==> made->Err_0 == BoostError::OptimizerInfeasible,
            made is Ok ==> exists|weights: Seq<i64>|
                is_weighting(weights, self.history().len()) && made->Ok_0.combines(
                    weights,
                    self.history(),
                ),
    {
        let weights = match &self.qp_model {
            None => {
                return Err(BoostError::NotPreprocessed);
            },
            Some(model) => model.final_weights(),
        };
        match assemble(weights.as_slice(), self.history.hypotheses.as_slice()) {
            Some(model) => {
                assert(is_weighting(weights@, self.history().len()) && model.combines(
                    weights@,
                    self.history(),
                ));
                Ok(model)
            },
            None => Err(BoostError::OptimizerInfeasible),
        }
    }
}

/// Setting up depends on the configuration alone: whatever two boosters went
/// through before, with the same valid configuration they are in the same
/// state afterwards, and setting up twice is setting up once.
pub proof fn lemma_preprocess_resets(a: ERLPBoostView, b: ERLPBoostView)
    requires
        a.n == b.n,
        a.binary == b.binary,
        a.nu == b.nu,
        a.half_tolerance == b.half_tolerance,
        a.log_ratio == b.log_ratio,
        a.configuration_error() is None,
        a.inv(),
    ensures
        a.preprocessed() == b.preprocessed(),
        a.preprocessed().preprocessed() == a.preprocessed(),
        a.preprocessed().dist == uniform(a.n),
        a.preprocessed().columns.len() == 0,
        a.preprocessed().dual == NO_DUAL_BOUND,
        a.preprocessed().inv(),
{
    lemma_uniform_on_simplex(a.n);
    lemma_uniform_within_cap(a.n, a.nu);
}

/// No round ends the run before there is a dual bound: while the dual bound
/// is none, as it is after setting up, a round within the bound on the
/// rounds goes on to the optimizer, whatever the margins of its hypothesis.
pub proof fn lemma_no_end_without_dual_bound(v: ERLPBoostView, iteration: int, column: Seq<i64>)
    requires
        v.inv(),
        v.ready,
        v.dual == NO_DUAL_BOUND,
        is_margin_column(column, v.n as int),
        iteration <= v.max_iter,
    ensures
        v.proposal_verdict(iteration, column) == Ok::<State, BoostError>(State::Continue),
        !gap_closed(v.primal_after(column), v.dual, v.half_tolerance),
{
    lemma_edge_bound(v.dist, column);
    lemma_regularizer_bound(v.entropy, v.eta);
}

/// Every round keeps the distribution on the capped simplex: the sum of the
/// weights is one, none is negative, and none exceeds the cap.
pub proof fn lemma_round_keeps_simplex(
    v: ERLPBoostView,
    iteration: int,
    column: Seq<i64>,
    step: StepView,
)
    requires
        v.inv(),
        is_margin_column(column, v.n as int),
    ensures
        v.after_round(iteration, column, step).inv(),
        v.after_round(iteration, column, step).ready ==> {
            &&& on_simplex(v.after_round(iteration, column, step).dist)
            &&& capped(v.after_round(iteration, column, step).dist, weight_cap(v.nu))
        },
{
    if v.ready {
        lemma_edge_bound(v.dist, column);
        lemma_regularizer_bound(v.entropy, v.eta);
    }
}

/// The primal bound never rises from one round to the next.
pub proof fn lemma_primal_never_rises(
    v: ERLPBoostView,
    iteration: int,
    column: Seq<i64>,
    step: StepView,
)
    ensures
        v.after_round(iteration, column, step).primal <= v.primal,
{
}

/// Within the bound on the rounds, a round ends the run if and only if the
/// primal bound, lowered by the new hypothesis, exceeds the dual bound by
/// no more than half the tolerance.
pub proof fn lemma_terminates_iff_gap_closed(
    v: ERLPBoostView,
    iteration: int,
    column: Seq<i64>,
    step: StepView,
)
    requires
        v.ready,
        iteration <= v.max_iter,
    ensures
        v.verdict(iteration, column, step) == Ok::<State, BoostError>(State::Terminate)
            <==> gap_closed(
            v.after_round(iteration, column, step).primal,
            v.dual,
            v.half_tolerance,
        ),
        v.verdict(iteration, column, step) == Ok::<State, BoostError>(State::Terminate) ==> {
            &&& v.after_round(iteration, column, step).terminated == iteration
            &&& v.after_round(iteration, column, step).dual == v.dual
            &&& v.after_round(iteration, column, step).columns == v.columns
        },
{
}

/// Past the bound on the rounds the run is over and nothing changes; and
/// the bound is the least number of rounds that is at least four over half
/// the tolerance and at least eight times the logarithm over the square of
/// half the tolerance, unless that exceeds `usize::MAX`.
pub proof fn lemma_never_beyond_bound(
    v: ERLPBoostView,
    iteration: int,
    column: Seq<i64>,
    step: StepView,
    rounds: int,
)
    requires
        v.inv(),
        v.ready,
    ensures
        iteration > v.max_iter ==> v.verdict(iteration, column, step) == Ok::<State, BoostError>(
            State::Terminate,
        ) && v.after_round(iteration, column, step) == v,
        v.max_iter < usize::MAX ==> v.max_iter * v.half_tolerance >= 4 * SCALE && v.max_iter * (
        v.half_tolerance * v.half_tolerance) >= 8 * v.log_ratio->0 * SCALE,
        rounds * v.half_tolerance >= 4 * SCALE && rounds * (v.half_tolerance * v.half_tolerance)
            >= 8 * v.log_ratio->0 * SCALE && rounds <= usize::MAX ==> rounds >= v.max_iter,
{
    let h = v.half_tolerance;
    let l = v.log_ratio->0;
    assert(h * h >= 1) by (nonlinear_arith)
        requires
            h >= 1,
    ;
    assert(8 * l * SCALE >= 0) by (nonlinear_arith)
        requires
            l >= 0,
            SCALE == 1_000_000_000,
    ;
    lemma_ceil_quot_is_least(4 * SCALE, h, rounds);
    lemma_ceil_quot_is_least(8 * l * SCALE, h * h, rounds);
    let first = ceil_quot(4 * SCALE, h);
    let second = ceil_quot(8 * l * SCALE, h * h);
    if first <= second {
        assert(second * h >= first * h) by (nonlinear_arith)
            requires
                second >= first,
                h >= 1,
        ;
    } else {
        assert(first * (h * h) >= second * (h * h)) by (nonlinear_arith)
            requires
                first >= second,
                h * h >= 1,
        ;
    }
}

/// Over any number of rounds, whatever the weak learner and the optimizer
/// hand back: the distribution stays on the capped simplex, and the primal
/// bound after a later round is no higher than after an earlier one.
pub proof fn lemma_rounds_keep_simplex_and_bound(
    v: ERLPBoostView,
    columns: Seq<Seq<i64>>,
    steps: Seq<StepView>,
    j: nat,
    k: nat,
)
    requires
        v.inv(),
        j <= k <= columns.len(),
        k <= steps.len(),
        forall|i: int| 0 <= i < k ==> is_margin_column(#[trigger] columns[i], v.n as int),
    ensures
        v.after_rounds(columns, steps, k).inv(),
        v.after_rounds(columns, steps, k).primal <= v.after_rounds(columns, steps, j).primal,
        v.after_rounds(columns, steps, k).n == v.n,
        v.after_rounds(columns, steps, k).nu == v.nu,
        v.after_rounds(columns, steps, k).half_tolerance == v.half_tolerance,
        v.after_rounds(columns, steps, k).max_iter == v.max_iter,
    decreases k,
{
    if k > 0 {
        let before = v.after_rounds(columns, steps, (k - 1) as nat);
        if j < k {
            lemma_rounds_keep_simplex_and_bound(v, columns, steps, j, (k - 1) as nat);
        } else {
            lemma_rounds_keep_simplex_and_bound(v, columns, steps, (k - 1) as nat, (k - 1) as nat);
        }
        lemma_round_keeps_simplex(before, k as int, columns[k - 1], steps[k - 1]);
        lemma_primal_never_rises(before, k as int, columns[k - 1], steps[k - 1]);
    }
}

/// A run that starts with its first round never goes beyond the bound on
/// the rounds: while the rounds answer `Continue` their number is within
/// the bound, each adds one hypothesis to the history, and in each the
/// primal bound exceeded the dual bound by more than half the tolerance.
pub proof fn lemma_run_stays_within_bound(
    v: ERLPBoostView,
    columns: Seq<Seq<i64>>,
    steps: Seq<StepView>,
    k: nat,
    column: Seq<i64>,
    step: StepView,
)
    requires
        v.inv(),
        v.ready,
        k <= columns.len(),
        k <= steps.len(),
        v.all_continue(columns, steps, k),
    ensures
        k <= v.max_iter,
        v.after_rounds(columns, steps, k).ready,
        v.after_rounds(columns, steps, k).max_iter == v.max_iter,
        v.after_rounds(columns, steps, k).half_tolerance == v.half_tolerance,
        v.after_rounds(columns, steps, k).columns.len() == v.columns.len() + k,
        v.after_rounds(columns, steps, k).terminated == v.terminated,
        k >= 1 ==> !gap_closed(
            v.after_rounds(columns, steps, k).primal,
            v.after_rounds(columns, steps, (k - 1) as nat).dual,
            v.half_tolerance,
        ),
        v.after_rounds(columns, steps, k).verdict(v.max_iter + 1, column, step) == Ok::<
            State,
            BoostError,
        >(State::Terminate),
    decreases k,
{
    if k > 0 {
        lemma_run_stays_within_bound(v, columns, steps, (k - 1) as nat, column, step);
    } else {
        lemma_ceil_quot_is_least(4 * SCALE, v.half_tolerance, 0);
    }
}

} // verus!
