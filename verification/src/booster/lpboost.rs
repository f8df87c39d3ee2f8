//! The plain column-generation booster.
//!
//! Each round the weak learner proposes a hypothesis for the current
//! distribution, the booster lowers its primal bound to the edge of that
//! hypothesis, and the optimizer solves the linear program over all the
//! hypotheses seen so far. The run ends once the value of the program comes
//! within the tolerance of the primal bound.

use vstd::prelude::*;
use crate::booster::Booster;
use crate::booster::BoostError;
use crate::booster::gap_closed;
use crate::booster::State;
use crate::booster::stopping_rule;
use crate::booster::tighten;
use crate::common::capping::check_nu;
use crate::common::capping::lemma_uniform_within_cap;
use crate::common::capping::upper_bound;
use crate::common::capping::valid_nu;
use crate::common::capping::weight_cap;
use crate::common::fixed::div_floor;
use crate::common::fixed::min_int;
use crate::common::fixed::SCALE;
use crate::common::utils::capped;
use crate::common::utils::edge;
use crate::common::utils::edge_of_hypothesis;
use crate::common::utils::is_capped;
use crate::common::utils::is_distribution;
use crate::common::utils::is_margin_column;
use crate::common::utils::lemma_edge_bound;
use crate::common::utils::lemma_uniform_on_simplex;
use crate::common::utils::on_simplex;
use crate::common::utils::uniform;
use crate::common::utils::uniform_distribution;
use crate::hypothesis::assemble;
use crate::hypothesis::Classifier;
use crate::hypothesis::CombinedHypothesis;
use crate::hypothesis::is_weighting;
use crate::hypothesis::margins_of;
use crate::optimizer::DistributionOptimizer;
use crate::optimizer::OptimizerStep;
use crate::optimizer::StepView;
use crate::research::Research;
use crate::sample::binary_labels;
use crate::sample::frame_shape;
use crate::sample::Sample;
use crate::weak_learner::WeakLearner;

verus! {

/// The state of a plain booster, as the contracts speak of it.
pub struct LPBoostView {
    /// The number of examples.
    pub n: nat,
    /// Whether every label of the sample is plus or minus one.
    pub binary: bool,
    /// The capping parameter, in units.
    pub nu: int,
    /// The tolerance, in units.
    pub tolerance: int,
    /// Whether the booster was set up and may run rounds.
    pub ready: bool,
    /// The distribution over the examples.
    pub dist: Seq<i64>,
    /// The primal bound: the least edge seen so far.
    pub primal: int,
    /// The dual bound: the value of the last linear program.
    pub dual: int,
    /// The number of hypotheses in the history.
    pub rounds: nat,
    /// The round at which the gap closed; `usize::MAX` before.
    pub terminated: int,
}

impl LPBoostView {
    /// The state of a booster that was just made for a sample of `n`
    /// examples: no capping, a tolerance of one over `n`.
    pub open spec fn initial(n: nat, binary: bool) -> Self {
        LPBoostView {
            n,
            binary,
            nu: SCALE as int,
            tolerance: if n == 0 {
                SCALE as int
            } else {
                (SCALE as int) / (n as int)
            },
            ready: false,
            dist: Seq::empty(),
            primal: SCALE as int,
            dual: -SCALE as int,
            rounds: 0,
            terminated: usize::MAX as int,
        }
    }

    /// What holds of every state: the capping parameter lies between one
    /// and the number of examples, wherever there is an example; and a
    /// booster that is set up has a valid configuration and a distribution
    /// on the capped simplex.
    pub open spec fn inv(self) -> bool {
        &&& self.n >= 1 ==> valid_nu(self.nu, self.n as int)
        &&& self.ready ==> {
            &&& self.configuration_error() is None
            &&& on_simplex(self.dist)
            &&& self.dist.len() == self.n
            &&& capped(self.dist, weight_cap(self.nu))
            &&& -SCALE <= self.primal <= SCALE
        }
    }

    /// The first fault of the configuration that setting up finds, if there
    /// is one. A capping parameter out of range is not among them: it is
    /// refused when it is set.
    pub open spec fn configuration_error(self) -> Option<BoostError> {
        if self.n == 0 {
            Some(BoostError::EmptySample)
        } else if !self.binary {
            Some(BoostError::NonBinaryLabels)
        } else if self.tolerance <= 0 {
            Some(BoostError::ToleranceOutOfRange)
        } else {
            None
        }
    }

    /// The state after setting up: with a valid configuration the
    /// distribution is uniform, the history empty and the bounds are reset;
    /// with a faulty one the booster is not set up.
    pub open spec fn preprocessed(self) -> Self {
        if self.configuration_error() is Some {
            LPBoostView { ready: false, ..self }
        } else {
            LPBoostView {
                ready: true,
                dist: uniform(self.n),
                primal: SCALE as int,
                dual: -SCALE as int,
                rounds: 0,
                terminated: usize::MAX as int,
                ..self
            }
        }
    }

    /// Whether `step` holds a distribution over the examples that respects
    /// the cap.
    pub open spec fn feasible(self, step: StepView) -> bool {
        &&& on_simplex(step.distribution)
        &&& step.distribution.len() == self.n
        &&& capped(step.distribution, weight_cap(self.nu))
    }

    /// What a round answers when the new hypothesis has the margins `column`
    /// and the optimizer hands back `step`.
    pub open spec fn verdict(self, column: Seq<i64>, step: StepView) -> Result<State, BoostError> {
        if !self.ready {
            Err(BoostError::NotPreprocessed)
        } else if !self.feasible(step) {
            Err(BoostError::OptimizerInfeasible)
        } else if gap_closed(
            min_int(self.primal, edge(self.dist, column)),
            step.objective,
            self.tolerance,
        ) {
            Ok(State::Terminate)
        } else {
            Ok(State::Continue)
        }
    }

    /// The state after a round in which the new hypothesis has the margins
    /// `column` and the optimizer hands back `step`.
    pub open spec fn after_round(self, column: Seq<i64>, step: StepView) -> Self {
        match self.verdict(column, step) {
            Err(BoostError::OptimizerInfeasible) => LPBoostView {
                ready: false,
                rounds: 0,
                ..self
            },
            Err(_) => self,
            Ok(State::Terminate) => LPBoostView {
                primal: min_int(self.primal, edge(self.dist, column)),
                dual: step.objective,
                rounds: self.rounds + 1,
                terminated: self.rounds as int + 1,
                ..self
            },
            Ok(State::Continue) => LPBoostView {
                primal: min_int(self.primal, edge(self.dist, column)),
                dual: step.objective,
                rounds: self.rounds + 1,
                dist: step.distribution,
                ..self
            },
        }
    }

    /// The state after `k` rounds, round `j` with the margins
    /// `columns[j - 1]` and the step `steps[j - 1]`.
    pub open spec fn after_rounds(
        self,
        columns: Seq<Seq<i64>>,
        steps: Seq<StepView>,
        k: nat,
    ) -> Self
        decreases k,
    {
        if k == 0 {
            self
        } else {
            self.after_rounds(columns, steps, (k - 1) as nat).after_round(
                columns[k - 1],
                steps[k - 1],
            )
        }
    }

    /// Whether each of the first `k` rounds answers `Continue`.
    pub open spec fn all_continue(
        self,
        columns: Seq<Seq<i64>>,
        steps: Seq<StepView>,
        k: nat,
    ) -> bool
        decreases k,
    {
        k == 0 || (self.all_continue(columns, steps, (k - 1) as nat) && self.after_rounds(
            columns,
            steps,
            (k - 1) as nat,
        ).verdict(columns[k - 1], steps[k - 1]) == Ok::<State, BoostError>(State::Continue))
    }
}

/// The parameters of a plain booster, as a summary of the run shows them.
#[derive(Clone, Copy, Debug, PartialEq, Eq, Structural)]
pub struct LPBoostInfo {
    /// The number of examples.
    pub n_sample: usize,
    /// The number of features.
    pub n_feature: usize,
    /// The tolerance, in units.
    pub tolerance: i64,
    /// The capping parameter, in units.
    pub nu: i64,
    /// The capping parameter as a percentage of the number of examples, in
    /// units and rounded down; `None` for a sample without examples.
    pub capping_percent: Option<i128>,
}

/// The capping parameter `nu` as a percentage of `n` examples, in units.
pub open spec fn capping_share(nu: int, n: int) -> Option<int> {
    if n == 0 {
        None
    } else {
        Some((nu * 100) / n)
    }
}

/// The plain column-generation booster over hypotheses of type `F`, with an
/// optimizer of type `O` for its linear programs.
pub struct LPBoost<'a, F, O> {
    sample: &'a Sample,
    dist: Vec<i64>,
    gamma_hat: i64,
    gamma_star: i64,
    tolerance: i64,
    n_sample: usize,
    nu: i64,
    lp_model: Option<O>,
    hypotheses: Vec<F>,
    weights: Vec<i64>,
    terminated: usize,
}

impl<'a, F, O> LPBoost<'a, F, O> {
    #[verifier::type_invariant]
    spec fn well_formed(self) -> bool {
        &&& self.n_sample == self.sample.size()
        &&& self@.inv()
    }

    /// The state of the booster.
    pub closed spec fn view(&self) -> LPBoostView {
        LPBoostView {
            n: self.sample.size(),
            binary: binary_labels(self.sample.labels()),
            nu: self.nu as int,
            tolerance: self.tolerance as int,
            ready: self.lp_model is Some,
            dist: self.dist@,
            primal: self.gamma_hat as int,
            dual: self.gamma_star as int,
            rounds: self.hypotheses@.len(),
            terminated: self.terminated as int,
        }
    }

    /// The hypotheses of the rounds so far, in their order.
    pub closed spec fn history(&self) -> Seq<F> {
        self.hypotheses@
    }

    /// The weights that the optimizer gave when the booster last asked.
    pub closed spec fn last_weights(&self) -> Seq<i64> {
        self.weights@
    }

    /// The sample that the booster was made for.
    pub closed spec fn sample_of(&self) -> Sample {
        *self.sample
    }
}

impl<'a, F, O> LPBoost<'a, F, O> where F: Classifier {
    /// Makes a booster for `sample`, without capping and with a tolerance of
    /// one over the number of examples.
    pub fn init(sample: &'a Sample) -> (booster: Self)
        ensures
            booster@ == LPBoostView::initial(sample.size(), binary_labels(sample.labels())),
            booster.history().len() == 0,
            booster.sample_of() == *sample,
            booster@.inv(),
    {
        let n_sample = sample.shape().0;
        let uni: i64 = if n_sample == 0 {
            SCALE
        } else {
            (SCALE as u64 / n_sample as u64) as i64
        };
        LPBoost {
            sample,
            dist: Vec::new(),
            gamma_hat: SCALE,
            gamma_star: -SCALE,
            tolerance: uni,
            n_sample,
            nu: SCALE,
            lp_model: None,
            hypotheses: Vec::new(),
            weights: Vec::new(),
            terminated: usize::MAX,
        }
    }

    /// Sets the capping parameter, in units. A parameter below one or above
    /// the number of examples is refused. The booster has to be set up again
    /// before its next round.
    pub fn nu(self, nu: i64) -> (set: Result<Self, BoostError>)
        ensures
            set is Ok <==> valid_nu(nu as int, self@.n as int),
            set is Err ==> set->Err_0 == BoostError::CappingOutOfRange,
            set is Ok ==> {
                &&& set->Ok_0@ == (LPBoostView { nu: nu as int, ready: false, ..self@ })
                &&& set->Ok_0.history() == self.history()
                &&& set->Ok_0.sample_of() == self.sample_of()
                &&& set->Ok_0@.inv()
            },
    {
        let mut booster = self;
        proof {
            use_type_invariant(&booster);
        }
        if !check_nu(nu, booster.n_sample) {
            return Err(BoostError::CappingOutOfRange);
        }
        booster.lp_model = None;
        booster.nu = nu;
        Ok(booster)
    }

    /// Sets the tolerance, in units. The booster has to be set up again
    /// before its next round.
    pub fn tolerance(self, tolerance: i64) -> (booster: Self)
        ensures
            booster@ == (LPBoostView { tolerance: tolerance as int, ready: false, ..self@ }),
            booster.history() == self.history(),
            booster.sample_of() == self.sample_of(),
            booster@.inv(),
    {
        let mut booster = self;
        proof {
            use_type_invariant(&booster);
        }
        booster.lp_model = None;
        booster.tolerance = tolerance;
        booster
    }

    /// The name of the algorithm.
    pub fn name(&self) -> (name: &'static str)
        ensures
            name@ == "LPBoost"@,
    {
        "LPBoost"
    }

    /// The parameters of the booster. The plain booster has no bound of its
    /// own on the number of rounds, so none is among them.
    pub fn info(&self) -> (info: LPBoostInfo)
        ensures
            info.n_sample == self@.n,
            info.n_sample == self.sample_of().size(),
            info.n_feature == frame_shape(self.sample_of().frame()).1,
            info.tolerance == self@.tolerance,
            info.nu == self@.nu,
            match capping_share(self@.nu, self@.n as int) {
                Some(share) => info.capping_percent == Some(share as i128),
                None => info.capping_percent is None,
            },
    {
        proof {
            use_type_invariant(self);
        }
        let shape = self.sample.shape();
        let capping_percent = if shape.0 == 0 {
            None
        } else {
            Some(div_floor(self.nu as i128 * 100, shape.0 as i128))
        };
        LPBoostInfo {
            n_sample: shape.0,
            n_feature: shape.1,
            tolerance: self.tolerance,
            nu: self.nu,
            capping_percent,
        }
    }

    /// The round at which the gap closed; `usize::MAX` before that.
    pub fn terminated(&self) -> (round: usize)
        ensures
            round == self@.terminated,
    {
        self.terminated
    }
}

impl<'a, F, O> LPBoost<'a, F, O> where F: Classifier + Clone, O: DistributionOptimizer {
    /// The distribution over the examples.
    pub fn distribution(&self) -> (dist: &[i64])
        ensures
            dist@ == self@.dist,
    {
        self.dist.as_slice()
    }

    /// The primal bound: the least edge seen so far.
    pub fn primal_bound(&self) -> (bound: i64)
        ensures
            bound == self@.primal,
    {
        self.gamma_hat
    }

    /// The dual bound: the value of the last linear program.
    pub fn dual_bound(&self) -> (bound: i64)
        ensures
            bound == self@.dual,
    {
        self.gamma_star
    }

    /// The number of hypotheses in the history.
    pub fn rounds(&self) -> (rounds: usize)
        ensures
            rounds == self@.rounds,
            rounds == self.history().len(),
    {
        self.hypotheses.len()
    }

    /// The hypotheses of the rounds so far, in their order.
    pub fn hypotheses(&self) -> (hypotheses: &[F])
        ensures
            hypotheses@ == self.history(),
    {
        self.hypotheses.as_slice()
    }

    /// The weights that the optimizer gave when the booster last asked for
    /// them, at the end of a run.
    pub fn weights(&self) -> (weights: &[i64])
        ensures
            weights@ == self.last_weights(),
    {
        self.weights.as_slice()
    }

    /// Whether the booster is set up and may run rounds.
    pub fn is_ready(&self) -> (ready: bool)
        ensures
            ready == self@.ready,
    {
        self.lp_model.is_some()
    }

    /// Sets the booster up for a run: checks the configuration, resets the
    /// distribution to the uniform one, clears the history, resets the
    /// bounds, and sets the optimizer up with the cap on a single weight.
    ///
    /// With a faulty configuration the booster is left as it was, but for
    /// being no longer set up.
    pub fn preprocess<W>(&mut self, _weak_learner: &W) -> (done: Result<(), BoostError>) where
        W: WeakLearner<Hypothesis = F>,

        ensures
            final(self)@ == old(self)@.preprocessed(),
            done == match old(self)@.configuration_error() {
                Some(e) => Err::<(), BoostError>(e),
                None => Ok::<(), BoostError>(()),
            },
            done is Ok ==> final(self).history().len() == 0,
            done is Err ==> final(self).history() == old(self).history(),
            final(self).sample_of() == old(self).sample_of(),
            final(self)@.inv(),
    {
        proof {
            use_type_invariant(&*self);
        }
        self.lp_model = None;
        let n_sample = self.n_sample;
        if n_sample == 0 {
            return Err(BoostError::EmptySample);
        }
        if !self.sample.is_valid_binary_instance() {
            return Err(BoostError::NonBinaryLabels);
        }
        if self.tolerance <= 0 {
            return Err(BoostError::ToleranceOutOfRange);
        }
        let cap = upper_bound(self.nu);
        let model = O::initialize(n_sample, cap, None);
        proof {
            lemma_uniform_within_cap(n_sample as nat, self.nu as int);
        }
        self.dist = uniform_distribution(n_sample);
        self.gamma_hat = SCALE;
        self.gamma_star = -SCALE;
        self.hypotheses = Vec::new();
        self.terminated = usize::MAX;
        self.lp_model = Some(model);
        Ok(())
    }

    /// Takes in the outcome of a round: the hypothesis `h` that the weak
    /// learner produced, its margins `column` on the examples, and what the
    /// optimizer handed back.
    ///
    /// The primal bound drops to the edge of `h` if that is lower, the dual
    /// bound becomes the value of the program, and `h` joins the history. The
    /// run ends if the bounds are within the tolerance of each other; else
    /// the distribution of the optimizer becomes the current one. A step
    /// whose distribution is not on the capped simplex ends the run with an
    /// error: the history is dropped, and the booster is no longer set up.
    pub fn observe(&mut self, h: F, column: &[i64], step: OptimizerStep) -> (verdict: Result<
        State,
        BoostError,
    >)
        requires
            is_margin_column(column@, old(self)@.n as int),
        ensures
            final(self)@ == old(self)@.after_round(column@, step@),
            verdict == old(self)@.verdict(column@, step@),
            verdict is Ok ==> final(self).history() == old(self).history().push(h),
            verdict == Err::<State, BoostError>(BoostError::NotPreprocessed) ==>
                final(self).history() == old(self).history(),
            verdict == Err::<State, BoostError>(BoostError::OptimizerInfeasible) ==>
                final(self).history().len() == 0,
            final(self).sample_of() == old(self).sample_of(),
            final(self)@.inv(),
    {
        proof {
            use_type_invariant(&*self);
        }
        if self.lp_model.is_none() {
            return Err(BoostError::NotPreprocessed);
        }
        let feasible = step.distribution.len() == self.n_sample && is_distribution(
            step.distribution.as_slice(),
        ) && is_capped(step.distribution.as_slice(), upper_bound(self.nu));
        if !feasible {
            self.lp_model = None;
            self.hypotheses = Vec::new();
            return Err(BoostError::OptimizerInfeasible);
        }
        let ghat = edge_of_hypothesis(self.dist.as_slice(), column);
        let primal = tighten(self.gamma_hat, ghat);
        let stop = stopping_rule(primal, step.objective, self.tolerance);
        self.gamma_hat = primal;
        self.gamma_star = step.objective;
        let mut history: Vec<F> = Vec::new();
        std::mem::swap(&mut self.hypotheses, &mut history);
        history.push(h);
        std::mem::swap(&mut self.hypotheses, &mut history);
        if stop {
            self.terminated = self.hypotheses.len();
            return Ok(State::Terminate);
        }
        self.dist = step.distribution;
        Ok(State::Continue)
    }

    /// Runs one round: asks the weak learner for a hypothesis under the
    /// current distribution, has the optimizer solve the linear program over
    /// all hypotheses so far, and takes the outcome in as `observe` does.
    ///
    /// Whatever the learner and the optimizer hand back, the primal bound
    /// does not rise, the distribution stays on the capped simplex, and the
    /// round answers `Terminate` exactly when the gap between the bounds is
    /// within the tolerance.
    pub fn boost<W>(&mut self, weak_learner: &W, iteration: usize) -> (verdict: Result<
        State,
        BoostError,
    >) where W: WeakLearner<Hypothesis = F>
        ensures
            !old(self)@.ready ==> verdict == Err::<State, BoostError>(BoostError::NotPreprocessed)
                && final(self)@ == old(self)@,
            verdict == Err::<State, BoostError>(BoostError::NotPreprocessed) ==> !old(self)@.ready,
            old(self)@.ready ==> exists|column: Seq<i64>, step: StepView|
                is_margin_column(column, old(self)@.n as int) && final(self)@ == old(
                    self,
                )@.after_round(column, step) && verdict == old(self)@.verdict(column, step),
            verdict is Ok ==> final(self).history().len() == old(self).history().len() + 1
                && final(self).history().drop_last() == old(self).history(),
            verdict == Err::<State, BoostError>(BoostError::NotPreprocessed) ==>
                final(self).history() == old(self).history(),
            verdict == Err::<State, BoostError>(BoostError::OptimizerInfeasible) ==>
                final(self).history().len() == 0 && !final(self)@.ready,
            verdict is Err ==> verdict->Err_0 == BoostError::NotPreprocessed || verdict->Err_0
                == BoostError::OptimizerInfeasible,
            final(self)@.primal <= old(self)@.primal,
            verdict == Ok::<State, BoostError>(State::Terminate) ==> gap_closed(
                final(self)@.primal,
                final(self)@.dual,
                final(self)@.tolerance,
            ) && final(self)@.terminated == final(self)@.rounds,
            verdict == Ok::<State, BoostError>(State::Continue) ==> !gap_closed(
                final(self)@.primal,
                final(self)@.dual,
                final(self)@.tolerance,
            ) && final(self)@.terminated == old(self)@.terminated,
            verdict is Ok ==> final(self)@.ready && final(self)@.rounds == old(self)@.rounds + 1,
            final(self)@.n == old(self)@.n,
            final(self)@.nu == old(self)@.nu,
            final(self)@.tolerance == old(self)@.tolerance,
            final(self).sample_of() == old(self).sample_of(),
            final(self)@.inv(),
    {
        proof {
            use_type_invariant(&*self);
        }
        let mut held: Option<O> = None;
        std::mem::swap(&mut self.lp_model, &mut held);
        let mut model = match held {
            None => {
                return Err(BoostError::NotPreprocessed);
            },
            Some(model) => model,
        };
        let h = weak_learner.produce(self.sample, self.dist.as_slice());
        let column = margins_of(self.sample, &h);
        let step = model.update(self.dist.as_slice(), column.as_slice());
        self.lp_model = Some(model);
        let ghost before = self@;
        let verdict = self.observe(h, column.as_slice(), step);
        proof {
            lemma_edge_bound(before.dist, column@);
        }
        verdict
    }

    /// Ends a run: asks the optimizer for its weights on the hypotheses and
    /// builds the combined hypothesis, leaving out the pairs of weight zero.
    ///
    /// Weights that are no probability distribution over the history are the
    /// optimizer's fault, and no model is built.
    pub fn postprocess<W>(&mut self, _weak_learner: &W) -> (made: Result<
        CombinedHypothesis<F>,
        BoostError,
    >) where W: WeakLearner<Hypothesis = F>
        ensures
            final(self)@ == old(self)@,
            final(self).history() == old(self).history(),
            final(self).sample_of() == old(self).sample_of(),
            final(self)@.inv(),
            !old(self)@.ready ==> made is Err && made->Err_0 == BoostError::NotPreprocessed,
            old(self)@.ready ==> (made is Ok <==> is_weighting(
                final(self).last_weights(),
                final(self).history().len(),
            )),
            old(self)@.ready && made is Err ==> made->Err_0 == BoostError::OptimizerInfeasible,
            made is Ok ==> made->Ok_0.combines(final(self).last_weights(), final(self).history()),
    {
        proof {
            use_type_invariant(&*self);
        }
        let weights = match &self.lp_model {
            None => {
                return Err(BoostError::NotPreprocessed);
            },
            Some(model) => model.final_weights(),
        };
        self.weights = weights;
        match assemble(self.weights.as_slice(), self.hypotheses.as_slice()) {
            Some(model) => Ok(model),
            None => Err(BoostError::OptimizerInfeasible),
        }
    }

    /// Runs the booster from the start: sets it up, runs rounds until one
    /// answers `Terminate` or `max_rounds` rounds are done, and builds the
    /// combined hypothesis. The number of rounds that ran comes back with it.
    ///
    /// The plain booster has no bound of its own on the number of rounds, so
    /// the caller gives one. `terminated` tells afterwards whether the gap
    /// closed within it.
    pub fn run<W>(&mut self, weak_learner: &W, max_rounds: usize) -> (made: Result<
        (CombinedHypothesis<F>, usize),
        BoostError,
    >) where W: WeakLearner<Hypothesis = F>
        ensures
            old(self)@.configuration_error() is Some ==> made is Err && Some(made->Err_0) == old(
                self,
            )@.configuration_error(),
            made is Err ==> Some(made->Err_0) == old(self)@.configuration_error() || made->Err_0
                == BoostError::OptimizerInfeasible,
            made is Ok ==> {
                &&& made->Ok_0.1 <= max_rounds
                &&& made->Ok_0.1 == final(self)@.rounds
                &&& made->Ok_0.0.combines(final(self).last_weights(), final(self).history())
                &&& final(self)@.ready
                &&& made->Ok_0.1 >= 1
                &&& {
                    ||| {
                        &&& final(self)@.terminated == made->Ok_0.1
                        &&& gap_closed(
                            final(self)@.primal,
                            final(self)@.dual,
                            final(self)@.tolerance,
                        )
                    }
                    ||| {
                        &&& final(self)@.terminated == usize::MAX
                        &&& made->Ok_0.1 == max_rounds
                        &&& !gap_closed(
                            final(self)@.primal,
                            final(self)@.dual,
                            final(self)@.tolerance,
                        )
                    }
                }
            },
            final(self)@.n == old(self)@.n,
            final(self)@.nu == old(self)@.nu,
            final(self)@.tolerance == old(self)@.tolerance,
            final(self).sample_of() == old(self).sample_of(),
            final(self)@.inv(),
    {
        match self.preprocess(weak_learner) {
            Err(e) => {
                return Err(e);
            },
            Ok(()) => {},
        }
        let mut round: usize = 0;
        let mut state = State::Continue;
        while round < max_rounds && state == State::Continue
            invariant
                round <= max_rounds,
                self@.ready,
                self@.inv(),
                self@.rounds == round,
                self@.n == old(self)@.n,
                self@.nu == old(self)@.nu,
                self@.tolerance == old(self)@.tolerance,
                self.sample_of() == old(self).sample_of(),
                old(self)@.configuration_error() is None,
                state == State::Continue ==> self@.terminated == usize::MAX && (round > 0
                    ==> !gap_closed(self@.primal, self@.dual, self@.tolerance)),
                state == State::Continue && round == 0 ==> self@.primal == SCALE && self@.dual
                    == -SCALE,
                state == State::Terminate ==> self@.terminated == round && gap_closed(
                    self@.primal,
                    self@.dual,
                    self@.tolerance,
                ),
            decreases max_rounds - round,
        {
            round = round + 1;
            match self.boost(weak_learner, round) {
                Err(e) => {
                    return Err(e);
                },
                Ok(next) => {
                    state = next;
                },
            }
        }
        match self.postprocess(weak_learner) {
            Err(e) => Err(e),
            Ok(model) => Ok((model, round)),
        }
    }
}

impl<'a, F, O> Booster<F> for LPBoost<'a, F, O> where
    F: Classifier + Clone,
    O: DistributionOptimizer,
 {
    type Output = CombinedHypothesis<F>;

    /// Sets the booster up, as the method of the booster itself does: with
    /// a valid configuration the run starts afresh, and a faulty one is
    /// refused with its first fault.
    fn preprocess<W>(&mut self, weak_learner: &W) -> (done: Result<(), BoostError>) where
        W: WeakLearner<Hypothesis = F>,

        ensures
            final(self)@ == old(self)@.preprocessed(),
            done == match old(self)@.configuration_error() {
                Some(e) => Err::<(), BoostError>(e),
                None => Ok::<(), BoostError>(()),
            },
            done is Ok ==> final(self).history().len() == 0,
            done is Err ==> final(self).history() == old(self).history(),
            final(self).sample_of() == old(self).sample_of(),
            final(self)@.inv(),
    {
        LPBoost::preprocess(self, weak_learner)
    }

    /// Runs a round, as the method of the booster itself does, and with
    /// all that the method promises of a round.
    fn boost<W>(&mut self, weak_learner: &W, iteration: usize) -> (verdict: Result<
        State,
        BoostError,
    >) where W: WeakLearner<Hypothesis = F>
        ensures
            !old(self)@.ready ==> verdict == Err::<State, BoostError>(BoostError::NotPreprocessed)
                && final(self)@ == old(self)@,
            verdict == Err::<State, BoostError>(BoostError::NotPreprocessed) ==> !old(self)@.ready,
            old(self)@.ready ==> exists|column: Seq<i64>, step: StepView|
                is_margin_column(column, old(self)@.n as int) && final(self)@ == old(
                    self,
                )@.after_round(column, step) && verdict == old(self)@.verdict(column, step),
            verdict is Ok ==> final(self).history().len() == old(self).history().len() + 1
                && final(self).history().drop_last() == old(self).history(),
            verdict == Err::<State, BoostError>(BoostError::NotPreprocessed) ==>
                final(self).history() == old(self).history(),
            verdict == Err::<State, BoostError>(BoostError::OptimizerInfeasible) ==>
                final(self).history().len() == 0 && !final(self)@.ready,
            verdict is Err ==> verdict->Err_0 == BoostError::NotPreprocessed || verdict->Err_0
                == BoostError::OptimizerInfeasible,
            final(self)@.primal <= old(self)@.primal,
            verdict == Ok::<State, BoostError>(State::Terminate) ==> gap_closed(
                final(self)@.primal,
                final(self)@.dual,
                final(self)@.tolerance,
            ) && final(self)@.terminated == final(self)@.rounds,
            verdict == Ok::<State, BoostError>(State::Continue) ==> !gap_closed(
                final(self)@.primal,
                final(self)@.dual,
                final(self)@.tolerance,
            ) && final(self)@.terminated == old(self)@.terminated,
            verdict is Ok ==> final(self)@.ready && final(self)@.rounds == old(self)@.rounds + 1,
            final(self)@.n == old(self)@.n,
            final(self)@.nu == old(self)@.nu,
            final(self)@.tolerance == old(self)@.tolerance,
            final(self).sample_of() == old(self).sample_of(),
            final(self)@.inv(),
    {
        LPBoost::boost(self, weak_learner, iteration)
    }

    /// Builds the combined hypothesis, as the method of the booster itself
    /// does: a booster that is not set up has none; else the optimizer is
    /// asked for its weights, which are kept, and the model is built of
    /// them and the history exactly when they are a probability
    /// distribution with one weight per hypothesis.
    fn postprocess<W>(&mut self, weak_learner: &W) -> (made: Result<
        CombinedHypothesis<F>,
        BoostError,
    >) where W: WeakLearner<Hypothesis = F>
        ensures
            final(self)@ == old(self)@,
            final(self).history() == old(self).history(),
            final(self).sample_of() == old(self).sample_of(),
            final(self)@.inv(),
            !old(self)@.ready ==> made is Err && made->Err_0 == BoostError::NotPreprocessed,
            old(self)@.ready ==> (made is Ok <==> is_weighting(
                final(self).last_weights(),
                final(self).history().len(),
            )),
            old(self)@.ready && made is Err ==> made->Err_0 == BoostError::OptimizerInfeasible,
            made is Ok ==> made->Ok_0.combines(final(self).last_weights(), final(self).history()),
    {
        LPBoost::postprocess(self, weak_learner)
    }
}

impl<'a, F, O> Research for LPBoost<'a, F, O> where
    F: Classifier + Clone,
    O: DistributionOptimizer,
 {
    type Output = Result<CombinedHypothesis<F>, BoostError>;

    /// The combined hypothesis that the run would end with now.
    fn current_hypothesis(&self) -> (made: Self::Output)
        ensures
            !self@.ready ==> made is Err && made->Err_0 == BoostError::NotPreprocessed,
            self@.ready && made is Err ==> made->Err_0 == BoostError::OptimizerInfeasible,
            made is Ok ==> exists|weights: Seq<i64>|
                is_weighting(weights, self.history().len()) && made->Ok_0.combines(
                    weights,
                    self.history(),
                ),
    {
        let weights = match &self.lp_model {
            None => {
                return Err(BoostError::NotPreprocessed);
            },
            Some(model) => model.final_weights(),
        };
        match assemble(weights.as_slice(), self.hypotheses.as_slice()) {
            Some(model) => {
                assert(is_weighting(weights@, self.history().len()) && model.combines(
                    weights@,
                    self.history(),
                ));
                Ok(model)
            },
            None => Err(BoostError::OptimizerInfeasible),
        }
    }
}

/// Setting up depends on the configuration alone: whatever two boosters went
/// through before, with the same valid configuration they are in the same
/// state afterwards, and setting up twice is setting up once.
pub proof fn lemma_preprocess_resets(a: LPBoostView, b: LPBoostView)
    requires
        a.n == b.n,
        a.binary == b.binary,
        a.nu == b.nu,
        a.tolerance == b.tolerance,
        a.configuration_error() is None,
        a.inv(),
    ensures
        a.preprocessed() == b.preprocessed(),
        a.preprocessed().preprocessed() == a.preprocessed(),
        a.preprocessed().dist == uniform(a.n),
        a.preprocessed().rounds == 0,
        a.preprocessed().inv(),
{
    lemma_uniform_on_simplex(a.n);
    lemma_uniform_within_cap(a.n, a.nu);
}

/// Every round keeps the distribution on the capped simplex: the sum of the
/// weights is one, none is negative, and none exceeds the cap.
pub proof fn lemma_round_keeps_simplex(v: LPBoostView, column: Seq<i64>, step: StepView)
    requires
        v.inv(),
        is_margin_column(column, v.n as int),
    ensures
        v.after_round(column, step).inv(),
        v.after_round(column, step).ready ==> {
            &&& on_simplex(v.after_round(column, step).dist)
            &&& capped(v.after_round(column, step).dist, weight_cap(v.nu))
        },
{
    if v.ready {
        lemma_edge_bound(v.dist, column);
    }
}

/// The primal bound never rises from one round to the next.
pub proof fn lemma_primal_never_rises(v: LPBoostView, column: Seq<i64>, step: StepView)
    ensures
        v.after_round(column, step).primal <= v.primal,
{
}

/// A round that the optimizer answers with a feasible step ends the run if
/// and only if, after it, the primal bound exceeds the dual bound by no more
/// than the tolerance.
pub proof fn lemma_terminates_iff_gap_closed(v: LPBoostView, column: Seq<i64>, step: StepView)
    requires
        v.ready,
        v.feasible(step),
    ensures
        v.verdict(column, step) is Ok,
        v.verdict(column, step) == Ok::<State, BoostError>(State::Terminate) <==> gap_closed(
            v.after_round(column, step).primal,
            v.after_round(column, step).dual,
            v.after_round(column, step).tolerance,
        ),
        v.verdict(column, step) == Ok::<State, BoostError>(State::Terminate) ==> v.after_round(
            column,
            step,
        ).terminated == v.rounds + 1,
        v.verdict(column, step) == Ok::<State, BoostError>(State::Continue) ==> v.after_round(
            column,
            step,
        ).terminated == v.terminated,
{
}

/// Over any number of rounds, whatever the weak learner and the optimizer
/// hand back: the distribution stays on the capped simplex, and the primal
/// bound after a later round is no higher than after an earlier one.
pub proof fn lemma_rounds_keep_simplex_and_bound(
    v: LPBoostView,
    columns: Seq<Seq<i64>>,
    steps: Seq<StepView>,
    j: nat,
    k: nat,
)
    requires
        v.inv(),
        j <= k <= columns.len(),
        k <= steps.len(),
        forall|i: int| 0 <= i < k ==> is_margin_column(#[trigger] columns[i], v.n as int),
    ensures
        v.after_rounds(columns, steps, k).inv(),
        v.after_rounds(columns, steps, k).primal <= v.after_rounds(columns, steps, j).primal,
        v.after_rounds(columns, steps, k).n == v.n,
        v.after_rounds(columns, steps, k).nu == v.nu,
        v.after_rounds(columns, steps, k).tolerance == v.tolerance,
    decreases k,
{
    if k > 0 {
        let before = v.after_rounds(columns, steps, (k - 1) as nat);
        if j < k {
            lemma_rounds_keep_simplex_and_bound(v, columns, steps, j, (k - 1) as nat);
        } else {
            lemma_rounds_keep_simplex_and_bound(v, columns, steps, (k - 1) as nat, (k - 1) as nat);
        }
        lemma_round_keeps_simplex(before, columns[k - 1], steps[k - 1]);
        lemma_primal_never_rises(before, columns[k - 1], steps[k - 1]);
    }
}

/// A run does not end before the gap is closed, and ends when it is: while
/// the rounds answer `Continue`, the gap after each of them is wider than
/// the tolerance and no round is marked as the last; and the first round
/// that answers `Terminate` is marked as the last, with the gap closed.
pub proof fn lemma_run_ends_when_gap_closes(
    v: LPBoostView,
    columns: Seq<Seq<i64>>,
    steps: Seq<StepView>,
    j: nat,
    k: nat,
)
    requires
        1 <= j <= k <= columns.len(),
        k <= steps.len(),
        v.all_continue(columns, steps, (k - 1) as nat),
        v.after_rounds(columns, steps, (k - 1) as nat).verdict(columns[k - 1], steps[k - 1])
            is Ok,
    ensures
        j < k ==> !gap_closed(
            v.after_rounds(columns, steps, j).primal,
            v.after_rounds(columns, steps, j).dual,
            v.tolerance,
        ),
        v.after_rounds(columns, steps, (k - 1) as nat).terminated == v.terminated,
        v.after_rounds(columns, steps, k).rounds == v.rounds + k,
        v.after_rounds(columns, steps, k).tolerance == v.tolerance,
        v.all_continue(columns, steps, k) <==> !gap_closed(
            v.after_rounds(columns, steps, k).primal,
            v.after_rounds(columns, steps, k).dual,
            v.tolerance,
        ),
        !v.all_continue(columns, steps, k) ==> v.after_rounds(columns, steps, k).terminated
            == v.rounds + k,
    decreases k,
{
    if k > 1 {
        let e = (k - 1) as nat;
        if j < k {
            lemma_run_ends_when_gap_closes(v, columns, steps, j, e);
        } else {
            lemma_run_ends_when_gap_closes(v, columns, steps, e, e);
        }
    }
}

} // verus!
