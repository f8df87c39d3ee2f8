//! The gradient boosting machine.
//!
//! The machine keeps one residual per example. Each round a hypothesis is
//! fitted to the residuals, a loss picks the coefficient that lowers it
//! most, and the predictions of the hypothesis times that coefficient come
//! off the residuals. A coefficient of zero ends the run, and so does a
//! fixed number of rounds.
//!
//! Fitting the hypothesis and picking the coefficient is the caller's part;
//! the machine takes both in and does the bookkeeping.

use vstd::prelude::*;
use vstd::arithmetic::div_mod::lemma_fundamental_div_mod;
use crate::booster::State;
use crate::common::fixed::div_floor;
use crate::common::fixed::LOG_CAP;
use crate::common::fixed::SCALE;
use crate::sample::Sample;

verus! {

/// The number of rounds after which a run is over unless another is set.
pub const DEFAULT_MAX_ITER: usize = 100;

/// The loss that the machine descends.
#[derive(Clone, Copy, Debug, PartialEq, Eq, Structural)]
pub enum GBMLoss {
    /// The mean absolute error.
    L1,
    /// The mean squared error.
    L2,
}

/// An integer held within the range of `i64`.
pub open spec fn saturated(v: int) -> int {
    if v < i64::MIN {
        i64::MIN as int
    } else if v > i64::MAX {
        i64::MAX as int
    } else {
        v
    }
}

/// Whether an integer lies within the range of `i64`.
pub open spec fn fits(v: int) -> bool {
    i64::MIN <= v <= i64::MAX
}

/// A residual after the prediction `p` times the coefficient `coef` came
/// off it: the product in units, rounded down, and the difference held
/// within the range of `i64`.
pub open spec fn descended(r: int, coef: int, p: int) -> int {
    saturated(r - (coef * p) / (SCALE as int))
}

/// The residuals after the predictions times `coef` came off them, entry by
/// entry as far as there are predictions.
pub open spec fn descended_all(residuals: Seq<i64>, coef: int, predictions: Seq<i64>) -> Seq<i64> {
    Seq::new(
        residuals.len(),
        |i: int|
            if i < predictions.len() {
                descended(residuals[i] as int, coef, predictions[i] as int) as i64
            } else {
                residuals[i]
            },
    )
}

/// The number of rounds that the tolerance asks for: the logarithm of the
/// number of examples over the square of the tolerance, rounded down and
/// held at `usize::MAX`. A tolerance of zero asks for no round where the
/// logarithm is zero too, and for as many as can be counted otherwise.
pub open spec fn max_loop_of(log_n: int, tolerance: int) -> int {
    if tolerance == 0 {
        if log_n == 0 {
            0
        } else {
            usize::MAX as int
        }
    } else if (log_n * SCALE) / (tolerance * tolerance) > usize::MAX {
        usize::MAX as int
    } else {
        (log_n * SCALE) / (tolerance * tolerance)
    }
}

/// Takes the prediction `p` times the coefficient `coef` off the residual `r`.
pub fn descend_one(r: i64, coef: i64, p: i64) -> (next: i64)
    ensures
        next == descended(r as int, coef as int, p as int),
{
    assert(-0x4000_0000_0000_0000_0000_0000_0000_0000 <= coef * p
        <= 0x4000_0000_0000_0000_0000_0000_0000_0000) by (nonlinear_arith)
        requires
            -0x8000_0000_0000_0000 <= coef <= 0x7fff_ffff_ffff_ffff,
            -0x8000_0000_0000_0000 <= p <= 0x7fff_ffff_ffff_ffff,
    ;
    let product: i128 = coef as i128 * p as i128;
    let step = div_floor(product, SCALE as i128);
    proof {
        lemma_fundamental_div_mod(product as int, SCALE as int);
        assert(-0x4000_0000_0000_0000_0000_0000_0000_0000 <= step
            <= 0x4000_0000_0000_0000_0000_0000_0000_0000) by (nonlinear_arith)
            requires
                product == SCALE * (product as int / (SCALE as int)) + product as int % (
                SCALE as int),
                step == product as int / (SCALE as int),
                0 <= product as int % (SCALE as int) < SCALE,
                SCALE == 1_000_000_000,
                -0x4000_0000_0000_0000_0000_0000_0000_0000 <= product
                    <= 0x4000_0000_0000_0000_0000_0000_0000_0000,
        ;
    }
    let next: i128 = r as i128 - step;
    if next < i64::MIN as i128 {
        i64::MIN
    } else if next > i64::MAX as i128 {
        i64::MAX
    } else {
        next as i64
    }
}

/// The hypotheses of a run, each with its coefficient.
struct Terms<F> {
    weights: Vec<i64>,
    classifiers: Vec<F>,
}

impl<F> Terms<F> {
    /// There is one coefficient per hypothesis, and none is zero.
    spec fn paired(self) -> bool {
        &&& self.weights@.len() == self.classifiers@.len()
        &&& forall|i: int| 0 <= i < self.weights@.len() ==> (#[trigger] self.weights@[i]) != 0
    }

    /// No terms.
    fn new() -> (terms: Self)
        ensures
            terms.paired(),
            terms.weights@ == Seq::<i64>::empty(),
            terms.classifiers@ == Seq::<F>::empty(),
    {
        Terms { weights: Vec::new(), classifiers: Vec::new() }
    }

    /// Appends a hypothesis and its coefficient.
    fn push(&mut self, coef: i64, h: F)
        requires
            old(self).paired(),
            coef != 0,
        ensures
            final(self).paired(),
            final(self).weights@ == old(self).weights@.push(coef),
            final(self).classifiers@ == old(self).classifiers@.push(h),
    {
        self.weights.push(coef);
        self.classifiers.push(h);
    }
}

/// A hypothesis that predicts a real number, in units.
pub trait Regressor {
    /// The prediction for example `row`.
    fn predict(&self, sample: &Sample, row: usize) -> i64
        requires
            row < sample.size(),
    ;
}

/// A weighted sum of hypotheses: what a run of the machine ends with. No
/// weight is zero.
pub struct WeightedSum<F> {
    weights: Vec<i64>,
    hypotheses: Vec<F>,
}

/// The weighted sum of the first `k` predictions, in units: each product
/// brought to units and rounded down.
pub open spec fn prefix_weighted_sum(weights: Seq<i64>, predictions: Seq<i64>, k: int) -> int
    decreases k,
{
    if k <= 0 {
        0
    } else {
        prefix_weighted_sum(weights, predictions, k - 1) + (weights[k - 1] * predictions[k - 1])
            / (SCALE as int)
    }
}

impl<F> WeightedSum<F> {
    #[verifier::type_invariant]
    spec fn well_formed(self) -> bool {
        &&& self.weights@.len() == self.hypotheses@.len()
        &&& forall|i: int| 0 <= i < self.weights@.len() ==> (#[trigger] self.weights@[i]) != 0
    }

    /// The weights, in the order of the hypotheses.
    pub closed spec fn weight_seq(self) -> Seq<i64> {
        self.weights@
    }

    /// The hypotheses.
    pub closed spec fn hypothesis_seq(self) -> Seq<F> {
        self.hypotheses@
    }

    /// The weights, in the order of the hypotheses.
    pub fn weights(&self) -> (w: &[i64])
        ensures
            w@ == self.weight_seq(),
            w@.len() == self.hypothesis_seq().len(),
            forall|i: int| 0 <= i < w@.len() ==> (#[trigger] w@[i]) != 0,
    {
        proof {
            use_type_invariant(self);
        }
        self.weights.as_slice()
    }

    /// The hypotheses, in the order of the weights.
    pub fn hypotheses(&self) -> (h: &[F])
        ensures
            h@ == self.hypothesis_seq(),
    {
        self.hypotheses.as_slice()
    }
}

/// Whether the weighted sum of the first `k` predictions lies within the
/// range of `i64` for every `k` up to `n`.
pub open spec fn sums_fit(weights: Seq<i64>, predictions: Seq<i64>, n: int) -> bool {
    forall|k: int| 0 <= k <= n ==> fits(#[trigger] prefix_weighted_sum(weights, predictions, k))
}

/// The weighted sum of the predictions, as it is computed term by term:
/// `None` if the sum of some first terms leaves the range of `i64`.
pub open spec fn checked_weighted_sum(weights: Seq<i64>, predictions: Seq<i64>) -> Option<i64> {
    if sums_fit(weights, predictions, weights.len() as int) {
        Some(prefix_weighted_sum(weights, predictions, weights.len() as int) as i64)
    } else {
        None
    }
}

/// Sums the predictions times their weights, each product brought to units
/// and rounded down; `None` if the sum, or the sum of some first terms,
/// leaves the range of `i64`.
pub fn weighted_sum(weights: &[i64], predictions: &[i64]) -> (sum: Option<i64>)
    requires
        weights@.len() == predictions@.len(),
    ensures
        sum == checked_weighted_sum(weights@, predictions@),
{
    let mut acc: i64 = 0;
    let mut k: usize = 0;
    while k < weights.len()
        invariant
            k <= weights@.len(),
            weights@.len() == predictions@.len(),
            acc == prefix_weighted_sum(weights@, predictions@, k as int),
            sums_fit(weights@, predictions@, k as int),
        decreases weights@.len() - k,
    {
        let w = weights[k];
        let p = predictions[k];
        assert(-0x4000_0000_0000_0000_0000_0000_0000_0000 <= w * p
            <= 0x4000_0000_0000_0000_0000_0000_0000_0000) by (nonlinear_arith)
            requires
                -0x8000_0000_0000_0000 <= w <= 0x7fff_ffff_ffff_ffff,
                -0x8000_0000_0000_0000 <= p <= 0x7fff_ffff_ffff_ffff,
        ;
        let product: i128 = w as i128 * p as i128;
        let term = div_floor(product, SCALE as i128);
        proof {
            lemma_fundamental_div_mod(product as int, SCALE as int);
            assert(-0x4000_0000_0000_0000_0000_0000_0000_0000 <= term
                <= 0x4000_0000_0000_0000_0000_0000_0000_0000) by (nonlinear_arith)
                requires
                    product == SCALE * (product as int / (SCALE as int)) + product as int % (
                    SCALE as int),
                    term == product as int / (SCALE as int),
                    0 <= product as int % (SCALE as int) < SCALE,
                    SCALE == 1_000_000_000,
                    -0x4000_0000_0000_0000_0000_0000_0000_0000 <= product
                        <= 0x4000_0000_0000_0000_0000_0000_0000_0000,
            ;
        }
        let next: i128 = acc as i128 + term;
        if next < i64::MIN as i128 || next > i64::MAX as i128 {
            assert(!fits(prefix_weighted_sum(weights@, predictions@, k + 1)));
            return None;
        }
        acc = next as i64;
        k = k + 1;
    }
    Some(acc)
}

impl<F: Regressor> WeightedSum<F> {
    /// Asks every hypothesis for its prediction for example `row`.
    pub fn predictions(&self, sample: &Sample, row: usize) -> (predictions: Vec<i64>)
        requires
            row < sample.size(),
        ensures
            predictions@.len() == self.weight_seq().len(),
    {
        proof {
            use_type_invariant(self);
        }
        let mut predictions: Vec<i64> = Vec::new();
        let mut j: usize = 0;
        while j < self.hypotheses.len()
            invariant
                j <= self.hypotheses@.len(),
                row < sample.size(),
                predictions@.len() == j,
            decreases self.hypotheses@.len() - j,
        {
            predictions.push(self.hypotheses[j].predict(sample, row));
            j = j + 1;
        }
        predictions
    }

    /// The weighted sum of the predictions for example `row`: every
    /// hypothesis is asked for its prediction, and the predictions are summed
    /// as `weighted_sum` does. The sum is `None` if it, or the sum of some
    /// first terms, leaves the range of `i64`; a sum without terms is zero.
    pub fn predict(&self, sample: &Sample, row: usize) -> (prediction: Option<i64>)
        requires
            row < sample.size(),
        ensures
            exists|predictions: Seq<i64>|
                predictions.len() == self.weight_seq().len() && prediction
                    == checked_weighted_sum(self.weight_seq(), predictions),
            self.weight_seq().len() == 0 ==> prediction == Some(0i64),
    {
        let predictions = self.predictions(sample, row);
        let sum = weighted_sum(self.weights.as_slice(), predictions.as_slice());
        assert(predictions@.len() == self.weight_seq().len() && sum == checked_weighted_sum(
            self.weight_seq(),
            predictions@,
        ));
        sum
    }
}

/// The state of a machine, as the contracts speak of it.
pub struct GBMView {
    /// The number of examples.
    pub n: nat,
    /// The targets of the examples.
    pub targets: Seq<i64>,
    /// The loss that the machine descends.
    pub loss: GBMLoss,
    /// The tolerance, in units.
    pub tolerance: int,
    /// The number of rounds after which the run is over in any case.
    pub max_iter: int,
    /// What is left of the targets after the rounds so far.
    pub residuals: Seq<i64>,
    /// The coefficients of the rounds so far.
    pub weights: Seq<i64>,
    /// The round at which the run ended.
    pub terminated: int,
}

impl GBMView {
    /// The state of a machine that was just made.
    pub open spec fn initial(targets: Seq<i64>) -> Self {
        GBMView {
            n: targets.len(),
            targets,
            loss: GBMLoss::L2,
            tolerance: 0,
            max_iter: DEFAULT_MAX_ITER as int,
            residuals: Seq::empty(),
            weights: Seq::empty(),
            terminated: usize::MAX as int,
        }
    }

    /// The state after setting up: the residuals are the targets, and
    /// there are no rounds yet.
    pub open spec fn preprocessed(self) -> Self {
        GBMView {
            residuals: self.targets,
            weights: Seq::empty(),
            terminated: self.max_iter,
            ..self
        }
    }

    /// What round `iteration` answers, when the loss picked `coef`.
    pub open spec fn verdict(self, iteration: int, coef: int) -> State {
        if self.max_iter < iteration || coef == 0 {
            State::Terminate
        } else {
            State::Continue
        }
    }

    /// The state after round `iteration`, in which the hypothesis predicts
    /// `predictions` and the loss picked `coef`.
    pub open spec fn after_round(self, iteration: int, predictions: Seq<i64>, coef: int) -> Self {
        if self.max_iter < iteration {
            self
        } else if coef == 0 {
            GBMView { terminated: iteration, ..self }
        } else {
            GBMView {
                residuals: descended_all(self.residuals, coef, predictions),
                weights: self.weights.push(coef as i64),
                ..self
            }
        }
    }
}

/// The gradient boosting machine over hypotheses of type `F`.
pub struct GBM<'a, F> {
    sample: &'a Sample,
    residuals: Vec<i64>,
    tolerance: i64,
    terms: Terms<F>,
    loss: GBMLoss,
    max_iter: usize,
    terminated: usize,
}

impl<'a, F> GBM<'a, F> {
    #[verifier::type_invariant]
    spec fn well_formed(self) -> bool {
        &&& self.terms.paired()
        &&& self.sample.size() >= 1
    }

    /// The state of the machine.
    pub closed spec fn view(&self) -> GBMView {
        GBMView {
            n: self.sample.size(),
            targets: self.sample.labels(),
            loss: self.loss,
            tolerance: self.tolerance as int,
            max_iter: self.max_iter as int,
            residuals: self.residuals@,
            weights: self.terms.weights@,
            terminated: self.terminated as int,
        }
    }

    /// The hypotheses of the rounds so far, in their order.
    pub closed spec fn history(&self) -> Seq<F> {
        self.terms.classifiers@
    }

    /// Makes a machine for `sample`, whose labels are the targets, in units.
    /// There is no machine for a sample without examples.
    pub fn init(sample: &'a Sample) -> (machine: Self)
        requires
            sample.size() >= 1,
        ensures
            machine@ == GBMView::initial(sample.labels()),
            machine@.n >= 1,
            machine.history().len() == 0,
    {
        GBM {
            sample,
            residuals: Vec::new(),
            tolerance: 0,
            terms: Terms::new(),
            loss: GBMLoss::L2,
            max_iter: DEFAULT_MAX_ITER,
            terminated: usize::MAX,
        }
    }

    /// The number of rounds that the tolerance asks for, given the natural
    /// logarithm of the number of examples, in units.
    pub fn max_loop(&self, log_n: i64) -> (rounds: usize)
        requires
            0 <= log_n <= LOG_CAP,
        ensures
            rounds == max_loop_of(log_n as int, self@.tolerance),
    {
        if self.tolerance == 0 {
            return if log_n == 0 {
                0
            } else {
                usize::MAX
            };
        }
        let t = self.tolerance as i128;
        assert(1 <= t * t <= 0x4000_0000_0000_0000_0000_0000_0000_0000) by (nonlinear_arith)
            requires
                -0x8000_0000_0000_0000 <= t <= 0x7fff_ffff_ffff_ffff,
                t != 0,
        ;
        assert(0 <= log_n * SCALE <= 45_000_000_000_000_000_000) by (nonlinear_arith)
            requires
                0 <= log_n <= 45_000_000_000,
                SCALE == 1_000_000_000,
        ;
        let rounds = (log_n as i128 * SCALE as i128) / (t * t);
        if rounds > usize::MAX as i128 {
            usize::MAX
        } else {
            rounds as usize
        }
    }

    /// Sets the tolerance, in units.
    pub fn tolerance(self, tolerance: i64) -> (machine: Self)
        ensures
            machine@ == (GBMView { tolerance: tolerance as int, ..self@ }),
            machine.history() == self.history(),
    {
        let mut machine = self;
        proof {
            use_type_invariant(&machine);
        }
        machine.tolerance = tolerance;
        machine
    }

    /// Sets the loss.
    pub fn loss(self, loss_type: GBMLoss) -> (machine: Self)
        ensures
            machine@ == (GBMView { loss: loss_type, ..self@ }),
            machine.history() == self.history(),
    {
        let mut machine = self;
        proof {
            use_type_invariant(&machine);
        }
        machine.loss = loss_type;
        machine
    }

    /// The loss that the machine descends.
    pub fn loss_type(&self) -> (loss: GBMLoss)
        ensures
            loss == self@.loss,
    {
        self.loss
    }

    /// The round at which the run ended; `usize::MAX` before the machine is
    /// set up, and the bound on the rounds before a round ends the run.
    pub fn terminated(&self) -> (round: usize)
        ensures
            round == self@.terminated,
    {
        self.terminated
    }

    /// The number of rounds after which the run is over in any case.
    pub fn max_iter(&self) -> (max_iter: usize)
        ensures
            max_iter == self@.max_iter,
    {
        self.max_iter
    }

    /// The number of hypotheses in the history.
    pub fn rounds(&self) -> (rounds: usize)
        ensures
            rounds == self@.weights.len(),
            rounds == self.history().len(),
    {
        proof {
            use_type_invariant(self);
        }
        self.terms.weights.len()
    }

    /// The hypotheses of the rounds so far, in their order.
    pub fn hypotheses(&self) -> (hypotheses: &[F])
        ensures
            hypotheses@ == self.history(),
    {
        self.terms.classifiers.as_slice()
    }

    /// The coefficients of the rounds so far, in their order.
    pub fn weights(&self) -> (weights: &[i64])
        ensures
            weights@ == self@.weights,
    {
        self.terms.weights.as_slice()
    }

    /// What is left of the targets after the rounds so far.
    pub fn residuals(&self) -> (residuals: &[i64])
        ensures
            residuals@ == self@.residuals,
    {
        self.residuals.as_slice()
    }

    /// Sets the machine up for a run: the residuals are the targets, one
    /// per example, and there are no rounds yet.
    pub fn preprocess(&mut self)
        ensures
            final(self)@ == old(self)@.preprocessed(),
            final(self)@.residuals.len() == final(self)@.n,
            final(self)@.n >= 1,
            final(self).history().len() == 0,
    {
        proof {
            use_type_invariant(&*self);
        }
        let target = self.sample.target();
        let mut residuals: Vec<i64> = Vec::new();
        let mut i: usize = 0;
        while i < target.len()
            invariant
                i <= target@.len(),
                residuals@.len() == i,
                forall|j: int| 0 <= j < i ==> residuals@[j] == target@[j],
            decreases target@.len() - i,
        {
            residuals.push(target[i]);
            i = i + 1;
        }
        assert(residuals@ =~= self.sample.labels());
        self.residuals = residuals;
        self.terms = Terms::new();
        self.terminated = self.max_iter;
    }
}

impl<'a, F> GBM<'a, F> where F: Regressor + Clone {
    /// Takes in the outcome of round `iteration`: the hypothesis `h` that
    /// was fitted to the residuals, its predictions on the examples, and
    /// the coefficient that the loss picked.
    ///
    /// Past the bound on the rounds nothing changes and the run is over. A
    /// coefficient of zero ends the run at this round. Otherwise the
    /// predictions times the coefficient come off the residuals, and the
    /// hypothesis joins the history with the coefficient as its weight.
    pub fn descend(&mut self, iteration: usize, h: F, predictions: &[i64], coef: i64) -> (state:
        State)
        ensures
            final(self)@ == old(self)@.after_round(iteration as int, predictions@, coef as int),
            state == old(self)@.verdict(iteration as int, coef as int),
            state == State::Continue ==> final(self).history() == old(self).history().push(h),
            state == State::Terminate ==> final(self).history() == old(self).history(),
            final(self).history().len() == final(self)@.weights.len(),
    {
        proof {
            use_type_invariant(&*self);
        }
        if self.max_iter < iteration {
            return State::Terminate;
        }
        if coef == 0 {
            self.terminated = iteration;
            return State::Terminate;
        }
        let mut next: Vec<i64> = Vec::new();
        let mut i: usize = 0;
        while i < self.residuals.len()
            invariant
                i <= self.residuals@.len(),
                next@.len() == i,
                forall|j: int|
                    0 <= j < i ==> next@[j] == descended_all(
                        self.residuals@,
                        coef as int,
                        predictions@,
                    )[j],
            decreases self.residuals@.len() - i,
        {
            let r = self.residuals[i];
            let updated = if i < predictions.len() {
                descend_one(r, coef, predictions[i])
            } else {
                r
            };
            next.push(updated);
            i = i + 1;
        }
        assert(next@ =~= descended_all(self.residuals@, coef as int, predictions@));
        self.residuals = next;
        let mut terms: Terms<F> = Terms::new();
        std::mem::swap(&mut self.terms, &mut terms);
        terms.push(coef, h);
        std::mem::swap(&mut self.terms, &mut terms);
        State::Continue
    }

    /// Builds the weighted sum of the hypotheses of the run, each with its
    /// coefficient as its weight and as a clone.
    pub fn postprocess(&mut self) -> (made: WeightedSum<F>)
        ensures
            final(self)@ == old(self)@,
            final(self).history() == old(self).history(),
            made.weight_seq() == final(self)@.weights,
            made.hypothesis_seq().len() == final(self).history().len(),
            forall|i: int|
                0 <= i < made.hypothesis_seq().len() ==> cloned(
                    final(self).history()[i],
                    #[trigger] made.hypothesis_seq()[i],
                ),
    {
        proof {
            use_type_invariant(&*self);
        }
        let mut weights: Vec<i64> = Vec::new();
        let mut hypotheses: Vec<F> = Vec::new();
        let mut i: usize = 0;
        while i < self.terms.weights.len()
            invariant
                i <= self.terms.weights@.len(),
                self.terms.paired(),
                weights@.len() == i,
                hypotheses@.len() == i,
                forall|j: int| 0 <= j < i ==> weights@[j] == self.terms.weights@[j],
                forall|j: int|
                    0 <= j < i ==> cloned(self.terms.classifiers@[j], #[trigger] hypotheses@[j]),
            decreases self.terms.weights@.len() - i,
        {
            weights.push(self.terms.weights[i]);
            hypotheses.push(self.terms.classifiers[i].clone());
            i = i + 1;
        }
        WeightedSum { weights, hypotheses }
    }
}

} // verus!
