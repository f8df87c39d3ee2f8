//! Hypotheses and their weighted combination.

use vstd::prelude::*;
use crate::common::fixed::SCALE;
use crate::common::utils::edge;
use crate::common::utils::edge_of_hypothesis;
use crate::common::utils::is_distribution;
use crate::common::utils::is_margin_column;
use crate::common::utils::lemma_prefix_sum_of_push;
use crate::common::utils::on_simplex;
use crate::common::utils::prefix_sum;
use crate::common::utils::total;
use crate::sample::binary_labels;
use crate::sample::Sample;

verus! {

/// A confidence brought into the range from minus one to one.
pub open spec fn clamp_unit(c: int) -> int {
    if c < -SCALE {
        -SCALE as int
    } else if c > SCALE {
        SCALE as int
    } else {
        c
    }
}

/// The margin of an example: its label times the confidence of the
/// hypothesis on it, the confidence read within minus one and one.
pub open spec fn margin(label: int, confidence: int) -> int {
    label * clamp_unit(confidence)
}

/// The label that a confidence stands for: plus one unless it is negative.
pub open spec fn sign_of(confidence: int) -> int {
    if confidence >= 0 {
        1
    } else {
        -1
    }
}

/// Brings a confidence into the range from minus one to one.
pub fn clamp_confidence(c: i64) -> (r: i64)
    ensures
        r == clamp_unit(c as int),
        -SCALE <= r <= SCALE,
{
    if c < -SCALE {
        -SCALE
    } else if c > SCALE {
        SCALE
    } else {
        c
    }
}

/// The margin of an example with a binary label.
pub fn margin_of(label: i64, confidence: i64) -> (m: i64)
    requires
        label == 1 || label == -1,
    ensures
        m == margin(label as int, confidence as int),
        -SCALE <= m <= SCALE,
{
    let c = clamp_confidence(confidence);
    if label == 1 {
        c
    } else {
        -c
    }
}

/// The label that a confidence stands for.
pub fn label_of(confidence: i64) -> (label: i64)
    ensures
        label == sign_of(confidence as int),
{
    if confidence >= 0 {
        1
    } else {
        -1
    }
}

/// A hypothesis that rates the examples of a sample.
pub trait Classifier {
    /// The confidence of the hypothesis that example `row` has label plus
    /// one, in units. The boosters read it within minus one and one.
    fn confidence(&self, sample: &Sample, row: usize) -> i64
        requires
            row < sample.size(),
    ;
}

/// Asks `h` for its confidence on every example and returns the margins.
pub fn margins_of<H: Classifier>(sample: &Sample, h: &H) -> (column: Vec<i64>)
    requires
        binary_labels(sample.labels()),
    ensures
        is_margin_column(column@, sample.size() as int),
{
    let labels = sample.target();
    let mut column: Vec<i64> = Vec::new();
    let mut row: usize = 0;
    while row < labels.len()
        invariant
            row <= labels.len(),
            labels@ == sample.labels(),
            binary_labels(sample.labels()),
            column@.len() == row,
            forall|i: int| 0 <= i < row ==> -SCALE <= #[trigger] column@[i] <= SCALE,
        decreases labels.len() - row,
    {
        let c = h.confidence(sample, row);
        column.push(margin_of(labels[row], c));
        row = row + 1;
    }
    column
}

/// The positions below `k` at which `w` is not zero, in rising order.
pub open spec fn kept_indices(w: Seq<i64>, k: int) -> Seq<int>
    decreases k,
{
    if k <= 0 {
        Seq::empty()
    } else if w[k - 1] != 0 {
        kept_indices(w, k - 1).push(k - 1)
    } else {
        kept_indices(w, k - 1)
    }
}

/// The entries of `w` at the positions `indices`.
pub open spec fn pick(w: Seq<i64>, indices: Seq<int>) -> Seq<i64> {
    Seq::new(indices.len(), |k: int| w[indices[k]])
}

/// The kept positions lie below `k`, rise strictly, and hold exactly the
/// entries of `w` that are not zero.
pub proof fn lemma_kept_indices(w: Seq<i64>, k: int)
    requires
        0 <= k <= w.len(),
    ensures
        kept_indices(w, k).len() <= k,
        forall|j: int|
            0 <= j < kept_indices(w, k).len() ==> 0 <= (#[trigger] kept_indices(w, k)[j]) < k
                && w[kept_indices(w, k)[j]] != 0,
        forall|i: int, j: int|
            0 <= i < j < kept_indices(w, k).len() ==> kept_indices(w, k)[i] < kept_indices(
                w,
                k,
            )[j],
        forall|i: int|
            0 <= i < k && w[i] != 0 ==> exists|j: int|
                0 <= j < kept_indices(w, k).len() && kept_indices(w, k)[j] == i,
    decreases k,
{
    if k > 0 {
        lemma_kept_indices(w, k - 1);
        let before = kept_indices(w, k - 1);
        let now = kept_indices(w, k);
        assert forall|i: int| 0 <= i < k && w[i] != 0 implies exists|j: int|
            0 <= j < now.len() && now[j] == i by {
            if i < k - 1 {
                let j = choose|j: int| 0 <= j < before.len() && before[j] == i;
                assert(now[j] == i);
            } else {
                assert(now[before.len() as int] == i);
            }
        }
    }
}

/// Dropping the entries that are zero leaves the sum as it was.
pub proof fn lemma_kept_total(w: Seq<i64>, k: int)
    requires
        0 <= k <= w.len(),
    ensures
        total(pick(w, kept_indices(w, k))) == prefix_sum(w, k),
    decreases k,
{
    if k > 0 {
        lemma_kept_total(w, k - 1);
        let before = pick(w, kept_indices(w, k - 1));
        let now = pick(w, kept_indices(w, k));
        if w[k - 1] != 0 {
            assert(now =~= before.push(w[k - 1]));
            lemma_prefix_sum_of_push(before, w[k - 1]);
        }
    }
}

/// Every weight is more than zero.
pub open spec fn positive(w: Seq<i64>) -> bool {
    forall|i: int| 0 <= i < w.len() ==> (#[trigger] w[i]) > 0
}

/// A weighted vote of hypotheses: the pairs of a weight and a hypothesis that
/// a booster ends with, those of weight zero left out.
///
/// The weights are positive and sum to exactly one.
pub struct CombinedHypothesis<H> {
    weights: Vec<i64>,
    hypotheses: Vec<H>,
}

impl<H> CombinedHypothesis<H> {
    #[verifier::type_invariant]
    spec fn well_formed(self) -> bool {
        &&& self.weights@.len() == self.hypotheses@.len()
        &&& positive(self.weights@)
        &&& on_simplex(self.weights@)
    }

    /// The weights, in the order of the hypotheses.
    pub closed spec fn weight_seq(self) -> Seq<i64> {
        self.weights@
    }

    /// The hypotheses.
    pub closed spec fn hypothesis_seq(self) -> Seq<H> {
        self.hypotheses@
    }

    /// The number of pairs.
    pub fn len(&self) -> (n: usize)
        ensures
            n == self.weight_seq().len(),
            n == self.hypothesis_seq().len(),
            n >= 1,
    {
        proof {
            use_type_invariant(self);
        }
        self.weights.len()
    }

    /// The weights, in the order of the hypotheses.
    pub fn weights(&self) -> (w: &[i64])
        ensures
            w@ == self.weight_seq(),
            positive(w@),
            on_simplex(w@),
    {
        proof {
            use_type_invariant(self);
        }
        self.weights.as_slice()
    }

    /// The hypotheses, in the order of the weights.
    pub fn hypotheses(&self) -> (h: &[H])
        ensures
            h@ == self.hypothesis_seq(),
    {
        self.hypotheses.as_slice()
    }
}

impl<H: Clone> CombinedHypothesis<H> {
    /// The model holds the pairs of `weights` and `hypotheses` whose weight
    /// is not zero, in their order, each hypothesis as a clone; its weights
    /// are positive and sum to one.
    pub open spec fn combines(self, weights: Seq<i64>, hypotheses: Seq<H>) -> bool {
        &&& self.weight_seq() == pick(weights, kept_indices(weights, weights.len() as int))
        &&& self.hypothesis_seq().len() == self.weight_seq().len()
        &&& forall|k: int|
            0 <= k < self.hypothesis_seq().len() ==> cloned(
                hypotheses[kept_indices(weights, weights.len() as int)[k]],
                #[trigger] self.hypothesis_seq()[k],
            )
        &&& positive(self.weight_seq())
        &&& total(self.weight_seq()) == SCALE
    }

    /// Pairs each weight with the hypothesis beside it and keeps the pairs
    /// whose weight is not zero, in their order. The weights are not scaled
    /// again: what is left out weighs nothing.
    pub fn from_slices(weights: &[i64], hypotheses: &[H]) -> (model: Self)
        requires
            on_simplex(weights@),
            weights@.len() == hypotheses@.len(),
        ensures
            model.combines(weights@, hypotheses@),
    {
        let n = weights.len();
        let mut kept_weights: Vec<i64> = Vec::new();
        let mut kept_hypotheses: Vec<H> = Vec::new();
        let mut i: usize = 0;
        while i < n
            invariant
                i <= n,
                n == weights@.len(),
                n == hypotheses@.len(),
                on_simplex(weights@),
                kept_weights@ == pick(weights@, kept_indices(weights@, i as int)),
                kept_hypotheses@.len() == kept_weights@.len(),
                positive(kept_weights@),
                forall|k: int|
                    0 <= k < kept_hypotheses@.len() ==> cloned(
                        hypotheses@[kept_indices(weights@, i as int)[k]],
                        #[trigger] kept_hypotheses@[k],
                    ),
            decreases n - i,
        {
            let w = weights[i];
            proof {
                lemma_kept_indices(weights@, i as int);
            }
            if w != 0 {
                kept_weights.push(w);
                kept_hypotheses.push(hypotheses[i].clone());
            }
            i = i + 1;
        }
        proof {
            lemma_kept_total(weights@, n as int);
        }
        CombinedHypothesis { weights: kept_weights, hypotheses: kept_hypotheses }
    }
}

/// What assembling a combined hypothesis of `weights` and `hypotheses` has
/// to find: a probability distribution with one weight per hypothesis.
pub open spec fn is_weighting(weights: Seq<i64>, count: nat) -> bool {
    on_simplex(weights) && weights.len() == count
}

/// Builds the combined hypothesis of a run from the weights that the
/// optimizer ends with and the hypotheses of the rounds, or finds that the
/// weights are no distribution over the hypotheses.
pub fn assemble<H: Clone>(weights: &[i64], hypotheses: &[H]) -> (made: Option<
    CombinedHypothesis<H>,
>)
    ensures
        made is Some == is_weighting(weights@, hypotheses@.len()),
        made is Some ==> made->0.combines(weights@, hypotheses@),
{
    if weights.len() == hypotheses.len() && is_distribution(weights) {
        Some(CombinedHypothesis::from_slices(weights, hypotheses))
    } else {
        None
    }
}

/// What a combined hypothesis that was built of valid weights holds: its
/// weights are positive and sum to one; each pair is a pair of the input,
/// the weight as it was and the hypothesis as a clone, in the order of the
/// input; and every pair of the input whose weight is not zero is there.
pub proof fn lemma_combined_weights<H: Clone>(
    model: CombinedHypothesis<H>,
    weights: Seq<i64>,
    hypotheses: Seq<H>,
)
    requires
        model.combines(weights, hypotheses),
        is_weighting(weights, hypotheses.len()),
    ensures
        positive(model.weight_seq()),
        total(model.weight_seq()) == SCALE,
        total(model.weight_seq()) == total(weights),
        model.weight_seq().len() == model.hypothesis_seq().len(),
        1 <= model.weight_seq().len() <= weights.len(),
        forall|k: int|
            0 <= k < model.weight_seq().len() ==> {
                let i = kept_indices(weights, weights.len() as int)[k];
                &&& 0 <= i < weights.len()
                &&& #[trigger] model.weight_seq()[k] == weights[i]
                &&& cloned(hypotheses[i], model.hypothesis_seq()[k])
            },
        forall|j: int, k: int|
            0 <= j < k < model.weight_seq().len() ==> kept_indices(weights, weights.len() as int)[j]
                < kept_indices(weights, weights.len() as int)[k],
        forall|i: int|
            0 <= i < weights.len() && weights[i] != 0 ==> exists|k: int|
                0 <= k < model.weight_seq().len() && kept_indices(weights, weights.len() as int)[k]
                    == i,
{
    lemma_kept_indices(weights, weights.len() as int);
    lemma_kept_total(weights, weights.len() as int);
}

/// Whether `label` is what a vote with the weights `weights` can give: the
/// sign of the weighted sum of some confidences, one per weight and each
/// between minus one and one.
pub open spec fn is_vote_of(weights: Seq<i64>, label: int) -> bool {
    exists|votes: Seq<i64>|
        is_margin_column(votes, weights.len() as int) && label == sign_of(edge(weights, votes))
}

impl<H: Classifier> CombinedHypothesis<H> {
    /// Asks every hypothesis for its confidence on example `row`; each is
    /// read within minus one and one.
    pub fn votes(&self, sample: &Sample, row: usize) -> (votes: Vec<i64>)
        requires
            row < sample.size(),
        ensures
            is_margin_column(votes@, self.weight_seq().len() as int),
    {
        proof {
            use_type_invariant(self);
        }
        let mut votes: Vec<i64> = Vec::new();
        let mut j: usize = 0;
        while j < self.hypotheses.len()
            invariant
                j <= self.hypotheses@.len(),
                row < sample.size(),
                votes@.len() == j,
                forall|i: int| 0 <= i < j ==> -SCALE <= #[trigger] votes@[i] <= SCALE,
            decreases self.hypotheses@.len() - j,
        {
            let c = self.hypotheses[j].confidence(sample, row);
            votes.push(clamp_confidence(c));
            j = j + 1;
        }
        votes
    }

    /// The label that the weighted vote gives example `row`: plus one
    /// unless the weighted sum of the confidences is negative.
    pub fn predict(&self, sample: &Sample, row: usize) -> (label: i64)
        requires
            row < sample.size(),
        ensures
            label == 1 || label == -1,
            is_vote_of(self.weight_seq(), label as int),
    {
        label_of(self.confidence(sample, row))
    }

    /// The labels that the weighted vote gives the examples of `sample`, one
    /// per example and each as `predict` gives it.
    pub fn predict_all(&self, sample: &Sample) -> (labels: Vec<i64>)
        ensures
            labels@.len() == sample.size(),
            binary_labels(labels@),
            forall|row: int|
                0 <= row < labels@.len() ==> is_vote_of(
                    self.weight_seq(),
                    #[trigger] labels@[row] as int,
                ),
    {
        let n = sample.shape().0;
        let mut labels: Vec<i64> = Vec::new();
        let mut row: usize = 0;
        while row < n
            invariant
                row <= n,
                n == sample.size(),
                labels@.len() == row,
                binary_labels(labels@),
                forall|i: int|
                    0 <= i < labels@.len() ==> is_vote_of(
                        self.weight_seq(),
                        #[trigger] labels@[i] as int,
                    ),
            decreases n - row,
        {
            labels.push(self.predict(sample, row));
            row = row + 1;
        }
        labels
    }
}

impl<H: Classifier> Classifier for CombinedHypothesis<H> {
    /// The weighted sum of the confidences of the hypotheses, each read
    /// within minus one and one.
    fn confidence(&self, sample: &Sample, row: usize) -> (c: i64)
        ensures
            -SCALE <= c <= SCALE,
            exists|votes: Seq<i64>|
                is_margin_column(votes, self.weight_seq().len() as int) && c == edge(
                    self.weight_seq(),
                    votes,
                ),
    {
        let votes = self.votes(sample, row);
        proof {
            use_type_invariant(self);
        }
        let c = edge_of_hypothesis(self.weights.as_slice(), votes.as_slice());
        assert(is_margin_column(votes@, self.weight_seq().len() as int) && c == edge(
            self.weight_seq(),
            votes@,
        ));
        c
    }
}

} // verus!
