use miniboosts::common::fixed::SCALE;
use miniboosts::hypothesis::assemble;
use miniboosts::hypothesis::clamp_confidence;
use miniboosts::hypothesis::label_of;
use miniboosts::hypothesis::margin_of;
use miniboosts::hypothesis::margins_of;
use miniboosts::hypothesis::Classifier;
use miniboosts::hypothesis::CombinedHypothesis;
use miniboosts::sample::Sample;

/// A hypothesis that says of every example what a table says.
#[derive(Clone, Debug, PartialEq)]
struct Table {
    name: u32,
    confidences: Vec<i64>,
}

impl Classifier for Table {
    fn confidence(&self, _sample: &Sample, row: usize) -> i64 {
        self.confidences[row]
    }
}

fn table(name: u32, confidences: &[i64]) -> Table {
    Table { name, confidences: confidences.to_vec() }
}

#[test]
fn confidences_are_read_within_one() {
    assert_eq!(clamp_confidence(0), 0);
    assert_eq!(clamp_confidence(SCALE), SCALE);
    assert_eq!(clamp_confidence(SCALE + 1), SCALE);
    assert_eq!(clamp_confidence(i64::MAX), SCALE);
    assert_eq!(clamp_confidence(-SCALE - 1), -SCALE);
    assert_eq!(clamp_confidence(i64::MIN), -SCALE);
    assert_eq!(clamp_confidence(-7), -7);
}

#[test]
fn margin_is_label_times_confidence() {
    assert_eq!(margin_of(1, 300_000_000), 300_000_000);
    assert_eq!(margin_of(-1, 300_000_000), -300_000_000);
    assert_eq!(margin_of(-1, -2 * SCALE), SCALE);
    assert_eq!(margin_of(1, i64::MIN), -SCALE);
}

#[test]
fn label_of_a_confidence_is_its_sign() {
    assert_eq!(label_of(1), 1);
    assert_eq!(label_of(0), 1);
    assert_eq!(label_of(-1), -1);
}

#[test]
fn margins_of_a_hypothesis_on_a_sample() {
    let sample = Sample::from_labels(vec![1, -1, -1, 1]);
    let h = table(0, &[SCALE, SCALE, -500_000_000, 3 * SCALE]);
    assert_eq!(margins_of(&sample, &h), vec![SCALE, -SCALE, 500_000_000, SCALE]);
}

#[test]
fn zero_weights_are_dropped_and_the_rest_keeps_its_order() {
    let weights = [0, 250_000_000, 0, 750_000_000, 0];
    let hypotheses: Vec<Table> = (0..5).map(|i| table(i, &[0])).collect();
    let model = CombinedHypothesis::from_slices(&weights, &hypotheses);
    assert_eq!(model.len(), 2);
    assert_eq!(model.weights(), &[250_000_000i64, 750_000_000][..]);
    assert_eq!(model.hypotheses(), &[table(1, &[0]), table(3, &[0])][..]);
    assert_eq!(model.weights().iter().sum::<i64>(), SCALE);
}

#[test]
fn nothing_is_dropped_where_no_weight_is_zero() {
    let weights = [400_000_000, 600_000_000];
    let hypotheses = vec![table(7, &[1]), table(8, &[2])];
    let model = CombinedHypothesis::from_slices(&weights, &hypotheses);
    assert_eq!(model.weights(), &weights[..]);
    assert_eq!(model.hypotheses(), &hypotheses[..]);
}

#[test]
fn assemble_wants_a_distribution_over_the_hypotheses() {
    let hypotheses = vec![table(0, &[0]), table(1, &[0])];
    assert!(assemble(&[SCALE, 0], &hypotheses).is_some());
    assert!(assemble(&[SCALE], &hypotheses).is_none());
    assert!(assemble(&[SCALE, 0, 0], &hypotheses).is_none());
    assert!(assemble(&[SCALE - 1, 0], &hypotheses).is_none());
    assert!(assemble(&[SCALE + 1, -1], &hypotheses).is_none());
    assert!(assemble(&[], &Vec::<Table>::new()).is_none());
}

#[test]
fn assembled_model_keeps_the_pairs_aligned() {
    let hypotheses = vec![table(0, &[0]), table(1, &[0]), table(2, &[0])];
    let model = assemble(&[100_000_000, 0, 900_000_000], &hypotheses).unwrap();
    assert_eq!(model.weights(), &[100_000_000i64, 900_000_000][..]);
    assert_eq!(model.hypotheses()[0].name, 0);
    assert_eq!(model.hypotheses()[1].name, 2);
}

#[test]
fn combined_confidence_is_the_weighted_sum() {
    let sample = Sample::from_labels(vec![1, -1]);
    let hypotheses = vec![table(0, &[SCALE, -SCALE]), table(1, &[-SCALE, -SCALE])];
    let model = CombinedHypothesis::from_slices(&[750_000_000, 250_000_000], &hypotheses);
    assert_eq!(model.votes(&sample, 0), vec![SCALE, -SCALE]);
    assert_eq!(model.confidence(&sample, 0), 500_000_000);
    assert_eq!(model.confidence(&sample, 1), -SCALE);
    assert_eq!(model.predict(&sample, 0), 1);
    assert_eq!(model.predict(&sample, 1), -1);
    assert_eq!(model.predict_all(&sample), vec![1, -1]);
}

#[test]
fn a_tie_votes_plus_one() {
    let sample = Sample::from_labels(vec![1]);
    let hypotheses = vec![table(0, &[SCALE]), table(1, &[-SCALE])];
    let model = CombinedHypothesis::from_slices(&[500_000_000, 500_000_000], &hypotheses);
    assert_eq!(model.confidence(&sample, 0), 0);
    assert_eq!(model.predict(&sample, 0), 1);
}

#[test]
fn votes_out_of_range_are_read_within_one() {
    let sample = Sample::from_labels(vec![1]);
    let hypotheses = vec![table(0, &[i64::MAX])];
    let model = CombinedHypothesis::from_slices(&[SCALE], &hypotheses);
    assert_eq!(model.confidence(&sample, 0), SCALE);
}
