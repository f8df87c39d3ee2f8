use miniboosts::booster::gbm::descend_one;
use miniboosts::booster::gbm::weighted_sum;
use miniboosts::booster::gbm::GBMLoss;
use miniboosts::booster::gbm::Regressor;
use miniboosts::booster::gbm::DEFAULT_MAX_ITER;
use miniboosts::booster::gbm::GBM;
use miniboosts::booster::State;
use miniboosts::common::fixed::SCALE;
use miniboosts::sample::Sample;

/// A hypothesis that predicts the same for every example.
#[derive(Clone, Debug, PartialEq)]
struct Flat {
    value: i64,
}

impl Regressor for Flat {
    fn predict(&self, _sample: &Sample, _row: usize) -> i64 {
        self.value
    }
}

fn targets() -> Sample {
    Sample::from_labels(vec![3 * SCALE, -SCALE, 500_000_000])
}

#[test]
fn a_residual_loses_prediction_times_coefficient() {
    // 3 - 0.5 * 2 = 2
    assert_eq!(descend_one(3 * SCALE, 500_000_000, 2 * SCALE), 2 * SCALE);
    // 1 - (-0.5) * 2 = 2
    assert_eq!(descend_one(SCALE, -500_000_000, 2 * SCALE), 2 * SCALE);
    assert_eq!(descend_one(7, 0, i64::MAX), 7);
    // The product is rounded down before it comes off.
    assert_eq!(descend_one(0, 1, 1), 0);
    assert_eq!(descend_one(0, -1, 1), 1);
}

#[test]
fn a_residual_is_held_within_range() {
    assert_eq!(descend_one(i64::MAX, -SCALE, i64::MAX), i64::MAX);
    assert_eq!(descend_one(i64::MIN, SCALE, i64::MAX), i64::MIN);
    assert_eq!(descend_one(0, i64::MAX, i64::MAX), i64::MIN);
    assert_eq!(descend_one(0, i64::MIN, i64::MAX), i64::MAX);
}

#[test]
fn weighted_sums_are_checked_for_range() {
    assert_eq!(weighted_sum(&[500_000_000, 2 * SCALE], &[4 * SCALE, -SCALE]), Some(0));
    assert_eq!(weighted_sum(&[SCALE, SCALE], &[SCALE, 250_000_000]), Some(1_250_000_000));
    assert_eq!(weighted_sum(&[], &[]), Some(0));
    assert_eq!(weighted_sum(&[i64::MAX], &[i64::MAX]), None);
    assert_eq!(weighted_sum(&[SCALE, SCALE], &[i64::MAX, 1]), None);
}

#[test]
fn a_new_machine_descends_the_squared_error_for_a_hundred_rounds() {
    let sample = targets();
    let machine: GBM<Flat> = GBM::init(&sample);
    assert_eq!(DEFAULT_MAX_ITER, 100);
    assert_eq!(machine.max_iter(), 100);
    assert_eq!(machine.loss_type(), GBMLoss::L2);
    assert_eq!(machine.terminated(), usize::MAX);
    assert_eq!(machine.rounds(), 0);
    assert_eq!(machine.residuals(), &[] as &[i64]);
    assert_eq!(machine.loss(GBMLoss::L1).loss_type(), GBMLoss::L1);
}

#[test]
fn rounds_asked_for_by_the_tolerance() {
    let sample = targets();
    // ln(3) / 0.1^2 = 109.86...
    let machine: GBM<Flat> = GBM::init(&sample).tolerance(100_000_000);
    assert_eq!(machine.max_loop(1_098_612_289), 109);
    assert_eq!(machine.max_loop(0), 0);
    let machine = machine.tolerance(-100_000_000);
    assert_eq!(machine.max_loop(1_098_612_289), 109);
    let machine = machine.tolerance(0);
    assert_eq!(machine.max_loop(1_098_612_289), usize::MAX);
    assert_eq!(machine.max_loop(0), 0);
    let machine = machine.tolerance(1);
    assert_eq!(machine.max_loop(45_000_000_000), usize::MAX);
    let machine = machine.tolerance(i64::MIN);
    assert_eq!(machine.max_loop(45_000_000_000), 0);
}

#[test]
fn setting_up_takes_the_targets_as_residuals() {
    let sample = targets();
    let mut machine: GBM<Flat> = GBM::init(&sample);
    machine.preprocess();
    assert_eq!(machine.residuals(), &[3 * SCALE, -SCALE, 500_000_000][..]);
    assert_eq!(machine.terminated(), 100);
    // Setting up again starts the run afresh.
    let state = machine.descend(1, Flat { value: SCALE }, &[SCALE, SCALE, SCALE], SCALE);
    assert_eq!(state, State::Continue);
    machine.preprocess();
    assert_eq!(machine.residuals(), &[3 * SCALE, -SCALE, 500_000_000][..]);
    assert_eq!(machine.rounds(), 0);
}

#[test]
fn rounds_of_the_machine() {
    let sample = targets();
    let mut machine: GBM<Flat> = GBM::init(&sample);
    machine.preprocess();
    let state = machine.descend(1, Flat { value: SCALE }, &[SCALE, SCALE, SCALE], 500_000_000);
    assert_eq!(state, State::Continue);
    assert_eq!(machine.residuals(), &[2_500_000_000, -1_500_000_000, 0][..]);
    assert_eq!(machine.rounds(), 1);
    let state = machine.descend(2, Flat { value: 2 }, &[2 * SCALE, 0, -SCALE], -SCALE);
    assert_eq!(state, State::Continue);
    assert_eq!(machine.residuals(), &[4_500_000_000, -1_500_000_000, -SCALE][..]);
    // A coefficient of zero ends the run and changes nothing else.
    let state = machine.descend(3, Flat { value: 3 }, &[SCALE, SCALE, SCALE], 0);
    assert_eq!(state, State::Terminate);
    assert_eq!(machine.terminated(), 3);
    assert_eq!(machine.rounds(), 2);
    assert_eq!(machine.residuals(), &[4_500_000_000, -1_500_000_000, -SCALE][..]);
    assert_eq!(machine.weights(), &[500_000_000, -SCALE][..]);
    assert_eq!(machine.hypotheses(), &[Flat { value: SCALE }, Flat { value: 2 }][..]);
    let model = machine.postprocess();
    assert_eq!(model.weights(), &[500_000_000, -SCALE][..]);
    assert_eq!(model.hypotheses(), &[Flat { value: SCALE }, Flat { value: 2 }][..]);
    // 0.5 * 1 + (-1) * 0.000000002, the second product rounded down.
    assert_eq!(model.predictions(&sample, 0), vec![SCALE, 2]);
    assert_eq!(model.predict(&sample, 0), Some(500_000_000 - 2));
}

#[test]
fn the_machine_stops_past_its_bound() {
    let sample = targets();
    let mut machine: GBM<Flat> = GBM::init(&sample);
    machine.preprocess();
    let state = machine.descend(101, Flat { value: SCALE }, &[SCALE, SCALE, SCALE], SCALE);
    assert_eq!(state, State::Terminate);
    assert_eq!(machine.rounds(), 0);
    assert_eq!(machine.terminated(), 100);
    assert_eq!(machine.residuals(), &[3 * SCALE, -SCALE, 500_000_000][..]);
    let state = machine.descend(100, Flat { value: SCALE }, &[SCALE, SCALE, SCALE], SCALE);
    assert_eq!(state, State::Continue);
    assert_eq!(machine.rounds(), 1);
}

#[test]
fn predictions_go_as_far_as_they_reach() {
    let sample = targets();
    let mut machine: GBM<Flat> = GBM::init(&sample);
    machine.preprocess();
    let state = machine.descend(1, Flat { value: SCALE }, &[SCALE], SCALE);
    assert_eq!(state, State::Continue);
    assert_eq!(machine.residuals(), &[2 * SCALE, -SCALE, 500_000_000][..]);
    let state = machine.descend(2, Flat { value: SCALE }, &[SCALE, SCALE, SCALE, SCALE], SCALE);
    assert_eq!(state, State::Continue);
    assert_eq!(machine.residuals(), &[SCALE, -2 * SCALE, -500_000_000][..]);
}

#[test]
fn a_sum_that_leaves_the_range_on_its_way_is_refused() {
    // The first two terms sum to one unit more than fits, though all three
    // together would fit again.
    assert_eq!(weighted_sum(&[SCALE, SCALE, SCALE], &[i64::MAX, 1, -5]), None);
    assert_eq!(weighted_sum(&[SCALE, SCALE, SCALE], &[i64::MAX, -5, 1]), Some(i64::MAX - 4));
    assert_eq!(weighted_sum(&[SCALE], &[i64::MIN]), Some(i64::MIN));
    assert_eq!(weighted_sum(&[SCALE, SCALE], &[i64::MIN, -1]), None);
}

#[test]
fn a_machine_without_rounds_predicts_zero() {
    let sample = targets();
    let mut machine: GBM<Flat> = GBM::init(&sample);
    machine.preprocess();
    let model = machine.postprocess();
    assert_eq!(model.weights(), &[] as &[i64]);
    assert_eq!(model.predictions(&sample, 1), Vec::<i64>::new());
    assert_eq!(model.predict(&sample, 1), Some(0));
}

#[test]
fn a_prediction_out_of_range_is_refused() {
    let sample = targets();
    let mut machine: GBM<Flat> = GBM::init(&sample);
    machine.preprocess();
    let big = Flat { value: i64::MAX };
    assert_eq!(machine.descend(1, big.clone(), &[0, 0, 0], 2 * SCALE), State::Continue);
    let model = machine.postprocess();
    assert_eq!(model.predict(&sample, 0), None);
    let mut machine: GBM<Flat> = GBM::init(&sample);
    machine.preprocess();
    assert_eq!(machine.descend(1, big, &[0, 0, 0], SCALE), State::Continue);
    assert_eq!(machine.postprocess().predict(&sample, 2), Some(i64::MAX));
}
