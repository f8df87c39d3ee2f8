use miniboosts::booster::goes_on;
use miniboosts::booster::lpboost::LPBoost;
use miniboosts::booster::run_rounds;
use miniboosts::booster::Booster;
use miniboosts::booster::stopping_rule;
use miniboosts::booster::tighten;
use miniboosts::booster::BoostError;
use miniboosts::booster::State;
use miniboosts::common::fixed::SCALE;
use miniboosts::common::utils::is_capped;
use miniboosts::common::utils::is_distribution;
use miniboosts::hypothesis::Classifier;
use miniboosts::optimizer::DistributionOptimizer;
use miniboosts::optimizer::OptimizerStep;
use miniboosts::research::Research;
use miniboosts::sample::Sample;
use miniboosts::weak_learner::WeakLearner;
use std::cell::Cell;

/// A hypothesis that is right on every example with the same confidence.
#[derive(Clone, Debug, PartialEq)]
struct Steady {
    confidence: i64,
}

impl Classifier for Steady {
    fn confidence(&self, sample: &Sample, row: usize) -> i64 {
        sample.target()[row] * self.confidence
    }
}

/// A learner whose hypotheses lose confidence by `decay` each round.
struct Fading {
    confidence: Cell<i64>,
    decay: i64,
    calls: Cell<usize>,
}

impl Fading {
    fn new(confidence: i64, decay: i64) -> Self {
        Fading { confidence: Cell::new(confidence), decay, calls: Cell::new(0) }
    }
}

impl WeakLearner for Fading {
    type Hypothesis = Steady;

    fn produce(&self, sample: &Sample, dist: &[i64]) -> Steady {
        assert_eq!(dist.len(), sample.shape().0);
        assert!(is_distribution(dist));
        self.calls.set(self.calls.get() + 1);
        let confidence = self.confidence.get();
        self.confidence.set(confidence - self.decay);
        Steady { confidence }
    }
}

/// An optimizer that answers from a script: the weight moves on by one
/// example each round, as much on each example as the cap allows.
struct Scripted {
    n: usize,
    cap: i64,
    columns: usize,
}

fn heavy_on(n: usize, cap: i64, first: usize) -> Vec<i64> {
    let mut dist = vec![0i64; n];
    let mut left = SCALE;
    let mut i = first % n;
    while left > 0 {
        let w = left.min(cap);
        dist[i] = w;
        left -= w;
        i = (i + 1) % n;
    }
    dist
}

impl DistributionOptimizer for Scripted {
    fn initialize(n_sample: usize, weight_upper_bound: i64, eta: Option<i128>) -> Self {
        assert!(eta.is_none());
        Scripted { n: n_sample, cap: weight_upper_bound, columns: 0 }
    }

    fn update(&mut self, dist: &[i64], margins: &[i64]) -> OptimizerStep {
        assert_eq!(dist.len(), self.n);
        assert_eq!(margins.len(), self.n);
        self.columns += 1;
        // The value of the program is 0.2 in every round.
        OptimizerStep {
            distribution: heavy_on(self.n, self.cap, self.columns),
            objective: 200_000_000,
            entropy: 0,
        }
    }

    fn final_weights(&self) -> Vec<i64> {
        let mut w = vec![0; self.columns];
        if self.columns > 0 {
            w[0] = SCALE;
        }
        w
    }
}

/// An optimizer whose program has the value 0.27.
struct Tight {
    columns: usize,
}

impl DistributionOptimizer for Tight {
    fn initialize(_n_sample: usize, _weight_upper_bound: i64, _eta: Option<i128>) -> Self {
        Tight { columns: 0 }
    }

    fn update(&mut self, dist: &[i64], _margins: &[i64]) -> OptimizerStep {
        self.columns += 1;
        OptimizerStep { distribution: dist.to_vec(), objective: 270_000_000, entropy: 0 }
    }

    fn final_weights(&self) -> Vec<i64> {
        let mut w = vec![0; self.columns];
        if self.columns > 0 {
            w[0] = SCALE;
        }
        w
    }
}

/// An optimizer that hands back a distribution with one weight above the cap.
struct Greedy {
    n: usize,
}

impl DistributionOptimizer for Greedy {
    fn initialize(n_sample: usize, _weight_upper_bound: i64, _eta: Option<i128>) -> Self {
        Greedy { n: n_sample }
    }

    fn update(&mut self, _dist: &[i64], _margins: &[i64]) -> OptimizerStep {
        let mut distribution = vec![0i64; self.n];
        distribution[0] = 200_000_001;
        distribution[1] = 199_999_999;
        distribution[2] = 200_000_000;
        distribution[3] = 200_000_000;
        distribution[4] = 200_000_000;
        OptimizerStep { distribution, objective: 0, entropy: 0 }
    }

    fn final_weights(&self) -> Vec<i64> {
        Vec::new()
    }
}

/// An optimizer whose weights do not sum to one.
struct Careless {
    columns: usize,
    n: usize,
}

impl DistributionOptimizer for Careless {
    fn initialize(n_sample: usize, _weight_upper_bound: i64, _eta: Option<i128>) -> Self {
        Careless { columns: 0, n: n_sample }
    }

    fn update(&mut self, dist: &[i64], _margins: &[i64]) -> OptimizerStep {
        assert_eq!(dist.len(), self.n);
        self.columns += 1;
        OptimizerStep { distribution: dist.to_vec(), objective: -SCALE, entropy: 0 }
    }

    fn final_weights(&self) -> Vec<i64> {
        vec![SCALE / 2; self.columns]
    }
}

fn labels(n: usize) -> Sample {
    Sample::from_labels((0..n).map(|i| if i % 3 == 0 { -1 } else { 1 }).collect())
}

#[test]
fn stopping_rule_compares_the_gap_with_the_tolerance() {
    assert!(stopping_rule(300_000_000, 250_000_000, 50_000_000));
    assert!(!stopping_rule(300_000_000, 249_999_999, 50_000_000));
    assert!(stopping_rule(300_000_000, 400_000_000, 1));
    assert!(!stopping_rule(i64::MAX, i64::MIN, i64::MAX));
    assert!(stopping_rule(i64::MIN, i64::MAX, i64::MIN));
}

#[test]
fn tighten_takes_the_smaller_bound() {
    assert_eq!(tighten(SCALE, 300_000_000), 300_000_000);
    assert_eq!(tighten(300_000_000, SCALE), 300_000_000);
    assert_eq!(tighten(-5, -5), -5);
}

#[test]
fn a_new_booster_has_no_capping_and_tolerance_one_over_n() {
    let sample = labels(10);
    let booster: LPBoost<Steady, Scripted> = LPBoost::init(&sample);
    assert!(!booster.is_ready());
    assert_eq!(booster.terminated(), usize::MAX);
    assert_eq!(booster.rounds(), 0);
    assert_eq!(booster.primal_bound(), SCALE);
    let info = booster.info();
    assert_eq!(info.n_sample, 10);
    assert_eq!(info.n_feature, 0);
    assert_eq!(info.tolerance, 100_000_000);
    assert_eq!(info.nu, SCALE);
    assert_eq!(info.capping_percent, Some(10 * SCALE as i128));
    assert_eq!(booster.name(), "LPBoost");
    let booster = booster.nu(2_500_000_000).unwrap();
    assert_eq!(booster.info().capping_percent, Some(25 * SCALE as i128));
}

#[test]
fn constant_edge_terminates_at_round_one() {
    // Ten examples, uniform weights of a tenth, no capping, tolerance 0.05,
    // a hypothesis of edge 0.3, and a program whose value is within 0.05 of it.
    let sample = labels(10);
    let learner = Fading::new(300_000_000, 0);
    let mut booster: LPBoost<Steady, Tight> = LPBoost::init(&sample).tolerance(50_000_000);
    assert_eq!(booster.preprocess(&learner), Ok(()));
    assert!(booster.is_ready());
    assert_eq!(booster.distribution(), &[100_000_000i64; 10][..]);
    assert_eq!(booster.boost(&learner, 1), Ok(State::Terminate));
    assert_eq!(booster.primal_bound(), 300_000_000);
    assert_eq!(booster.dual_bound(), 270_000_000);
    assert_eq!(booster.terminated(), 1);
    assert_eq!(booster.rounds(), 1);
    assert_eq!(learner.calls.get(), 1);
    // The distribution of the last round is not taken over.
    assert_eq!(booster.distribution(), &[100_000_000i64; 10][..]);
    assert_eq!(booster.hypotheses(), &[Steady { confidence: 300_000_000 }][..]);
    assert_eq!(booster.weights(), &[] as &[i64]);
    let model = booster.postprocess(&learner).ok().unwrap();
    assert_eq!(booster.weights(), &[SCALE][..]);
    assert_eq!(model.weights(), &[SCALE][..]);
    assert_eq!(model.hypotheses(), &[Steady { confidence: 300_000_000 }][..]);
    let (_, rounds) = booster.run(&learner, 100).ok().unwrap();
    assert_eq!(rounds, 1);
}

#[test]
fn a_gap_above_the_tolerance_keeps_the_run_going() {
    let sample = labels(10);
    let learner = Fading::new(300_000_000, 0);
    // 0.3 - 0.2 = 0.1 is more than 0.05.
    let mut booster: LPBoost<Steady, Scripted> = LPBoost::init(&sample).tolerance(50_000_000);
    assert_eq!(booster.preprocess(&learner), Ok(()));
    assert_eq!(booster.boost(&learner, 1), Ok(State::Continue));
    assert_eq!(booster.primal_bound(), 300_000_000);
    assert_eq!(booster.dual_bound(), 200_000_000);
    assert_eq!(booster.terminated(), usize::MAX);
    // At exactly the tolerance the run ends.
    let mut booster: LPBoost<Steady, Scripted> = LPBoost::init(&sample).tolerance(100_000_000);
    assert_eq!(booster.preprocess(&learner), Ok(()));
    assert_eq!(booster.boost(&learner, 1), Ok(State::Terminate));
    let mut booster: LPBoost<Steady, Scripted> = LPBoost::init(&sample).tolerance(99_999_999);
    assert_eq!(booster.preprocess(&learner), Ok(()));
    assert_eq!(booster.boost(&learner, 1), Ok(State::Continue));
}

#[test]
fn the_primal_bound_never_rises() {
    let sample = labels(10);
    let learner = Fading::new(900_000_000, -50_000_000);
    let mut booster: LPBoost<Steady, Scripted> = LPBoost::init(&sample).tolerance(1);
    assert_eq!(booster.preprocess(&learner), Ok(()));
    let mut last = booster.primal_bound();
    for round in 1..=5 {
        // The confidences rise from round to round; the bound stays.
        assert_eq!(booster.boost(&learner, round), Ok(State::Continue));
        assert!(booster.primal_bound() <= last);
        last = booster.primal_bound();
    }
    assert_eq!(last, 900_000_000);

    let learner = Fading::new(900_000_000, 100_000_000);
    let mut booster: LPBoost<Steady, Scripted> = LPBoost::init(&sample).tolerance(1);
    assert_eq!(booster.preprocess(&learner), Ok(()));
    assert_eq!(booster.boost(&learner, 1), Ok(State::Continue));
    assert_eq!(booster.primal_bound(), 900_000_000);
    assert_eq!(booster.boost(&learner, 2), Ok(State::Continue));
    assert_eq!(booster.primal_bound(), 800_000_000);
    assert_eq!(booster.boost(&learner, 3), Ok(State::Continue));
    assert_eq!(booster.primal_bound(), 700_000_000);
}

#[test]
fn no_weight_exceeds_a_fifth_under_capping_five() {
    let sample = labels(50);
    let learner = Fading::new(900_000_000, 0);
    let mut booster: LPBoost<Steady, Scripted> =
        LPBoost::init(&sample).nu(5 * SCALE).unwrap().tolerance(1);
    assert_eq!(booster.preprocess(&learner), Ok(()));
    for round in 1..=20 {
        assert_eq!(booster.boost(&learner, round), Ok(State::Continue));
        let dist = booster.distribution();
        assert!(is_distribution(dist));
        assert!(is_capped(dist, 200_000_000));
        assert_eq!(dist.iter().copied().max(), Some(200_000_000));
    }
}

#[test]
fn a_weight_above_the_cap_is_the_optimizers_fault() {
    let sample = labels(50);
    let learner = Fading::new(900_000_000, 0);
    let mut booster: LPBoost<Steady, Greedy> = LPBoost::init(&sample).nu(5 * SCALE).unwrap();
    assert_eq!(booster.preprocess(&learner), Ok(()));
    assert_eq!(booster.boost(&learner, 1), Err(BoostError::OptimizerInfeasible));
    // The run is over: nothing goes on before the booster is set up again.
    assert!(!booster.is_ready());
    assert_eq!(booster.rounds(), 0);
    assert_eq!(booster.boost(&learner, 2), Err(BoostError::NotPreprocessed));
    assert_eq!(booster.postprocess(&learner).err(), Some(BoostError::NotPreprocessed));
    // Without capping the same distribution is fine.
    let mut booster: LPBoost<Steady, Greedy> = LPBoost::init(&sample).tolerance(1);
    assert_eq!(booster.preprocess(&learner), Ok(()));
    assert_eq!(booster.boost(&learner, 1), Ok(State::Continue));
}

#[test]
fn a_round_before_setting_up_is_refused() {
    let sample = labels(10);
    let learner = Fading::new(300_000_000, 0);
    let mut booster: LPBoost<Steady, Scripted> = LPBoost::init(&sample);
    assert_eq!(booster.boost(&learner, 1), Err(BoostError::NotPreprocessed));
    assert_eq!(learner.calls.get(), 0);
    assert_eq!(booster.postprocess(&learner).err(), Some(BoostError::NotPreprocessed));
    assert_eq!(booster.current_hypothesis().err(), Some(BoostError::NotPreprocessed));
}

#[test]
fn configuration_errors_come_before_any_round() {
    let learner = Fading::new(300_000_000, 0);
    let empty = Sample::from_labels(Vec::new());
    let mut booster: LPBoost<Steady, Scripted> = LPBoost::init(&empty);
    assert_eq!(booster.preprocess(&learner), Err(BoostError::EmptySample));
    assert_eq!(booster.run(&learner, 10).err(), Some(BoostError::EmptySample));

    let odd = Sample::from_labels(vec![1, 0, -1]);
    let mut booster: LPBoost<Steady, Scripted> = LPBoost::init(&odd);
    assert_eq!(booster.preprocess(&learner), Err(BoostError::NonBinaryLabels));

    let sample = labels(10);
    let mut booster: LPBoost<Steady, Scripted> =
        LPBoost::init(&sample).nu(10 * SCALE).unwrap();
    assert_eq!(booster.preprocess(&learner), Ok(()));

    let mut booster: LPBoost<Steady, Scripted> = LPBoost::init(&sample).tolerance(0);
    assert_eq!(booster.preprocess(&learner), Err(BoostError::ToleranceOutOfRange));
    let mut booster: LPBoost<Steady, Scripted> = LPBoost::init(&sample).tolerance(-1);
    assert_eq!(booster.preprocess(&learner), Err(BoostError::ToleranceOutOfRange));
    assert!(!booster.is_ready());
    assert_eq!(learner.calls.get(), 0);
}

#[test]
fn the_first_fault_of_the_configuration_is_reported() {
    let learner = Fading::new(300_000_000, 0);
    let odd = Sample::from_labels(vec![1, 0, -1]);
    let mut booster: LPBoost<Steady, Scripted> = LPBoost::init(&odd).tolerance(0);
    assert_eq!(booster.preprocess(&learner), Err(BoostError::NonBinaryLabels));
}

#[test]
fn setting_up_again_resets_the_run() {
    let sample = labels(10);
    let learner = Fading::new(900_000_000, 0);
    let mut booster: LPBoost<Steady, Scripted> = LPBoost::init(&sample).tolerance(1);
    assert_eq!(booster.preprocess(&learner), Ok(()));
    for round in 1..=3 {
        assert_eq!(booster.boost(&learner, round), Ok(State::Continue));
    }
    assert_eq!(booster.rounds(), 3);
    assert_ne!(booster.distribution(), &[100_000_000i64; 10][..]);
    assert_eq!(booster.preprocess(&learner), Ok(()));
    assert_eq!(booster.distribution(), &[100_000_000i64; 10][..]);
    assert_eq!(booster.rounds(), 0);
    assert_eq!(booster.primal_bound(), SCALE);
    assert_eq!(booster.dual_bound(), -SCALE);
    assert_eq!(booster.terminated(), usize::MAX);
    assert_eq!(booster.preprocess(&learner), Ok(()));
    assert_eq!(booster.distribution(), &[100_000_000i64; 10][..]);
    assert_eq!(booster.rounds(), 0);
}

#[test]
fn a_run_stops_at_its_budget() {
    let sample = labels(10);
    let learner = Fading::new(900_000_000, 0);
    let mut booster: LPBoost<Steady, Scripted> = LPBoost::init(&sample).tolerance(1);
    let (model, rounds) = booster.run(&learner, 7).ok().unwrap();
    assert_eq!(rounds, 7);
    assert_eq!(learner.calls.get(), 7);
    assert_eq!(booster.rounds(), 7);
    assert_eq!(booster.terminated(), usize::MAX);
    assert_eq!(model.weights(), &[SCALE][..]);
}

#[test]
fn a_run_stops_when_the_gap_closes() {
    let sample = labels(10);
    // The confidences fall by 0.1 each round; the value of the program is 0.2.
    let learner = Fading::new(900_000_000, 100_000_000);
    let mut booster: LPBoost<Steady, Scripted> = LPBoost::init(&sample).tolerance(250_000_000);
    let (_, rounds) = booster.run(&learner, 100).ok().unwrap();
    // 0.9, 0.8, ..., 0.5, 0.4: the sixth is the first within 0.25 of 0.2.
    assert_eq!(rounds, 6);
    assert_eq!(booster.terminated(), 6);
    assert_eq!(booster.primal_bound(), 400_000_000);
    assert_eq!(booster.dual_bound(), 200_000_000);
}

#[test]
fn a_run_without_rounds_has_no_model() {
    let sample = labels(10);
    let learner = Fading::new(900_000_000, 0);
    let mut booster: LPBoost<Steady, Scripted> = LPBoost::init(&sample);
    assert_eq!(booster.run(&learner, 0).err(), Some(BoostError::OptimizerInfeasible));
}

#[test]
fn weights_that_are_no_distribution_are_the_optimizers_fault() {
    let sample = labels(10);
    let learner = Fading::new(900_000_000, 0);
    let mut booster: LPBoost<Steady, Careless> = LPBoost::init(&sample).tolerance(1);
    assert_eq!(booster.preprocess(&learner), Ok(()));
    assert_eq!(booster.boost(&learner, 1), Ok(State::Continue));
    assert_eq!(booster.postprocess(&learner).err(), Some(BoostError::OptimizerInfeasible));
    assert_eq!(booster.current_hypothesis().err(), Some(BoostError::OptimizerInfeasible));
    assert_eq!(booster.boost(&learner, 2), Ok(State::Continue));
    // Two weights of a half are a distribution.
    assert!(booster.postprocess(&learner).is_ok());
    assert_eq!(booster.current_hypothesis().ok().unwrap().len(), 2);
}

#[test]
fn observe_takes_the_outcome_of_a_round() {
    let sample = labels(4);
    let learner = Fading::new(0, 0);
    let mut booster: LPBoost<Steady, Scripted> = LPBoost::init(&sample).tolerance(100_000_000);
    assert_eq!(booster.preprocess(&learner), Ok(()));
    let column = vec![SCALE, SCALE, -SCALE, SCALE];
    let step = OptimizerStep {
        distribution: vec![250_000_000, 250_000_000, 500_000_000, 0],
        objective: 0,
        entropy: 0,
    };
    // Edge under the uniform distribution: (3 - 1) / 4 = 0.5.
    assert_eq!(booster.observe(Steady { confidence: 1 }, &column, step), Ok(State::Continue));
    assert_eq!(booster.primal_bound(), 500_000_000);
    assert_eq!(booster.dual_bound(), 0);
    assert_eq!(booster.distribution(), &[250_000_000i64, 250_000_000, 500_000_000, 0][..]);
    let step = OptimizerStep {
        distribution: vec![SCALE, 0, 0, 0],
        objective: -50_000_000,
        entropy: 0,
    };
    // Edge under the new distribution: 0.25 + 0.25 - 0.5 = 0; gap 0.05.
    assert_eq!(booster.observe(Steady { confidence: 2 }, &column, step), Ok(State::Terminate));
    assert_eq!(booster.primal_bound(), 0);
    assert_eq!(booster.terminated(), 2);
    let wrong = OptimizerStep { distribution: vec![SCALE, 0, 0], objective: 0, entropy: 0 };
    assert_eq!(
        booster.observe(Steady { confidence: 3 }, &column, wrong),
        Err(BoostError::OptimizerInfeasible)
    );
    // The run is over, and its history is dropped.
    assert_eq!(booster.rounds(), 0);
    assert!(!booster.is_ready());
}

#[test]
fn any_booster_can_be_driven_through_a_run() {
    let sample = labels(10);
    let learner = Fading::new(900_000_000, 100_000_000);
    let mut booster: LPBoost<Steady, Scripted> = LPBoost::init(&sample).tolerance(250_000_000);
    let (model, rounds) = run_rounds(&mut booster, &learner, 100).ok().unwrap();
    assert_eq!(rounds, 6);
    assert_eq!(model.len(), 1);
    let learner = Fading::new(900_000_000, 0);
    let mut booster: LPBoost<Steady, Scripted> = LPBoost::init(&sample).tolerance(1);
    let (_, rounds) = run_rounds(&mut booster, &learner, 3).ok().unwrap();
    assert_eq!(rounds, 3);
}

#[test]
fn faults_of_the_configuration_are_told_from_faults_of_a_run() {
    assert!(BoostError::EmptySample.is_configuration_error());
    assert!(BoostError::NonBinaryLabels.is_configuration_error());
    assert!(BoostError::CappingOutOfRange.is_configuration_error());
    assert!(BoostError::ToleranceOutOfRange.is_configuration_error());
    assert!(BoostError::LogarithmOutOfRange.is_configuration_error());
    assert!(!BoostError::NotPreprocessed.is_configuration_error());
    assert!(!BoostError::OptimizerInfeasible.is_configuration_error());
}

#[test]
fn a_run_goes_on_while_the_budget_lasts_and_the_booster_continues() {
    assert!(goes_on(0, 1, State::Continue));
    assert!(goes_on(6, 7, State::Continue));
    assert!(!goes_on(7, 7, State::Continue));
    assert!(!goes_on(0, 0, State::Continue));
    assert!(!goes_on(3, 7, State::Terminate));
    assert!(!goes_on(usize::MAX, usize::MAX, State::Continue));
}

#[test]
fn a_driven_run_stops_at_the_first_error() {
    let learner = Fading::new(900_000_000, 0);
    let empty = Sample::from_labels(Vec::new());
    let mut booster: LPBoost<Steady, Scripted> = LPBoost::init(&empty);
    assert_eq!(run_rounds(&mut booster, &learner, 5).err(), Some(BoostError::EmptySample));
    assert_eq!(learner.calls.get(), 0);
    let sample = labels(50);
    let mut booster: LPBoost<Steady, Greedy> = LPBoost::init(&sample).nu(5 * SCALE).unwrap();
    assert_eq!(
        run_rounds(&mut booster, &learner, 5).err(),
        Some(BoostError::OptimizerInfeasible)
    );
    assert_eq!(learner.calls.get(), 1);
    // Without a round there are no weights to build a model of.
    let sample = labels(10);
    let mut booster: LPBoost<Steady, Scripted> = LPBoost::init(&sample);
    assert_eq!(
        run_rounds(&mut booster, &learner, 0).err(),
        Some(BoostError::OptimizerInfeasible)
    );
    assert_eq!(learner.calls.get(), 1);
}

#[test]
fn the_model_of_any_booster_is_built_of_the_weights_of_the_optimizer() {
    let sample = labels(10);
    let learner = Fading::new(900_000_000, 0);
    let mut booster: LPBoost<Steady, Careless> = LPBoost::init(&sample).tolerance(1);
    assert_eq!(
        Booster::postprocess(&mut booster, &learner).err(),
        Some(BoostError::NotPreprocessed)
    );
    assert_eq!(Booster::preprocess(&mut booster, &learner), Ok(()));
    assert_eq!(Booster::boost(&mut booster, &learner, 1), Ok(State::Continue));
    // One weight of a half is no distribution.
    assert_eq!(
        Booster::postprocess(&mut booster, &learner).err(),
        Some(BoostError::OptimizerInfeasible)
    );
    assert_eq!(booster.weights(), &[SCALE / 2][..]);
    assert_eq!(booster.rounds(), 1);
    assert!(booster.is_ready());
    assert_eq!(Booster::boost(&mut booster, &learner, 2), Ok(State::Continue));
    let model = Booster::postprocess(&mut booster, &learner).ok().unwrap();
    assert_eq!(model.weights(), &[SCALE / 2, SCALE / 2][..]);
    assert_eq!(booster.weights(), &[SCALE / 2, SCALE / 2][..]);
    assert_eq!(model.hypotheses(), booster.hypotheses());
}

#[test]
fn a_capping_parameter_outside_one_to_n_is_refused_when_it_is_set() {
    let sample = labels(10);
    let refused = |nu: i64| LPBoost::<Steady, Scripted>::init(&sample).nu(nu).err();
    assert_eq!(refused(SCALE - 1), Some(BoostError::CappingOutOfRange));
    assert_eq!(refused(10 * SCALE + 1), Some(BoostError::CappingOutOfRange));
    assert_eq!(refused(0), Some(BoostError::CappingOutOfRange));
    assert_eq!(refused(-SCALE), Some(BoostError::CappingOutOfRange));
    assert_eq!(refused(i64::MAX), Some(BoostError::CappingOutOfRange));
    assert_eq!(refused(SCALE), None);
    assert_eq!(refused(10 * SCALE), None);
    assert_eq!(refused(2_500_000_000), None);
    // The other parameters stay as they were.
    let booster = LPBoost::<Steady, Scripted>::init(&sample).tolerance(7).nu(3 * SCALE).unwrap();
    assert_eq!(booster.info().nu, 3 * SCALE);
    assert_eq!(booster.info().tolerance, 7);
    // A sample without examples has no capping parameter at all.
    let empty = Sample::from_labels(Vec::new());
    assert_eq!(
        LPBoost::<Steady, Scripted>::init(&empty).nu(SCALE).err(),
        Some(BoostError::CappingOutOfRange)
    );
}
