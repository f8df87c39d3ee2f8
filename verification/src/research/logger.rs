//! A logger that follows a booster round by round.
//!
//! The logger holds what a logged run needs: the booster, the weak learner,
//! the objective and the loss to report, the two samples, a time limit and
//! the interval at which progress is shown. It decides, after each round,
//! whether the run goes on and which lines are due. Measuring the time,
//! writing the file and printing are the caller's part.

use vstd::prelude::*;
use crate::booster::State;
use crate::sample::Sample;

verus! {

/// The interval, in rounds, at which progress is shown unless another is set.
pub const DEFAULT_ROUND: usize = 100;

/// The time limit, in milliseconds, that stands for no limit at all.
pub const DEFAULT_TIMELIMIT_MILLIS: u128 = u128::MAX;

/// Milliseconds in one second.
pub const MILLIS_PER_SEC: u128 = 1_000;

/// Seconds in one minute.
pub const SECS_PER_MIN: u128 = 60;

/// What the logger decides after a round.
#[derive(Clone, Copy, Debug, PartialEq, Eq, Structural)]
pub struct RoundLog {
    /// The time that the rounds took so far, in milliseconds.
    pub time_acc: u128,
    /// The time limit is exceeded: the run stops here, and only the line
    /// that says so is shown.
    pub timed_out: bool,
    /// The round is one at which progress is shown.
    pub progress_due: bool,
    /// The booster ended the run, and the closing line is shown.
    pub closing_due: bool,
    /// The run stops after this round.
    pub stop: bool,
}

/// The time that the rounds took after one more round: the sum, held at the
/// largest value that the counter can take.
pub open spec fn time_after(time_acc: u128, elapsed: u128) -> u128 {
    if time_acc + elapsed > u128::MAX {
        u128::MAX
    } else {
        (time_acc + elapsed) as u128
    }
}

/// What is decided after round `iter`, which took `elapsed` milliseconds and
/// which the booster answered with `flow`, when the rounds before took
/// `time_acc` milliseconds, the limit is `time_limit` and progress is shown
/// every `interval` rounds.
pub open spec fn round_log(
    time_limit: u128,
    interval: usize,
    time_acc: u128,
    elapsed: u128,
    iter: usize,
    flow: State,
) -> RoundLog {
    let total = time_after(time_acc, elapsed);
    let shown = interval != usize::MAX;
    if total > time_limit {
        RoundLog {
            time_acc: total,
            timed_out: true,
            progress_due: false,
            closing_due: false,
            stop: true,
        }
    } else {
        RoundLog {
            time_acc: total,
            timed_out: false,
            progress_due: shown && iter as int % interval as int == 0,
            closing_due: shown && flow == State::Terminate,
            stop: flow == State::Terminate,
        }
    }
}

/// Decides what follows a round. See `round_log`.
///
/// A run within its time limit asks whether the round is a multiple of the
/// interval, which has no answer for an interval of no rounds.
pub fn decide_round(
    time_limit: u128,
    interval: usize,
    time_acc: u128,
    elapsed: u128,
    iter: usize,
    flow: State,
) -> (log: RoundLog)
    requires
        interval > 0 || time_after(time_acc, elapsed) > time_limit,
    ensures
        log == round_log(time_limit, interval, time_acc, elapsed, iter, flow),
{
    let total = time_acc.saturating_add(elapsed);
    let shown = interval != usize::MAX;
    let ended = match flow {
        State::Terminate => true,
        State::Continue => false,
    };
    if total > time_limit {
        RoundLog {
            time_acc: total,
            timed_out: true,
            progress_due: false,
            closing_due: false,
            stop: true,
        }
    } else {
        RoundLog {
            time_acc: total,
            timed_out: false,
            progress_due: shown && iter % interval == 0,
            closing_due: shown && ended,
            stop: ended,
        }
    }
}

/// A logger for a run of the booster `B` with the weak learner `W`, which
/// reports the objective `F` and the loss `G` on a training and a test sample.
pub struct Logger<'a, B, W, F, G> {
    booster: B,
    weak_learner: W,
    objective_func: F,
    loss_func: G,
    train: &'a Sample,
    test: &'a Sample,
    time_limit: u128,
    round: usize,
}

impl<'a, B, W, F, G> Logger<'a, B, W, F, G> {
    /// The time limit, in milliseconds; `u128::MAX` stands for none.
    pub closed spec fn limit(self) -> u128 {
        self.time_limit
    }

    /// The interval, in rounds, at which progress is shown; `usize::MAX`
    /// stands for never.
    pub closed spec fn interval(self) -> usize {
        self.round
    }

    /// The booster, the weak learner, the objective and the loss.
    pub closed spec fn parts(self) -> (B, W, F, G) {
        (self.booster, self.weak_learner, self.objective_func, self.loss_func)
    }

    /// The training sample and the test sample.
    pub closed spec fn samples(self) -> (Sample, Sample) {
        (*self.train, *self.test)
    }

    /// Makes a logger without a time limit that shows progress every
    /// hundred rounds.
    pub fn new(
        booster: B,
        weak_learner: W,
        objective_func: F,
        loss_func: G,
        train: &'a Sample,
        test: &'a Sample,
    ) -> (logger: Self)
        ensures
            logger.limit() == DEFAULT_TIMELIMIT_MILLIS,
            logger.interval() == DEFAULT_ROUND,
            logger.parts() == (booster, weak_learner, objective_func, loss_func),
            logger.samples() == (*train, *test),
    {
        Self {
            booster,
            weak_learner,
            loss_func,
            objective_func,
            train,
            test,
            time_limit: DEFAULT_TIMELIMIT_MILLIS,
            round: DEFAULT_ROUND,
        }
    }

    /// Sets the time limit, in milliseconds.
    pub fn time_limit_as_millis(self, time_limit: u128) -> (logger: Self)
        ensures
            logger.limit() == time_limit,
            logger.interval() == self.interval(),
            logger.parts() == self.parts(),
            logger.samples() == self.samples(),
    {
        let mut logger = self;
        logger.time_limit = time_limit;
        logger
    }

    /// Sets the time limit, in seconds. Every count of seconds that fits in
    /// 64 bits fits, as milliseconds, in the limit.
    pub fn time_limit_as_secs(self, time_limit: u64) -> (logger: Self)
        ensures
            logger.limit() == time_limit * 1_000,
            logger.interval() == self.interval(),
            logger.parts() == self.parts(),
            logger.samples() == self.samples(),
    {
        let mut logger = self;
        logger.time_limit = time_limit as u128 * MILLIS_PER_SEC;
        logger
    }

    /// Sets the time limit, in minutes. Every count of minutes that fits in
    /// 64 bits fits, as milliseconds, in the limit.
    pub fn time_limit_as_mins(self, time_limit: u64) -> (logger: Self)
        ensures
            logger.limit() == time_limit * 60_000,
            logger.interval() == self.interval(),
            logger.parts() == self.parts(),
            logger.samples() == self.samples(),
    {
        let mut logger = self;
        let secs: u128 = time_limit as u128 * SECS_PER_MIN;
        logger.time_limit = secs * MILLIS_PER_SEC;
        logger
    }

    /// Sets the interval, in rounds, at which progress is shown;
    /// `usize::MAX` shows nothing.
    pub fn print_every(self, round: usize) -> (logger: Self)
        ensures
            logger.limit() == self.limit(),
            logger.interval() == round,
            logger.parts() == self.parts(),
            logger.samples() == self.samples(),
    {
        let mut logger = self;
        logger.round = round;
        logger
    }

    /// The time limit, in milliseconds.
    pub fn time_limit(&self) -> (limit: u128)
        ensures
            limit == self.limit(),
    {
        self.time_limit
    }

    /// The interval, in rounds, at which progress is shown.
    pub fn round(&self) -> (interval: usize)
        ensures
            interval == self.interval(),
    {
        self.round
    }

    /// The time limit in whole seconds, as the summary of the run shows it;
    /// `None` where there is no limit.
    pub fn limit_in_secs(&self) -> (secs: Option<u128>)
        ensures
            secs == if self.limit() == u128::MAX {
                None
            } else {
                Some(self.limit() / 1_000)
            },
    {
        if self.time_limit != u128::MAX {
            Some(self.time_limit / MILLIS_PER_SEC)
        } else {
            None
        }
    }

    /// Whether the run shows progress at all, and so begins with the header
    /// of the progress table.
    pub fn shows_progress(&self) -> (shown: bool)
        ensures
            shown == (self.interval() != usize::MAX),
    {
        self.round != usize::MAX
    }

    /// Decides what follows round `iter`, which took `elapsed` milliseconds
    /// and which the booster answered with `flow`; `time_acc` is the time
    /// that the rounds before took.
    ///
    /// A run that exceeds the time limit stops, whatever the booster said.
    /// Otherwise the run stops when the booster ended it; progress is due
    /// every `interval` rounds and the closing line when the booster ended
    /// the run, both unless the logger shows nothing. A logger with an
    /// interval of no rounds can only decide on a run that is over its limit.
    pub fn after_round(&self, time_acc: u128, elapsed: u128, iter: usize, flow: State) -> (log:
        RoundLog)
        requires
            self.interval() > 0 || time_after(time_acc, elapsed) > self.limit(),
        ensures
            log == round_log(self.limit(), self.interval(), time_acc, elapsed, iter, flow),
    {
        decide_round(self.time_limit, self.round, time_acc, elapsed, iter, flow)
    }

    /// Takes the logger apart: the booster, the weak learner, the objective
    /// and the loss.
    pub fn into_parts(self) -> (parts: (B, W, F, G))
        ensures
            parts == self.parts(),
    {
        (self.booster, self.weak_learner, self.objective_func, self.loss_func)
    }

    /// The training sample.
    pub fn train(&self) -> (sample: &'a Sample)
        ensures
            *sample == self.samples().0,
    {
        self.train
    }

    /// The test sample.
    pub fn test(&self) -> (sample: &'a Sample)
        ensures
            *sample == self.samples().1,
    {
        self.test
    }
}

/// A booster that can show the hypothesis it would end with if the run
/// stopped now.
pub trait Research {
    /// What the booster shows: in general the type it ends with.
    type Output;

    /// The combined hypothesis at the current state.
    fn current_hypothesis(&self) -> Self::Output;
}

} // verus!
