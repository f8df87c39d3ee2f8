use miniboosts::booster::State;
use miniboosts::research::logger::decide_round;
use miniboosts::research::logger::Logger;
use miniboosts::research::logger::RoundLog;
use miniboosts::research::logger::DEFAULT_ROUND;
use miniboosts::research::logger::DEFAULT_TIMELIMIT_MILLIS;
use miniboosts::sample::Sample;

fn logger<'a>(train: &'a Sample, test: &'a Sample) -> Logger<'a, &'static str, u8, u16, u32> {
    Logger::new("booster", 1u8, 2u16, 3u32, train, test)
}

#[test]
fn a_new_logger_has_no_limit_and_shows_every_hundredth_round() {
    let train = Sample::from_labels(vec![1, -1]);
    let test = Sample::from_labels(vec![1]);
    let logger = logger(&train, &test);
    assert_eq!(DEFAULT_ROUND, 100);
    assert_eq!(DEFAULT_TIMELIMIT_MILLIS, u128::MAX);
    assert_eq!(logger.time_limit(), u128::MAX);
    assert_eq!(logger.round(), 100);
    assert_eq!(logger.limit_in_secs(), None);
    assert!(logger.shows_progress());
    assert_eq!(logger.train().shape(), (2, 0));
    assert_eq!(logger.test().shape(), (1, 0));
    assert_eq!(logger.into_parts(), ("booster", 1, 2, 3));
}

#[test]
fn time_limits_are_held_in_milliseconds() {
    let train = Sample::from_labels(vec![1]);
    let test = Sample::from_labels(vec![1]);
    assert_eq!(logger(&train, &test).time_limit_as_millis(1_500).time_limit(), 1_500);
    assert_eq!(logger(&train, &test).time_limit_as_secs(3).time_limit(), 3_000);
    assert_eq!(logger(&train, &test).time_limit_as_mins(2).time_limit(), 120_000);
    assert_eq!(
        logger(&train, &test).time_limit_as_secs(u64::MAX).time_limit(),
        u64::MAX as u128 * 1_000
    );
    assert_eq!(
        logger(&train, &test).time_limit_as_mins(u64::MAX).time_limit(),
        u64::MAX as u128 * 60_000
    );
    assert_eq!(logger(&train, &test).time_limit_as_millis(1_999).limit_in_secs(), Some(1));
    assert_eq!(logger(&train, &test).time_limit_as_millis(0).limit_in_secs(), Some(0));
    assert_eq!(logger(&train, &test).time_limit_as_millis(u128::MAX).limit_in_secs(), None);
}

#[test]
fn builders_keep_what_they_do_not_set() {
    let train = Sample::from_labels(vec![1]);
    let test = Sample::from_labels(vec![1]);
    let logger = logger(&train, &test).print_every(7).time_limit_as_secs(5);
    assert_eq!(logger.round(), 7);
    assert_eq!(logger.time_limit(), 5_000);
    let logger = logger.print_every(usize::MAX);
    assert_eq!(logger.time_limit(), 5_000);
    assert!(!logger.shows_progress());
    assert_eq!(logger.into_parts(), ("booster", 1, 2, 3));
}

#[test]
fn progress_is_due_every_so_many_rounds() {
    let quiet = RoundLog {
        time_acc: 30,
        timed_out: false,
        progress_due: false,
        closing_due: false,
        stop: false,
    };
    assert_eq!(decide_round(u128::MAX, 100, 20, 10, 99, State::Continue), quiet);
    assert_eq!(
        decide_round(u128::MAX, 100, 20, 10, 100, State::Continue),
        RoundLog { progress_due: true, ..quiet }
    );
    assert_eq!(
        decide_round(u128::MAX, 100, 20, 10, 200, State::Continue),
        RoundLog { progress_due: true, ..quiet }
    );
    assert_eq!(
        decide_round(u128::MAX, 1, 20, 10, 3, State::Continue),
        RoundLog { progress_due: true, ..quiet }
    );
    assert_eq!(decide_round(u128::MAX, usize::MAX, 20, 10, 100, State::Continue), quiet);
    assert_eq!(decide_round(u128::MAX, usize::MAX, 20, 10, usize::MAX, State::Continue), quiet);
}

#[test]
fn the_closing_line_is_due_when_the_booster_ends_the_run() {
    assert_eq!(
        decide_round(1_000, 100, 20, 10, 7, State::Terminate),
        RoundLog {
            time_acc: 30,
            timed_out: false,
            progress_due: false,
            closing_due: true,
            stop: true,
        }
    );
    assert_eq!(
        decide_round(1_000, 7, 20, 10, 7, State::Terminate),
        RoundLog {
            time_acc: 30,
            timed_out: false,
            progress_due: true,
            closing_due: true,
            stop: true,
        }
    );
    // A logger that shows nothing stops without a line.
    assert_eq!(
        decide_round(1_000, usize::MAX, 20, 10, 7, State::Terminate),
        RoundLog {
            time_acc: 30,
            timed_out: false,
            progress_due: false,
            closing_due: false,
            stop: true,
        }
    );
}

#[test]
fn a_run_over_the_time_limit_stops() {
    let over = RoundLog {
        time_acc: 1_001,
        timed_out: true,
        progress_due: false,
        closing_due: false,
        stop: true,
    };
    assert_eq!(decide_round(1_000, 100, 1_000, 1, 100, State::Continue), over);
    assert_eq!(decide_round(1_000, 100, 1_000, 1, 100, State::Terminate), over);
    // At the limit the run goes on.
    assert!(!decide_round(1_000, 100, 999, 1, 5, State::Continue).stop);
    assert!(!decide_round(1_000, 100, 999, 1, 5, State::Continue).timed_out);
}

#[test]
fn the_time_is_held_at_the_largest_value() {
    let log = decide_round(u128::MAX, 100, u128::MAX - 1, 5, 3, State::Continue);
    assert_eq!(log.time_acc, u128::MAX);
    assert!(!log.timed_out);
    let log = decide_round(u128::MAX - 1, 100, u128::MAX - 1, 5, 3, State::Continue);
    assert_eq!(log.time_acc, u128::MAX);
    assert!(log.timed_out);
}

#[test]
fn the_logger_decides_with_its_own_limit_and_interval() {
    let train = Sample::from_labels(vec![1]);
    let test = Sample::from_labels(vec![1]);
    let logger = logger(&train, &test).print_every(10).time_limit_as_millis(50);
    assert_eq!(
        logger.after_round(0, 20, 10, State::Continue),
        decide_round(50, 10, 0, 20, 10, State::Continue)
    );
    assert!(logger.after_round(0, 20, 10, State::Continue).progress_due);
    assert!(logger.after_round(40, 20, 11, State::Continue).timed_out);
    assert!(logger.after_round(0, 20, 11, State::Terminate).closing_due);
}

#[test]
fn any_interval_can_be_set() {
    let train = Sample::from_labels(vec![1]);
    let test = Sample::from_labels(vec![1]);
    let logger = logger(&train, &test).time_limit_as_millis(9).print_every(0);
    assert_eq!(logger.round(), 0);
    assert_eq!(logger.time_limit(), 9);
    assert!(logger.shows_progress());
    assert_eq!(logger.print_every(1).round(), 1);
}

#[test]
fn a_run_over_its_limit_does_not_ask_for_the_interval() {
    let over = RoundLog {
        time_acc: 11,
        timed_out: true,
        progress_due: false,
        closing_due: false,
        stop: true,
    };
    assert_eq!(decide_round(10, 0, 5, 6, 3, State::Continue), over);
    let train = Sample::from_labels(vec![1]);
    let test = Sample::from_labels(vec![1]);
    let logger = logger(&train, &test).print_every(0).time_limit_as_millis(10);
    assert_eq!(logger.after_round(5, 6, 3, State::Terminate), over);
}
