use miniproject1::{
    AttemptOutcome, CallStatus, CallingProcess, ConfigurationError, QuantileFunction,
    RandomNumberGenerator, TerminalState, TrialResult, UnitValue, MAX_ATTEMPTS,
};

/// The same latency for every value.
#[derive(Debug, Clone, Copy, PartialEq)]
struct Constant(u64);

impl QuantileFunction for Constant {
    fn spec_quantile(&self, _u: UnitValue) -> u64 {
        self.0
    }

    fn quantile(&self, u: UnitValue) -> u64 {
        self.spec_quantile(u)
    }
}

/// Exponential latency with a mean of twelve seconds, in milliseconds.
#[derive(Debug, Clone, Copy, PartialEq)]
struct ExponentialMillis;

impl QuantileFunction for ExponentialMillis {
    fn quantile(&self, u: UnitValue) -> u64 {
        self.spec_quantile(u)
    }

    fn spec_quantile(&self, u: UnitValue) -> u64 {
        let v = u.numerator as f64 / u.denominator as f64;
        (-12.0 * (1.0 - v).ln() * 1000.0).round() as u64
    }
}

fn seconds_process<Q: QuantileFunction>(model: Q) -> CallingProcess<Q> {
    CallingProcess::new(model, 6, 3, 25, 1, 20, 30, 50, 100).unwrap()
}

fn stream(seed: i64) -> RandomNumberGenerator {
    RandomNumberGenerator::new(seed, 24693, 3517, 131072).unwrap()
}

#[test]
fn runs_are_reproducible() {
    let mut a = stream(1000);
    let mut b = stream(1000);
    let mut first: Vec<u128> = Vec::new();
    let mut second: Vec<u128> = Vec::new();
    for _ in 0..1000 {
        let mut p = CallingProcess::new(ExponentialMillis, 6000, 3000, 25000, 1000, 20, 30, 50, 100)
            .unwrap();
        first.push(p.simulate(&mut a).elapsed_time);
        let mut q = CallingProcess::new(ExponentialMillis, 6000, 3000, 25000, 1000, 20, 30, 50, 100)
            .unwrap();
        second.push(q.simulate(&mut b).elapsed_time);
    }
    assert_eq!(first, second);
}

#[test]
fn all_latencies_too_long_abandons_after_four_attempts() {
    // Seed 1 draws unavailable, available, available, unavailable.
    let mut rng = stream(1);
    let mut p = seconds_process(Constant(30));
    let r = p.simulate(&mut rng);
    assert_eq!(
        r,
        TrialResult { elapsed_time: 128, terminal_state: TerminalState::Abandoned, attempts: 4 }
    );
    assert_eq!(p.get_total_time(), 4 * (6 + 25 + 1));
}

#[test]
fn first_attempt_answered_completes() {
    // Seed 3 draws available on the first attempt.
    let mut rng = stream(3);
    let mut p = seconds_process(Constant(10));
    let r = p.simulate(&mut rng);
    assert_eq!(
        r,
        TrialResult { elapsed_time: 16, terminal_state: TerminalState::Completed, attempts: 1 }
    );
    assert_eq!(p.get_total_time(), 6 + 10);
}

#[test]
fn latency_equal_to_ring_wait_is_answered() {
    let mut rng = stream(3);
    let mut p = seconds_process(Constant(25));
    let r = p.simulate(&mut rng);
    assert_eq!(r.terminal_state, TerminalState::Completed);
    assert_eq!(r.elapsed_time, 31);
}

#[test]
fn trajectory_from_known_seed() {
    // Seed 1000: unavailable, busy, busy, available; then available again.
    let mut rng = stream(1000);
    let mut p = seconds_process(Constant(10));
    let r = p.simulate(&mut rng);
    assert_eq!(r.elapsed_time, 32 + 10 + 10 + 16);
    assert_eq!(r.terminal_state, TerminalState::Completed);
    assert_eq!(r.attempts, 4);
    let mut q = seconds_process(Constant(10));
    let s = q.simulate(&mut rng);
    assert_eq!(s.elapsed_time, 16);
    assert_eq!(s.attempts, 1);
}

#[test]
fn always_busy_line_is_abandoned() {
    let mut rng = stream(5);
    let mut p = CallingProcess::new(Constant(1), 6, 3, 25, 1, 100, 0, 0, 100).unwrap();
    let r = p.simulate(&mut rng);
    assert_eq!(r.terminal_state, TerminalState::Abandoned);
    assert_eq!(r.attempts, MAX_ATTEMPTS);
    assert_eq!(r.elapsed_time, 4 * (6 + 3 + 1));
}

#[test]
fn attempt_outcomes() {
    let p = seconds_process(Constant(0));
    assert_eq!(
        p.attempt_outcome(CallStatus::Busy, 0),
        AttemptOutcome { time_spent: 10, answered: false }
    );
    assert_eq!(
        p.attempt_outcome(CallStatus::Unavailable, 3),
        AttemptOutcome { time_spent: 32, answered: false }
    );
    assert_eq!(
        p.attempt_outcome(CallStatus::Available, 10),
        AttemptOutcome { time_spent: 16, answered: true }
    );
    assert_eq!(
        p.attempt_outcome(CallStatus::Available, 26),
        AttemptOutcome { time_spent: 32, answered: false }
    );
}

#[test]
fn probabilities_must_sum_to_scale() {
    assert!(matches!(
        CallingProcess::new(Constant(1), 6, 3, 25, 1, 20, 30, 40, 100),
        Err(ConfigurationError::MassesDoNotSumToScale)
    ));
    assert!(matches!(
        CallingProcess::new(Constant(1), 6, 3, 25, 1, 0, 0, 0, 0),
        Err(ConfigurationError::ZeroScale)
    ));
}
