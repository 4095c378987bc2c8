use vstd::prelude::*;

use crate::continuous_random_variable::{ContinuousRandomVariableGenerator, QuantileFunction};
use crate::discrete_random_variable::{exceeds, prefix_sum, DiscreteRandomVariableGenerator};
use crate::error::ConfigurationError;
use crate::random_number::{RandomNumberGenerator, UnitValue};

verus! {

/// The number of attempts after which an unanswered caller gives up.
pub const MAX_ATTEMPTS: u64 = 4;

/// The outcome value of a busy line in the status sampler.
pub const BUSY_CODE: u64 = 1;

/// The outcome value of an unavailable callee in the status sampler.
pub const UNAVAILABLE_CODE: u64 = 2;

/// The outcome value of an available callee in the status sampler.
pub const AVAILABLE_CODE: u64 = 3;

/// What the callee's side does on one attempt.
#[derive(Debug, Clone, Copy, PartialEq, Eq, Structural)]
pub enum CallStatus {
    Busy,
    Unavailable,
    Available,
}

/// How a trial ended.
#[derive(Debug, Clone, Copy, PartialEq, Eq, Structural)]
pub enum TerminalState {
    /// The call was answered.
    Completed,
    /// Every attempt went unanswered.
    Abandoned,
}

/// The time one attempt took, and whether it was answered.
#[derive(Debug, Clone, Copy, PartialEq, Eq, Structural)]
pub struct AttemptOutcome {
    pub time_spent: u128,
    pub answered: bool,
}

/// The total elapsed time of a trial, how it ended and how many attempts it made.
#[derive(Debug, Clone, Copy, PartialEq, Eq, Structural)]
pub struct TrialResult {
    pub elapsed_time: u128,
    pub terminal_state: TerminalState,
    pub attempts: u64,
}

/// A bounded-retry phone-call simulation. Each attempt dials, then draws
/// whether the line is busy, the callee unavailable or available; an
/// available callee answers after a latency drawn from the quantile function,
/// unless that latency exceeds the ring-wait duration. Durations are in one
/// time unit of the caller's choice; the probabilities are
/// `p_b / scale`, `p_u / scale` and `p_a / scale`.
#[derive(Debug)]
pub struct CallingProcess<Q: QuantileFunction> {
    w: u128,
    status: DiscreteRandomVariableGenerator,
    latency: ContinuousRandomVariableGenerator<Q>,
    t_d: u64,
    t_b: u64,
    t_u: u64,
    t_e: u64,
    p_b: u64,
    p_u: u64,
    scale: u64,
}

impl<Q: QuantileFunction> CallingProcess<Q> {
    /// The elapsed time accumulated so far.
    pub closed spec fn total_time(&self) -> int {
        self.w as int
    }

    /// The time it takes to dial.
    pub closed spec fn dial_time(&self) -> int {
        self.t_d as int
    }

    /// The time it takes to detect a busy signal.
    pub closed spec fn busy_time(&self) -> int {
        self.t_b as int
    }

    /// How long the caller lets the phone ring before giving up on an attempt.
    pub closed spec fn ring_wait_time(&self) -> int {
        self.t_u as int
    }

    /// The time it takes to hang up.
    pub closed spec fn hangup_time(&self) -> int {
        self.t_e as int
    }

    /// The mass of a busy line.
    pub closed spec fn busy_mass(&self) -> int {
        self.p_b as int
    }

    /// The mass of an unavailable callee.
    pub closed spec fn unavailable_mass(&self) -> int {
        self.p_u as int
    }

    /// The scale that the masses are expressed over.
    pub closed spec fn scale(&self) -> int {
        self.scale as int
    }

    /// The quantile function of the answer latency.
    pub closed spec fn model(&self) -> Q {
        self.latency.f_inverse
    }

    #[verifier::type_invariant]
    spec fn process_invariant(&self) -> bool {
        &&& self.status.well_formed()
        &&& self.status.outcomes() == seq![BUSY_CODE, UNAVAILABLE_CODE, AVAILABLE_CODE]
        &&& self.status.cumulative_masses() == seq![
            self.p_b,
            (self.p_b + self.p_u) as u64,
            self.scale,
        ]
        &&& self.status.scale() == self.scale
        &&& self.p_b + self.p_u <= self.scale
    }

    /// Both processes have the same durations, probabilities and latency model.
    pub open spec fn same_configuration(&self, other: &Self) -> bool {
        &&& self.dial_time() == other.dial_time()
        &&& self.busy_time() == other.busy_time()
        &&& self.ring_wait_time() == other.ring_wait_time()
        &&& self.hangup_time() == other.hangup_time()
        &&& self.busy_mass() == other.busy_mass()
        &&& self.unavailable_mass() == other.unavailable_mass()
        &&& self.scale() == other.scale()
        &&& self.model() == other.model()
    }

    /// The status that the value `u` selects: busy owns the cumulative
    /// interval up to `p_b`, unavailable the one up to `p_b + p_u`, available
    /// the rest.
    pub open spec fn status_for(&self, u: UnitValue) -> CallStatus {
        if exceeds(self.busy_mass(), self.scale(), u) {
            CallStatus::Busy
        } else if exceeds(self.busy_mass() + self.unavailable_mass(), self.scale(), u) {
            CallStatus::Unavailable
        } else {
            CallStatus::Available
        }
    }

    /// The callee answers: available, with a latency within the ring wait.
    pub open spec fn answered(&self, status: CallStatus, latency: u64) -> bool {
        status == CallStatus::Available && latency <= self.ring_wait_time()
    }

    /// The time one attempt takes: dialing, then the busy signal, the ring
    /// wait or the answer latency, then hanging up unless answered.
    pub open spec fn attempt_time(&self, status: CallStatus, latency: u64) -> int {
        match status {
            CallStatus::Busy => self.dial_time() + self.busy_time() + self.hangup_time(),
            CallStatus::Unavailable => self.dial_time() + self.ring_wait_time()
                + self.hangup_time(),
            CallStatus::Available => if latency <= self.ring_wait_time() {
                self.dial_time() + latency
            } else {
                self.dial_time() + self.ring_wait_time() + self.hangup_time()
            },
        }
    }

    /// The answer latency that the value `u` gives.
    pub open spec fn latency_for(&self, u: UnitValue) -> u64 {
        self.model().spec_quantile(u)
    }

    /// The rest of a trial from attempt number `attempts`, with `elapsed`
    /// time spent and the stream at `rng`: the total elapsed time, how the
    /// trial ends, the number of attempts made and the stream afterwards.
    /// Each attempt draws its status from the stream; when the callee is
    /// available it draws one more value, whose quantile is the latency.
    pub open spec fn run_from(
        &self,
        rng: RandomNumberGenerator,
        attempts: nat,
        elapsed: int,
    ) -> (int, TerminalState, nat, RandomNumberGenerator)
        decreases MAX_ATTEMPTS - attempts,
    {
        if attempts >= MAX_ATTEMPTS {
            (elapsed, TerminalState::Abandoned, attempts, rng)
        } else {
            let status = self.status_for(rng.next_draw());
            let drawn = rng.successor();
            let latency = if status == CallStatus::Available {
                self.latency_for(drawn.next_draw())
            } else {
                0
            };
            let after = if status == CallStatus::Available {
                drawn.successor()
            } else {
                drawn
            };
            let spent = self.attempt_time(status, latency);
            if self.answered(status, latency) {
                (elapsed + spent, TerminalState::Completed, attempts + 1, after)
            } else {
                self.run_from(after, attempts + 1, elapsed + spent)
            }
        }
    }

    /// A whole trial on the stream `rng`.
    pub open spec fn trial(&self, rng: RandomNumberGenerator) -> (
        int,
        TerminalState,
        nat,
        RandomNumberGenerator,
    ) {
        self.run_from(rng, 0, 0)
    }

    /// The elapsed times of `n` successive trials sharing the stream `rng`.
    pub open spec fn trial_times(&self, rng: RandomNumberGenerator, n: nat) -> Seq<int>
        decreases n,
    {
        if n == 0 {
            Seq::empty()
        } else {
            seq![self.trial(rng).0].add(self.trial_times(self.trial(rng).3, (n - 1) as nat))
        }
    }
}

impl<Q: QuantileFunction> CallingProcess<Q> {
    /// Configures a trial: durations `t_d` (dial), `t_b` (busy signal), `t_u`
    /// (ring wait), `t_e` (hang up), and the probabilities `p_b / scale`
    /// (busy), `p_u / scale` (unavailable) and `p_a / scale` (available),
    /// which must add up to one.
    pub fn new(
        x_pdf_inverse: Q,
        t_d: u64,
        t_b: u64,
        t_u: u64,
        t_e: u64,
        p_b: u64,
        p_u: u64,
        p_a: u64,
        scale: u64,
    ) -> (r: Result<CallingProcess<Q>, ConfigurationError>)
        ensures
            (r matches Err(e) && e == ConfigurationError::ZeroScale) <==> scale == 0,
            (r matches Err(e) && e == ConfigurationError::MassesDoNotSumToScale) <==> (scale > 0
                && p_b + p_u + p_a != scale),
            r matches Err(e) ==> (e == ConfigurationError::ZeroScale || e
                == ConfigurationError::MassesDoNotSumToScale),
            r matches Ok(p) ==> {
                &&& p.total_time() == 0
                &&& p.dial_time() == t_d
                &&& p.busy_time() == t_b
                &&& p.ring_wait_time() == t_u
                &&& p.hangup_time() == t_e
                &&& p.busy_mass() == p_b
                &&& p.unavailable_mass() == p_u
                &&& p.scale() == scale
                &&& p.model() == x_pdf_inverse
            },
    {
        let masses = vec![p_b, p_u, p_a];
        let sample_space = vec![BUSY_CODE, UNAVAILABLE_CODE, AVAILABLE_CODE];
        proof {
            assert(masses@.len() == 3 && sample_space@.len() == 3);
            assert(masses@[0] == p_b && masses@[1] == p_u && masses@[2] == p_a);
            assert(prefix_sum(masses@, 0) == 0);
            assert(prefix_sum(masses@, 1) == p_b);
            assert(prefix_sum(masses@, 2) == p_b + p_u);
            assert(prefix_sum(masses@, 3) == p_b + p_u + p_a);
            assert(crate::discrete_random_variable::strictly_ascending(sample_space@));
        }
        let built = DiscreteRandomVariableGenerator::new(masses, sample_space, scale);
        let status = match built {
            Ok(g) => g,
            Err(e) => {
                return Err(e);
            },
        };
        proof {
            assert(status.cumulative_masses()[0] == p_b);
            assert(status.cumulative_masses()[1] == p_b + p_u);
            assert(status.cumulative_masses()[2] == scale);
            assert(status.cumulative_masses() =~= seq![p_b, (p_b + p_u) as u64, scale]);
        }
        let latency = ContinuousRandomVariableGenerator::new(x_pdf_inverse);
        Ok(CallingProcess { w: 0, status, latency, t_d, t_b, t_u, t_e, p_b, p_u, scale })
    }

    /// The time one attempt takes and whether it was answered, given the
    /// drawn status and, for an available callee, the drawn latency.
    pub fn attempt_outcome(&self, status: CallStatus, latency: u64) -> (o: AttemptOutcome)
        ensures
            o.time_spent == self.attempt_time(status, latency),
            o.answered == self.answered(status, latency),
    {
        let dial = self.t_d as u128;
        match status {
            CallStatus::Busy => AttemptOutcome {
                time_spent: dial + self.t_b as u128 + self.t_e as u128,
                answered: false,
            },
            CallStatus::Unavailable => AttemptOutcome {
                time_spent: dial + self.t_u as u128 + self.t_e as u128,
                answered: false,
            },
            CallStatus::Available => {
                if latency <= self.t_u {
                    AttemptOutcome { time_spent: dial + latency as u128, answered: true }
                } else {
                    AttemptOutcome {
                        time_spent: dial + self.t_u as u128 + self.t_e as u128,
                        answered: false,
                    }
                }
            },
        }
    }

    /// Draws the status of one attempt from the stream.
    fn draw_status(&self, rng: &mut RandomNumberGenerator) -> (s: CallStatus)
        requires
            old(rng).well_formed(),
        ensures
            *final(rng) == old(rng).successor(),
            final(rng).well_formed(),
            s == self.status_for(old(rng).next_draw()),
    {
        proof {
            use_type_invariant(self);
            old(rng).lemma_successor();
            self.status.lemma_outcome_exists(old(rng).next_draw());
        }
        let code = self.status.generate_realization(rng);
        if code == BUSY_CODE {
            CallStatus::Busy
        } else if code == UNAVAILABLE_CODE {
            CallStatus::Unavailable
        } else {
            CallStatus::Available
        }
    }

    /// Runs one trial on the stream: at most `MAX_ATTEMPTS` attempts, until
    /// one is answered. The elapsed time is returned whether the trial was
    /// completed or abandoned, together with which of the two it was.
    pub fn simulate(&mut self, random_number_generator: &mut RandomNumberGenerator) -> (r:
        TrialResult)
        requires
            old(random_number_generator).well_formed(),
            old(self).total_time() == 0,
        ensures
            old(self).trial(*old(random_number_generator)) == (
                r.elapsed_time as int,
                r.terminal_state,
                r.attempts as nat,
                *final(random_number_generator),
            ),
            final(random_number_generator).well_formed(),
            1 <= r.attempts <= MAX_ATTEMPTS,
            r.terminal_state == TerminalState::Abandoned ==> r.attempts == MAX_ATTEMPTS,
            final(self).total_time() == r.elapsed_time,
            final(self).same_configuration(old(self)),
    {
        let rng = random_number_generator;
        let ghost start = *rng;
        let mut attempts: u64 = 0;
        let mut w: u128 = 0;
        let mut done = false;
        while attempts < MAX_ATTEMPTS && !done
            invariant
                rng.well_formed(),
                attempts <= MAX_ATTEMPTS,
                w <= attempts * 3 * (u64::MAX as int),
                done ==> 1 <= attempts && self.trial(start) == (
                    w as int,
                    TerminalState::Completed,
                    attempts as nat,
                    *rng,
                ),
                !done ==> self.trial(start) == self.run_from(*rng, attempts as nat, w as int),
                *self == *old(self),
            decreases MAX_ATTEMPTS - attempts,
        {
            let ghost before = *rng;
            proof {
                before.lemma_successor();
                before.successor().lemma_successor();
            }
            let status = self.draw_status(rng);
            let latency = match status {
                CallStatus::Available => self.latency.generate_realization(rng),
                _ => 0,
            };
            let outcome = self.attempt_outcome(status, latency);
            w = w + outcome.time_spent;
            attempts = attempts + 1;
            if outcome.answered {
                done = true;
            }
        }
        proof {
            lemma_run_bounds(self, start, 0, 0);
            use_type_invariant(&*self);
        }
        self.w = w;
        let terminal = if done {
            TerminalState::Completed
        } else {
            TerminalState::Abandoned
        };
        TrialResult { elapsed_time: w, terminal_state: terminal, attempts }
    }

    /// The total elapsed time of the trial.
    pub fn get_total_time(self) -> (r: u128)
        ensures
            r == self.total_time(),
    {
        self.w
    }
}

/// A trial from attempt `attempts` makes at least one more attempt when any
/// is left, never passes `MAX_ATTEMPTS`, and is abandoned only at that bound.
proof fn lemma_run_bounds<Q: QuantileFunction>(
    p: &CallingProcess<Q>,
    rng: RandomNumberGenerator,
    attempts: nat,
    elapsed: int,
)
    requires
        attempts < MAX_ATTEMPTS,
    ensures
        attempts < p.run_from(rng, attempts, elapsed).2 <= MAX_ATTEMPTS,
        p.run_from(rng, attempts, elapsed).1 == TerminalState::Abandoned ==> p.run_from(
            rng,
            attempts,
            elapsed,
        ).2 == MAX_ATTEMPTS,
    decreases MAX_ATTEMPTS - attempts,
{
    let status = p.status_for(rng.next_draw());
    let drawn = rng.successor();
    let latency = if status == CallStatus::Available {
        p.latency_for(drawn.next_draw())
    } else {
        0
    };
    let after = if status == CallStatus::Available {
        drawn.successor()
    } else {
        drawn
    };
    let spent = p.attempt_time(status, latency);
    if !p.answered(status, latency) {
        if attempts + 1 < MAX_ATTEMPTS {
            lemma_run_bounds(p, after, attempts + 1, elapsed + spent);
        } else {
            assert(p.run_from(after, attempts + 1, elapsed + spent).2 == attempts + 1);
        }
    }
}

/// The rest of a trial depends on the configuration and the stream alone.
proof fn lemma_run_from_same<Q: QuantileFunction>(
    p: &CallingProcess<Q>,
    q: &CallingProcess<Q>,
    rng: RandomNumberGenerator,
    attempts: nat,
    elapsed: int,
)
    requires
        p.same_configuration(q),
    ensures
        p.run_from(rng, attempts, elapsed) == q.run_from(rng, attempts, elapsed),
    decreases MAX_ATTEMPTS - attempts,
{
    if attempts < MAX_ATTEMPTS {
        let status = p.status_for(rng.next_draw());
        let drawn = rng.successor();
        let latency = if status == CallStatus::Available {
            p.latency_for(drawn.next_draw())
        } else {
            0
        };
        let after = if status == CallStatus::Available {
            drawn.successor()
        } else {
            drawn
        };
        lemma_run_from_same(
            p,
            q,
            after,
            attempts + 1,
            elapsed + p.attempt_time(status, latency),
        );
    }
}

/// From attempt `attempts` on, every attempt finds the line free and goes
/// unanswered: the callee is unavailable, or available with a latency above
/// the ring wait.
pub open spec fn never_answered_from<Q: QuantileFunction>(
    p: &CallingProcess<Q>,
    rng: RandomNumberGenerator,
    attempts: nat,
) -> bool
    decreases MAX_ATTEMPTS - attempts,
{
    if attempts >= MAX_ATTEMPTS {
        true
    } else {
        let status = p.status_for(rng.next_draw());
        let drawn = rng.successor();
        match status {
            CallStatus::Busy => false,
            CallStatus::Unavailable => never_answered_from(p, drawn, attempts + 1),
            CallStatus::Available => p.latency_for(drawn.next_draw()) > p.ring_wait_time()
                && never_answered_from(p, drawn.successor(), attempts + 1),
        }
    }
}

/// A trial in which no attempt finds the line busy and none is answered is
/// abandoned after `MAX_ATTEMPTS` attempts, each of which took dialing, the
/// ring wait and hanging up.
pub proof fn lemma_never_answered_abandons<Q: QuantileFunction>(
    p: &CallingProcess<Q>,
    rng: RandomNumberGenerator,
    attempts: nat,
    elapsed: int,
)
    requires
        attempts <= MAX_ATTEMPTS,
        never_answered_from(p, rng, attempts),
    ensures
        p.run_from(rng, attempts, elapsed).0 == elapsed + (MAX_ATTEMPTS - attempts) * (
        p.dial_time() + p.ring_wait_time() + p.hangup_time()),
        p.run_from(rng, attempts, elapsed).1 == TerminalState::Abandoned,
        p.run_from(rng, attempts, elapsed).2 == MAX_ATTEMPTS,
    decreases MAX_ATTEMPTS - attempts,
{
    if attempts < MAX_ATTEMPTS {
        let status = p.status_for(rng.next_draw());
        let drawn = rng.successor();
        let after = if status == CallStatus::Available {
            drawn.successor()
        } else {
            drawn
        };
        let spent = p.dial_time() + p.ring_wait_time() + p.hangup_time();
        lemma_never_answered_abandons(p, after, attempts + 1, elapsed + spent);
        assert((MAX_ATTEMPTS - attempts) * spent == spent + (MAX_ATTEMPTS - (attempts + 1))
            * spent) by (nonlinear_arith);
    }
}

/// A first attempt that finds the callee available with a latency within the
/// ring wait completes the trial after that one attempt and two draws, with
/// the dialing time plus the latency elapsed.
pub proof fn lemma_first_attempt_answered<Q: QuantileFunction>(
    p: &CallingProcess<Q>,
    rng: RandomNumberGenerator,
)
    requires
        p.status_for(rng.next_draw()) == CallStatus::Available,
        p.latency_for(rng.successor().next_draw()) <= p.ring_wait_time(),
    ensures
        p.trial(rng) == (
            p.dial_time() + p.latency_for(rng.successor().next_draw()),
            TerminalState::Completed,
            1nat,
            rng.successor().successor(),
        ),
{
}

/// Trials are reproducible: two streams with the same seed and parameters
/// (as `RandomNumberGenerator::new` builds them from equal arguments), driving
/// processes with the same configuration and latency model, give the same
/// sequence of elapsed times over any number of successive trials.
pub proof fn lemma_reproducible_trials<Q: QuantileFunction>(
    p: &CallingProcess<Q>,
    q: &CallingProcess<Q>,
    g: RandomNumberGenerator,
    h: RandomNumberGenerator,
    n: nat,
)
    requires
        p.same_configuration(q),
        g.state() == h.state(),
        g.multiplier() == h.multiplier(),
        g.increment() == h.increment(),
        g.modulus() == h.modulus(),
    ensures
        p.trial_times(g, n) == q.trial_times(h, n),
    decreases n,
{
    RandomNumberGenerator::lemma_determined(g, h);
    if n > 0 {
        lemma_run_from_same(p, q, g, 0, 0);
        let next = p.trial(g).3;
        lemma_reproducible_trials(p, q, next, next, (n - 1) as nat);
    }
}

} // verus!
