use vstd::prelude::*;

use crate::continuous_random_variable::QuantileFunction;
use crate::error::{ConfigurationError, UnmatchedDrawError};
use crate::random_number::{RandomNumberGenerator, UnitValue};

verus! {

/// The cumulative probability `c / scale` strictly exceeds the value `u`.
pub open spec fn exceeds(c: int, scale: int, u: UnitValue) -> bool {
    c * u.denominator > u.numerator * scale
}

/// The sum of the first `n` masses.
pub open spec fn prefix_sum(masses: Seq<u64>, n: nat) -> int
    decreases n,
{
    if n == 0 || n > masses.len() {
        0
    } else {
        prefix_sum(masses, (n - 1) as nat) + masses[n - 1]
    }
}

/// Each element is smaller than the next.
pub open spec fn strictly_ascending(s: Seq<u64>) -> bool {
    forall|i: int| 0 <= i < s.len() - 1 ==> #[trigger] s[i] < s[i + 1]
}

/// Each element is at most the next.
pub open spec fn non_decreasing(s: Seq<u64>) -> bool {
    forall|i: int| 0 <= i < s.len() - 1 ==> #[trigger] s[i] <= s[i + 1]
}

/// The first index at or after `i` whose cumulative value exceeds `u`, or the
/// length of `cumulative` when there is none.
pub open spec fn first_exceeding_from(cumulative: Seq<u64>, scale: int, u: UnitValue, i: nat) -> nat
    decreases cumulative.len() - i,
{
    if i >= cumulative.len() {
        cumulative.len()
    } else if exceeds(cumulative[i as int] as int, scale, u) {
        i
    } else {
        first_exceeding_from(cumulative, scale, u, i + 1)
    }
}

/// The first index whose cumulative value exceeds `u`, or the length of
/// `cumulative` when there is none.
pub open spec fn first_exceeding_index(cumulative: Seq<u64>, scale: int, u: UnitValue) -> nat {
    first_exceeding_from(cumulative, scale, u, 0)
}

/// The search from `i` ends at an index that exceeds `u`, with none before
/// it from `i` on, or at the length with none at all from `i` on.
proof fn lemma_first_exceeding_from(cumulative: Seq<u64>, scale: int, u: UnitValue, i: nat)
    requires
        i <= cumulative.len(),
    ensures
        i <= first_exceeding_from(cumulative, scale, u, i) <= cumulative.len(),
        forall|j: int|
            i <= j < first_exceeding_from(cumulative, scale, u, i) ==> !exceeds(
                #[trigger] cumulative[j] as int,
                scale,
                u,
            ),
        first_exceeding_from(cumulative, scale, u, i) < cumulative.len() ==> exceeds(
            cumulative[first_exceeding_from(cumulative, scale, u, i) as int] as int,
            scale,
            u,
        ),
    decreases cumulative.len() - i,
{
    if i < cumulative.len() && !exceeds(cumulative[i as int] as int, scale, u) {
        lemma_first_exceeding_from(cumulative, scale, u, i + 1);
    }
}

/// Prefix sums grow with their length.
proof fn lemma_prefix_sum_grows(masses: Seq<u64>, n: nat, k: nat)
    requires
        n <= k <= masses.len(),
    ensures
        prefix_sum(masses, n) <= prefix_sum(masses, k),
    decreases k - n,
{
    if n < k {
        lemma_prefix_sum_grows(masses, n, (k - 1) as nat);
    }
}

/// Decides `exceeds(c, scale, u)` without overflow.
fn exceeds_exec(c: u64, scale: u64, u: UnitValue) -> (b: bool)
    ensures
        b == exceeds(c as int, scale as int, u),
{
    proof {
        vstd::arithmetic::mul::lemma_mul_upper_bound(
            c as int,
            u64::MAX as int,
            u.denominator as int,
            u64::MAX as int,
        );
        vstd::arithmetic::mul::lemma_mul_upper_bound(
            u.numerator as int,
            u64::MAX as int,
            scale as int,
            u64::MAX as int,
        );
    }
    let lhs = c as u128 * u.denominator as u128;
    let rhs = u.numerator as u128 * scale as u128;
    lhs > rhs
}

/// Inverse-transform search: the index of the first cumulative value
/// `cumulative[i] / scale` that strictly exceeds `u`, so that a value equal to
/// a cumulative probability belongs to that outcome. When no cumulative value
/// exceeds `u` the draw is unmatched.
pub fn first_exceeding(cumulative: &Vec<u64>, scale: u64, u: UnitValue) -> (r: Result<
    usize,
    UnmatchedDrawError,
>)
    ensures
        match r {
            Ok(i) => {
                &&& i == first_exceeding_index(cumulative@, scale as int, u)
                &&& i < cumulative@.len()
                &&& exceeds(cumulative@[i as int] as int, scale as int, u)
                &&& forall|j: int|
                    0 <= j < i ==> !exceeds(#[trigger] cumulative@[j] as int, scale as int, u)
            },
            Err(e) => {
                &&& first_exceeding_index(cumulative@, scale as int, u) == cumulative@.len()
                &&& forall|j: int|
                    0 <= j < cumulative@.len() ==> !exceeds(
                        #[trigger] cumulative@[j] as int,
                        scale as int,
                        u,
                    )
                &&& e == UnmatchedDrawError { numerator: u.numerator, denominator: u.denominator }
            },
        },
{
    proof {
        lemma_first_exceeding_from(cumulative@, scale as int, u, 0);
    }
    let mut i: usize = 0;
    while i < cumulative.len()
        invariant
            i <= cumulative@.len(),
            first_exceeding_index(cumulative@, scale as int, u) == first_exceeding_from(
                cumulative@,
                scale as int,
                u,
                i as nat,
            ),
            forall|j: int| 0 <= j < i ==> !exceeds(#[trigger] cumulative@[j] as int, scale as int, u),
        decreases cumulative@.len() - i,
    {
        if exceeds_exec(cumulative[i], scale, u) {
            return Ok(i);
        }
        i = i + 1;
    }
    Err(UnmatchedDrawError { numerator: u.numerator, denominator: u.denominator })
}

/// Inverse-transform sampling over a finite ordered sample space. Outcome
/// `i` has probability `pmf[i] / scale`; the cumulative sums are computed
/// once, when the sampler is built.
#[derive(Debug)]
pub struct DiscreteRandomVariableGenerator {
    sample_space: Vec<u64>,
    cumulative: Vec<u64>,
    scale: u64,
}

impl DiscreteRandomVariableGenerator {
    /// The outcomes, in ascending order.
    pub closed spec fn outcomes(&self) -> Seq<u64> {
        self.sample_space@
    }

    /// The cumulative masses; outcome `i` has cumulative probability
    /// `cumulative_masses()[i] / scale()`.
    pub closed spec fn cumulative_masses(&self) -> Seq<u64> {
        self.cumulative@
    }

    /// The scale that masses are expressed over.
    pub closed spec fn scale(&self) -> int {
        self.scale as int
    }

    /// A non-empty ascending sample space whose cumulative function is
    /// non-decreasing and ends at one.
    pub open spec fn well_formed(&self) -> bool {
        &&& self.outcomes().len() > 0
        &&& self.cumulative_masses().len() == self.outcomes().len()
        &&& self.scale() > 0
        &&& self.cumulative_masses().last() == self.scale()
        &&& strictly_ascending(self.outcomes())
        &&& non_decreasing(self.cumulative_masses())
    }

    #[verifier::type_invariant]
    spec fn sampler_invariant(&self) -> bool {
        self.well_formed()
    }

    /// The index of the outcome that the value `u` selects.
    pub open spec fn outcome_index(&self, u: UnitValue) -> nat {
        first_exceeding_index(self.cumulative_masses(), self.scale(), u)
    }

    /// The outcome that the value `u` selects.
    pub open spec fn outcome_for(&self, u: UnitValue) -> u64 {
        self.outcomes()[self.outcome_index(u) as int]
    }

    /// Every value of the unit interval selects an outcome.
    pub proof fn lemma_outcome_exists(&self, u: UnitValue)
        requires
            self.well_formed(),
            u.in_unit_interval(),
        ensures
            self.outcome_index(u) < self.outcomes().len(),
            exceeds(
                self.cumulative_masses()[self.outcome_index(u) as int] as int,
                self.scale(),
                u,
            ),
            forall|j: int|
                0 <= j < self.outcome_index(u) ==> !exceeds(
                    #[trigger] self.cumulative_masses()[j] as int,
                    self.scale(),
                    u,
                ),
    {
        let cum = self.cumulative_masses();
        let last = cum.len() - 1;
        lemma_first_exceeding_from(cum, self.scale(), u, 0);
        assert(exceeds(cum[last] as int, self.scale(), u)) by (nonlinear_arith)
            requires
                cum[last] as int == self.scale(),
                self.scale() > 0,
                u.numerator < u.denominator,
        ;
    }

    /// Builds a sampler from a mass function over `sample_space`: outcome
    /// `sample_space[i]` has probability `pmf[i] / scale`.
    pub fn new(pmf: Vec<u64>, sample_space: Vec<u64>, scale: u64) -> (r: Result<
        DiscreteRandomVariableGenerator,
        ConfigurationError,
    >)
        ensures
            (r == Err::<DiscreteRandomVariableGenerator, ConfigurationError>(
                ConfigurationError::EmptySampleSpace,
            )) <==> sample_space@.len() == 0,
            (r == Err::<DiscreteRandomVariableGenerator, ConfigurationError>(
                ConfigurationError::LengthMismatch,
            )) <==> (sample_space@.len() > 0 && pmf@.len() != sample_space@.len()),
            (r == Err::<DiscreteRandomVariableGenerator, ConfigurationError>(
                ConfigurationError::UnorderedSampleSpace,
            )) <==> (sample_space@.len() > 0 && pmf@.len() == sample_space@.len()
                && !strictly_ascending(sample_space@)),
            (r == Err::<DiscreteRandomVariableGenerator, ConfigurationError>(
                ConfigurationError::ZeroScale,
            )) <==> (sample_space@.len() > 0 && pmf@.len() == sample_space@.len()
                && strictly_ascending(sample_space@) && scale == 0),
            (r == Err::<DiscreteRandomVariableGenerator, ConfigurationError>(
                ConfigurationError::MassesDoNotSumToScale,
            )) <==> (sample_space@.len() > 0 && pmf@.len() == sample_space@.len()
                && strictly_ascending(sample_space@) && scale > 0 && prefix_sum(
                pmf@,
                pmf@.len(),
            ) != scale),
            r matches Err(e) ==> e != ConfigurationError::ModulusNotPositive,
            r matches Ok(g) ==> {
                &&& g.well_formed()
                &&& g.outcomes() == sample_space@
                &&& g.scale() == scale
                &&& forall|i: int|
                    0 <= i < g.outcomes().len() ==> #[trigger] g.cumulative_masses()[i]
                        == prefix_sum(pmf@, (i + 1) as nat)
            },
    {
        let n = sample_space.len();
        if n == 0 {
            return Err(ConfigurationError::EmptySampleSpace);
        }
        if pmf.len() != n {
            return Err(ConfigurationError::LengthMismatch);
        }
        let mut k: usize = 0;
        while k + 1 < n
            invariant
                n == sample_space@.len(),
                n == pmf@.len(),
                n > 0,
                k < n,
                forall|i: int| 0 <= i < k ==> #[trigger] sample_space@[i] < sample_space@[i + 1],
            decreases n - k,
        {
            if sample_space[k] >= sample_space[k + 1] {
                assert(!(sample_space@[k as int] < sample_space@[k + 1]));
                return Err(ConfigurationError::UnorderedSampleSpace);
            }
            k = k + 1;
        }
        if scale == 0 {
            return Err(ConfigurationError::ZeroScale);
        }
        let mut cumulative: Vec<u64> = Vec::new();
        let mut sum: u64 = 0;
        let mut i: usize = 0;
        while i < n
            invariant
                n == pmf@.len(),
                n == sample_space@.len(),
                n > 0,
                scale > 0,
                strictly_ascending(sample_space@),
                i <= n,
                sum <= scale,
                sum == prefix_sum(pmf@, i as nat),
                cumulative@.len() == i,
                forall|j: int|
                    0 <= j < i ==> #[trigger] cumulative@[j] == prefix_sum(pmf@, (j + 1) as nat),
            decreases n - i,
        {
            if pmf[i] > scale - sum {
                proof {
                    lemma_prefix_sum_grows(pmf@, (i + 1) as nat, n as nat);
                }
                return Err(ConfigurationError::MassesDoNotSumToScale);
            }
            sum = sum + pmf[i];
            cumulative.push(sum);
            i = i + 1;
        }
        if sum != scale {
            return Err(ConfigurationError::MassesDoNotSumToScale);
        }
        let g = DiscreteRandomVariableGenerator { sample_space, cumulative, scale };
        assert(non_decreasing(g.cumulative_masses())) by {
            assert forall|j: int| 0 <= j < n - 1 implies #[trigger] g.cumulative_masses()[j]
                <= g.cumulative_masses()[j + 1] by {
                assert(g.cumulative_masses()[j + 1] == prefix_sum(pmf@, (j + 2) as nat));
            }
        }
        Ok(g)
    }

    /// Draws one value `u` from the stream and returns the first outcome whose
    /// cumulative probability strictly exceeds `u`.
    pub fn generate_realization(&self, rng: &mut RandomNumberGenerator) -> (r: u64)
        requires
            old(rng).well_formed(),
        ensures
            *final(rng) == old(rng).successor(),
            final(rng).well_formed(),
            r == self.outcome_for(old(rng).next_draw()),
    {
        let u = rng.get_next_number();
        self.outcome_at(u)
    }

    /// The first outcome whose cumulative probability strictly exceeds `u`.
    pub fn outcome_at(&self, u: UnitValue) -> (x: u64)
        requires
            u.in_unit_interval(),
        ensures
            x == self.outcome_for(u),
    {
        proof {
            use_type_invariant(self);
            self.lemma_outcome_exists(u);
        }
        match first_exceeding(&self.cumulative, self.scale, u) {
            Ok(i) => self.sample_space[i],
            Err(_) => {
                assert(false);
                0
            },
        }
    }
}

/// A categorical distribution's quantile function.
impl QuantileFunction for DiscreteRandomVariableGenerator {
    open spec fn spec_quantile(&self, u: UnitValue) -> u64 {
        self.outcome_for(u)
    }

    fn quantile(&self, u: UnitValue) -> (x: u64) {
        self.outcome_at(u)
    }
}

} // verus!
