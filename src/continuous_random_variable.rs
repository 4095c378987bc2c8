use vstd::prelude::*;

use crate::random_number::{RandomNumberGenerator, UnitValue};

verus! {

/// A quantile function (inverse cumulative distribution function) from the
/// unit interval to durations or outcome values, one per distribution family.
/// It is a function: its value depends on `u` alone, and `spec_quantile`
/// names that value.
pub trait QuantileFunction {
    /// The value of the quantile function at `u`.
    spec fn spec_quantile(&self, u: UnitValue) -> u64;

    /// Evaluates the quantile function at `u`.
    fn quantile(&self, u: UnitValue) -> (x: u64)
        requires
            u.in_unit_interval(),
        ensures
            x == self.spec_quantile(u),
    ;
}

/// Inverse-transform sampling through a quantile function: each realization
/// is the quantile of one value drawn from the stream.
#[derive(Debug)]
pub struct ContinuousRandomVariableGenerator<Q: QuantileFunction> {
    pub f_inverse: Q,
}

impl<Q: QuantileFunction> ContinuousRandomVariableGenerator<Q> {
    /// Binds a sampler to the quantile function `f_inverse`.
    pub fn new(f_inverse: Q) -> (r: ContinuousRandomVariableGenerator<Q>)
        ensures
            r.f_inverse == f_inverse,
    {
        ContinuousRandomVariableGenerator { f_inverse }
    }

    /// The realization that the value `u` gives.
    pub open spec fn realization_for(&self, u: UnitValue) -> u64 {
        self.f_inverse.spec_quantile(u)
    }

    /// Draws exactly one value `u` from the stream and returns `quantile(u)`.
    pub fn generate_realization(&self, rng: &mut RandomNumberGenerator) -> (x: u64)
        requires
            old(rng).well_formed(),
        ensures
            *final(rng) == old(rng).successor(),
            final(rng).well_formed(),
            x == self.realization_for(old(rng).next_draw()),
    {
        let u = rng.get_next_number();
        self.f_inverse.quantile(u)
    }
}

} // verus!
