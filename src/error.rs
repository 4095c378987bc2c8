use vstd::prelude::*;

verus! {

/// A configuration rejected when a stream, sampler or simulation is built.
#[derive(Debug, Clone, Copy, PartialEq, Eq, Structural)]
pub enum ConfigurationError {
    /// The modulus of a stream is zero or negative.
    ModulusNotPositive,
    /// A sample space holds no outcome.
    EmptySampleSpace,
    /// The sample space and the mass function have different lengths.
    LengthMismatch,
    /// The sample space is not strictly ascending (unordered or with duplicates).
    UnorderedSampleSpace,
    /// The scale that probabilities are expressed over is zero.
    ZeroScale,
    /// The masses do not add up to the scale, so the cumulative function
    /// does not end at one.
    MassesDoNotSumToScale,
}

/// No outcome's cumulative probability exceeds the drawn uniform value.
#[derive(Debug, Clone, Copy, PartialEq, Eq, Structural)]
pub struct UnmatchedDrawError {
    /// Numerator of the drawn value.
    pub numerator: u64,
    /// Denominator of the drawn value.
    pub denominator: u64,
}

} // verus!
