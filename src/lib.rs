//! Reproducible pseudorandom experiments: a linear congruential stream of
//! exact uniform fractions, inverse-transform samplers built on it, and a
//! bounded-retry phone-call simulation that consumes both samplers.
pub mod calling_process;
pub mod continuous_random_variable;
pub mod discrete_random_variable;
pub mod error;
pub mod random_number;

pub use calling_process::{
    AttemptOutcome,
    CallStatus,
    CallingProcess,
    TerminalState,
    TrialResult,
    MAX_ATTEMPTS,
};
pub use continuous_random_variable::{ContinuousRandomVariableGenerator, QuantileFunction};
pub use discrete_random_variable::{first_exceeding, DiscreteRandomVariableGenerator};
pub use error::{ConfigurationError, UnmatchedDrawError};
pub use random_number::{pow, RandomNumberGenerator, UnitValue};
