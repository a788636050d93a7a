//! Autoscaling decision policy for a hybrid-execution messaging service.
//!
//! A logical function can run on per-invocation (serverless) executors or on a
//! continuously provisioned instance. Once per rescale cycle the policy reduces
//! the raw call-duration samples observed since the previous cycle into interval
//! totals, folds those into two exponentially smoothed estimates (activity and
//! caller waiting), and compares the blended serverless cost of the estimated
//! load against the flat cost of a standing instance. The result is a binary
//! scale target together with the state to persist for the next cycle.
//!
//! All quantities are fixed-point integers: durations are microseconds, the
//! smoothed rates are micro-units (1_000_000 = 1.0), and prices are expressed
//! in units of 10^-10 dollars. The whole cycle is a pure transition function;
//! persistence, sample collection and locking belong to the caller.

pub mod aggregate;
pub mod compare;
pub mod config;
pub mod estimate;
pub mod policy;
pub mod state;

pub use aggregate::{aggregate_samples, SampleAggregate};
pub use compare::compare_costs;
pub use estimate::{estimate, smooth};
pub use policy::{MessagingRescaler, RescalePolicy};
pub use config::{PolicyConfig, ResourceSizing};
pub use state::{PolicyError, PolicyState, RescaleDecision};
