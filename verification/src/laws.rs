//! What holds of pipelines as a whole.
pub mod accuracy;
pub mod adapters;
pub mod chaining;
pub mod compilation;
pub mod execution;
pub mod expansion;
pub mod foundations;
pub mod framing;
pub mod inverse;
pub mod mirror;
pub mod progress;
pub mod requests;
pub mod rounding;
pub mod shifts;
pub mod stability;
pub mod steps;
