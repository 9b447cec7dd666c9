//! A multi-voice resonant string synthesis engine: feedback delay lines tuned
//! to pitch targets, damped by a per-voice filter, mixed with the dry signal.
//!
//! Samples and scalar parameters are fixed-point numbers: `i64` values scaled
//! by `units::ONE`. The caller converts to and from its own sample format and
//! supplies per-frame tuning scalars as plain values.

pub mod delay;
pub mod engine;
pub mod filter;
pub mod model;
pub mod units;

pub use delay::DelayLine;
pub use delay::wrap_value;
pub use engine::Engine;
pub use filter::CombFilter;
pub use filter::Filter;
pub use model::Model;
