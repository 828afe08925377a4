//! Paces asynchronous producers against a shared, uniformly spaced schedule.
//!
//! A [`ThrottleRate`] describes "`count` permits per duration"; a [`ThrottlePool`]
//! is a cloneable handle to one shared cursor that hands out time slots spaced
//! by the rate's interval; a [`Throttled`] adapter runs the per-pull state machine
//! that waits for a slot before each pull of an inner sequence.

pub mod error;
pub mod pool;
pub mod rate;
pub mod stream;

pub use error::ConfigError;

pub use pool::{Grant, ThrottlePool};
pub use rate::ThrottleRate;
pub use stream::{Action, Phase, Pulled, Throttled};

