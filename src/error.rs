use vstd::prelude::*;

verus! {

/// Why a rate description was refused at construction.
#[derive(Clone, Copy, Debug, PartialEq, Eq, Structural)]
pub enum ConfigError {
    /// The number of permits per duration was zero.
    ZeroCount,
    /// The duration was zero.
    ZeroDuration,
}

} // verus!
