use crate::error::ConfigError;
use vstd::prelude::*;

verus! {

/// `count` permits per `duration_nanos` nanoseconds; both strictly positive.
#[derive(Clone, Copy, Debug)]
pub struct ThrottleRate {
    count: u64,
    duration_nanos: u64,
}

impl ThrottleRate {
    #[verifier::type_invariant]
    spec fn positive(self) -> bool {
        self.count > 0 && self.duration_nanos > 0
    }

    /// The number of permits per duration.
    pub closed spec fn spec_count(self) -> nat {
        self.count as nat
    }

    /// The duration, in nanoseconds.
    pub closed spec fn spec_duration(self) -> nat {
        self.duration_nanos as nat
    }

    /// The minimum spacing between two slots, in nanoseconds.
    pub open spec fn spec_interval(self) -> nat {
        self.spec_duration() / self.spec_count()
    }

    /// Builds a rate; refuses a zero count or a zero duration.
    pub fn new(count: u64, duration_nanos: u64) -> (r: Result<ThrottleRate, ConfigError>)
        ensures
            count == 0 ==> r == Err::<ThrottleRate, ConfigError>(ConfigError::ZeroCount),
            count > 0 && duration_nanos == 0 ==> r == Err::<ThrottleRate, ConfigError>(
                ConfigError::ZeroDuration,
            ),
            r is Ok <==> (count > 0 && duration_nanos > 0),
            r matches Ok(rate) ==> rate.spec_count() == count && rate.spec_duration()
                == duration_nanos,
    {
        if count == 0 {
            Err(ConfigError::ZeroCount)
        } else if duration_nanos == 0 {
            Err(ConfigError::ZeroDuration)
        } else {
            Ok(ThrottleRate { count, duration_nanos })
        }
    }

    /// The number of permits per duration.
    pub fn count(&self) -> (r: u64)
        ensures
            r == self.spec_count(),
            r > 0,
    {
        proof {
            use_type_invariant(self);
        }
        self.count
    }

    /// The duration, in nanoseconds.
    pub fn duration_nanos(&self) -> (r: u64)
        ensures
            r == self.spec_duration(),
            r > 0,
    {
        proof {
            use_type_invariant(self);
        }
        self.duration_nanos
    }

    /// `duration / count`, rounded down.
    pub fn interval(&self) -> (r: u64)
        ensures
            r == self.spec_interval(),
    {
        proof {
            use_type_invariant(self);
        }
        self.duration_nanos / self.count
    }
}

} // verus!
