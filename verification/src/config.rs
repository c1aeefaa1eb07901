//! The configuration of a rate limited layer.

use vstd::prelude::*;

use crate::time::{Duration, NANOS_PER_SEC};

verus! {

/// How a layer limits events. `F` is the type of the function that may choose
/// further events to be limited.
pub struct RateLimitConfiguration<F> {
    /// Whether every event is limited, wherever it comes from.
    pub auto_enabled: bool,
    /// A function that decides whether an event is limited, where there is one.
    pub should_enable_ratelimit: Option<F>,
    /// How often an event may be seen in a window before it is limited.
    pub threshold: u64,
    /// How long a window lasts.
    pub duration: Duration,
}

impl<F> RateLimitConfiguration<F> {
    /// Whether this is the configuration that holds where nothing else is asked for:
    /// an event is limited where it says so itself, after one occurrence in ten seconds.
    pub open spec fn is_default(self) -> bool {
        &&& !self.auto_enabled
        &&& self.should_enable_ratelimit is None
        &&& self.threshold == 1
        &&& self.duration@ == 10 * NANOS_PER_SEC
    }
}

impl<F> Default for RateLimitConfiguration<F> {
    fn default() -> (r: RateLimitConfiguration<F>)
        ensures
            r.is_default(),
    {
        RateLimitConfiguration {
            auto_enabled: false,
            should_enable_ratelimit: None,
            threshold: 1,
            duration: Duration::from_secs(10),
        }
    }
}

/// A configuration in the making. What is not set is as in the default configuration.
pub struct RateLimitConfigurationBuilder<F> {
    pub auto_enabled: Option<bool>,
    pub should_enable_ratelimit: Option<Option<F>>,
    pub threshold: Option<u64>,
    pub duration: Option<Duration>,
}

/// Why a configuration could not be made.
#[derive(Debug)]
pub enum RateLimitConfigurationBuilderError {
    /// A field was not set and has no default value.
    UninitializedField(&'static str),
    /// The fields do not go together.
    ValidationError(String),
}

impl<F> RateLimitConfigurationBuilder<F> {
    /// Whether nothing is set.
    pub open spec fn is_unset(self) -> bool {
        &&& self.auto_enabled is None
        &&& self.should_enable_ratelimit is None
        &&& self.threshold is None
        &&& self.duration is None
    }

    /// Whether `config` has what is set here, and is as the default configuration in
    /// everything else.
    pub open spec fn describes(self, config: RateLimitConfiguration<F>) -> bool {
        &&& config.auto_enabled == (match self.auto_enabled {
            Some(value) => value,
            None => false,
        })
        &&& config.should_enable_ratelimit == (match self.should_enable_ratelimit {
            Some(value) => value,
            None => None,
        })
        &&& config.threshold == (match self.threshold {
            Some(value) => value,
            None => 1,
        })
        &&& config.duration@ == (match self.duration {
            Some(value) => value@,
            None => (10 * NANOS_PER_SEC) as nat,
        })
    }

    /// Sets whether every event is limited.
    pub fn auto_enabled(self, value: bool) -> (r: RateLimitConfigurationBuilder<F>)
        ensures
            r == (RateLimitConfigurationBuilder { auto_enabled: Some(value), ..self }),
    {
        let mut new = self;
        new.auto_enabled = Some(value);
        new
    }

    /// Sets the function that decides whether an event is limited.
    pub fn should_enable_ratelimit(self, value: Option<F>) -> (r: RateLimitConfigurationBuilder<F>)
        ensures
            r == (RateLimitConfigurationBuilder { should_enable_ratelimit: Some(value), ..self }),
    {
        let mut new = self;
        new.should_enable_ratelimit = Some(value);
        new
    }

    /// Sets how often an event may be seen in a window before it is limited.
    pub fn threshold(self, value: u64) -> (r: RateLimitConfigurationBuilder<F>)
        ensures
            r == (RateLimitConfigurationBuilder { threshold: Some(value), ..self }),
    {
        let mut new = self;
        new.threshold = Some(value);
        new
    }

    /// Sets how long a window lasts.
    pub fn duration(self, value: Duration) -> (r: RateLimitConfigurationBuilder<F>)
        ensures
            r == (RateLimitConfigurationBuilder { duration: Some(value), ..self }),
    {
        let mut new = self;
        new.duration = Some(value);
        new
    }

    /// Makes the configuration. As every field has a default value, this always
    /// succeeds.
    pub fn build(self) -> (r: Result<
        RateLimitConfiguration<F>,
        RateLimitConfigurationBuilderError,
    >)
        ensures
            r is Ok,
            self.describes(r->Ok_0),
            self.threshold is Some ==> r->Ok_0.threshold == self.threshold->0,
            self.duration is Some ==> r->Ok_0.duration == self.duration->0,
            self.auto_enabled is Some ==> r->Ok_0.auto_enabled == self.auto_enabled->0,
            self.should_enable_ratelimit is Some ==> r->Ok_0.should_enable_ratelimit
                == self.should_enable_ratelimit->0,
    {
        let default: RateLimitConfiguration<F> = RateLimitConfiguration::default();
        Ok(
            RateLimitConfiguration {
                auto_enabled: match self.auto_enabled {
                    Some(value) => value,
                    None => default.auto_enabled,
                },
                should_enable_ratelimit: match self.should_enable_ratelimit {
                    Some(value) => value,
                    None => default.should_enable_ratelimit,
                },
                threshold: match self.threshold {
                    Some(value) => value,
                    None => default.threshold,
                },
                duration: match self.duration {
                    Some(value) => value,
                    None => default.duration,
                },
            },
        )
    }
}

impl<F> Default for RateLimitConfigurationBuilder<F> {
    fn default() -> (r: RateLimitConfigurationBuilder<F>)
        ensures
            r.is_unset(),
    {
        RateLimitConfigurationBuilder {
            auto_enabled: None,
            should_enable_ratelimit: None,
            threshold: None,
            duration: None,
        }
    }
}

/// A configuration in which nothing was set is the default configuration.
pub proof fn law_nothing_set_is_the_default<F>(
    builder: RateLimitConfigurationBuilder<F>,
    config: RateLimitConfiguration<F>,
)
    requires
        builder.is_unset(),
        builder.describes(config),
    ensures
        config.is_default(),
{
}

} // verus!
