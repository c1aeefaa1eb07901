//! How a layer is set up, and how time is measured.

use vstd::prelude::*;

use crate::config::{
    RateLimitConfiguration, RateLimitConfigurationBuilder, RateLimitConfigurationBuilderError,
};
use crate::layer::RateLimitedLayer;
use crate::time::{Duration, Instant};

verus! {

/// Building always succeeds, and the configuration has every value that was set, whatever
/// else is set and however large the value is. What was not set is as follows: no event is
/// limited but by its own word, after one occurrence in ten seconds.
pub proof fn law_build_keeps_what_was_set<F>(
    builder: RateLimitConfigurationBuilder<F>,
    made: Result<RateLimitConfiguration<F>, RateLimitConfigurationBuilderError>,
)
    requires
        call_ensures(RateLimitConfigurationBuilder::<F>::build, (builder,), made),
    ensures
        made is Ok,
        builder.threshold is Some ==> Some(made->Ok_0.threshold) == builder.threshold,
        builder.duration is Some ==> Some(made->Ok_0.duration) == builder.duration,
        builder.auto_enabled is Some ==> Some(made->Ok_0.auto_enabled) == builder.auto_enabled,
        builder.should_enable_ratelimit is Some ==> Some(made->Ok_0.should_enable_ratelimit)
            == builder.should_enable_ratelimit,
        builder.threshold is None ==> made->Ok_0.threshold == 1,
        builder.duration is None ==> made->Ok_0.duration@ == 10_000_000_000,
        builder.auto_enabled is None ==> !made->Ok_0.auto_enabled,
        builder.should_enable_ratelimit is None ==> made->Ok_0.should_enable_ratelimit is None,
{
}

/// To set one thing in a builder is to have it set and to change nothing else, so that what
/// was set last is what is built.
pub proof fn law_setting_one_thing_keeps_the_others<F>(
    builder: RateLimitConfigurationBuilder<F>,
    threshold: u64,
    duration: Duration,
    auto_enabled: bool,
    should_enable_ratelimit: Option<F>,
    with_threshold: RateLimitConfigurationBuilder<F>,
    with_duration: RateLimitConfigurationBuilder<F>,
    with_auto_enabled: RateLimitConfigurationBuilder<F>,
    with_function: RateLimitConfigurationBuilder<F>,
)
    requires
        call_ensures(
            RateLimitConfigurationBuilder::<F>::threshold,
            (builder, threshold),
            with_threshold,
        ),
        call_ensures(
            RateLimitConfigurationBuilder::<F>::duration,
            (builder, duration),
            with_duration,
        ),
        call_ensures(
            RateLimitConfigurationBuilder::<F>::auto_enabled,
            (builder, auto_enabled),
            with_auto_enabled,
        ),
        call_ensures(
            RateLimitConfigurationBuilder::<F>::should_enable_ratelimit,
            (builder, should_enable_ratelimit),
            with_function,
        ),
    ensures
        with_threshold.threshold == Some(threshold),
        with_threshold.duration == builder.duration,
        with_threshold.auto_enabled == builder.auto_enabled,
        with_threshold.should_enable_ratelimit == builder.should_enable_ratelimit,
        with_duration.threshold == builder.threshold,
        with_duration.duration == Some(duration),
        with_duration.auto_enabled == builder.auto_enabled,
        with_duration.should_enable_ratelimit == builder.should_enable_ratelimit,
        with_auto_enabled.threshold == builder.threshold,
        with_auto_enabled.duration == builder.duration,
        with_auto_enabled.auto_enabled == Some(auto_enabled),
        with_auto_enabled.should_enable_ratelimit == builder.should_enable_ratelimit,
        with_function.threshold == builder.threshold,
        with_function.duration == builder.duration,
        with_function.auto_enabled == builder.auto_enabled,
        with_function.should_enable_ratelimit == Some(should_enable_ratelimit),
{
}

/// A builder that was not touched has nothing set, so that it builds what the default
/// configuration is.
pub proof fn law_untouched_builder_builds_the_default<F>(
    builder: RateLimitConfigurationBuilder<F>,
    made: Result<RateLimitConfiguration<F>, RateLimitConfigurationBuilderError>,
    default: RateLimitConfiguration<F>,
)
    requires
        call_ensures(<RateLimitConfigurationBuilder<F> as Default>::default, (), builder),
        call_ensures(RateLimitConfigurationBuilder::<F>::build, (builder,), made),
        call_ensures(<RateLimitConfiguration<F> as Default>::default, (), default),
    ensures
        builder.threshold is None && builder.duration is None,
        builder.auto_enabled is None && builder.should_enable_ratelimit is None,
        made->Ok_0.threshold == default.threshold == 1,
        made->Ok_0.duration@ == default.duration@ == 10_000_000_000,
        !made->Ok_0.auto_enabled && !default.auto_enabled,
        made->Ok_0.should_enable_ratelimit is None && default.should_enable_ratelimit is None,
{
}

/// A new layer has the default configuration around the given layer, and to give it a
/// configuration is to give it exactly that one and to leave the layer inside it.
pub proof fn law_layer_has_the_configuration_it_was_given<L, F>(
    inner: L,
    new: RateLimitedLayer<L, F>,
    layer: RateLimitedLayer<L, F>,
    config: RateLimitConfiguration<F>,
    configured: RateLimitedLayer<L, F>,
)
    requires
        call_ensures(RateLimitedLayer::<L, F>::new, (inner,), new),
        call_ensures(RateLimitedLayer::<L, F>::with_config, (layer, config), configured),
    ensures
        new.inner == inner,
        new.config.threshold == 1,
        new.config.duration@ == 10_000_000_000,
        !new.config.auto_enabled,
        new.config.should_enable_ratelimit is None,
        configured.inner == layer.inner,
        configured.config == config,
{
}

/// Where every event is limited, so is this one; else it is limited where there is a function
/// that says so of it, and only there. The function is called on the event and on no other.
pub proof fn law_configuration_chooses<L, F: Fn(&E) -> bool, E>(
    layer: RateLimitedLayer<L, F>,
    event: E,
    chosen: bool,
)
    requires
        call_ensures(
            RateLimitedLayer::<L, F>::should_ratelimit_event::<E>,
            (&layer, &event),
            chosen,
        ),
    ensures
        layer.config.auto_enabled ==> chosen,
        !layer.config.auto_enabled && layer.config.should_enable_ratelimit is None ==> !chosen,
        !layer.config.auto_enabled && layer.config.should_enable_ratelimit is Some ==> call_ensures(
            layer.config.should_enable_ratelimit->0,
            (&event,),
            chosen,
        ),
{
}

/// The configuration can be asked about an event wherever its function can be called on the
/// event, and also where there is no function, or where every event is limited anyway.
pub proof fn law_configuration_can_be_asked<F: Fn(&E) -> bool, E>(
    config: RateLimitConfiguration<F>,
    event: E,
)
    ensures
        config.may_ask(event) <==> config.auto_enabled || config.should_enable_ratelimit is None
            || call_requires(config.should_enable_ratelimit->0, (&event,)),
{
}

/// A duration is as long as it was asked to be: a second has 1,000,000,000 nanoseconds, and
/// a millisecond 1,000,000.
pub proof fn law_durations_are_as_long_as_asked(
    secs: u64,
    nanos: u32,
    millis: u64,
    new: Duration,
    from_secs: Duration,
    from_millis: Duration,
)
    requires
        call_ensures(Duration::new, (secs, nanos), new),
        call_ensures(Duration::from_secs, (secs,), from_secs),
        call_ensures(Duration::from_millis, (millis,), from_millis),
    ensures
        new@ == secs * 1_000_000_000 + nanos,
        from_secs@ == secs * 1_000_000_000,
        from_millis@ == millis * 1_000_000,
{
}

/// A duration of whole seconds and less than one more has that many whole seconds.
pub proof fn law_whole_seconds(duration: Duration, secs: u64)
    requires
        call_ensures(Duration::as_secs, (&duration,), secs),
    ensures
        secs * 1_000_000_000 <= duration@ < (secs + 1) * 1_000_000_000,
{
}

/// Seconds that were put into a duration come out of it again.
pub proof fn law_seconds_come_back(secs: u64, duration: Duration, back: u64)
    requires
        call_ensures(Duration::from_secs, (secs,), duration),
        call_ensures(Duration::as_secs, (&duration,), back),
    ensures
        back == secs,
{
}

/// Durations are ordered by their length.
pub proof fn law_durations_are_ordered(left: Duration, right: Duration, at_least: bool)
    requires
        call_ensures(Duration::at_least, (&left, &right), at_least),
    ensures
        at_least <==> right@ <= left@,
{
}

/// The time from one point to a later one, added to the first, gives the second; from a
/// point to an earlier one no time goes by.
pub proof fn law_time_goes_by(
    since_origin: Duration,
    at: Instant,
    from: Instant,
    to: Instant,
    time: Duration,
)
    requires
        call_ensures(Instant::at, (since_origin,), at),
        call_ensures(Instant::saturating_duration_since, (&to, &from), time),
    ensures
        at@ == since_origin@,
        from@ <= to@ ==> from@ + time@ == to@,
        to@ <= from@ ==> time@ == 0,
{
}

} // verus!
