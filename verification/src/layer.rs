//! The layer: which events are limited, and what becomes of each.

use vstd::prelude::*;

use crate::config::RateLimitConfiguration;
use crate::decision::{
    decision_view, CountOverflow, Decision, DecisionView, EventRecord, Limits, LimitsView,
    Occurrence,
};
use crate::events::{EventTable, RateKeyIdentifier, RateKeyView};
use crate::keys::{keys_views, RateLimitedSpanKeys, SpanKeysView};
use crate::notice::{rate_limit_started_event, rate_limit_stopped_event};
use crate::state::{State, StateView, Verdict};
use crate::time::{Duration, Instant, NANOS_PER_SEC};
use crate::value::{field_views, Field, FieldView};
use crate::visit::{LimitVisitor, MessageVisitor};

verus! {

impl<F> RateLimitConfiguration<F> {
    /// The limit that holds for an event with the fields `fields`, where `chosen` says
    /// whether the configuration has the event limited: none where neither the
    /// configuration nor the event asks for one. What the event sets itself comes
    /// before what is configured.
    pub open spec fn limits(self, chosen: bool, fields: Seq<FieldView>) -> Option<LimitsView> {
        let asked = LimitVisitor::asked_by(fields);
        if chosen || asked.limit == Some(true) {
            Some(
                LimitsView {
                    threshold: match asked.limit_count {
                        Some(count) => count as nat,
                        None => self.threshold as nat,
                    },
                    duration: match asked.limit_secs {
                        Some(secs) => (secs * NANOS_PER_SEC) as nat,
                        None => self.duration@,
                    },
                },
            )
        } else {
            None
        }
    }

    /// Whether `chosen` may be the answer to whether the configuration has `event`
    /// limited.
    pub open spec fn may_answer<E>(self, event: E, chosen: bool) -> bool where F: Fn(&E) -> bool {
        if self.auto_enabled {
            chosen
        } else {
            match self.should_enable_ratelimit {
                Some(should_enable_ratelimit) => should_enable_ratelimit.ensures(
                    (&event,),
                    chosen,
                ),
                None => !chosen,
            }
        }
    }

    /// Whether the configuration may be asked about `event`: where it goes by the
    /// configured function, that function may be called on `event`.
    pub open spec fn may_ask<E>(self, event: E) -> bool where F: Fn(&E) -> bool {
        !self.auto_enabled ==> (self.should_enable_ratelimit matches Some(should_enable_ratelimit)
            ==> should_enable_ratelimit.requires((&event,)))
    }

    /// What is decided about an occurrence, where `chosen` says whether the configuration
    /// has the event limited. One that is not limited is passed on.
    pub open spec fn decided(
        self,
        chosen: bool,
        table: Map<RateKeyView, StateView>,
        occurrence: Occurrence,
    ) -> Option<DecisionView> {
        match self.limits(chosen, occurrence.record.fields) {
            Some(limits) => occurrence.decided(table, limits),
            None => Some(DecisionView::Forward),
        }
    }

    /// The table after an occurrence, where `chosen` says whether the configuration has
    /// the event limited. One that is not limited leaves no trace.
    pub open spec fn table_after(
        self,
        chosen: bool,
        table: Map<RateKeyView, StateView>,
        occurrence: Occurrence,
    ) -> Map<RateKeyView, StateView> {
        match self.limits(chosen, occurrence.record.fields) {
            Some(limits) => occurrence.table_after(table, limits),
            None => table,
        }
    }
}

/// The occurrence that the arguments of a call describe.
pub open spec fn occurrence(
    record: &EventRecord,
    spans: &Vec<RateLimitedSpanKeys>,
    now: Instant,
) -> Occurrence {
    Occurrence { record: record@, spans: keys_views(spans@), now: now@ }
}

/// A layer that limits how often an event reaches the layer inside it.
pub struct RateLimitedLayer<L, F> {
    pub inner: L,
    pub config: RateLimitConfiguration<F>,
}

impl<L, F> RateLimitedLayer<L, F> {
    /// The layer around `layer`, with the default configuration.
    pub fn new(layer: L) -> (r: RateLimitedLayer<L, F>)
        ensures
            r.inner == layer,
            r.config.is_default(),
    {
        RateLimitedLayer { inner: layer, config: RateLimitConfiguration::default() }
    }

    /// The layer with the configuration `config`.
    pub fn with_config(self, config: RateLimitConfiguration<F>) -> (r: RateLimitedLayer<L, F>)
        ensures
            r.inner == self.inner,
            r.config == config,
    {
        RateLimitedLayer { inner: self.inner, config }
    }

    /// Whether the configuration has `event` limited: it has every event limited, or the
    /// configured function says so.
    pub fn should_ratelimit_event<E>(&self, event: &E) -> (r: bool) where F: Fn(&E) -> bool
        requires
            self.config.may_ask(*event),
        ensures
            self.config.may_answer(*event, r),
    {
        if self.config.auto_enabled {
            return true;
        }
        if let Some(should_enable_ratelimit) = self.config.should_enable_ratelimit.as_ref() {
            if should_enable_ratelimit(event) {
                return true;
            }
        }
        false
    }

    /// The limit that holds for an event with the fields `fields`, where `chosen` says
    /// whether the configuration has the event limited.
    pub fn event_limits(&self, chosen: bool, fields: &Vec<Field>) -> (r: Option<Limits>)
        ensures
            r is Some <==> self.config.limits(chosen, field_views(fields@)) is Some,
            r is Some ==> Some(r->0@) == self.config.limits(chosen, field_views(fields@)),
    {
        let visitor = LimitVisitor::visit(fields);
        let limit_exists = chosen || visitor.limit.unwrap_or(false);
        if !limit_exists {
            return None;
        }
        let threshold: u64 = match visitor.limit_count {
            Some(count) => count,
            None => self.config.threshold,
        };
        let duration = match visitor.limit_secs {
            Some(limit_secs) => Duration::from_secs(limit_secs),
            None => self.config.duration,
        };
        Some(Limits { threshold, duration })
    }

    /// The keys that are kept for a new span with the fields `attrs`, where `known` are
    /// those that are kept for it already.
    pub fn on_new_span(
        &self,
        known: Option<RateLimitedSpanKeys>,
        attrs: &Vec<Field>,
    ) -> (r: RateLimitedSpanKeys)
        ensures
            r@ == (match known {
                Some(keys) => keys@,
                None => SpanKeysView::none().recorded_all(field_views(attrs@)),
            }),
    {
        match known {
            Some(keys) => keys,
            None => {
                let mut keys = RateLimitedSpanKeys::default();
                keys.record_fields(attrs);
                keys
            },
        }
    }

    /// The keys that are kept for a span after the fields `values` were recorded on it,
    /// where `known` are those that were kept before.
    pub fn on_record(
        &self,
        known: Option<RateLimitedSpanKeys>,
        values: &Vec<Field>,
    ) -> (r: RateLimitedSpanKeys)
        ensures
            r@ == (match known {
                Some(keys) => keys@.recorded_all(field_views(values@)),
                None => SpanKeysView::none().recorded_all(field_views(values@)),
            }),
    {
        let mut keys = match known {
            Some(keys) => keys,
            None => RateLimitedSpanKeys::default(),
        };
        keys.record_fields(values);
        keys
    }

    /// Decides about an occurrence of an event at `now` that is limited by `limits`.
    /// `spans` are the keys of the spans that it occurs in, from the root inwards.
    pub fn on_limited_event(
        &self,
        events: &mut EventTable,
        limits: Limits,
        record: &EventRecord,
        spans: &Vec<RateLimitedSpanKeys>,
        now: Instant,
    ) -> (r: Result<Decision, CountOverflow>)
        ensures
            decision_view(r) == occurrence(record, spans, now).decided(old(events)@, limits@),
            final(events)@ == occurrence(record, spans, now).table_after(old(events)@, limits@),
    {
        // The keys of the spans tell apart the uses of one event: several copies of one
        // component may be running.
        let mut rate_limit_key_values = RateLimitedSpanKeys::default();
        rate_limit_key_values.record_fields(&record.fields);
        rate_limit_key_values.merge_spans(spans);
        let id = RateKeyIdentifier { callsite: record.callsite, rate_limit_key_values };

        let make = || -> (state: State)
            ensures
                state@ == occurrence(record, spans, now).first_state(limits@),
            {
                let message = match MessageVisitor::visit(&record.fields).message {
                    Some(message) => message,
                    None => record.name.clone(),
                };
                State::new(message, limits.threshold, limits.duration, now)
            };
        let mut state = events.state_or_insert_with(&id, make);
        let ghost found = state@;
        if state.count == u64::MAX {
            return Err(CountOverflow);
        }
        let decision = match state.observe(limits.threshold, now) {
            Verdict::Forward => Decision::Forward,
            Verdict::Started => Decision::Started(rate_limit_started_event(&state)),
            Verdict::Suppress => Decision::Suppress,
            Verdict::Stopped(filtered_count) => Decision::Stopped(
                rate_limit_stopped_event(&state, filtered_count),
            ),
        };
        events.put(&id, state);
        assert(events@ =~= old(events)@.insert(id@, found.observed(limits@.threshold, now@)));
        Ok(decision)
    }

    /// Decides about an occurrence of an event at `now`, where `chosen` says whether the
    /// configuration has the event limited. `spans` are the keys of the spans that it
    /// occurs in, from the root inwards.
    pub fn on_chosen_event(
        &self,
        events: &mut EventTable,
        chosen: bool,
        record: &EventRecord,
        spans: &Vec<RateLimitedSpanKeys>,
        now: Instant,
    ) -> (r: Result<Decision, CountOverflow>)
        ensures
            decision_view(r) == self.config.decided(
                chosen,
                old(events)@,
                occurrence(record, spans, now),
            ),
            final(events)@ == self.config.table_after(
                chosen,
                old(events)@,
                occurrence(record, spans, now),
            ),
    {
        match self.event_limits(chosen, &record.fields) {
            Some(limits) => self.on_limited_event(events, limits, record, spans, now),
            None => Ok(Decision::Forward),
        }
    }

    /// Decides about an occurrence of `event` at `now`, of which `record` is what the
    /// layer reads. `spans` are the keys of the spans that it occurs in, from the root
    /// inwards.
    pub fn on_event<E>(
        &self,
        events: &mut EventTable,
        event: &E,
        record: &EventRecord,
        spans: &Vec<RateLimitedSpanKeys>,
        now: Instant,
    ) -> (r: Result<Decision, CountOverflow>) where F: Fn(&E) -> bool
        requires
            self.config.may_ask(*event),
        ensures
            exists|chosen: bool|
                #![trigger self.config.may_answer(*event, chosen)]
                {
                    &&& self.config.may_answer(*event, chosen)
                    &&& decision_view(r) == self.config.decided(
                        chosen,
                        old(events)@,
                        occurrence(record, spans, now),
                    )
                    &&& final(events)@ == self.config.table_after(
                        chosen,
                        old(events)@,
                        occurrence(record, spans, now),
                    )
                },
    {
        let chosen = self.should_ratelimit_event(event);
        self.on_chosen_event(events, chosen, record, spans, now)
    }
}

} // verus!
