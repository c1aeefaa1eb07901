//! What becomes of events, from what they hold and when they occur.

use vstd::prelude::*;

use crate::config::RateLimitConfiguration;
use crate::decision::{
    decision_view, CountOverflow, Decision, DecisionView, EventRecord, Limits, LimitsView,
    Occurrence,
};
use crate::events::{EventTable, RateKeyIdentifier, RateKeyView};
use crate::keys::RateLimitedSpanKeys;
use crate::laws::fields::{
    count_set_by, last_set, law_last_limit_field_decides, limit_set_by, secs_set_by,
};
use crate::laws::notices::{
    announces_start, announces_stop, fits, law_start_is_told_as_it_is, law_stop_is_told_as_it_is,
};
use crate::laws::tables::{
    all_alike, decisions_for, law_keys_are_independent, law_one_key_follows_its_state, only,
    table_after, times_of, Limited,
};
use crate::laws::windows::{
    is_over, law_one_more_occurrence, law_over_windows, law_reports_are_bounded, opener, verdicts,
};
use crate::layer::{occurrence, RateLimitedLayer};
use crate::state::{State, StateView};
use crate::time::Instant;
use crate::value::{field_views, Field, FieldView};

verus! {

/// What is known of an event when it occurs: what the table has for its key, or else a window
/// that opens now, without occurrences, with the limit and the message of this occurrence.
pub open spec fn known_state(
    table: Map<RateKeyView, StateView>,
    limits: LimitsView,
    occurrence: Occurrence,
) -> StateView {
    if table.contains_key(occurrence.key()) {
        table[occurrence.key()]
    } else {
        StateView {
            start: occurrence.now,
            count: 0,
            limit_threshold: limits.threshold,
            limit_duration: limits.duration,
            message: occurrence.record.message(),
        }
    }
}

/// Whether `decision` is made on an occurrence that is limited by `limits`, and `after` is
/// what the table holds then, where `before` is what it held.
///
/// Where the count of the event is as large as can be, there is no decision, and the table
/// stays. Else the event is limited where its window is not over and its threshold is
/// reached. Where it is not limited, the occurrence is passed on, with the news that a limit
/// stopped where more came before it than this occurrence allows. Where it is limited, the
/// occurrence is passed on if fewer came before it than it allows, starts the limit if just
/// as many came, and is withheld if more did. What is announced tells of the limit and the
/// message that the event was first seen with. Only what is kept for the key changes.
pub open spec fn decides(
    before: Map<RateKeyView, StateView>,
    limits: LimitsView,
    occurrence: Occurrence,
    decision: Option<DecisionView>,
    after: Map<RateKeyView, StateView>,
) -> bool {
    let key = occurrence.key();
    let state = known_state(before, limits, occurrence);
    let over = is_over(state.start, state.limit_duration, occurrence.now);
    let limited = !over && state.count >= state.limit_threshold;
    if state.count >= 0xffff_ffff_ffff_ffff {
        decision is None && after == before
    } else {
        &&& decision is Some
        &&& !limited && state.count <= limits.threshold ==> decision->0 is Forward
        &&& !limited && state.count > limits.threshold ==> {
            &&& decision->0 is Stopped
            &&& announces_stop(
                decision->0->Stopped_0,
                state.message,
                state.limit_duration,
                state.limit_threshold,
                state.count - limits.threshold,
            )
        }
        &&& limited && state.count < limits.threshold ==> decision->0 is Forward
        &&& limited && state.count == limits.threshold ==> {
            &&& decision->0 is Started
            &&& announces_start(
                decision->0->Started_0,
                state.message,
                state.limit_duration,
                state.limit_threshold,
            )
        }
        &&& limited && state.count > limits.threshold ==> decision->0 is Suppress
        &&& after == before.insert(
            key,
            if over || (!limited && state.count > limits.threshold) {
                StateView { start: occurrence.now, count: 1, ..state }
            } else {
                StateView { count: state.count + 1, ..state }
            },
        )
    }
}

/// What is decided about an occurrence and what is kept of it, for every table, every limit
/// and every occurrence.
pub proof fn law_one_occurrence(
    table: Map<RateKeyView, StateView>,
    limits: LimitsView,
    occurrence: Occurrence,
)
    requires
        ({
            let state = known_state(table, limits, occurrence);
            fits(state.limit_duration, state.limit_threshold)
        }),
    ensures
        decides(
            table,
            limits,
            occurrence,
            occurrence.decided(table, limits),
            occurrence.table_after(table, limits),
        ),
{
    let state = known_state(table, limits, occurrence);
    law_one_more_occurrence(state, limits.threshold, occurrence.now);
    law_start_is_told_as_it_is(state);
    if limits.threshold < state.count < 0xffff_ffff_ffff_ffff {
        law_stop_is_told_as_it_is(state, (state.count - limits.threshold) as nat);
    }
}

/// The same, of the operation itself.
pub proof fn law_on_limited_event<L, F>(
    layer: RateLimitedLayer<L, F>,
    events: &mut EventTable,
    limits: Limits,
    record: EventRecord,
    spans: Vec<RateLimitedSpanKeys>,
    now: Instant,
    result: Result<Decision, CountOverflow>,
)
    requires
        call_ensures(
            RateLimitedLayer::<L, F>::on_limited_event,
            (&layer, events, limits, &record, &spans, now),
            result,
        ),
        ({
            let state = known_state(old(events)@, limits@, occurrence(&record, &spans, now));
            fits(state.limit_duration, state.limit_threshold)
        }),
    ensures
        decides(
            old(events)@,
            limits@,
            occurrence(&record, &spans, now),
            decision_view(result),
            final(events)@,
        ),
{
    law_one_occurrence(old(events)@, limits@, occurrence(&record, &spans, now));
}

/// Whether an event with the fields `fields` is to be limited, where `chosen` says whether
/// the configuration has it limited: the configuration or its own last word has it so.
pub open spec fn asks(chosen: bool, fields: Seq<FieldView>) -> bool {
    chosen || last_set(fields, |f: FieldView| limit_set_by(f)) == Some(true)
}

/// The limit that an event with the fields `fields` is under: the last threshold and the last
/// length of the window that it sets itself, and what is configured for what it does not set,
/// whoever has the event limited.
pub open spec fn own_limits<F>(
    config: RateLimitConfiguration<F>,
    fields: Seq<FieldView>,
) -> LimitsView {
    LimitsView {
        threshold: match last_set(fields, |f: FieldView| count_set_by(f)) {
            Some(count) => count as nat,
            None => config.threshold as nat,
        },
        duration: match last_set(fields, |f: FieldView| secs_set_by(f)) {
            Some(secs) => (secs * 1_000_000_000) as nat,
            None => config.duration@,
        },
    }
}

/// An event is limited by what it asks for itself, before what is configured, also where it
/// is the configuration that has it limited; an event that is not to be limited passes
/// untouched and leaves no trace.
pub proof fn law_event_overrides_configuration<F>(
    config: RateLimitConfiguration<F>,
    chosen: bool,
    table: Map<RateKeyView, StateView>,
    occurrence: Occurrence,
)
    ensures
        ({
            let fields = occurrence.record.fields;
            let decision = config.decided(chosen, table, occurrence);
            let after = config.table_after(chosen, table, occurrence);
            &&& asks(chosen, fields) ==> {
                &&& decision == occurrence.decided(table, own_limits(config, fields))
                &&& after == occurrence.table_after(table, own_limits(config, fields))
            }
            &&& !asks(chosen, fields) ==> decision == Some(DecisionView::Forward) && after == table
        }),
{
    law_last_limit_field_decides(occurrence.record.fields);
}

/// The same, of the limit that the layer works out for an event.
pub proof fn law_event_limits<L, F>(
    layer: RateLimitedLayer<L, F>,
    chosen: bool,
    fields: Vec<Field>,
    limits: Option<Limits>,
)
    requires
        call_ensures(RateLimitedLayer::<L, F>::event_limits, (&layer, chosen, &fields), limits),
    ensures
        limits is Some <==> asks(chosen, field_views(fields@)),
        limits is Some ==> limits->0@ == own_limits(layer.config, field_views(fields@)),
{
    law_last_limit_field_decides(field_views(fields@));
}

/// Whether `decision` is made on an occurrence under the configuration `config`, and `after`
/// is what the table holds then, where `before` is what it held and `chosen` says whether the
/// configuration has the event limited.
pub open spec fn decides_under<F>(
    config: RateLimitConfiguration<F>,
    chosen: bool,
    before: Map<RateKeyView, StateView>,
    occurrence: Occurrence,
    decision: Option<DecisionView>,
    after: Map<RateKeyView, StateView>,
) -> bool {
    let fields = occurrence.record.fields;
    if asks(chosen, fields) {
        decides(before, own_limits(config, fields), occurrence, decision, after)
    } else {
        decision == Some(DecisionView::Forward) && after == before
    }
}

/// Whether what is known of an event when it occurs fits in what a state can hold.
pub open spec fn known_state_fits<F>(
    config: RateLimitConfiguration<F>,
    table: Map<RateKeyView, StateView>,
    occurrence: Occurrence,
) -> bool {
    let state = known_state(table, own_limits(config, occurrence.record.fields), occurrence);
    fits(state.limit_duration, state.limit_threshold)
}

/// What becomes of an event, from what it holds, what is configured and what is known of it,
/// where it is known whether the configuration has it limited.
pub proof fn law_on_chosen_event<L, F>(
    layer: RateLimitedLayer<L, F>,
    events: &mut EventTable,
    chosen: bool,
    record: EventRecord,
    spans: Vec<RateLimitedSpanKeys>,
    now: Instant,
    result: Result<Decision, CountOverflow>,
)
    requires
        call_ensures(
            RateLimitedLayer::<L, F>::on_chosen_event,
            (&layer, events, chosen, &record, &spans, now),
            result,
        ),
        known_state_fits(layer.config, old(events)@, occurrence(&record, &spans, now)),
    ensures
        decides_under(
            layer.config,
            chosen,
            old(events)@,
            occurrence(&record, &spans, now),
            decision_view(result),
            final(events)@,
        ),
{
    let occurrence = occurrence(&record, &spans, now);
    law_event_overrides_configuration(layer.config, chosen, old(events)@, occurrence);
    law_one_occurrence(
        old(events)@,
        own_limits(layer.config, occurrence.record.fields),
        occurrence,
    );
}

/// What becomes of an event: where the configuration has every event limited, this one is
/// limited; where it goes by a function, what that function says of the event holds; and else
/// the event's own word does.
pub proof fn law_on_event<L, F: Fn(&E) -> bool, E>(
    layer: RateLimitedLayer<L, F>,
    events: &mut EventTable,
    event: E,
    record: EventRecord,
    spans: Vec<RateLimitedSpanKeys>,
    now: Instant,
    result: Result<Decision, CountOverflow>,
)
    requires
        call_ensures(
            RateLimitedLayer::<L, F>::on_event::<E>,
            (&layer, events, &event, &record, &spans, now),
            result,
        ),
        known_state_fits(layer.config, old(events)@, occurrence(&record, &spans, now)),
    ensures
        ({
            let occurrence = occurrence(&record, &spans, now);
            let decision = decision_view(result);
            let before = old(events)@;
            let after = final(events)@;
            let config = layer.config;
            &&& config.auto_enabled ==> decides_under(
                config,
                true,
                before,
                occurrence,
                decision,
                after,
            )
            &&& !config.auto_enabled && config.should_enable_ratelimit is None ==> decides_under(
                config,
                false,
                before,
                occurrence,
                decision,
                after,
            )
            &&& !config.auto_enabled && config.should_enable_ratelimit is Some ==> {
                ||| {
                    &&& call_ensures(config.should_enable_ratelimit->0, (&event,), true)
                    &&& decides_under(config, true, before, occurrence, decision, after)
                }
                ||| {
                    &&& call_ensures(config.should_enable_ratelimit->0, (&event,), false)
                    &&& decides_under(config, false, before, occurrence, decision, after)
                }
            }
        }),
{
    let occurrence = occurrence(&record, &spans, now);
    let limits = own_limits(layer.config, occurrence.record.fields);
    law_event_overrides_configuration(layer.config, true, old(events)@, occurrence);
    law_event_overrides_configuration(layer.config, false, old(events)@, occurrence);
    law_one_occurrence(old(events)@, limits, occurrence);
    let chosen = choose|chosen: bool|
        #![trigger layer.config.may_answer(event, chosen)]
        {
            &&& layer.config.may_answer(event, chosen)
            &&& decision_view(result) == layer.config.decided(chosen, old(events)@, occurrence)
            &&& final(events)@ == layer.config.table_after(chosen, old(events)@, occurrence)
        };
    assert(layer.config.may_answer(event, chosen));
}

/// Whether every limit in `table` fits in what a state can hold.
pub open spec fn all_fit(table: Map<RateKeyView, StateView>) -> bool {
    forall|key: RateKeyView| #[trigger]
        table.contains_key(key) ==> fits(table[key].limit_duration, table[key].limit_threshold)
}

/// The limits in a table that was empty at first always fit: those that an event is under
/// do, as the configured duration does, and whatever occurs, the table keeps none but such.
pub proof fn law_limits_always_fit<F>(
    config: RateLimitConfiguration<F>,
    chosen: bool,
    table: Map<RateKeyView, StateView>,
    occurrence: Occurrence,
)
    requires
        all_fit(table),
        config.duration@ <= 18_446_744_073_709_551_615_999_999_999,
    ensures
        all_fit(Map::empty()),
        known_state_fits(config, table, occurrence),
        all_fit(config.table_after(chosen, table, occurrence)),
{
    law_event_overrides_configuration(config, chosen, table, occurrence);
    law_one_occurrence(table, own_limits(config, occurrence.record.fields), occurrence);
}

/// Whether `decision` is made on the `i`-th of the occurrences at `times` of one event that
/// was not known before, all under the limit `limits`; `message` is the message of the first.
///
/// It is answered by the window that was open before it, and by how many occurrences came in
/// that window. Where the window is over, the occurrence is passed on, with the news of how
/// many were over the threshold where any were. Else it is passed on where fewer came than
/// the threshold allows, announces the start of the limit where just as many came, and is
/// withheld where more did.
pub open spec fn is_answered(
    times: Seq<nat>,
    i: int,
    limits: LimitsView,
    message: Seq<char>,
    decision: Option<DecisionView>,
) -> bool {
    let opener = opener(times, limits.duration, i - 1);
    let count = i - opener;
    &&& decision is Some
    &&& if is_over(times[opener], limits.duration, times[i]) {
        if count > limits.threshold {
            &&& decision->0 is Stopped
            &&& announces_stop(
                decision->0->Stopped_0,
                message,
                limits.duration,
                limits.threshold,
                count - limits.threshold,
            )
        } else {
            decision->0 is Forward
        }
    } else if count < limits.threshold {
        decision->0 is Forward
    } else if count == limits.threshold {
        &&& decision->0 is Started
        &&& announces_start(decision->0->Started_0, message, limits.duration, limits.threshold)
    } else {
        decision->0 is Suppress
    }
}

/// An event that was not known before, all occurrences of which are under one limit, is
/// answered by that limit and by the times at which it occurs alone, over any number of
/// windows, whatever other events occur in between.
pub proof fn law_new_event_over_any_time(
    table: Map<RateKeyView, StateView>,
    run: Seq<Limited>,
    key: RateKeyView,
    limits: LimitsView,
    i: int,
)
    requires
        !table.contains_key(key),
        all_alike(only(run, key), key, limits),
        run.len() <= u64::MAX,
        fits(limits.duration, limits.threshold),
        0 <= i < only(run, key).len(),
    ensures
        decisions_for(table, run, key).len() == only(run, key).len(),
        is_answered(
            times_of(only(run, key)),
            i,
            limits,
            only(run, key)[0].occurrence.record.message(),
            decisions_for(table, run, key)[i],
        ),
{
    let own = only(run, key);
    let times = times_of(own);
    let first = known_state(table, limits, own[0].occurrence);
    run.lemma_filter_len(|limited: Limited| limited.occurrence.key() == key);
    law_keys_are_independent(table, run, key);
    assert(own[0].occurrence.key() == key);
    assert(times[0] == own[0].occurrence.now);
    law_one_key_follows_its_state(table, own, key, limits);
    law_over_windows(first, times, i);
    law_reports_are_bounded(first, limits.threshold, times);
    law_start_is_told_as_it_is(first);
    let count = i - opener(times, limits.duration, i - 1);
    assert(decisions_for(table, own, key)[i] is Some);
    if count > limits.threshold && is_over(
        times[opener(times, limits.duration, i - 1)],
        limits.duration,
        times[i],
    ) {
        assert(verdicts(first, limits.threshold, times)[i] is Stopped);
        law_stop_is_told_as_it_is(first, (count - limits.threshold) as nat);
    }
}

/// An occurrence, and whether the configuration has the event limited.
pub struct Emitted {
    pub chosen: bool,
    pub occurrence: Occurrence,
}

/// The table after each of `run` occurred in order, under the configuration `config`.
pub open spec fn table_behind<F>(
    config: RateLimitConfiguration<F>,
    table: Map<RateKeyView, StateView>,
    run: Seq<Emitted>,
) -> Map<RateKeyView, StateView>
    decreases run.len(),
{
    if run.len() == 0 {
        table
    } else {
        config.table_after(
            run.last().chosen,
            table_behind(config, table, run.drop_last()),
            run.last().occurrence,
        )
    }
}

/// What is decided about each of `run`, under the configuration `config`.
pub open spec fn answers<F>(
    config: RateLimitConfiguration<F>,
    table: Map<RateKeyView, StateView>,
    run: Seq<Emitted>,
) -> Seq<Option<DecisionView>>
    decreases run.len(),
{
    if run.len() == 0 {
        Seq::empty()
    } else {
        answers(config, table, run.drop_last()).push(
            config.decided(
                run.last().chosen,
                table_behind(config, table, run.drop_last()),
                run.last().occurrence,
            ),
        )
    }
}

/// The occurrences in `run`, each with the limit that it is under.
pub open spec fn limited_run<F>(
    config: RateLimitConfiguration<F>,
    run: Seq<Emitted>,
) -> Seq<Limited> {
    run.map_values(
        |emitted: Emitted|
            Limited {
                limits: own_limits(config, emitted.occurrence.record.fields),
                occurrence: emitted.occurrence,
            },
    )
}

proof fn lemma_limited_run<F>(
    config: RateLimitConfiguration<F>,
    table: Map<RateKeyView, StateView>,
    run: Seq<Emitted>,
    key: RateKeyView,
)
    requires
        forall|j: int|
            0 <= j < run.len() ==> {
                &&& (#[trigger] run[j]).occurrence.key() == key
                &&& asks(run[j].chosen, run[j].occurrence.record.fields)
            },
    ensures
        table_behind(config, table, run) == table_after(table, limited_run(config, run)),
        answers(config, table, run) == decisions_for(table, limited_run(config, run), key),
        only(limited_run(config, run), key) == limited_run(config, run),
    decreases run.len(),
{
    reveal(Seq::filter);
    let limited = limited_run(config, run);
    if run.len() > 0 {
        let before = run.drop_last();
        assert(run.last() == run[run.len() - 1]);
        assert forall|j: int| 0 <= j < before.len() implies {
            &&& (#[trigger] before[j]).occurrence.key() == key
            &&& asks(before[j].chosen, before[j].occurrence.record.fields)
        } by {
            assert(before[j] == run[j]);
        }
        lemma_limited_run(config, table, before, key);
        assert(limited.drop_last() =~= limited_run(config, before));
        law_event_overrides_configuration(
            config,
            run.last().chosen,
            table_behind(config, table, before),
            run.last().occurrence,
        );
        assert(limited =~= limited.drop_last().push(limited.last()));
    } else {
        assert(limited =~= Seq::empty());
    }
}

/// The times of the occurrences in `run`.
pub open spec fn emission_times(run: Seq<Emitted>) -> Seq<nat> {
    run.map_values(|emitted: Emitted| emitted.occurrence.now)
}

/// Under any configuration, an event that was not known before is answered by the last
/// threshold and the last length of the window among its own fields, or by what is configured
/// where it sets none, and by the times at which it occurs, over any number of windows. It
/// makes no difference whether it is the configuration that has the event limited, or its own
/// fields.
pub proof fn law_configured_event_over_any_time<F>(
    config: RateLimitConfiguration<F>,
    table: Map<RateKeyView, StateView>,
    run: Seq<Emitted>,
    key: RateKeyView,
    threshold: nat,
    duration: nat,
    i: int,
)
    requires
        !table.contains_key(key),
        run.len() <= u64::MAX,
        fits(duration, threshold),
        forall|j: int|
            0 <= j < run.len() ==> {
                let fields = (#[trigger] run[j]).occurrence.record.fields;
                &&& run[j].occurrence.key() == key
                &&& run[j].chosen || last_set(fields, |f: FieldView| limit_set_by(f)) == Some(true)
                &&& threshold == (match last_set(fields, |f: FieldView| count_set_by(f)) {
                    Some(count) => count,
                    None => config.threshold,
                })
                &&& duration == (match last_set(fields, |f: FieldView| secs_set_by(f)) {
                    Some(secs) => secs * 1_000_000_000,
                    None => config.duration@ as int,
                })
            },
        0 <= i < run.len(),
    ensures
        answers(config, table, run).len() == run.len(),
        is_answered(
            emission_times(run),
            i,
            (LimitsView { threshold, duration }),
            run[0].occurrence.record.message(),
            answers(config, table, run)[i],
        ),
{
    let limits = LimitsView { threshold, duration };
    let limited = limited_run(config, run);
    lemma_limited_run(config, table, run, key);
    assert forall|j: int| 0 <= j < limited.len() implies (#[trigger] limited[j]).occurrence.key()
        == key && limited[j].limits == limits by {
        assert(limited[j].occurrence == run[j].occurrence);
    }
    law_new_event_over_any_time(table, limited, key, limits, i);
    assert(times_of(limited) =~= emission_times(run));
    assert(limited[0].occurrence == run[0].occurrence);
}

/// A new event in its first window is passed on as often as the threshold it is under allows,
/// which is the last one among its fields where it sets one, also where the configuration has
/// every event limited; then the start of the limit is announced, and all else is withheld.
pub proof fn law_configured_event_in_its_first_window<F>(
    config: RateLimitConfiguration<F>,
    table: Map<RateKeyView, StateView>,
    run: Seq<Emitted>,
    key: RateKeyView,
    threshold: nat,
    duration: nat,
    i: int,
)
    requires
        !table.contains_key(key),
        run.len() <= u64::MAX,
        fits(duration, threshold),
        forall|j: int|
            0 <= j < run.len() ==> {
                let fields = (#[trigger] run[j]).occurrence.record.fields;
                &&& run[j].occurrence.key() == key
                &&& run[j].chosen || last_set(fields, |f: FieldView| limit_set_by(f)) == Some(true)
                &&& threshold == (match last_set(fields, |f: FieldView| count_set_by(f)) {
                    Some(count) => count,
                    None => config.threshold,
                })
                &&& duration == (match last_set(fields, |f: FieldView| secs_set_by(f)) {
                    Some(secs) => secs * 1_000_000_000,
                    None => config.duration@ as int,
                })
                &&& run[j].occurrence.now < run[0].occurrence.now + duration
            },
        0 <= i < run.len(),
    ensures
        ({
            let answer = answers(config, table, run)[i];
            &&& answer is Some
            &&& i < threshold ==> answer->0 is Forward
            &&& i == threshold ==> answer->0 is Started
            &&& i > threshold ==> answer->0 is Suppress
        }),
{
    law_configured_event_over_any_time(config, table, run, key, threshold, duration, i);
    lemma_one_window(emission_times(run), duration, i - 1);
    assert(emission_times(run)[i] == run[i].occurrence.now);
    assert(emission_times(run)[0] == run[0].occurrence.now);
}

proof fn lemma_one_window(times: Seq<nat>, duration: nat, i: int)
    requires
        i < times.len(),
        forall|j: int| 0 <= j < times.len() ==> #[trigger] times[j] < times[0] + duration,
    ensures
        opener(times, duration, i) == 0,
    decreases i,
{
    if i > 0 {
        lemma_one_window(times, duration, i - 1);
        assert(times[i] < times[0] + duration);
    }
}

/// A table is empty at first, hands out what it has for a key, or else what is made for it,
/// which it then has, and has what was last put in for a key; the others stay.
pub proof fn law_tables_keep_states<M: FnOnce() -> State>(
    new: EventTable,
    read: &mut EventTable,
    written: &mut EventTable,
    key: RateKeyIdentifier,
    other: RateKeyView,
    make: M,
    found: State,
    state: State,
)
    requires
        call_ensures(EventTable::new, (), new),
        call_ensures(EventTable::state_or_insert_with::<M>, (read, &key, make), found),
        call_ensures(EventTable::put, (written, &key, state), ()),
        other != key@,
    ensures
        !new@.contains_key(other) && !new@.contains_key(key@),
        final(read)@.contains_key(key@) && final(read)@[key@] == found@,
        old(read)@.contains_key(key@) ==> found@ == old(read)@[key@],
        !old(read)@.contains_key(key@) ==> call_ensures(make, (), found),
        final(read)@.contains_key(other) == old(read)@.contains_key(other),
        old(read)@.contains_key(other) ==> final(read)@[other] == old(read)@[other],
        final(written)@.contains_key(key@) && final(written)@[key@] == state@,
        final(written)@.contains_key(other) == old(written)@.contains_key(other),
        old(written)@.contains_key(other) ==> final(written)@[other] == old(written)@[other],
{
}

} // verus!
