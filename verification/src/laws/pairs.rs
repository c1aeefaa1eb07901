//! How two uses of one operation relate.

use vstd::prelude::*;

use crate::config::RateLimitConfiguration;
use crate::decision::{LimitsView, Occurrence};
use crate::events::RateKeyView;
use crate::keys::SpanKeysView;
use crate::laws::fields::{
    count_set_by, last_set, law_decimal_text, law_last_key_field_decides,
    law_last_limit_field_decides, limit_set_by, secs_set_by,
};
use crate::laws::notices::{
    fits, law_order_of_the_fields, law_start_is_told_as_it_is, law_stop_is_told_as_it_is,
};
use crate::laws::spans::law_key_of_an_occurrence;
use crate::notice::{started_notice, stopped_notice};
use crate::state::StateView;
use crate::value::{decimal, FieldValueView, FieldView};

verus! {

/// Nothing of the times bears on an occurrence but whether the window is over: of two events
/// that were seen as often, under the same thresholds, both in windows that are over or both
/// in windows that are not, the same becomes, however long their windows last.
pub proof fn law_only_the_end_of_the_window_matters(
    left: StateView,
    right: StateView,
    limit: nat,
    left_now: nat,
    right_now: nat,
)
    requires
        left.count == right.count,
        left.limit_threshold == right.limit_threshold,
        left.limit_duration > 0,
        right.limit_duration > 0,
        left.start + left.limit_duration <= left_now <==> right.start + right.limit_duration
            <= right_now,
    ensures
        left.verdict(limit, left_now) == right.verdict(limit, right_now),
        left.observed(limit, left_now).count == right.observed(limit, right_now).count,
{
}

/// Nothing of the counts bears on an occurrence but how far they are from the thresholds: to
/// have seen the event more often by some number, and to allow for that many more, makes no
/// difference.
pub proof fn law_only_the_distance_to_the_threshold_matters(
    left: StateView,
    right: StateView,
    more: nat,
    limit: nat,
    now: nat,
)
    requires
        right.start == left.start,
        right.limit_duration == left.limit_duration,
        right.count == left.count + more,
        right.limit_threshold == left.limit_threshold + more,
    ensures
        left.verdict(limit, now) == right.verdict(limit + more, now),
        left.observed(limit, now).start == right.observed(limit + more, now).start,
{
}

/// It makes no difference when the clock started: where all times are later by the same span
/// of time, the same becomes of an occurrence.
pub proof fn law_only_spans_of_time_matter(
    left: StateView,
    right: StateView,
    later: nat,
    limit: nat,
    now: nat,
)
    requires
        right == (StateView { start: left.start + later, ..left }),
    ensures
        left.verdict(limit, now) == right.verdict(limit, now + later),
        left.observed(limit, now).start + later == right.observed(limit, now + later).start,
        left.observed(limit, now).count == right.observed(limit, now + later).count,
{
}

/// The message of an event bears on what is announced, and on nothing else.
pub proof fn law_messages_do_not_decide(left: StateView, message: Seq<char>, limit: nat, now: nat)
    ensures
        ({
            let right = StateView { message, ..left };
            &&& left.verdict(limit, now) == right.verdict(limit, now)
            &&& right.observed(limit, now) == (StateView { message, ..left.observed(limit, now) })
        }),
{
}

/// Where the limit stops, one occurrence more in the window makes the number that is announced
/// one larger.
pub proof fn law_each_occurrence_adds_one_to_the_report(state: StateView, limit: nat, now: nat)
    requires
        state.start + state.limit_duration <= now,
        state.count > limit,
    ensures
        ({
            let more = StateView { count: state.count + 1, ..state };
            &&& state.verdict(limit, now) is Stopped
            &&& more.verdict(limit, now) is Stopped
            &&& more.verdict(limit, now)->Stopped_0 == state.verdict(limit, now)->Stopped_0 + 1
        }),
{
}

/// It makes no difference whether the configuration has an event limited that has itself
/// limited anyway.
pub proof fn law_being_chosen_adds_nothing<F>(
    config: RateLimitConfiguration<F>,
    table: Map<RateKeyView, StateView>,
    occurrence: Occurrence,
)
    requires
        last_set(occurrence.record.fields, |f: FieldView| limit_set_by(f)) == Some(true),
    ensures
        config.decided(true, table, occurrence) == config.decided(false, table, occurrence),
        config.table_after(true, table, occurrence) == config.table_after(false, table, occurrence),
{
    law_last_limit_field_decides(occurrence.record.fields);
}

/// What is configured makes no difference to an event that is limited and sets both its
/// threshold and its window itself.
pub proof fn law_own_limits_leave_nothing_to_the_configuration<F>(
    left: RateLimitConfiguration<F>,
    right: RateLimitConfiguration<F>,
    table: Map<RateKeyView, StateView>,
    occurrence: Occurrence,
)
    requires
        last_set(occurrence.record.fields, |f: FieldView| count_set_by(f)) is Some,
        last_set(occurrence.record.fields, |f: FieldView| secs_set_by(f)) is Some,
    ensures
        left.decided(true, table, occurrence) == right.decided(true, table, occurrence),
        left.table_after(true, table, occurrence) == right.table_after(true, table, occurrence),
{
    law_last_limit_field_decides(occurrence.record.fields);
}

/// To set a threshold and a window in the fields of an event is as good as to configure them.
pub proof fn law_asking_is_as_good_as_configuring<F>(
    left: RateLimitConfiguration<F>,
    right: RateLimitConfiguration<F>,
    fields: Seq<FieldView>,
    plain: Seq<FieldView>,
    count: u64,
    secs: u64,
)
    requires
        fields == plain.push(
            FieldView {
                name: "internal_log_rate_count"@,
                value: FieldValueView::U64(count),
            },
        ).push(
            FieldView { name: "internal_log_rate_secs"@, value: FieldValueView::U64(secs) },
        ),
        last_set(plain, |f: FieldView| count_set_by(f)) is None,
        last_set(plain, |f: FieldView| secs_set_by(f)) is None,
        right.threshold == count,
        right.duration@ == secs * 1_000_000_000,
    ensures
        left.limits(true, fields) == right.limits(true, plain),
        left.limits(false, fields) == right.limits(true, plain),
{
    reveal_strlit("internal_log_rate_count");
    reveal_strlit("internal_log_rate_secs");
    assert("internal_log_rate_count"@.len() == 23);
    assert("internal_log_rate_secs"@.len() == 22);
    law_last_limit_field_decides(fields);
    law_last_limit_field_decides(plain);
    let counted = fields.drop_last();
    assert(counted.drop_last() =~= plain);
    assert(counted.last() == FieldView {
        name: "internal_log_rate_count"@,
        value: FieldValueView::U64(count),
    });
    assert(fields.last() == FieldView {
        name: "internal_log_rate_secs"@,
        value: FieldValueView::U64(secs),
    });
    assert(last_set(counted, |f: FieldView| count_set_by(f)) == Some(count));
    assert(last_set(fields, |f: FieldView| count_set_by(f)) == Some(count));
    assert(last_set(fields, |f: FieldView| secs_set_by(f)) == Some(secs));
    assert(last_set(fields, |f: FieldView| limit_set_by(f)) == Some(true));
}

/// Two occurrences of one callsite outside of any span whose components are different values
/// of one kind have different keys; and so do a text, a number with a sign, one without and a
/// boolean. The same text has the same key, however it was recorded.
pub proof fn law_components_of_events_tell_uses_apart(
    left: Occurrence,
    right: Occurrence,
    left_value: FieldValueView,
    right_value: FieldValueView,
)
    requires
        left.record.callsite == right.record.callsite,
        left.spans.len() == 0,
        right.spans.len() == 0,
        left.record.fields == seq![FieldView { name: "component_id"@, value: left_value }],
        right.record.fields == seq![FieldView { name: "component_id"@, value: right_value }],
    ensures
        left.key() == right.key() <==> match (left_value, right_value) {
            (FieldValueView::Bool(left), FieldValueView::Bool(right)) => left == right,
            (FieldValueView::I64(left), FieldValueView::I64(right)) => left == right,
            (FieldValueView::U64(left), FieldValueView::U64(right)) => left == right,
            (FieldValueView::Str(left), FieldValueView::Str(right)) => left == right,
            (FieldValueView::Str(left), FieldValueView::Debug(right)) => left == right,
            (FieldValueView::Debug(left), FieldValueView::Str(right)) => left == right,
            (FieldValueView::Debug(left), FieldValueView::Debug(right)) => left == right,
            _ => false,
        },
{
    law_key_of_an_occurrence(left);
    law_key_of_an_occurrence(right);
    law_last_key_field_decides(SpanKeysView::none(), left.record.fields);
    law_last_key_field_decides(SpanKeysView::none(), right.record.fields);
    reveal_strlit("component_id");
    reveal_strlit("ratelimit_uid");
    assert("component_id"@.len() == 12);
    assert("ratelimit_uid"@.len() == 13);
    assert(left.record.fields.drop_last() =~= Seq::empty());
    assert(right.record.fields.drop_last() =~= Seq::empty());
    reveal_with_fuel(last_set, 2);
    reveal_with_fuel(SpanKeysView::recorded_all, 2);
}

/// The same of the uses within a component.
pub proof fn law_uids_of_events_tell_uses_apart(
    left: Occurrence,
    right: Occurrence,
    left_value: FieldValueView,
    right_value: FieldValueView,
)
    requires
        left.record.callsite == right.record.callsite,
        left.spans.len() == 0,
        right.spans.len() == 0,
        left.record.fields == seq![FieldView { name: "ratelimit_uid"@, value: left_value }],
        right.record.fields == seq![FieldView { name: "ratelimit_uid"@, value: right_value }],
    ensures
        left.key() == right.key() <==> match (left_value, right_value) {
            (FieldValueView::Bool(left), FieldValueView::Bool(right)) => left == right,
            (FieldValueView::I64(left), FieldValueView::I64(right)) => left == right,
            (FieldValueView::U64(left), FieldValueView::U64(right)) => left == right,
            (FieldValueView::Str(left), FieldValueView::Str(right)) => left == right,
            (FieldValueView::Str(left), FieldValueView::Debug(right)) => left == right,
            (FieldValueView::Debug(left), FieldValueView::Str(right)) => left == right,
            (FieldValueView::Debug(left), FieldValueView::Debug(right)) => left == right,
            _ => false,
        },
{
    law_key_of_an_occurrence(left);
    law_key_of_an_occurrence(right);
    law_last_key_field_decides(SpanKeysView::none(), left.record.fields);
    law_last_key_field_decides(SpanKeysView::none(), right.record.fields);
    reveal_strlit("component_id");
    reveal_strlit("ratelimit_uid");
    assert("component_id"@.len() == 12);
    assert("ratelimit_uid"@.len() == 13);
    assert(left.record.fields.drop_last() =~= Seq::empty());
    assert(right.record.fields.drop_last() =~= Seq::empty());
    reveal_with_fuel(last_set, 2);
    reveal_with_fuel(SpanKeysView::recorded_all, 2);
}

/// Notices tell limits apart: events that are told of in the same words have the same message,
/// the same threshold, windows of the same whole seconds, and the same number of occurrences
/// over the threshold.
pub proof fn law_notices_tell_limits_apart(
    left: StateView,
    right: StateView,
    left_count: nat,
    right_count: nat,
)
    requires
        fits(left.limit_duration, left.limit_threshold),
        fits(right.limit_duration, right.limit_threshold),
        left_count <= u64::MAX,
        right_count <= u64::MAX,
    ensures
        started_notice(left).fields == started_notice(right).fields ==> {
            &&& left.message == right.message
            &&& left.limit_threshold == right.limit_threshold
            &&& left.limit_duration / 1_000_000_000 == right.limit_duration / 1_000_000_000
        },
        stopped_notice(left, left_count).fields == stopped_notice(right, right_count).fields ==> {
            &&& left.message == right.message
            &&& left.limit_threshold == right.limit_threshold
            &&& left.limit_duration / 1_000_000_000 == right.limit_duration / 1_000_000_000
            &&& left_count == right_count
        },
{
    law_order_of_the_fields(left, left_count);
    law_order_of_the_fields(right, right_count);
    law_start_is_told_as_it_is(left);
    law_start_is_told_as_it_is(right);
    law_stop_is_told_as_it_is(left, left_count);
    law_stop_is_told_as_it_is(right, right_count);
    let started = started_notice(left).fields;
    let stopped = stopped_notice(left, left_count).fields;
    assert(started[1].name == "ratelimited_message"@ && stopped[1].name == started[1].name);
    assert(started[2].name == "ratelimit_duration"@ && stopped[2].name == started[2].name);
    assert(started[3].name == "ratelimit_threshold"@ && stopped[3].name == started[3].name);
    assert(stopped[4].name == "filtered_count"@);
}

/// Each number in a notice, found by its name, is the number itself: the whole seconds of the
/// window, the threshold, and how many were over it.
pub proof fn law_numbers_in_notices(state: StateView, filtered_count: nat, i: int)
    requires
        fits(state.limit_duration, state.limit_threshold),
        filtered_count <= u64::MAX,
        0 <= i < stopped_notice(state, filtered_count).fields.len(),
    ensures
        ({
            let field = stopped_notice(state, filtered_count).fields[i];
            &&& field.name == "ratelimit_duration"@ ==> field.value is U64 && field.value->U64_0
                == state.limit_duration as int / 1_000_000_000
            &&& field.name == "ratelimit_threshold"@ ==> field.value is U64 && field.value->U64_0
                == state.limit_threshold
            &&& field.name == "filtered_count"@ ==> field.value is U64 && field.value->U64_0
                == filtered_count
            &&& field.name == "ratelimited_message"@ ==> field.value == FieldValueView::Str(
                state.message,
            )
            &&& i < 4 && i != 0 ==> started_notice(state).fields[i] == field
        }),
{
    law_stop_is_told_as_it_is(state, filtered_count);
    law_start_is_told_as_it_is(state);
}

/// Different integers have different decimal texts.
pub proof fn law_decimal_texts_differ(left: int, right: int)
    requires
        decimal(left) == decimal(right),
    ensures
        left == right,
{
    law_decimal_text(left);
    law_decimal_text(right);
}

/// The first occurrence of an event is passed on where its threshold allows for any, whatever
/// else the table holds, and whatever its message, window and time.
pub proof fn law_first_occurrences_pass(
    table: Map<RateKeyView, StateView>,
    limits: LimitsView,
    occurrence: Occurrence,
)
    requires
        !table.contains_key(occurrence.key()),
        limits.threshold > 0,
    ensures
        occurrence.decided(table, limits) is Some,
        occurrence.decided(table, limits)->0 is Forward,
        occurrence.table_after(table, limits).contains_key(occurrence.key()),
        occurrence.table_after(table, limits)[occurrence.key()] == (StateView {
            start: occurrence.now,
            count: 1,
            limit_threshold: limits.threshold,
            limit_duration: limits.duration,
            message: occurrence.record.message(),
        }),
{
}

} // verus!
