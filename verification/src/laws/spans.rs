//! How the keys of the spans that an event occurs in go together.

use vstd::prelude::*;

use crate::decision::{LimitsView, Occurrence};
use crate::events::RateKeyView;
use crate::keys::{keys_views, RateLimitedSpanKeys, SpanKeysView};
use crate::laws::fields::{
    component_set_by, last_set, law_fields_in_two_lots, law_last_key_field_decides, uid_set_by,
};
use crate::layer::RateLimitedLayer;
use crate::state::StateView;
use crate::value::{field_views, Field, FieldView};

verus! {

/// To put keys without a value over others, or under them, changes nothing.
pub proof fn law_merge_with_none(keys: SpanKeysView)
    ensures
        keys.merged(SpanKeysView::none()) == keys,
        SpanKeysView::none().merged(keys) == keys,
{
}

/// It does not matter whether the outer two or the inner two of three are put together
/// first.
pub proof fn law_merge_is_associative(
    first: SpanKeysView,
    second: SpanKeysView,
    third: SpanKeysView,
)
    ensures
        first.merged(second).merged(third) == first.merged(second.merged(third)),
{
}

/// To put the same keys over others twice is to do it once.
pub proof fn law_merge_is_idempotent(keys: SpanKeysView, other: SpanKeysView)
    ensures
        keys.merged(other).merged(other) == keys.merged(other),
{
}

/// The innermost span that names a component decides which one it is, whatever the
/// spans around it and the event itself say.
pub proof fn law_innermost_component_decides(keys: SpanKeysView, spans: Seq<SpanKeysView>, i: int)
    requires
        0 <= i < spans.len(),
        spans[i].component_id is Some,
        forall|j: int| i < j < spans.len() ==> (#[trigger] spans[j]).component_id is None,
    ensures
        keys.merged_all(spans).component_id == spans[i].component_id,
    decreases spans.len(),
{
    let before = spans.drop_last();
    if i < before.len() {
        assert(spans[spans.len() - 1].component_id is None);
        assert forall|j: int| i < j < before.len() implies (#[trigger] before[j]).component_id
            is None by {
            assert(before[j] == spans[j]);
        }
        law_innermost_component_decides(keys, before, i);
    }
}

/// The innermost span that names a use within a component decides which one it is,
/// whatever the spans around it and the event itself say.
pub proof fn law_innermost_uid_decides(keys: SpanKeysView, spans: Seq<SpanKeysView>, i: int)
    requires
        0 <= i < spans.len(),
        spans[i].ratelimit_uid is Some,
        forall|j: int| i < j < spans.len() ==> (#[trigger] spans[j]).ratelimit_uid is None,
    ensures
        keys.merged_all(spans).ratelimit_uid == spans[i].ratelimit_uid,
    decreases spans.len(),
{
    let before = spans.drop_last();
    if i < before.len() {
        assert(spans[spans.len() - 1].ratelimit_uid is None);
        assert forall|j: int| i < j < before.len() implies (#[trigger] before[j]).ratelimit_uid
            is None by {
            assert(before[j] == spans[j]);
        }
        law_innermost_uid_decides(keys, before, i);
    }
}

/// Where no span names a component, the event's own one stays.
pub proof fn law_component_of_the_event_stays(keys: SpanKeysView, spans: Seq<SpanKeysView>)
    requires
        forall|j: int| 0 <= j < spans.len() ==> (#[trigger] spans[j]).component_id is None,
    ensures
        keys.merged_all(spans).component_id == keys.component_id,
    decreases spans.len(),
{
    if spans.len() > 0 {
        let before = spans.drop_last();
        assert(spans[spans.len() - 1].component_id is None);
        assert forall|j: int| 0 <= j < before.len() implies (#[trigger] before[j]).component_id
            is None by {
            assert(before[j] == spans[j]);
        }
        law_component_of_the_event_stays(keys, before);
    }
}

/// Where no span names a use within a component, the event's own one stays.
pub proof fn law_uid_of_the_event_stays(keys: SpanKeysView, spans: Seq<SpanKeysView>)
    requires
        forall|j: int| 0 <= j < spans.len() ==> (#[trigger] spans[j]).ratelimit_uid is None,
    ensures
        keys.merged_all(spans).ratelimit_uid == keys.ratelimit_uid,
    decreases spans.len(),
{
    if spans.len() > 0 {
        let before = spans.drop_last();
        assert(spans[spans.len() - 1].ratelimit_uid is None);
        assert forall|j: int| 0 <= j < before.len() implies (#[trigger] before[j]).ratelimit_uid
            is None by {
            assert(before[j] == spans[j]);
        }
        law_uid_of_the_event_stays(keys, before);
    }
}

/// To put keys over others is to keep each key that is there, and to leave each other one as
/// it was; the one key does not bear on the other.
pub proof fn law_merge_keeps_what_is_there(
    keys: &mut RateLimitedSpanKeys,
    other: RateLimitedSpanKeys,
)
    requires
        call_ensures(RateLimitedSpanKeys::merge, (keys, &other), ()),
    ensures
        final(keys)@.component_id == if other@.component_id is Some {
            other@.component_id
        } else {
            old(keys)@.component_id
        },
        final(keys)@.ratelimit_uid == if other@.ratelimit_uid is Some {
            other@.ratelimit_uid
        } else {
            old(keys)@.ratelimit_uid
        },
{
}

/// Whether the `i`-th of `spans` is the innermost one that names a component.
pub open spec fn names_component(spans: Seq<SpanKeysView>, i: int) -> bool {
    &&& 0 <= i < spans.len()
    &&& spans[i].component_id is Some
    &&& forall|j: int| i < j < spans.len() ==> (#[trigger] spans[j]).component_id is None
}

/// Whether the `i`-th of `spans` is the innermost one that names a use within a component.
pub open spec fn names_uid(spans: Seq<SpanKeysView>, i: int) -> bool {
    &&& 0 <= i < spans.len()
    &&& spans[i].ratelimit_uid is Some
    &&& forall|j: int| i < j < spans.len() ==> (#[trigger] spans[j]).ratelimit_uid is None
}

/// When spans are put over keys one by one, each key is in the end that of the innermost
/// span that has one, at whatever depth that span lies; where no span has one, it stays.
pub proof fn law_innermost_span_decides(
    keys: &mut RateLimitedSpanKeys,
    spans: Vec<RateLimitedSpanKeys>,
)
    requires
        call_ensures(RateLimitedSpanKeys::merge_spans, (keys, &spans), ()),
    ensures
        forall|i: int|
            #[trigger] names_component(keys_views(spans@), i) ==> final(keys)@.component_id
                == spans@[i]@.component_id,
        forall|i: int|
            #[trigger] names_uid(keys_views(spans@), i) ==> final(keys)@.ratelimit_uid
                == spans@[i]@.ratelimit_uid,
        (forall|j: int| 0 <= j < spans@.len() ==> (#[trigger] spans@[j])@.component_id is None)
            ==> final(keys)@.component_id == old(keys)@.component_id,
        (forall|j: int| 0 <= j < spans@.len() ==> (#[trigger] spans@[j])@.ratelimit_uid is None)
            ==> final(keys)@.ratelimit_uid == old(keys)@.ratelimit_uid,
{
    let views = keys_views(spans@);
    lemma_innermost(old(keys)@, views);
    assert forall|j: int| 0 <= j < spans@.len() implies views[j] == (#[trigger] spans@[j])@ by {}
}

proof fn lemma_innermost(keys: SpanKeysView, spans: Seq<SpanKeysView>)
    ensures
        forall|i: int|
            #[trigger] names_component(spans, i) ==> keys.merged_all(spans).component_id
                == spans[i].component_id,
        forall|i: int|
            #[trigger] names_uid(spans, i) ==> keys.merged_all(spans).ratelimit_uid
                == spans[i].ratelimit_uid,
        (forall|j: int| 0 <= j < spans.len() ==> (#[trigger] spans[j]).component_id is None)
            ==> keys.merged_all(spans).component_id == keys.component_id,
        (forall|j: int| 0 <= j < spans.len() ==> (#[trigger] spans[j]).ratelimit_uid is None)
            ==> keys.merged_all(spans).ratelimit_uid == keys.ratelimit_uid,
{
    assert forall|i: int| #[trigger] names_component(spans, i) implies keys.merged_all(
        spans,
    ).component_id == spans[i].component_id by {
        law_innermost_component_decides(keys, spans, i);
    }
    assert forall|i: int| #[trigger] names_uid(spans, i) implies keys.merged_all(
        spans,
    ).ratelimit_uid == spans[i].ratelimit_uid by {
        law_innermost_uid_decides(keys, spans, i);
    }
    if forall|j: int| 0 <= j < spans.len() ==> (#[trigger] spans[j]).component_id is None {
        law_component_of_the_event_stays(keys, spans);
    }
    if forall|j: int| 0 <= j < spans.len() ==> (#[trigger] spans[j]).ratelimit_uid is None {
        law_uid_of_the_event_stays(keys, spans);
    }
}

/// An occurrence is limited under its callsite, and under the component and the use within
/// one that the innermost span names which names one at all, at whatever depth; where no
/// span does, under what the last of its own fields for it says.
pub proof fn law_key_of_an_occurrence(occurrence: Occurrence)
    ensures
        ({
            let spans = occurrence.spans;
            let fields = occurrence.record.fields;
            let keys = occurrence.key().rate_limit_key_values;
            &&& occurrence.key().callsite == occurrence.record.callsite
            &&& forall|i: int|
                #[trigger] names_component(spans, i) ==> keys.component_id == spans[i].component_id
            &&& forall|i: int|
                #[trigger] names_uid(spans, i) ==> keys.ratelimit_uid == spans[i].ratelimit_uid
            &&& (forall|j: int|
                0 <= j < spans.len() ==> (#[trigger] spans[j]).component_id is None)
                ==> keys.component_id == last_set(fields, |f: FieldView| component_set_by(f))
            &&& (forall|j: int|
                0 <= j < spans.len() ==> (#[trigger] spans[j]).ratelimit_uid is None)
                ==> keys.ratelimit_uid == last_set(fields, |f: FieldView| uid_set_by(f))
        }),
{
    let own = SpanKeysView::none().recorded_all(occurrence.record.fields);
    law_last_key_field_decides(SpanKeysView::none(), occurrence.record.fields);
    lemma_innermost(own, occurrence.spans);
}

/// Two occurrences around which the innermost spans that name a component, or a use within
/// one, name different ones have different keys, at whatever depths those spans lie.
pub proof fn law_spans_tell_uses_apart(left: Occurrence, right: Occurrence, i: int, j: int)
    requires
        ({
            ||| names_component(left.spans, i) && names_component(right.spans, j)
                && left.spans[i].component_id != right.spans[j].component_id
            ||| names_uid(left.spans, i) && names_uid(right.spans, j)
                && left.spans[i].ratelimit_uid != right.spans[j].ratelimit_uid
        }),
    ensures
        left.key() != right.key(),
{
    law_key_of_an_occurrence(left);
    law_key_of_an_occurrence(right);
}

/// Occurrences of different callsites have different keys.
pub proof fn law_callsites_tell_events_apart(left: Occurrence, right: Occurrence)
    requires
        left.record.callsite != right.record.callsite,
    ensures
        left.key() != right.key(),
{
}

/// Nothing but the callsite, the component and the use within it tells occurrences apart:
/// their names, times, messages and all other fields make no difference, nor does it matter
/// in which spans, or how deep, the same component and use are named.
pub proof fn law_nothing_else_tells_uses_apart(left: Occurrence, right: Occurrence)
    requires
        left.record.callsite == right.record.callsite,
        exists|i: int, j: int|
            #[trigger] names_component(left.spans, i) && #[trigger] names_component(right.spans, j)
                && left.spans[i].component_id == right.spans[j].component_id,
        exists|i: int, j: int|
            #[trigger] names_uid(left.spans, i) && #[trigger] names_uid(right.spans, j)
                && left.spans[i].ratelimit_uid == right.spans[j].ratelimit_uid,
    ensures
        left.key() == right.key(),
{
    law_key_of_an_occurrence(left);
    law_key_of_an_occurrence(right);
}

/// The same holds of occurrences in the same spans whose own fields name the same component
/// and the same use within it, or neither.
pub proof fn law_nothing_else_tells_uses_apart_in_the_same_spans(
    left: Occurrence,
    right: Occurrence,
)
    requires
        left.record.callsite == right.record.callsite,
        left.spans == right.spans,
        last_set(left.record.fields, |f: FieldView| component_set_by(f)) == last_set(
            right.record.fields,
            |f: FieldView| component_set_by(f),
        ),
        last_set(left.record.fields, |f: FieldView| uid_set_by(f)) == last_set(
            right.record.fields,
            |f: FieldView| uid_set_by(f),
        ),
    ensures
        left.key() == right.key(),
{
    law_last_key_field_decides(SpanKeysView::none(), left.record.fields);
    law_last_key_field_decides(SpanKeysView::none(), right.record.fields);
}

/// Each use of a callsite has a limit of its own: what is decided about an occurrence in one
/// component, and what is kept of it, is the same whether or not the callsite was used in
/// another component just before.
pub proof fn law_components_are_limited_separately(
    table: Map<RateKeyView, StateView>,
    first: Occurrence,
    first_limits: LimitsView,
    second: Occurrence,
    second_limits: LimitsView,
    i: int,
    j: int,
)
    requires
        names_component(first.spans, i),
        names_component(second.spans, j),
        first.spans[i].component_id != second.spans[j].component_id,
    ensures
        second.decided(first.table_after(table, first_limits), second_limits) == second.decided(
            table,
            second_limits,
        ),
        second.table_after(first.table_after(table, first_limits), second_limits)[second.key()]
            == second.table_after(table, second_limits)[second.key()],
{
    law_spans_tell_uses_apart(first, second, i, j);
}

/// A new span keeps the last value that it was given for each key, and none for a key that
/// it was not given; a span that is known already keeps what it has.
pub proof fn law_new_spans_keep_their_keys<L, F>(
    layer: RateLimitedLayer<L, F>,
    known: RateLimitedSpanKeys,
    attrs: Vec<Field>,
    new: RateLimitedSpanKeys,
    kept: RateLimitedSpanKeys,
)
    requires
        call_ensures(RateLimitedLayer::<L, F>::on_new_span, (&layer, None, &attrs), new),
        call_ensures(RateLimitedLayer::<L, F>::on_new_span, (&layer, Some(known), &attrs), kept),
    ensures
        new@.component_id == last_set(field_views(attrs@), |f: FieldView| component_set_by(f)),
        new@.ratelimit_uid == last_set(field_views(attrs@), |f: FieldView| uid_set_by(f)),
        kept@ == known@,
{
    law_last_key_field_decides(SpanKeysView::none(), field_views(attrs@));
}

/// What is recorded on a span later replaces what the span has for that key, and no other
/// key; a span of which nothing is known yet starts with none.
pub proof fn law_later_records_replace_keys<L, F>(
    layer: RateLimitedLayer<L, F>,
    known: RateLimitedSpanKeys,
    values: Vec<Field>,
    after: RateLimitedSpanKeys,
    first: RateLimitedSpanKeys,
)
    requires
        call_ensures(RateLimitedLayer::<L, F>::on_record, (&layer, Some(known), &values), after),
        call_ensures(RateLimitedLayer::<L, F>::on_record, (&layer, None, &values), first),
    ensures
        ({
            let component = last_set(field_views(values@), |f: FieldView| component_set_by(f));
            let uid = last_set(field_views(values@), |f: FieldView| uid_set_by(f));
            &&& component is Some ==> after@.component_id == component
            &&& component is None ==> after@.component_id == known@.component_id
            &&& uid is Some ==> after@.ratelimit_uid == uid
            &&& uid is None ==> after@.ratelimit_uid == known@.ratelimit_uid
            &&& first@.component_id == component
            &&& first@.ratelimit_uid == uid
        }),
{
    law_last_key_field_decides(known@, field_views(values@));
    law_last_key_field_decides(SpanKeysView::none(), field_views(values@));
}

/// A span that is given some fields from the start and others later has in the end what it
/// would have if it had been given all of them from the start.
pub proof fn law_later_records_are_as_good_as_early_ones<L, F>(
    layer: RateLimitedLayer<L, F>,
    attrs: Vec<Field>,
    values: Vec<Field>,
    all: Vec<Field>,
    new: RateLimitedSpanKeys,
    after: RateLimitedSpanKeys,
    at_once: RateLimitedSpanKeys,
)
    requires
        call_ensures(RateLimitedLayer::<L, F>::on_new_span, (&layer, None, &attrs), new),
        call_ensures(RateLimitedLayer::<L, F>::on_record, (&layer, Some(new), &values), after),
        all@ == attrs@ + values@,
        call_ensures(RateLimitedLayer::<L, F>::on_new_span, (&layer, None, &all), at_once),
    ensures
        after@ == at_once@,
{
    law_fields_in_two_lots(SpanKeysView::none(), field_views(attrs@), field_views(values@));
    assert(field_views(all@) =~= field_views(attrs@) + field_views(values@));
}

} // verus!
