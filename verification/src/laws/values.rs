//! What values are made of, and what their mathematical contents keep of them.

use vstd::prelude::*;

use crate::decision::{decision_view, CountOverflow, Decision, DecisionView, EventRecord, Limits};
use crate::events::RateKeyIdentifier;
use crate::keys::RateLimitedSpanKeys;
use crate::laws::fields::{law_first_message_decides, law_no_message};
use crate::layer::occurrence;
use crate::notice::Notice;
use crate::state::{State, Verdict, VerdictView};
use crate::time::Instant;
use crate::value::{
    field_views, Field, FieldValue, FieldValueView, FieldView, TraceValue, TraceValueView,
};
use crate::visit::{LimitVisitor, MessageVisitor};

verus! {

/// Whether `view` is of the kind of `value` and holds the same.
pub open spec fn holds_value(view: FieldValueView, value: FieldValue) -> bool {
    match value {
        FieldValue::Bool(value) => view == FieldValueView::Bool(value),
        FieldValue::I64(value) => view == FieldValueView::I64(value),
        FieldValue::U64(value) => view == FieldValueView::U64(value),
        FieldValue::Str(value) => view == FieldValueView::Str(value@),
        FieldValue::Debug(text) => view == FieldValueView::Debug(text@),
    }
}

/// Whether `views` are the names and values of `fields`, one by one and in order.
pub open spec fn hold_fields(views: Seq<FieldView>, fields: Seq<Field>) -> bool {
    &&& views.len() == fields.len()
    &&& forall|i: int|
        0 <= i < fields.len() ==> {
            &&& (#[trigger] views[i]).name == fields[i].name@
            &&& holds_value(views[i].value, fields[i].value)
        }
}

/// Whether `view` is there where `value` is, is of its kind and holds the same.
pub open spec fn holds_key(view: Option<TraceValueView>, value: Option<TraceValue>) -> bool {
    match value {
        None => view is None,
        Some(TraceValue::String(text)) => view == Some(TraceValueView::String(text@)),
        Some(TraceValue::Int(number)) => view == Some(TraceValueView::Int(number)),
        Some(TraceValue::Uint(number)) => view == Some(TraceValueView::Uint(number)),
        Some(TraceValue::Bool(flag)) => view == Some(TraceValueView::Bool(flag)),
    }
}

/// The content of a field is its name and its value.
pub proof fn law_content_of_a_field(field: Field)
    ensures
        field@.name == field.name@,
        holds_value(field@.value, field.value),
        field.value@ == field@.value,
{
}

/// The content of keys is their two values, each of its kind.
pub proof fn law_content_of_keys(keys: RateLimitedSpanKeys, id: RateKeyIdentifier)
    ensures
        holds_key(keys@.component_id, keys.component_id),
        holds_key(keys@.ratelimit_uid, keys.ratelimit_uid),
        id@.callsite == id.callsite,
        id@.rate_limit_key_values == id.rate_limit_key_values@,
{
}

/// The occurrence that is decided about is the one that was handed in: its callsite, its
/// name, all of its fields in order, the keys of all of its spans in order, and its time.
pub proof fn law_content_of_an_occurrence(
    record: EventRecord,
    spans: Vec<RateLimitedSpanKeys>,
    now: Instant,
)
    ensures
        ({
            let occurrence = occurrence(&record, &spans, now);
            &&& occurrence.record.callsite == record.callsite
            &&& occurrence.record.name == record.name@
            &&& hold_fields(occurrence.record.fields, record.fields@)
            &&& occurrence.spans.len() == spans@.len()
            &&& forall|i: int|
                0 <= i < spans@.len() ==> {
                    &&& holds_key(
                        (#[trigger] occurrence.spans[i]).component_id,
                        spans@[i].component_id,
                    )
                    &&& holds_key(occurrence.spans[i].ratelimit_uid, spans@[i].ratelimit_uid)
                }
            &&& occurrence.now == now@
        }),
{
}

/// The content of a limit and of a state is all of their numbers and times, and the message.
pub proof fn law_content_of_limits_and_states(limits: Limits, state: State)
    ensures
        limits@.threshold == limits.threshold,
        limits@.duration == limits.duration@,
        state@.start == state.start@,
        state@.count == state.count,
        state@.limit_threshold == state.limit_threshold,
        state@.limit_duration == state.limit_duration@,
        state@.message == state.message@,
{
}

/// The content of a verdict tells the four of them apart, with the number in the last.
pub proof fn law_content_of_a_verdict(verdict: Verdict)
    ensures
        verdict is Forward <==> verdict@ is Forward,
        verdict is Started <==> verdict@ is Started,
        verdict is Suppress <==> verdict@ is Suppress,
        verdict is Stopped <==> verdict@ is Stopped,
        verdict matches Verdict::Stopped(filtered_count) ==> verdict@ == VerdictView::Stopped(
            filtered_count as nat,
        ),
{
}

/// The content of a notice is where it comes from, all that is said of it, and its fields.
pub proof fn law_content_of_a_notice(notice: Notice)
    ensures
        notice@.callsite == notice.callsite,
        notice@.name == notice.name@,
        notice@.target == notice.target@,
        notice@.module == notice.module@,
        notice@.level == notice.level,
        notice@.kind == notice.kind,
        hold_fields(notice@.fields, notice.fields@),
{
}

/// The content of a decision tells the four of them apart, with the notice in those that
/// have one; and there is one exactly where the count did not overflow.
pub proof fn law_content_of_a_decision(result: Result<Decision, CountOverflow>)
    ensures
        result is Err <==> decision_view(result) is None,
        result matches Ok(decision) ==> match decision {
            Decision::Forward => decision_view(result) == Some(DecisionView::Forward),
            Decision::Started(notice) => decision_view(result) == Some(
                DecisionView::Started(notice@),
            ),
            Decision::Suppress => decision_view(result) == Some(DecisionView::Suppress),
            Decision::Stopped(notice) => decision_view(result) == Some(
                DecisionView::Stopped(notice@),
            ),
        },
{
}

/// The content of the search for a message is the message, where it was found.
pub proof fn law_content_of_a_message(visitor: MessageVisitor)
    ensures
        visitor.message is None <==> visitor@ is None,
        visitor.message matches Some(message) ==> visitor@ == Some(message@),
{
}

/// A field has the name and the value that it was made of, and a value is shown by its text.
pub proof fn law_fields_are_made_as_asked(
    name: &str,
    value: FieldValue,
    field: Field,
    text: String,
)
    requires
        call_ensures(Field::new, (name, value), field),
        call_ensures(FieldValue::text, (&value,), text),
    ensures
        field@.name == name@,
        field@.value == value@,
        text@ == value@.text(),
{
}

/// To copy a key value, keys or a state is to have the same once more.
pub proof fn law_copies_are_equal(
    value: TraceValue,
    keys: RateLimitedSpanKeys,
    state: State,
    value_copy: TraceValue,
    keys_copy: RateLimitedSpanKeys,
    state_copy: State,
)
    requires
        call_ensures(<TraceValue as Clone>::clone, (&value,), value_copy),
        call_ensures(<RateLimitedSpanKeys as Clone>::clone, (&keys,), keys_copy),
        call_ensures(<State as Clone>::clone, (&state,), state_copy),
    ensures
        value_copy == value,
        keys_copy == keys,
        state_copy == state,
{
}

/// A value becomes a key value of its kind that holds the same.
pub proof fn law_key_values_hold_what_they_are_made_of(
    flag: bool,
    signed: i64,
    unsigned: u64,
    text: String,
    of_flag: TraceValue,
    of_signed: TraceValue,
    of_unsigned: TraceValue,
    of_text: TraceValue,
)
    requires
        call_ensures(<TraceValue as From<bool>>::from, (flag,), of_flag),
        call_ensures(<TraceValue as From<i64>>::from, (signed,), of_signed),
        call_ensures(<TraceValue as From<u64>>::from, (unsigned,), of_unsigned),
        call_ensures(<TraceValue as From<String>>::from, (text,), of_text),
    ensures
        of_flag == TraceValue::Bool(flag),
        of_signed == TraceValue::Int(signed),
        of_unsigned == TraceValue::Uint(unsigned),
        of_text == TraceValue::String(text),
{
}

/// At first there are no keys, nothing is asked for, and no message was found.
pub proof fn law_nothing_at_first(
    keys: RateLimitedSpanKeys,
    asked: LimitVisitor,
    visitor: MessageVisitor,
)
    requires
        call_ensures(<RateLimitedSpanKeys as Default>::default, (), keys),
        call_ensures(<LimitVisitor as Default>::default, (), asked),
        call_ensures(<MessageVisitor as Default>::default, (), visitor),
    ensures
        keys@.component_id is None && keys@.ratelimit_uid is None,
        asked.limit is None && asked.limit_secs is None && asked.limit_count is None,
        visitor.message is None,
{
}

/// The message that is found among fields is the text of the first one for it, and none where
/// there is no such field.
pub proof fn law_message_among_fields(fields: Vec<Field>, visitor: MessageVisitor)
    requires
        call_ensures(MessageVisitor::visit, (&fields,), visitor),
    ensures
        forall|i: int|
            0 <= i < fields@.len() && (#[trigger] fields@[i]).name@ == "message"@ && (forall|j: int|
                0 <= j < i ==> (#[trigger] fields@[j]).name@ != "message"@) ==> visitor@ == Some(
                fields@[i].value@.text(),
            ),
        (forall|j: int| 0 <= j < fields@.len() ==> (#[trigger] fields@[j]).name@ != "message"@)
            ==> visitor@ is None,
{
    let views = field_views(fields@);
    assert forall|i: int|
        0 <= i < fields@.len() && (#[trigger] fields@[i]).name@ == "message"@ && (forall|j: int|
            0 <= j < i ==> (#[trigger] fields@[j]).name@ != "message"@) implies visitor@ == Some(
        fields@[i].value@.text(),
    ) by {
        assert forall|j: int| 0 <= j < i implies (#[trigger] views[j]).name != "message"@ by {
            assert(fields@[j].name@ != "message"@);
        }
        law_first_message_decides(views, i);
    }
    if forall|j: int| 0 <= j < fields@.len() ==> (#[trigger] fields@[j]).name@ != "message"@ {
        assert forall|j: int| 0 <= j < views.len() implies (#[trigger] views[j]).name
            != "message"@ by {
            assert(fields@[j].name@ != "message"@);
        }
        law_no_message(views);
    }
}

} // verus!
