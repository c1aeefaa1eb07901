//! What the fields of an event or a span stand for, taken together.

use vstd::prelude::*;

use crate::decision::{is_read, reads_field, EventRecordView};
use crate::keys::{RateLimitedSpanKeys, SpanKeysView};
use crate::value::{
    decimal, digits, field_views, Field, FieldValueView, FieldView, TraceValue, TraceValueView,
};
use crate::visit::{
    asks_for_limit, message_in, reads_limit_field, LimitVisitor, MessageVisitor,
};

verus! {

/// The number in a field, where it holds one; a negative one counts as zero.
pub open spec fn number_in(field: FieldView) -> Option<u64> {
    match field.value {
        FieldValueView::I64(value) => Some(
            if value < 0 {
                0
            } else {
                value as u64
            },
        ),
        FieldValueView::U64(value) => Some(value),
        _ => None,
    }
}

/// The value by which a field that holds `value` tells the uses of an event apart: numbers
/// and booleans by what they are, texts by their characters.
pub open spec fn told_apart_by(value: FieldValueView) -> TraceValueView {
    match value {
        FieldValueView::Bool(value) => TraceValueView::Bool(value),
        FieldValueView::I64(value) => TraceValueView::Int(value),
        FieldValueView::U64(value) => TraceValueView::Uint(value),
        FieldValueView::Str(value) => TraceValueView::String(value),
        FieldValueView::Debug(text) => TraceValueView::String(text),
    }
}

/// The length of the window that a field sets, where it sets one.
pub open spec fn secs_set_by(field: FieldView) -> Option<u64> {
    if field.name == "internal_log_rate_secs"@ {
        number_in(field)
    } else {
        None
    }
}

/// The threshold that a field sets, where it sets one.
pub open spec fn count_set_by(field: FieldView) -> Option<u64> {
    if field.name == "internal_log_rate_count"@ {
        number_in(field)
    } else {
        None
    }
}

/// Whether a field asks for the event to be limited or not to be, where it does either.
pub open spec fn limit_set_by(field: FieldView) -> Option<bool> {
    match field.value {
        FieldValueView::Bool(value) => if field.name == "internal_log_rate_limit"@ {
            Some(value)
        } else {
            None
        },
        _ => if secs_set_by(field) is Some || count_set_by(field) is Some {
            Some(true)
        } else {
            None
        },
    }
}

/// The component that a field names, where it names one.
pub open spec fn component_set_by(field: FieldView) -> Option<TraceValueView> {
    if field.name == "component_id"@ {
        Some(told_apart_by(field.value))
    } else {
        None
    }
}

/// The use within a component that a field names, where it names one.
pub open spec fn uid_set_by(field: FieldView) -> Option<TraceValueView> {
    if field.name == "ratelimit_uid"@ {
        Some(told_apart_by(field.value))
    } else {
        None
    }
}

/// The value that the last field with a value has.
pub open spec fn last_set<T>(
    fields: Seq<FieldView>,
    set_by: spec_fn(FieldView) -> Option<T>,
) -> Option<T>
    decreases fields.len(),
{
    if fields.len() == 0 {
        None
    } else if set_by(fields.last()) is Some {
        set_by(fields.last())
    } else {
        last_set(fields.drop_last(), set_by)
    }
}

/// `last_set` is the value of the field after which no other one has a value.
pub proof fn law_last_set<T>(
    fields: Seq<FieldView>,
    set_by: spec_fn(FieldView) -> Option<T>,
    i: int,
)
    requires
        0 <= i < fields.len(),
        set_by(fields[i]) is Some,
        forall|j: int| i < j < fields.len() ==> set_by(#[trigger] fields[j]) is None,
    ensures
        last_set(fields, set_by) == set_by(fields[i]),
    decreases fields.len(),
{
    let before = fields.drop_last();
    if i < before.len() {
        assert(set_by(fields[fields.len() - 1]) is None);
        assert forall|j: int| i < j < before.len() implies set_by(#[trigger] before[j]) is None by {
            assert(before[j] == fields[j]);
        }
        law_last_set(before, set_by, i);
    }
}

/// Where no field has a value, `last_set` has none.
pub proof fn law_none_set<T>(fields: Seq<FieldView>, set_by: spec_fn(FieldView) -> Option<T>)
    requires
        forall|j: int| 0 <= j < fields.len() ==> set_by(#[trigger] fields[j]) is None,
    ensures
        last_set(fields, set_by) is None,
    decreases fields.len(),
{
    if fields.len() > 0 {
        let before = fields.drop_last();
        assert(set_by(fields[fields.len() - 1]) is None);
        assert forall|j: int| 0 <= j < before.len() implies set_by(
            #[trigger] before[j],
        ) is None by {
            assert(before[j] == fields[j]);
        }
        law_none_set(before, set_by);
    }
}

proof fn lemma_names_differ()
    ensures
        "internal_log_rate_limit"@ != "internal_log_rate_secs"@,
        "internal_log_rate_limit"@ != "internal_log_rate_count"@,
        "internal_log_rate_secs"@ != "internal_log_rate_count"@,
        "component_id"@ != "ratelimit_uid"@,
{
    reveal_strlit("internal_log_rate_limit");
    reveal_strlit("internal_log_rate_secs");
    reveal_strlit("internal_log_rate_count");
    reveal_strlit("component_id");
    reveal_strlit("ratelimit_uid");
    assert("internal_log_rate_limit"@[18] == 'l');
    assert("internal_log_rate_count"@[18] == 'c');
    assert("internal_log_rate_secs"@.len() == 22);
    assert("internal_log_rate_limit"@.len() == 23);
    assert("component_id"@.len() == 12);
}

/// Of the fields that set the same thing, the last one decides: whether the event is
/// limited, how long the window is, and the threshold.
pub proof fn law_last_limit_field_decides(fields: Seq<FieldView>)
    ensures
        LimitVisitor::asked_by(fields).limit == last_set(fields, |f: FieldView| limit_set_by(f)),
        LimitVisitor::asked_by(fields).limit_secs == last_set(
            fields,
            |f: FieldView| secs_set_by(f),
        ),
        LimitVisitor::asked_by(fields).limit_count == last_set(
            fields,
            |f: FieldView| count_set_by(f),
        ),
    decreases fields.len(),
{
    lemma_names_differ();
    if fields.len() > 0 {
        law_last_limit_field_decides(fields.drop_last());
    }
}

/// Of the fields that set the same key, the last one decides; a key that none of them
/// sets stays as it was.
pub proof fn law_last_key_field_decides(keys: SpanKeysView, fields: Seq<FieldView>)
    ensures
        keys.recorded_all(fields).component_id == (match last_set(
            fields,
            |f: FieldView| component_set_by(f),
        ) {
            Some(component_id) => Some(component_id),
            None => keys.component_id,
        }),
        keys.recorded_all(fields).ratelimit_uid == (match last_set(
            fields,
            |f: FieldView| uid_set_by(f),
        ) {
            Some(ratelimit_uid) => Some(ratelimit_uid),
            None => keys.ratelimit_uid,
        }),
    decreases fields.len(),
{
    lemma_names_differ();
    if fields.len() > 0 {
        law_last_key_field_decides(keys, fields.drop_last());
    }
}

/// Of several messages, the first one is the message of the event.
pub proof fn law_first_message_decides(fields: Seq<FieldView>, i: int)
    requires
        0 <= i < fields.len(),
        fields[i].name == "message"@,
        forall|j: int| 0 <= j < i ==> (#[trigger] fields[j]).name != "message"@,
    ensures
        message_in(fields) == Some(fields[i].value.text()),
    decreases fields.len(),
{
    let before = fields.drop_last();
    if i < before.len() {
        assert forall|j: int| 0 <= j < i implies (#[trigger] before[j]).name != "message"@ by {
            assert(before[j] == fields[j]);
        }
        law_first_message_decides(before, i);
    } else {
        assert forall|j: int| 0 <= j < before.len() implies (#[trigger] before[j]).name
            != "message"@ by {
            assert(before[j] == fields[j]);
        }
        law_no_message(before);
    }
}

/// An event without a field for it has no message.
pub proof fn law_no_message(fields: Seq<FieldView>)
    requires
        forall|j: int| 0 <= j < fields.len() ==> (#[trigger] fields[j]).name != "message"@,
    ensures
        message_in(fields) is None,
    decreases fields.len(),
{
    if fields.len() > 0 {
        let before = fields.drop_last();
        assert(fields[fields.len() - 1].name != "message"@);
        assert forall|j: int| 0 <= j < before.len() implies (#[trigger] before[j]).name
            != "message"@ by {
            assert(before[j] == fields[j]);
        }
        law_no_message(before);
    }
}

/// To record fields in two lots, one after the other, is to record them all at once: what
/// is recorded on a span later is kept as if the span had had it from the start.
pub proof fn law_fields_in_two_lots(
    keys: SpanKeysView,
    first: Seq<FieldView>,
    second: Seq<FieldView>,
)
    ensures
        keys.recorded_all(first).recorded_all(second) == keys.recorded_all(first + second),
    decreases second.len(),
{
    if second.len() == 0 {
        assert(first + second =~= first);
    } else {
        law_fields_in_two_lots(keys, first, second.drop_last());
        assert((first + second).drop_last() =~= first + second.drop_last());
    }
}

/// The fields that are read.
pub open spec fn read_fields(fields: Seq<FieldView>) -> Seq<FieldView> {
    fields.filter(|field: FieldView| is_read(field.name))
}

/// Fields with a name that is not read may be left out: they bear on nothing.
pub proof fn law_unread_fields_do_not_matter(keys: SpanKeysView, fields: Seq<FieldView>)
    ensures
        LimitVisitor::asked_by(read_fields(fields)) == LimitVisitor::asked_by(fields),
        message_in(read_fields(fields)) == message_in(fields),
        keys.recorded_all(read_fields(fields)) == keys.recorded_all(fields),
    decreases fields.len(),
{
    reveal(Seq::filter);
    if fields.len() > 0 {
        let before = fields.drop_last();
        law_unread_fields_do_not_matter(keys, before);
        if is_read(fields.last().name) {
            assert(read_fields(fields).drop_last() =~= read_fields(before));
        }
    }
}

/// The fields that can ask for a limit.
pub open spec fn limit_fields(fields: Seq<FieldView>) -> Seq<FieldView> {
    fields.filter(|field: FieldView| asks_for_limit(field.name))
}

/// Which limit an event asks for rests on nothing but the fields that can ask for one.
pub proof fn law_limit_fields_alone_ask(fields: Seq<FieldView>)
    ensures
        LimitVisitor::asked_by(limit_fields(fields)) == LimitVisitor::asked_by(fields),
    decreases fields.len(),
{
    reveal(Seq::filter);
    if fields.len() > 0 {
        let before = fields.drop_last();
        law_limit_fields_alone_ask(before);
        if asks_for_limit(fields.last().name) {
            assert(limit_fields(fields).drop_last() =~= limit_fields(before));
        }
    }
}

/// The message of an event is that of its first field for one, as a text; where there is
/// none, it is the name of the event.
pub proof fn law_message_of_an_event(record: EventRecordView)
    ensures
        forall|i: int|
            0 <= i < record.fields.len() && (#[trigger] record.fields[i]).name == "message"@ && (
            forall|j: int| 0 <= j < i ==> (#[trigger] record.fields[j]).name != "message"@)
                ==> record.message() == record.fields[i].value.text(),
        (forall|j: int|
            0 <= j < record.fields.len() ==> (#[trigger] record.fields[j]).name != "message"@)
            ==> record.message() == record.name,
{
    assert forall|i: int|
        0 <= i < record.fields.len() && (#[trigger] record.fields[i]).name == "message"@ && (
        forall|j: int| 0 <= j < i ==> (#[trigger] record.fields[j]).name != "message"@) implies
        record.message() == record.fields[i].value.text() by {
        law_first_message_decides(record.fields, i);
    }
    if forall|j: int|
        0 <= j < record.fields.len() ==> (#[trigger] record.fields[j]).name != "message"@ {
        law_no_message(record.fields);
    }
}

/// A string, and the debug text of a value of any other type, is its own text. A boolean is
/// shown by its name, an integer in decimal.
pub proof fn law_text_of_a_value(value: FieldValueView)
    ensures
        value matches FieldValueView::Str(string) ==> value.text() == string,
        value matches FieldValueView::Debug(text) ==> value.text() == text,
        value == FieldValueView::Bool(true) ==> value.text() == "true"@,
        value == FieldValueView::Bool(false) ==> value.text() == "false"@,
        value matches FieldValueView::I64(number) ==> is_decimal(value.text(), number as int),
        value matches FieldValueView::U64(number) ==> is_decimal(value.text(), number as int),
{
    match value {
        FieldValueView::I64(number) => law_decimal_text(number as int),
        FieldValueView::U64(number) => law_decimal_text(number as int),
        _ => {},
    }
}

/// The number that decimal digits stand for.
pub open spec fn read_digits(text: Seq<char>) -> int
    decreases text.len(),
{
    if text.len() == 0 {
        0
    } else {
        10 * read_digits(text.drop_last()) + (text.last() as int - '0' as int)
    }
}

/// Whether `text` is `n` in decimal: digits that stand for it, with a minus sign in front
/// where it is negative, and no zero in front of other digits.
pub open spec fn is_decimal(text: Seq<char>, n: int) -> bool {
    if n < 0 {
        text.len() > 0 && text[0] == '-' && is_natural(text.skip(1), -n)
    } else {
        is_natural(text, n)
    }
}

/// Whether `text` is `n` in decimal digits, without a zero in front of others.
pub open spec fn is_natural(text: Seq<char>, n: int) -> bool {
    &&& text.len() > 0
    &&& forall|i: int| 0 <= i < text.len() ==> '0' <= #[trigger] text[i] <= '9'
    &&& text[0] == '0' ==> text.len() == 1
    &&& read_digits(text) == n
}

/// The decimal text of an integer reads back as that integer.
pub proof fn law_decimal_text(n: int)
    ensures
        is_decimal(decimal(n), n),
{
    if n < 0 {
        lemma_natural_text((-n) as nat);
        assert(decimal(n).skip(1) =~= digits((-n) as nat));
    } else {
        lemma_natural_text(n as nat);
    }
}

proof fn lemma_natural_text(n: nat)
    ensures
        is_natural(digits(n), n as int),
        n > 0 ==> digits(n)[0] != '0',
    decreases n,
{
    if n < 10 {
        assert(digits(n).drop_last() =~= Seq::empty());
        assert(read_digits(digits(n).drop_last()) == 0);
        assert(digits(n).last() as int == 48 + n);
    } else {
        lemma_natural_text(n / 10);
        assert(digits(n).drop_last() =~= digits(n / 10));
        assert(digits(n).last() as int == 48 + n % 10);
        assert(digits(n)[0] == digits(n / 10)[0]);
        assert forall|i: int| 0 <= i < digits(n).len() implies '0' <= #[trigger] digits(n)[i]
            <= '9' by {
            if i < digits(n / 10).len() {
                assert(digits(n)[i] == digits(n / 10)[i]);
            }
        }
    }
}

/// Whether keys went from `before` to `after` as where `value` was recorded for `name`: a
/// component and a use within one are kept, each in its own place, and all else is ignored.
pub open spec fn keeps_key(
    before: SpanKeysView,
    after: SpanKeysView,
    name: Seq<char>,
    value: TraceValueView,
) -> bool {
    &&& after.component_id == if name == "component_id"@ {
        Some(value)
    } else {
        before.component_id
    }
    &&& after.ratelimit_uid == if name == "ratelimit_uid"@ {
        Some(value)
    } else {
        before.ratelimit_uid
    }
}

/// A value that is recorded for a key is kept as it is and for that key alone, whatever its
/// kind.
pub proof fn law_keys_are_kept_as_recorded(
    keys: &mut RateLimitedSpanKeys,
    of_i64: &mut RateLimitedSpanKeys,
    of_u64: &mut RateLimitedSpanKeys,
    of_bool: &mut RateLimitedSpanKeys,
    of_str: &mut RateLimitedSpanKeys,
    of_debug: &mut RateLimitedSpanKeys,
    of_field: &mut RateLimitedSpanKeys,
    name: &str,
    value: TraceValue,
    signed: i64,
    unsigned: u64,
    flag: bool,
    text: &str,
    field: Field,
)
    requires
        call_ensures(RateLimitedSpanKeys::record, (keys, name, value), ()),
        call_ensures(RateLimitedSpanKeys::record_i64, (of_i64, name, signed), ()),
        call_ensures(RateLimitedSpanKeys::record_u64, (of_u64, name, unsigned), ()),
        call_ensures(RateLimitedSpanKeys::record_bool, (of_bool, name, flag), ()),
        call_ensures(RateLimitedSpanKeys::record_str, (of_str, name, text), ()),
        call_ensures(RateLimitedSpanKeys::record_debug, (of_debug, name, text), ()),
        call_ensures(RateLimitedSpanKeys::record_field, (of_field, &field), ()),
    ensures
        keeps_key(old(keys)@, final(keys)@, name@, value@),
        keeps_key(old(of_i64)@, final(of_i64)@, name@, TraceValueView::Int(signed)),
        keeps_key(old(of_u64)@, final(of_u64)@, name@, TraceValueView::Uint(unsigned)),
        keeps_key(old(of_bool)@, final(of_bool)@, name@, TraceValueView::Bool(flag)),
        keeps_key(old(of_str)@, final(of_str)@, name@, TraceValueView::String(text@)),
        keeps_key(old(of_debug)@, final(of_debug)@, name@, TraceValueView::String(text@)),
        keeps_key(
            old(of_field)@,
            final(of_field)@,
            field.name@,
            told_apart_by(field.value@),
        ),
{
    lemma_names_differ();
}

/// Of the fields that are recorded in a row, the last one for each key is what is kept; a
/// key that none of them is for stays as it was.
pub proof fn law_last_recorded_key_is_kept(keys: &mut RateLimitedSpanKeys, fields: Vec<Field>)
    requires
        call_ensures(RateLimitedSpanKeys::record_fields, (keys, &fields), ()),
    ensures
        final(keys)@.component_id == (match last_set(
            field_views(fields@),
            |f: FieldView| component_set_by(f),
        ) {
            Some(component_id) => Some(component_id),
            None => old(keys)@.component_id,
        }),
        final(keys)@.ratelimit_uid == (match last_set(
            field_views(fields@),
            |f: FieldView| uid_set_by(f),
        ) {
            Some(ratelimit_uid) => Some(ratelimit_uid),
            None => old(keys)@.ratelimit_uid,
        }),
{
    law_last_key_field_decides(old(keys)@, field_views(fields@));
}

/// Whether what is asked for went from `before` to `after` as where the number `value` was
/// recorded for `name`: a length or a threshold is kept as it is and asks for a limit, and
/// all else is ignored.
pub open spec fn keeps_number(
    before: LimitVisitor,
    after: LimitVisitor,
    name: Seq<char>,
    value: u64,
) -> bool {
    &&& after.limit_secs == if name == "internal_log_rate_secs"@ {
        Some(value)
    } else {
        before.limit_secs
    }
    &&& after.limit_count == if name == "internal_log_rate_count"@ {
        Some(value)
    } else {
        before.limit_count
    }
    &&& after.limit == if name == "internal_log_rate_secs"@ || name == "internal_log_rate_count"@ {
        Some(true)
    } else {
        before.limit
    }
}

/// Numbers for the length of the window and for the threshold are kept as they are, a
/// negative one as zero, and ask for a limit; a boolean asks for a limit or for none. No
/// other field asks for anything.
pub proof fn law_limits_are_kept_as_asked(
    of_bool: &mut LimitVisitor,
    of_i64: &mut LimitVisitor,
    of_u64: &mut LimitVisitor,
    of_field: &mut LimitVisitor,
    name: &str,
    flag: bool,
    signed: i64,
    unsigned: u64,
    field: Field,
)
    requires
        call_ensures(LimitVisitor::record_bool, (of_bool, name, flag), ()),
        call_ensures(LimitVisitor::record_i64, (of_i64, name, signed), ()),
        call_ensures(LimitVisitor::record_u64, (of_u64, name, unsigned), ()),
        call_ensures(LimitVisitor::record_field, (of_field, &field), ()),
    ensures
        final(of_bool).limit == if name@ == "internal_log_rate_limit"@ {
            Some(flag)
        } else {
            old(of_bool).limit
        },
        final(of_bool).limit_secs == old(of_bool).limit_secs,
        final(of_bool).limit_count == old(of_bool).limit_count,
        signed >= 0 ==> keeps_number(*old(of_i64), *final(of_i64), name@, signed as u64),
        signed < 0 ==> keeps_number(*old(of_i64), *final(of_i64), name@, 0),
        keeps_number(*old(of_u64), *final(of_u64), name@, unsigned),
        final(of_field).limit == (match limit_set_by(field@) {
            Some(limit) => Some(limit),
            None => old(of_field).limit,
        }),
        final(of_field).limit_secs == (match secs_set_by(field@) {
            Some(secs) => Some(secs),
            None => old(of_field).limit_secs,
        }),
        final(of_field).limit_count == (match count_set_by(field@) {
            Some(count) => Some(count),
            None => old(of_field).limit_count,
        }),
{
    lemma_names_differ();
}

/// What an event asks for is what the last of its fields for it says, and nothing where
/// there is none.
pub proof fn law_last_asked_limit_is_kept(fields: Vec<Field>, asked: LimitVisitor)
    requires
        call_ensures(LimitVisitor::visit, (&fields,), asked),
    ensures
        asked.limit == last_set(field_views(fields@), |f: FieldView| limit_set_by(f)),
        asked.limit_secs == last_set(field_views(fields@), |f: FieldView| secs_set_by(f)),
        asked.limit_count == last_set(field_views(fields@), |f: FieldView| count_set_by(f)),
{
    law_last_limit_field_decides(field_views(fields@));
}

/// The first text that is recorded for the message is kept as it is; nothing replaces it,
/// and nothing else is taken for it.
pub proof fn law_first_recorded_message_is_kept(
    of_str: &mut MessageVisitor,
    of_debug: &mut MessageVisitor,
    of_field: &mut MessageVisitor,
    name: &str,
    text: &str,
    field: Field,
)
    requires
        call_ensures(MessageVisitor::record_str, (of_str, name, text), ()),
        call_ensures(MessageVisitor::record_debug, (of_debug, name, text), ()),
        call_ensures(MessageVisitor::record_field, (of_field, &field), ()),
    ensures
        final(of_str)@ == if old(of_str)@ is None && name@ == "message"@ {
            Some(text@)
        } else {
            old(of_str)@
        },
        final(of_debug)@ == if old(of_debug)@ is None && name@ == "message"@ {
            Some(text@)
        } else {
            old(of_debug)@
        },
        final(of_field)@ == if old(of_field)@ is None && field.name@ == "message"@ {
            Some(field.value@.text())
        } else {
            old(of_field)@
        },
{
}

/// The fields that are read are the three that ask for a limit, the message and the two
/// keys.
pub proof fn law_fields_that_are_read(name: &str, read: bool, read_for_limit: bool)
    requires
        call_ensures(reads_field, (name,), read),
        call_ensures(reads_limit_field, (name,), read_for_limit),
    ensures
        read_for_limit <==> name@ == "internal_log_rate_limit"@ || name@
            == "internal_log_rate_secs"@ || name@ == "internal_log_rate_count"@,
        read <==> read_for_limit || name@ == "message"@ || name@ == "component_id"@ || name@
            == "ratelimit_uid"@,
        read == is_read(name@),
        read_for_limit == asks_for_limit(name@),
{
}

} // verus!
