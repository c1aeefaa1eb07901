//! The keys by which events are rate limited independently of each other.

use vstd::prelude::*;

use crate::value::{
    field_views, same_text, Field, FieldValue, FieldValueView, FieldView, TraceValue,
    TraceValueView,
};

verus! {

/// The field that names the component in which an event occurs.
pub const COMPONENT_ID_FIELD: &'static str = "component_id";

/// The field that tells apart the uses of an event within a component.
pub const RATELIMIT_UID: &'static str = "ratelimit_uid";

/// The values of the fields by which the uses of an event are rate limited
/// separately. If, say, an event is emitted from two components, then each
/// component has its own limit.
#[derive(Debug, PartialEq, Eq, Hash)]
pub struct RateLimitedSpanKeys {
    pub component_id: Option<TraceValue>,
    pub ratelimit_uid: Option<TraceValue>,
}

/// The mathematical content of [`RateLimitedSpanKeys`].
pub struct SpanKeysView {
    pub component_id: Option<TraceValueView>,
    pub ratelimit_uid: Option<TraceValueView>,
}

/// The content of an optional value.
pub open spec fn optional_view(value: Option<TraceValue>) -> Option<TraceValueView> {
    match value {
        Some(value) => Some(value@),
        None => None,
    }
}

/// The value in `right` where there is one, else that in `left`.
pub open spec fn right_biased<T>(left: Option<T>, right: Option<T>) -> Option<T> {
    if right is Some {
        right
    } else {
        left
    }
}

impl View for RateLimitedSpanKeys {
    type V = SpanKeysView;

    open spec fn view(&self) -> SpanKeysView {
        SpanKeysView {
            component_id: optional_view(self.component_id),
            ratelimit_uid: optional_view(self.ratelimit_uid),
        }
    }
}

/// The contents of a list of keys.
pub open spec fn keys_views(keys: Seq<RateLimitedSpanKeys>) -> Seq<SpanKeysView> {
    keys.map_values(|keys: RateLimitedSpanKeys| keys@)
}

/// The key value that the value of a field stands for.
pub open spec fn trace_value(value: FieldValueView) -> TraceValueView {
    match value {
        FieldValueView::Bool(value) => TraceValueView::Bool(value),
        FieldValueView::I64(value) => TraceValueView::Int(value),
        FieldValueView::U64(value) => TraceValueView::Uint(value),
        FieldValueView::Str(value) => TraceValueView::String(value),
        FieldValueView::Debug(text) => TraceValueView::String(text),
    }
}

impl SpanKeysView {
    /// The keys without any value.
    pub open spec fn none() -> SpanKeysView {
        SpanKeysView { component_id: None, ratelimit_uid: None }
    }

    /// The keys after the value `value` was recorded for the field `name`.
    pub open spec fn recorded(self, name: Seq<char>, value: TraceValueView) -> SpanKeysView {
        if name == COMPONENT_ID_FIELD@ {
            SpanKeysView { component_id: Some(value), ..self }
        } else if name == RATELIMIT_UID@ {
            SpanKeysView { ratelimit_uid: Some(value), ..self }
        } else {
            self
        }
    }

    /// The keys after all of `fields` were recorded in order.
    pub open spec fn recorded_all(self, fields: Seq<FieldView>) -> SpanKeysView
        decreases fields.len(),
    {
        if fields.len() == 0 {
            self
        } else {
            self.recorded_all(fields.drop_last()).recorded(
                fields.last().name,
                trace_value(fields.last().value),
            )
        }
    }

    /// The keys with those of `other` put over them.
    pub open spec fn merged(self, other: SpanKeysView) -> SpanKeysView {
        SpanKeysView {
            component_id: right_biased(self.component_id, other.component_id),
            ratelimit_uid: right_biased(self.ratelimit_uid, other.ratelimit_uid),
        }
    }

    /// The keys with each of `spans` put over them in order.
    pub open spec fn merged_all(self, spans: Seq<SpanKeysView>) -> SpanKeysView
        decreases spans.len(),
    {
        if spans.len() == 0 {
            self
        } else {
            self.merged_all(spans.drop_last()).merged(spans.last())
        }
    }
}

impl Default for RateLimitedSpanKeys {
    fn default() -> (r: RateLimitedSpanKeys)
        ensures
            r@ == SpanKeysView::none(),
    {
        RateLimitedSpanKeys { component_id: None, ratelimit_uid: None }
    }
}

impl Clone for RateLimitedSpanKeys {
    fn clone(&self) -> (r: RateLimitedSpanKeys)
        ensures
            r == *self,
    {
        RateLimitedSpanKeys {
            component_id: match &self.component_id {
                Some(component_id) => Some(component_id.clone()),
                None => None,
            },
            ratelimit_uid: match &self.ratelimit_uid {
                Some(ratelimit_uid) => Some(ratelimit_uid.clone()),
                None => None,
            },
        }
    }
}

impl RateLimitedSpanKeys {
    /// Keeps `value` where the field `name` is one of those that are tracked.
    pub fn record(&mut self, name: &str, value: TraceValue)
        ensures
            final(self)@ == old(self)@.recorded(name@, value@),
    {
        if same_text(name, COMPONENT_ID_FIELD) {
            self.component_id = Some(value);
        } else if same_text(name, RATELIMIT_UID) {
            self.ratelimit_uid = Some(value);
        }
    }

    /// Puts the keys of `other` over these: a key that `other` has replaces the one
    /// here, a key that it lacks stays.
    pub fn merge(&mut self, other: &RateLimitedSpanKeys)
        ensures
            final(self)@ == old(self)@.merged(other@),
    {
        if let Some(component_id) = &other.component_id {
            self.component_id = Some(component_id.clone());
        }
        if let Some(ratelimit_uid) = &other.ratelimit_uid {
            self.ratelimit_uid = Some(ratelimit_uid.clone());
        }
    }

    /// Records a signed integer.
    pub fn record_i64(&mut self, name: &str, value: i64)
        ensures
            final(self)@ == old(self)@.recorded(name@, TraceValueView::Int(value)),
    {
        self.record(name, TraceValue::from(value));
    }

    /// Records an unsigned integer.
    pub fn record_u64(&mut self, name: &str, value: u64)
        ensures
            final(self)@ == old(self)@.recorded(name@, TraceValueView::Uint(value)),
    {
        self.record(name, TraceValue::from(value));
    }

    /// Records a boolean.
    pub fn record_bool(&mut self, name: &str, value: bool)
        ensures
            final(self)@ == old(self)@.recorded(name@, TraceValueView::Bool(value)),
    {
        self.record(name, TraceValue::from(value));
    }

    /// Records a string.
    pub fn record_str(&mut self, name: &str, value: &str)
        ensures
            final(self)@ == old(self)@.recorded(name@, TraceValueView::String(value@)),
    {
        self.record(name, TraceValue::from(value.to_owned()));
    }

    /// Records a value of any other type by its debug text.
    pub fn record_debug(&mut self, name: &str, text: &str)
        ensures
            final(self)@ == old(self)@.recorded(name@, TraceValueView::String(text@)),
    {
        self.record(name, TraceValue::from(text.to_owned()));
    }

    /// Records one field by the way in which its value was recorded.
    pub fn record_field(&mut self, field: &Field)
        ensures
            final(self)@ == old(self)@.recorded(field@.name, trace_value(field@.value)),
    {
        let name: &str = field.name.as_str();
        match &field.value {
            FieldValue::Bool(value) => self.record_bool(name, *value),
            FieldValue::I64(value) => self.record_i64(name, *value),
            FieldValue::U64(value) => self.record_u64(name, *value),
            FieldValue::Str(value) => self.record_str(name, value.as_str()),
            FieldValue::Debug(text) => self.record_debug(name, text.as_str()),
        }
    }

    /// Records all of `fields` in order.
    pub fn record_fields(&mut self, fields: &Vec<Field>)
        ensures
            final(self)@ == old(self)@.recorded_all(field_views(fields@)),
    {
        let ghost views = field_views(fields@);
        let mut i: usize = 0;
        assert(views.take(0) =~= Seq::empty());
        while i < fields.len()
            invariant
                i <= fields.len(),
                views == field_views(fields@),
                self@ == old(self)@.recorded_all(views.take(i as int)),
            decreases fields.len() - i,
        {
            self.record_field(&fields[i]);
            assert(views.take(i + 1).drop_last() =~= views.take(i as int));
            i += 1;
        }
        assert(views.take(i as int) =~= views);
    }

    /// Puts the keys of each of `spans` over these in order.
    pub fn merge_spans(&mut self, spans: &Vec<RateLimitedSpanKeys>)
        ensures
            final(self)@ == old(self)@.merged_all(keys_views(spans@)),
    {
        let ghost views = keys_views(spans@);
        let mut i: usize = 0;
        assert(views.take(0) =~= Seq::empty());
        while i < spans.len()
            invariant
                i <= spans.len(),
                views == keys_views(spans@),
                self@ == old(self)@.merged_all(views.take(i as int)),
            decreases spans.len() - i,
        {
            self.merge(&spans[i]);
            assert(views.take(i + 1).drop_last() =~= views.take(i as int));
            i += 1;
        }
        assert(views.take(i as int) =~= views);
    }
}

} // verus!
