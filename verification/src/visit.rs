//! What an event itself says about its rate limit and its message.

use vstd::prelude::*;

use crate::value::{field_views, same_text, Field, FieldValue, FieldValueView, FieldView};

verus! {

/// The boolean field that asks for an event to be rate limited, or not to be.
pub const RATE_LIMIT_FIELD: &'static str = "internal_log_rate_limit";

/// The integer field that sets the length of the window, in seconds.
pub const RATE_LIMIT_SECS_FIELD: &'static str = "internal_log_rate_secs";

/// The integer field that sets the threshold.
pub const RATE_LIMIT_COUNT_FIELD: &'static str = "internal_log_rate_count";

/// The field that holds the message of an event.
pub const MESSAGE_FIELD: &'static str = "message";

/// Whether fields with the name `name` can ask for a limit.
pub open spec fn asks_for_limit(name: Seq<char>) -> bool {
    ||| name == RATE_LIMIT_FIELD@
    ||| name == RATE_LIMIT_SECS_FIELD@
    ||| name == RATE_LIMIT_COUNT_FIELD@
}

/// Whether fields with the name `name` can ask for a limit. A field with another name does
/// not bear on which limit holds.
pub fn reads_limit_field(name: &str) -> (r: bool)
    ensures
        r == asks_for_limit(name@),
{
    same_text(name, RATE_LIMIT_FIELD) || same_text(name, RATE_LIMIT_SECS_FIELD) || same_text(
        name,
        RATE_LIMIT_COUNT_FIELD,
    )
}

/// What the fields of an event ask for.
#[derive(Clone, Copy, Debug, PartialEq, Eq)]
pub struct LimitVisitor {
    /// Whether the event is to be limited, where it says so.
    pub limit: Option<bool>,
    /// The length of the window in seconds, where the event sets it.
    pub limit_secs: Option<u64>,
    /// The threshold, where the event sets it.
    pub limit_count: Option<u64>,
}

/// `value`, or zero where it is negative.
pub open spec fn clamped(value: i64) -> u64 {
    if value < 0 {
        0
    } else {
        value as u64
    }
}

/// `value`, or zero where it is negative.
fn clamp(value: i64) -> (r: u64)
    ensures
        r == clamped(value),
{
    if value < 0 {
        0
    } else {
        value as u64
    }
}

impl LimitVisitor {
    /// Nothing asked for.
    pub open spec fn none() -> LimitVisitor {
        LimitVisitor { limit: None, limit_secs: None, limit_count: None }
    }

    /// What is asked for after the boolean `value` was recorded for the field `name`.
    pub open spec fn with_bool(self, name: Seq<char>, value: bool) -> LimitVisitor {
        if name == RATE_LIMIT_FIELD@ {
            LimitVisitor { limit: Some(value), ..self }
        } else {
            self
        }
    }

    /// What is asked for after the number `value` was recorded for the field `name`:
    /// a length or a threshold also asks for the event to be limited.
    pub open spec fn with_number(self, name: Seq<char>, value: u64) -> LimitVisitor {
        if name == RATE_LIMIT_SECS_FIELD@ {
            LimitVisitor { limit: Some(true), limit_secs: Some(value), ..self }
        } else if name == RATE_LIMIT_COUNT_FIELD@ {
            LimitVisitor { limit: Some(true), limit_count: Some(value), ..self }
        } else {
            self
        }
    }

    /// What is asked for after `field` was recorded.
    pub open spec fn with_field(self, field: FieldView) -> LimitVisitor {
        match field.value {
            FieldValueView::Bool(value) => self.with_bool(field.name, value),
            FieldValueView::I64(value) => self.with_number(field.name, clamped(value)),
            FieldValueView::U64(value) => self.with_number(field.name, value),
            FieldValueView::Str(_) => self,
            FieldValueView::Debug(_) => self,
        }
    }

    /// What `fields`, recorded in order, ask for.
    pub open spec fn asked_by(fields: Seq<FieldView>) -> LimitVisitor
        decreases fields.len(),
    {
        if fields.len() == 0 {
            LimitVisitor::none()
        } else {
            LimitVisitor::asked_by(fields.drop_last()).with_field(fields.last())
        }
    }

    /// Records a boolean.
    pub fn record_bool(&mut self, name: &str, value: bool)
        ensures
            *final(self) == old(self).with_bool(name@, value),
    {
        if same_text(name, RATE_LIMIT_FIELD) {
            self.limit = Some(value);
        }
    }

    /// Records a signed integer; a negative one counts as zero.
    pub fn record_i64(&mut self, name: &str, value: i64)
        ensures
            *final(self) == old(self).with_number(name@, clamped(value)),
    {
        if same_text(name, RATE_LIMIT_SECS_FIELD) {
            self.limit_secs = Some(clamp(value));
        } else if same_text(name, RATE_LIMIT_COUNT_FIELD) {
            self.limit_count = Some(clamp(value));
        } else {
            return;
        }
        self.limit = Some(true);
    }

    /// Records an unsigned integer.
    pub fn record_u64(&mut self, name: &str, value: u64)
        ensures
            *final(self) == old(self).with_number(name@, value),
    {
        if same_text(name, RATE_LIMIT_SECS_FIELD) {
            self.limit_secs = Some(value);
        } else if same_text(name, RATE_LIMIT_COUNT_FIELD) {
            self.limit_count = Some(value);
        } else {
            return;
        }
        self.limit = Some(true);
    }

    /// Records one field by the way in which its value was recorded; a text asks for
    /// nothing.
    pub fn record_field(&mut self, field: &Field)
        ensures
            *final(self) == old(self).with_field(field@),
    {
        let name: &str = field.name.as_str();
        match &field.value {
            FieldValue::Bool(value) => self.record_bool(name, *value),
            FieldValue::I64(value) => self.record_i64(name, *value),
            FieldValue::U64(value) => self.record_u64(name, *value),
            FieldValue::Str(_) => {},
            FieldValue::Debug(_) => {},
        }
    }

    /// Reads what `fields`, in order, ask for.
    pub fn visit(fields: &Vec<Field>) -> (r: LimitVisitor)
        ensures
            r == LimitVisitor::asked_by(field_views(fields@)),
    {
        let ghost views = field_views(fields@);
        let mut visitor = LimitVisitor::default();
        let mut i: usize = 0;
        assert(views.take(0) =~= Seq::empty());
        while i < fields.len()
            invariant
                i <= fields.len(),
                views == field_views(fields@),
                visitor == LimitVisitor::asked_by(views.take(i as int)),
            decreases fields.len() - i,
        {
            visitor.record_field(&fields[i]);
            assert(views.take(i + 1).drop_last() =~= views.take(i as int));
            i += 1;
        }
        assert(views.take(i as int) =~= views);
        visitor
    }
}

impl Default for LimitVisitor {
    fn default() -> (r: LimitVisitor)
        ensures
            r == LimitVisitor::none(),
    {
        LimitVisitor { limit: None, limit_secs: None, limit_count: None }
    }
}

/// The message of an event, once it was found.
#[derive(Debug)]
pub struct MessageVisitor {
    pub message: Option<String>,
}

/// The content of an optional text.
pub open spec fn optional_text(text: Option<String>) -> Option<Seq<char>> {
    match text {
        Some(text) => Some(text@),
        None => None,
    }
}

impl View for MessageVisitor {
    type V = Option<Seq<char>>;

    open spec fn view(&self) -> Option<Seq<char>> {
        optional_text(self.message)
    }
}

/// The message after `text` was recorded for the field `name`: the first one stays.
pub open spec fn message_with(
    message: Option<Seq<char>>,
    name: Seq<char>,
    text: Seq<char>,
) -> Option<Seq<char>> {
    if message is None && name == MESSAGE_FIELD@ {
        Some(text)
    } else {
        message
    }
}

/// The message in `fields`, recorded in order.
pub open spec fn message_in(fields: Seq<FieldView>) -> Option<Seq<char>>
    decreases fields.len(),
{
    if fields.len() == 0 {
        None
    } else {
        message_with(message_in(fields.drop_last()), fields.last().name, fields.last().value.text())
    }
}

impl Default for MessageVisitor {
    fn default() -> (r: MessageVisitor)
        ensures
            r@ is None,
    {
        MessageVisitor { message: None }
    }
}

impl MessageVisitor {
    /// Records a string.
    pub fn record_str(&mut self, name: &str, value: &str)
        ensures
            final(self)@ == message_with(old(self)@, name@, value@),
    {
        if self.message.is_none() && same_text(name, MESSAGE_FIELD) {
            self.message = Some(value.to_owned());
        }
    }

    /// Records a value of any other type by its debug text.
    pub fn record_debug(&mut self, name: &str, text: &str)
        ensures
            final(self)@ == message_with(old(self)@, name@, text@),
    {
        if self.message.is_none() && same_text(name, MESSAGE_FIELD) {
            self.message = Some(text.to_owned());
        }
    }

    /// Records one field by the way in which its value was recorded.
    pub fn record_field(&mut self, field: &Field)
        ensures
            final(self)@ == message_with(old(self)@, field@.name, field@.value.text()),
    {
        let name: &str = field.name.as_str();
        match &field.value {
            FieldValue::Str(value) => self.record_str(name, value.as_str()),
            value => {
                let text: String = value.text();
                self.record_debug(name, text.as_str());
            },
        }
    }

    /// Reads the message in `fields`.
    pub fn visit(fields: &Vec<Field>) -> (r: MessageVisitor)
        ensures
            r@ == message_in(field_views(fields@)),
    {
        let ghost views = field_views(fields@);
        let mut visitor = MessageVisitor::default();
        let mut i: usize = 0;
        assert(views.take(0) =~= Seq::empty());
        while i < fields.len()
            invariant
                i <= fields.len(),
                views == field_views(fields@),
                visitor@ == message_in(views.take(i as int)),
            decreases fields.len() - i,
        {
            visitor.record_field(&fields[i]);
            assert(views.take(i + 1).drop_last() =~= views.take(i as int));
            i += 1;
        }
        assert(views.take(i as int) =~= views);
        visitor
    }
}

} // verus!
