//! The fields of spans and events, and the values that tell one use of an event
//! from another.

use vstd::prelude::*;

verus! {

/// The value of a field, by the way in which it was recorded.
#[derive(Debug, PartialEq, Eq)]
pub enum FieldValue {
    Bool(bool),
    I64(i64),
    U64(u64),
    /// A string, as it is.
    Str(String),
    /// The debug text of a value of any other type.
    Debug(String),
}

/// The mathematical content of a [`FieldValue`].
pub enum FieldValueView {
    Bool(bool),
    I64(i64),
    U64(u64),
    Str(Seq<char>),
    Debug(Seq<char>),
}

impl View for FieldValue {
    type V = FieldValueView;

    open spec fn view(&self) -> FieldValueView {
        match self {
            FieldValue::Bool(value) => FieldValueView::Bool(*value),
            FieldValue::I64(value) => FieldValueView::I64(*value),
            FieldValue::U64(value) => FieldValueView::U64(*value),
            FieldValue::Str(value) => FieldValueView::Str(value@),
            FieldValue::Debug(text) => FieldValueView::Debug(text@),
        }
    }
}

/// A named field with its value.
#[derive(Debug, PartialEq, Eq)]
pub struct Field {
    pub name: String,
    pub value: FieldValue,
}

/// The mathematical content of a [`Field`].
pub struct FieldView {
    pub name: Seq<char>,
    pub value: FieldValueView,
}

impl View for Field {
    type V = FieldView;

    open spec fn view(&self) -> FieldView {
        FieldView { name: self.name@, value: self.value@ }
    }
}

/// The contents of a list of fields.
pub open spec fn field_views(fields: Seq<Field>) -> Seq<FieldView> {
    fields.map_values(|field: Field| field@)
}

impl Field {
    /// The field `name` with the value `value`.
    pub fn new(name: &str, value: FieldValue) -> (r: Field)
        ensures
            r@ == (FieldView { name: name@, value: value@ }),
    {
        Field { name: name.to_owned(), value }
    }
}

/// Whether two strings hold the same characters: their bytes are the same.
pub(crate) fn same_text(left: &str, right: &str) -> (r: bool)
    ensures
        r == (left@ == right@),
{
    let left_bytes = left.as_bytes();
    let right_bytes = right.as_bytes();
    proof {
        vstd::utf8::encode_utf8_decode_utf8(left@);
        vstd::utf8::encode_utf8_decode_utf8(right@);
    }
    if left_bytes.len() != right_bytes.len() {
        return false;
    }
    let mut i: usize = 0;
    while i < left_bytes.len()
        invariant
            i <= left_bytes.len(),
            left_bytes@ == vstd::utf8::encode_utf8(left@),
            right_bytes@ == vstd::utf8::encode_utf8(right@),
            left_bytes.len() == right_bytes.len(),
            left_bytes@.take(i as int) =~= right_bytes@.take(i as int),
        decreases left_bytes.len() - i,
    {
        if left_bytes[i] != right_bytes[i] {
            assert(left_bytes@[i as int] != right_bytes@[i as int]);
            return false;
        }
        assert(left_bytes@.take(i + 1) =~= left_bytes@.take(i as int).push(left_bytes@[i as int]));
        assert(right_bytes@.take(i + 1) =~= right_bytes@.take(i as int).push(
            right_bytes@[i as int],
        ));
        i += 1;
    }
    assert(left_bytes@ =~= left_bytes@.take(i as int));
    assert(right_bytes@ =~= right_bytes@.take(i as int));
    true
}

/// The decimal digit `d`.
pub open spec fn digit(d: nat) -> char
    recommends
        d < 10,
{
    (48 + d) as char
}

/// The decimal digits of `n`, without leading zeros.
pub open spec fn digits(n: nat) -> Seq<char>
    decreases n,
{
    if n < 10 {
        seq![digit(n)]
    } else {
        digits(n / 10).push(digit(n % 10))
    }
}

/// The decimal text of `n`, with a minus sign where it is negative.
pub open spec fn decimal(n: int) -> Seq<char> {
    if n < 0 {
        seq!['-'] + digits((-n) as nat)
    } else {
        digits(n as nat)
    }
}

/// The debug text of an integer.
///
/// Formats with `Debug` of `i128`, which writes an integer in decimal, with a minus
/// sign where it is negative and without leading zeros.
#[verifier::external_body]
fn integer_text(value: i128) -> (r: String)
    ensures
        r@ == decimal(value as int),
{
    format!("{value:?}")
}

impl FieldValueView {
    /// The text that stands for the value where a text is asked for: a string as it
    /// is, the debug text of anything else.
    pub open spec fn text(self) -> Seq<char> {
        match self {
            FieldValueView::Bool(value) => if value {
                "true"@
            } else {
                "false"@
            },
            FieldValueView::I64(value) => decimal(value as int),
            FieldValueView::U64(value) => decimal(value as int),
            FieldValueView::Str(value) => value,
            FieldValueView::Debug(text) => text,
        }
    }
}

impl FieldValue {
    /// The text that stands for the value where a text is asked for: a string as it
    /// is, the debug text of anything else.
    pub fn text(&self) -> (r: String)
        ensures
            r@ == self@.text(),
    {
        match self {
            FieldValue::Bool(value) => if *value {
                "true".to_owned()
            } else {
                "false".to_owned()
            },
            FieldValue::I64(value) => integer_text(*value as i128),
            FieldValue::U64(value) => integer_text(*value as i128),
            FieldValue::Str(value) => value.clone(),
            FieldValue::Debug(text) => text.clone(),
        }
    }
}

/// A value by which the uses of an event are told apart.
#[derive(Debug, PartialEq, Eq, Hash)]
pub enum TraceValue {
    String(String),
    Int(i64),
    Uint(u64),
    Bool(bool),
}

/// The mathematical content of a [`TraceValue`].
pub enum TraceValueView {
    String(Seq<char>),
    Int(i64),
    Uint(u64),
    Bool(bool),
}

impl View for TraceValue {
    type V = TraceValueView;

    open spec fn view(&self) -> TraceValueView {
        match self {
            TraceValue::String(value) => TraceValueView::String(value@),
            TraceValue::Int(value) => TraceValueView::Int(*value),
            TraceValue::Uint(value) => TraceValueView::Uint(*value),
            TraceValue::Bool(value) => TraceValueView::Bool(*value),
        }
    }
}

impl Clone for TraceValue {
    fn clone(&self) -> (r: TraceValue)
        ensures
            r == *self,
    {
        match self {
            TraceValue::String(value) => TraceValue::String(value.clone()),
            TraceValue::Int(value) => TraceValue::Int(*value),
            TraceValue::Uint(value) => TraceValue::Uint(*value),
            TraceValue::Bool(value) => TraceValue::Bool(*value),
        }
    }
}

impl From<bool> for TraceValue {
    fn from(b: bool) -> (r: TraceValue) {
        TraceValue::Bool(b)
    }
}

impl vstd::std_specs::convert::FromSpecImpl<bool> for TraceValue {
    open spec fn obeys_from_spec() -> bool {
        true
    }

    open spec fn from_spec(b: bool) -> TraceValue {
        TraceValue::Bool(b)
    }
}

impl From<i64> for TraceValue {
    fn from(i: i64) -> (r: TraceValue) {
        TraceValue::Int(i)
    }
}

impl vstd::std_specs::convert::FromSpecImpl<i64> for TraceValue {
    open spec fn obeys_from_spec() -> bool {
        true
    }

    open spec fn from_spec(i: i64) -> TraceValue {
        TraceValue::Int(i)
    }
}

impl From<u64> for TraceValue {
    fn from(u: u64) -> (r: TraceValue) {
        TraceValue::Uint(u)
    }
}

impl vstd::std_specs::convert::FromSpecImpl<u64> for TraceValue {
    open spec fn obeys_from_spec() -> bool {
        true
    }

    open spec fn from_spec(u: u64) -> TraceValue {
        TraceValue::Uint(u)
    }
}

impl From<String> for TraceValue {
    fn from(s: String) -> (r: TraceValue) {
        TraceValue::String(s)
    }
}

impl vstd::std_specs::convert::FromSpecImpl<String> for TraceValue {
    open spec fn obeys_from_spec() -> bool {
        true
    }

    open spec fn from_spec(s: String) -> TraceValue {
        TraceValue::String(s)
    }
}

} // verus!
