//! The events that tell of the start and the end of a rate limit.

use vstd::prelude::*;

use crate::state::{State, StateView};
use crate::time::whole_secs;
use crate::value::{field_views, Field, FieldValue, FieldValueView, FieldView};
use crate::visit::MESSAGE_FIELD;

verus! {

/// The field that holds the message of the event that is limited.
pub const RATELIMITED_MESSAGE_FIELD: &'static str = "ratelimited_message";

/// The field that holds the length of the window in seconds.
pub const RATELIMIT_DURATION_FIELD: &'static str = "ratelimit_duration";

/// The field that holds the threshold.
pub const RATELIMIT_THRESHOLD_FIELD: &'static str = "ratelimit_threshold";

/// The field that holds the number of occurrences over the threshold.
pub const FILTERED_COUNT_FIELD: &'static str = "filtered_count";

/// The message that tells of the start of a rate limit.
pub const RATE_LIMIT_STARTED_MESSAGE: &'static str = "event is being rate limited";

/// The message that tells of the end of a rate limit.
pub const RATE_LIMIT_STOPPED_MESSAGE: &'static str = "event stopped being rate limited";

/// The name of the events that tell of a rate limit.
pub const NOTICE_NAME: &'static str = "event ratelimit";

/// The target of the events that tell of a rate limit.
pub const NOTICE_TARGET: &'static str = "ratelimit";

/// The module path of the events that tell of a rate limit.
pub const NOTICE_MODULE: &'static str = "ratelimit";

/// The level of the events that tell of a rate limit.
pub const NOTICE_LEVEL: Level = Level::Info;

/// The kind of callsite that the events that tell of a rate limit come from.
pub const NOTICE_KIND: Kind = Kind::Event;

/// How grave an event is.
#[derive(Clone, Copy, Debug, PartialEq, Eq, Structural)]
pub enum Level {
    Error,
    Warn,
    Info,
    Debug,
    Trace,
}

/// What comes from a callsite.
#[derive(Clone, Copy, Debug, PartialEq, Eq, Structural)]
pub enum Kind {
    Event,
    Span,
}

/// The callsites of the events that tell of a rate limit.
#[derive(Clone, Copy, Debug, PartialEq, Eq, Structural)]
pub enum NoticeCallsite {
    Started,
    Stopped,
}

/// An event that tells of a rate limit.
#[derive(Debug, PartialEq, Eq)]
pub struct Notice {
    pub callsite: NoticeCallsite,
    pub name: &'static str,
    pub target: &'static str,
    pub module: &'static str,
    pub level: Level,
    pub kind: Kind,
    /// The fields, in the order in which they are recorded.
    pub fields: Vec<Field>,
}

/// The mathematical content of a [`Notice`].
pub struct NoticeView {
    pub callsite: NoticeCallsite,
    pub name: Seq<char>,
    pub target: Seq<char>,
    pub module: Seq<char>,
    pub level: Level,
    pub kind: Kind,
    pub fields: Seq<FieldView>,
}

impl View for Notice {
    type V = NoticeView;

    open spec fn view(&self) -> NoticeView {
        NoticeView {
            callsite: self.callsite,
            name: self.name@,
            target: self.target@,
            module: self.module@,
            level: self.level,
            kind: self.kind,
            fields: field_views(self.fields@),
        }
    }
}

/// The event from `callsite` with the fields `fields`; all else is the same for all events
/// that tell of a rate limit.
pub open spec fn notice(callsite: NoticeCallsite, fields: Seq<FieldView>) -> NoticeView {
    NoticeView {
        callsite,
        name: "event ratelimit"@,
        target: "ratelimit"@,
        module: "ratelimit"@,
        level: Level::Info,
        kind: Kind::Event,
        fields,
    }
}

/// The event that tells that the event of `state` is limited from now on.
pub open spec fn started_notice(state: StateView) -> NoticeView {
    notice(NoticeCallsite::Started, started_fields(state))
}

/// The event that tells that the event of `state` is limited no longer.
pub open spec fn stopped_notice(state: StateView, filtered_count: nat) -> NoticeView {
    notice(NoticeCallsite::Stopped, stopped_fields(state, filtered_count))
}

/// The field `name` with the string `value`.
pub open spec fn text_field(name: Seq<char>, value: Seq<char>) -> FieldView {
    FieldView { name, value: FieldValueView::Str(value) }
}

/// The field `name` with the number `value`.
pub open spec fn number_field(name: Seq<char>, value: nat) -> FieldView {
    FieldView { name, value: FieldValueView::U64(value as u64) }
}

/// The fields that tell that the event of `state` is limited from now on.
pub open spec fn started_fields(state: StateView) -> Seq<FieldView> {
    seq![
        text_field(MESSAGE_FIELD@, RATE_LIMIT_STARTED_MESSAGE@),
        text_field(RATELIMITED_MESSAGE_FIELD@, state.message),
        number_field(RATELIMIT_DURATION_FIELD@, whole_secs(state.limit_duration)),
        number_field(RATELIMIT_THRESHOLD_FIELD@, state.limit_threshold),
    ]
}

/// The fields that tell that the event of `state` is limited no longer.
pub open spec fn stopped_fields(state: StateView, filtered_count: nat) -> Seq<FieldView> {
    seq![
        text_field(MESSAGE_FIELD@, RATE_LIMIT_STOPPED_MESSAGE@),
        text_field(RATELIMITED_MESSAGE_FIELD@, state.message),
        number_field(RATELIMIT_DURATION_FIELD@, whole_secs(state.limit_duration)),
        number_field(RATELIMIT_THRESHOLD_FIELD@, state.limit_threshold),
        number_field(FILTERED_COUNT_FIELD@, filtered_count),
    ]
}

/// The event from `callsite` with the fields `fields`.
fn make_notice(callsite: NoticeCallsite, fields: Vec<Field>) -> (r: Notice)
    ensures
        r@ == notice(callsite, field_views(fields@)),
{
    Notice {
        callsite,
        name: NOTICE_NAME,
        target: NOTICE_TARGET,
        module: NOTICE_MODULE,
        level: NOTICE_LEVEL,
        kind: NOTICE_KIND,
        fields,
    }
}

/// The event that tells that the event of `state` is limited from now on.
pub fn rate_limit_started_event(state: &State) -> (r: Notice)
    ensures
        r@ == started_notice(state@),
{
    let duration_sec: u64 = state.limit_duration.as_secs();
    let fields: Vec<Field> = vec![
        Field::new(MESSAGE_FIELD, FieldValue::Str(RATE_LIMIT_STARTED_MESSAGE.to_owned())),
        Field::new(RATELIMITED_MESSAGE_FIELD, FieldValue::Str(state.message.clone())),
        Field::new(RATELIMIT_DURATION_FIELD, FieldValue::U64(duration_sec)),
        Field::new(RATELIMIT_THRESHOLD_FIELD, FieldValue::U64(state.limit_threshold)),
    ];
    assert(field_views(fields@) =~= started_fields(state@));
    make_notice(NoticeCallsite::Started, fields)
}

/// The event that tells that the event of `state` is limited no longer, and how many
/// occurrences of it were over the threshold.
pub fn rate_limit_stopped_event(state: &State, filtered_count: u64) -> (r: Notice)
    ensures
        r@ == stopped_notice(state@, filtered_count as nat),
{
    let duration_sec: u64 = state.limit_duration.as_secs();
    let fields: Vec<Field> = vec![
        Field::new(MESSAGE_FIELD, FieldValue::Str(RATE_LIMIT_STOPPED_MESSAGE.to_owned())),
        Field::new(RATELIMITED_MESSAGE_FIELD, FieldValue::Str(state.message.clone())),
        Field::new(RATELIMIT_DURATION_FIELD, FieldValue::U64(duration_sec)),
        Field::new(RATELIMIT_THRESHOLD_FIELD, FieldValue::U64(state.limit_threshold)),
        Field::new(FILTERED_COUNT_FIELD, FieldValue::U64(filtered_count)),
    ];
    assert(field_views(fields@) =~= stopped_fields(state@, filtered_count as nat));
    make_notice(NoticeCallsite::Stopped, fields)
}

/// The two events of one limit agree on name, target, module path, level and kind, on the
/// message of the limited event, on the length of the window and on the threshold. They
/// differ in their callsite, in their own message, and in that only the one that tells of
/// the end has a number of occurrences over the threshold.
pub proof fn law_notices_agree(state: StateView, later: StateView, filtered_count: nat)
    requires
        later.message == state.message,
        later.limit_threshold == state.limit_threshold,
        later.limit_duration == state.limit_duration,
    ensures
        ({
            let started = started_notice(state);
            let stopped = stopped_notice(later, filtered_count);
            &&& started.name == stopped.name
            &&& started.target == stopped.target
            &&& started.module == stopped.module
            &&& started.level == stopped.level
            &&& started.kind == stopped.kind
            &&& started.callsite != stopped.callsite
            &&& started.fields.skip(1) == stopped.fields.subrange(1, 4)
            &&& started.fields[0].name == stopped.fields[0].name
            &&& started.fields[0].value != stopped.fields[0].value
            &&& stopped.fields.len() == 5
            &&& stopped.fields[4].name == FILTERED_COUNT_FIELD@
            &&& forall|i: int|
                0 <= i < started.fields.len() ==> (#[trigger] started.fields[i]).name
                    != FILTERED_COUNT_FIELD@
        }),
{
    reveal_strlit("event is being rate limited");
    reveal_strlit("event stopped being rate limited");
    reveal_strlit("message");
    reveal_strlit("ratelimited_message");
    reveal_strlit("ratelimit_duration");
    reveal_strlit("ratelimit_threshold");
    reveal_strlit("filtered_count");
    assert(RATE_LIMIT_STARTED_MESSAGE@.len() == 27);
    assert(RATE_LIMIT_STOPPED_MESSAGE@.len() == 32);
    assert(FILTERED_COUNT_FIELD@.len() == 14);
    assert(MESSAGE_FIELD@.len() == 7);
    assert(RATELIMITED_MESSAGE_FIELD@.len() == 19);
    assert(RATELIMIT_DURATION_FIELD@.len() == 18);
    assert(RATELIMIT_THRESHOLD_FIELD@.len() == 19);
    assert(started_fields(state).skip(1) =~= stopped_fields(later, filtered_count).subrange(1, 4));
}

/// Every event that tells of a rate limit has the name "event ratelimit", the target and
/// the module path "ratelimit" and the level INFO, and comes from the callsite of an event,
/// whatever event is limited.
pub proof fn law_notices_have_their_own_metadata(state: StateView, filtered_count: nat)
    ensures
        ({
            let started = started_notice(state);
            let stopped = stopped_notice(state, filtered_count);
            &&& started.name == "event ratelimit"@ && stopped.name == "event ratelimit"@
            &&& started.target == "ratelimit"@ && stopped.target == "ratelimit"@
            &&& started.module == "ratelimit"@ && stopped.module == "ratelimit"@
            &&& started.level == Level::Info && stopped.level == Level::Info
            &&& started.kind == Kind::Event && stopped.kind == Kind::Event
        }),
{
}

} // verus!
