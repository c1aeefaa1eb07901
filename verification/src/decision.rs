//! One occurrence of an event, and what is decided about it.

use vstd::prelude::*;

use crate::events::RateKeyView;
use crate::keys::{SpanKeysView, COMPONENT_ID_FIELD, RATELIMIT_UID};
use crate::notice::{started_notice, stopped_notice, Notice, NoticeView};
use crate::state::{StateView, VerdictView};
use crate::time::Duration;
use crate::value::{field_views, same_text, Field, FieldView};
use crate::visit::{asks_for_limit, message_in, reads_limit_field, MESSAGE_FIELD};

verus! {

/// What the layer reads of an event.
#[derive(Debug)]
pub struct EventRecord {
    /// The number of the place in the program that emits the event.
    pub callsite: u64,
    /// The name of the event.
    pub name: String,
    /// The fields of the event, in the order in which they are recorded.
    pub fields: Vec<Field>,
}

/// The mathematical content of an [`EventRecord`].
pub struct EventRecordView {
    pub callsite: u64,
    pub name: Seq<char>,
    pub fields: Seq<FieldView>,
}

impl View for EventRecord {
    type V = EventRecordView;

    open spec fn view(&self) -> EventRecordView {
        EventRecordView {
            callsite: self.callsite,
            name: self.name@,
            fields: field_views(self.fields@),
        }
    }
}

/// The limit that holds for one occurrence of an event.
#[derive(Clone, Copy, Debug)]
pub struct Limits {
    pub threshold: u64,
    pub duration: Duration,
}

/// The mathematical content of [`Limits`]; the duration is in nanoseconds.
pub struct LimitsView {
    pub threshold: nat,
    pub duration: nat,
}

impl View for Limits {
    type V = LimitsView;

    open spec fn view(&self) -> LimitsView {
        LimitsView { threshold: self.threshold as nat, duration: self.duration@ }
    }
}

/// What the inner layer is to be handed for one occurrence of an event.
#[derive(Debug)]
pub enum Decision {
    /// The event.
    Forward,
    /// This event, which tells that a limit started.
    Started(Notice),
    /// Nothing.
    Suppress,
    /// This event, which tells that a limit stopped, and then the event.
    Stopped(Notice),
}

/// The mathematical content of a [`Decision`].
pub enum DecisionView {
    Forward,
    Started(NoticeView),
    Suppress,
    Stopped(NoticeView),
}

impl View for Decision {
    type V = DecisionView;

    open spec fn view(&self) -> DecisionView {
        match self {
            Decision::Forward => DecisionView::Forward,
            Decision::Started(notice) => DecisionView::Started(notice@),
            Decision::Suppress => DecisionView::Suppress,
            Decision::Stopped(notice) => DecisionView::Stopped(notice@),
        }
    }
}

/// An event was seen as often in one window as can be counted.
#[derive(Clone, Copy, Debug, PartialEq, Eq)]
pub struct CountOverflow;

impl EventRecordView {
    /// The message of the event, or its name where it has none.
    pub open spec fn message(self) -> Seq<char> {
        match message_in(self.fields) {
            Some(message) => message,
            None => self.name,
        }
    }
}

/// What the inner layer is to be handed where `verdict` is given on an occurrence of the
/// event of `state`.
pub open spec fn announced(state: StateView, verdict: VerdictView) -> DecisionView {
    match verdict {
        VerdictView::Forward => DecisionView::Forward,
        VerdictView::Started => DecisionView::Started(started_notice(state)),
        VerdictView::Suppress => DecisionView::Suppress,
        VerdictView::Stopped(filtered_count) => DecisionView::Stopped(
            stopped_notice(state, filtered_count),
        ),
    }
}

/// One occurrence of an event: what is read of it, the keys of the spans that it occurs
/// in, from the root inwards, and the time, in nanoseconds.
pub struct Occurrence {
    pub record: EventRecordView,
    pub spans: Seq<SpanKeysView>,
    pub now: nat,
}

impl Occurrence {
    /// The key under which the event is limited: the keys among its own fields, and
    /// over them those of the spans.
    pub open spec fn key(self) -> RateKeyView {
        RateKeyView {
            callsite: self.record.callsite,
            rate_limit_key_values: SpanKeysView::none().recorded_all(
                self.record.fields,
            ).merged_all(self.spans),
        }
    }

    /// The state that an event has which was not seen before.
    pub open spec fn first_state(self, limits: LimitsView) -> StateView {
        StateView::fresh(self.record.message(), limits.threshold, limits.duration, self.now)
    }

    /// The state to which the occurrence is added: the one in `table`, or else the first
    /// one.
    pub open spec fn state_in(
        self,
        table: Map<RateKeyView, StateView>,
        limits: LimitsView,
    ) -> StateView {
        if table.contains_key(self.key()) {
            table[self.key()]
        } else {
            self.first_state(limits)
        }
    }

    /// Whether the occurrence can be counted.
    pub open spec fn is_countable(
        self,
        table: Map<RateKeyView, StateView>,
        limits: LimitsView,
    ) -> bool {
        self.state_in(table, limits).count < u64::MAX
    }

    /// What is decided about the occurrence where it is limited by `limits`: nothing
    /// where it cannot be counted.
    pub open spec fn decided(
        self,
        table: Map<RateKeyView, StateView>,
        limits: LimitsView,
    ) -> Option<DecisionView> {
        if self.is_countable(table, limits) {
            let state = self.state_in(table, limits);
            Some(announced(state, state.verdict(limits.threshold, self.now)))
        } else {
            None
        }
    }

    /// The table after the occurrence where it is limited by `limits`: unchanged where
    /// it cannot be counted.
    pub open spec fn table_after(
        self,
        table: Map<RateKeyView, StateView>,
        limits: LimitsView,
    ) -> Map<RateKeyView, StateView> {
        if self.is_countable(table, limits) {
            table.insert(
                self.key(),
                self.state_in(table, limits).observed(limits.threshold, self.now),
            )
        } else {
            table
        }
    }
}

/// The content of a decision, where one was made.
pub open spec fn decision_view(result: Result<Decision, CountOverflow>) -> Option<DecisionView> {
    match result {
        Ok(decision) => Some(decision@),
        Err(_) => None,
    }
}

/// Whether fields with the name `name` are read.
pub open spec fn is_read(name: Seq<char>) -> bool {
    ||| asks_for_limit(name)
    ||| name == MESSAGE_FIELD@
    ||| name == COMPONENT_ID_FIELD@
    ||| name == RATELIMIT_UID@
}

/// Whether fields with the name `name` are read. A field with another name need not be
/// put in an [`EventRecord`].
pub fn reads_field(name: &str) -> (r: bool)
    ensures
        r == is_read(name@),
{
    reads_limit_field(name) || same_text(name, MESSAGE_FIELD) || same_text(
        name,
        COMPONENT_ID_FIELD,
    ) || same_text(name, RATELIMIT_UID)
}

} // verus!
