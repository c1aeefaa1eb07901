//! What the events that tell of a rate limit say.

use vstd::prelude::*;

use crate::notice::{
    rate_limit_started_event, rate_limit_stopped_event, started_notice, stopped_notice, Kind,
    Level, Notice, NoticeCallsite, NoticeView,
};
use crate::state::{State, StateView};
use crate::value::{FieldValueView, FieldView};

verus! {

/// Whether `fields` hold `value` under the name `name`, and nothing else under it.
pub open spec fn tells(fields: Seq<FieldView>, name: Seq<char>, value: FieldValueView) -> bool {
    &&& exists|i: int| 0 <= i < fields.len() && (#[trigger] fields[i]).name == name
    &&& forall|i: int|
        0 <= i < fields.len() && (#[trigger] fields[i]).name == name ==> fields[i].value == value
}

/// Whether `fields` hold the string `text` under the name `name`.
pub open spec fn tells_text(fields: Seq<FieldView>, name: Seq<char>, text: Seq<char>) -> bool {
    tells(fields, name, FieldValueView::Str(text))
}

/// Whether `fields` hold the number `number` under the name `name`.
pub open spec fn tells_number(fields: Seq<FieldView>, name: Seq<char>, number: int) -> bool {
    &&& 0 <= number <= 0xffff_ffff_ffff_ffff
    &&& tells(fields, name, FieldValueView::U64(number as u64))
}

/// Whether `notice` is an event of the level INFO with the name and the target that all
/// events have which tell of a rate limit.
pub open spec fn is_notice(notice: NoticeView) -> bool {
    &&& notice.name == "event ratelimit"@
    &&& notice.target == "ratelimit"@
    &&& notice.module == "ratelimit"@
    &&& notice.level == Level::Info
    &&& notice.kind == Kind::Event
}

/// Whether `notice` tells that an event with the message `message` is limited from now on,
/// to `threshold` occurrences in a window of `duration` nanoseconds, which it gives in whole
/// seconds.
pub open spec fn announces_start(
    notice: NoticeView,
    message: Seq<char>,
    duration: nat,
    threshold: nat,
) -> bool {
    &&& is_notice(notice)
    &&& notice.callsite == NoticeCallsite::Started
    &&& notice.fields.len() == 4
    &&& tells_text(notice.fields, "message"@, "event is being rate limited"@)
    &&& tells_text(notice.fields, "ratelimited_message"@, message)
    &&& tells_number(notice.fields, "ratelimit_duration"@, duration as int / 1_000_000_000)
    &&& tells_number(notice.fields, "ratelimit_threshold"@, threshold as int)
}

/// Whether `notice` tells that an event with the message `message` is limited no longer to
/// `threshold` occurrences in a window of `duration` nanoseconds, which it gives in whole
/// seconds, and that `filtered_count` occurrences were over the threshold.
pub open spec fn announces_stop(
    notice: NoticeView,
    message: Seq<char>,
    duration: nat,
    threshold: nat,
    filtered_count: int,
) -> bool {
    &&& is_notice(notice)
    &&& notice.callsite == NoticeCallsite::Stopped
    &&& notice.fields.len() == 5
    &&& tells_text(notice.fields, "message"@, "event stopped being rate limited"@)
    &&& tells_text(notice.fields, "ratelimited_message"@, message)
    &&& tells_number(notice.fields, "ratelimit_duration"@, duration as int / 1_000_000_000)
    &&& tells_number(notice.fields, "ratelimit_threshold"@, threshold as int)
    &&& tells_number(notice.fields, "filtered_count"@, filtered_count)
}

/// Whether the numbers of a limit fit in what a duration and a count can hold.
pub open spec fn fits(duration: nat, threshold: nat) -> bool {
    &&& duration <= 18_446_744_073_709_551_615_999_999_999
    &&& threshold <= 0xffff_ffff_ffff_ffff
}

proof fn lemma_names_differ()
    ensures
        "message"@.len() == 7,
        "ratelimited_message"@.len() == 19,
        "ratelimit_duration"@.len() == 18,
        "ratelimit_threshold"@.len() == 19,
        "filtered_count"@.len() == 14,
        "ratelimited_message"@ != "ratelimit_threshold"@,
{
    reveal_strlit("message");
    reveal_strlit("ratelimited_message");
    reveal_strlit("ratelimit_duration");
    reveal_strlit("ratelimit_threshold");
    reveal_strlit("filtered_count");
    assert("ratelimited_message"@[9] == 'e');
    assert("ratelimit_threshold"@[9] == '_');
}

/// The event that tells of the start of a limit gives the message of the limited event, the
/// length of the window in whole seconds and the threshold, each under its name, as they are
/// in the state of the event.
pub proof fn law_start_is_told_as_it_is(state: StateView)
    requires
        fits(state.limit_duration, state.limit_threshold),
    ensures
        announces_start(
            started_notice(state),
            state.message,
            state.limit_duration,
            state.limit_threshold,
        ),
{
    lemma_names_differ();
    let fields = started_notice(state).fields;
    assert(fields[0].name == "message"@);
    assert(fields[1].name == "ratelimited_message"@);
    assert(fields[2].name == "ratelimit_duration"@);
    assert(fields[3].name == "ratelimit_threshold"@);
}

/// The event that tells of the end of a limit gives the same, and the number of occurrences
/// over the threshold.
pub proof fn law_stop_is_told_as_it_is(state: StateView, filtered_count: nat)
    requires
        fits(state.limit_duration, state.limit_threshold),
        filtered_count <= 0xffff_ffff_ffff_ffff,
    ensures
        announces_stop(
            stopped_notice(state, filtered_count),
            state.message,
            state.limit_duration,
            state.limit_threshold,
            filtered_count as int,
        ),
{
    lemma_names_differ();
    let fields = stopped_notice(state, filtered_count).fields;
    assert(fields[0].name == "message"@);
    assert(fields[1].name == "ratelimited_message"@);
    assert(fields[2].name == "ratelimit_duration"@);
    assert(fields[3].name == "ratelimit_threshold"@);
    assert(fields[4].name == "filtered_count"@);
}

/// What is made for a state to tell of the start and the end of its limit tells them, for
/// every state and every number.
pub proof fn law_notices_tell_of_their_state(
    state: State,
    filtered_count: u64,
    started: Notice,
    stopped: Notice,
)
    requires
        call_ensures(rate_limit_started_event, (&state,), started),
        call_ensures(rate_limit_stopped_event, (&state, filtered_count), stopped),
        state.limit_duration@ <= 18_446_744_073_709_551_615_999_999_999,
    ensures
        announces_start(
            started@,
            state.message@,
            state.limit_duration@,
            state.limit_threshold as nat,
        ),
        announces_stop(
            stopped@,
            state.message@,
            state.limit_duration@,
            state.limit_threshold as nat,
            filtered_count as int,
        ),
{
    law_start_is_told_as_it_is(state@);
    law_stop_is_told_as_it_is(state@, filtered_count as nat);
}

/// The fields of the two come in the same order, the number of occurrences over the
/// threshold last.
pub proof fn law_order_of_the_fields(state: StateView, filtered_count: nat)
    ensures
        ({
            let started = started_notice(state).fields;
            let stopped = stopped_notice(state, filtered_count).fields;
            &&& started.len() == 4 && stopped.len() == 5
            &&& started[0].name == "message"@ && stopped[0].name == "message"@
            &&& started[1].name == "ratelimited_message"@ && stopped[1].name
                == "ratelimited_message"@
            &&& started[2].name == "ratelimit_duration"@ && stopped[2].name
                == "ratelimit_duration"@
            &&& started[3].name == "ratelimit_threshold"@ && stopped[3].name
                == "ratelimit_threshold"@
            &&& stopped[4].name == "filtered_count"@
        }),
{
}

} // verus!
