//! How an event fares over several occurrences in a row.

use vstd::prelude::*;

use crate::state::{State, StateView, Verdict, VerdictView};
use crate::time::{Duration, Instant};

verus! {

/// The state after occurrences at each of `times`, all of which ask for the threshold
/// `limit`.
pub open spec fn state_after(state: StateView, limit: nat, times: Seq<nat>) -> StateView
    decreases times.len(),
{
    if times.len() == 0 {
        state
    } else {
        state_after(state, limit, times.drop_last()).observed(limit, times.last())
    }
}

/// What becomes of each of these occurrences.
pub open spec fn verdicts(state: StateView, limit: nat, times: Seq<nat>) -> Seq<VerdictView>
    decreases times.len(),
{
    if times.len() == 0 {
        Seq::empty()
    } else {
        verdicts(state, limit, times.drop_last()).push(
            state_after(state, limit, times.drop_last()).verdict(limit, times.last()),
        )
    }
}

/// Whether a window of the length `duration` that was opened at `start` is over at `now`: it
/// is from the moment on at which that much time has gone by.
pub open spec fn is_over(start: nat, duration: nat, now: nat) -> bool {
    duration == 0 || start + duration <= now
}

/// Whether all of `times` lie in the window of `state`.
pub open spec fn in_window(state: StateView, times: Seq<nat>) -> bool {
    forall|i: int|
        0 <= i < times.len() ==> !is_over(
            state.start,
            state.limit_duration,
            #[trigger] times[i],
        )
}

/// What becomes of an occurrence in a window that `count` others came before.
pub open spec fn verdict_by_count(count: nat, limit: nat) -> VerdictView {
    if count < limit {
        VerdictView::Forward
    } else if count == limit {
        VerdictView::Started
    } else {
        VerdictView::Suppress
    }
}

/// How many of the occurrences are passed on, with or without the news that a limit
/// stopped.
pub open spec fn forwarded(verdicts: Seq<VerdictView>) -> nat
    decreases verdicts.len(),
{
    if verdicts.len() == 0 {
        0
    } else {
        forwarded(verdicts.drop_last()) + if verdicts.last().withholds() {
            0nat
        } else {
            1
        }
    }
}

/// How many of the occurrences are withheld.
pub open spec fn withheld(verdicts: Seq<VerdictView>) -> nat
    decreases verdicts.len(),
{
    if verdicts.len() == 0 {
        0
    } else {
        withheld(verdicts.drop_last()) + if verdicts.last().withholds() {
            1nat
        } else {
            0
        }
    }
}

/// The sum of the numbers that were announced at the ends of limits.
pub open spec fn reported(verdicts: Seq<VerdictView>) -> nat
    decreases verdicts.len(),
{
    if verdicts.len() == 0 {
        0
    } else {
        reported(verdicts.drop_last()) + match verdicts.last() {
            VerdictView::Stopped(filtered_count) => filtered_count,
            _ => 0,
        }
    }
}

/// By how much the count is over the threshold, which is what the end of the limit is
/// going to announce.
pub open spec fn unreported(state: StateView) -> nat {
    if state.count > state.limit_threshold {
        (state.count - state.limit_threshold) as nat
    } else {
        0
    }
}

/// Within one window, the occurrences up to the threshold are passed on, the next one is
/// withheld and the start of the limit is announced, and all others are withheld.
pub proof fn law_window(state: StateView, times: Seq<nat>, i: int)
    requires
        in_window(state, times),
        0 <= i < times.len(),
    ensures
        verdicts(state, state.limit_threshold, times).len() == times.len(),
        verdicts(state, state.limit_threshold, times)[i] == verdict_by_count(
            (state.count + i) as nat,
            state.limit_threshold,
        ),
    decreases times.len(),
{
    let before = times.drop_last();
    lemma_window_state(state, before);
    law_reports_are_bounded(state, state.limit_threshold, before);
    assert(!is_over(state.start, state.limit_duration, times[times.len() - 1]));
    if i < before.len() {
        law_window(state, before, i);
    }
}

/// Within one window, every occurrence is counted and the window stays open.
proof fn lemma_window_state(state: StateView, times: Seq<nat>)
    requires
        in_window(state, times),
    ensures
        state_after(state, state.limit_threshold, times) == (StateView {
            count: state.count + times.len(),
            ..state
        }),
    decreases times.len(),
{
    if times.len() > 0 {
        lemma_window_state(state, times.drop_last());
        assert(!is_over(state.start, state.limit_duration, times[times.len() - 1]));
    }
}

/// Within one window, no more occurrences are passed on than the threshold allows.
pub proof fn law_window_keeps_the_threshold(state: StateView, times: Seq<nat>)
    requires
        in_window(state, times),
    ensures
        forwarded(verdicts(state, state.limit_threshold, times)) == (if state.count
            >= state.limit_threshold {
            0
        } else if state.count + times.len() <= state.limit_threshold {
            times.len() as int
        } else {
            state.limit_threshold - state.count
        }),
    decreases times.len(),
{
    if times.len() > 0 {
        let before = times.drop_last();
        law_window_keeps_the_threshold(state, before);
        law_window(state, times, times.len() - 1);
        assert(verdicts(state, state.limit_threshold, times).drop_last() =~= verdicts(
            state,
            state.limit_threshold,
            before,
        ));
    }
}

/// Once its window is over, an event is passed on again, and this occurrence is the first
/// one of a new window.
pub proof fn law_limits_end(state: StateView, limit: nat, now: nat)
    requires
        is_over(state.start, state.limit_duration, now),
    ensures
        state.verdict(limit, now) is Forward || state.verdict(limit, now) is Stopped,
        state.observed(limit, now) == (StateView { start: now, count: 1, ..state }),
{
}

/// To open a new window with an occurrence leaves what the first sight of the event at that
/// time would have left.
pub proof fn law_new_window_is_a_first_sight(state: StateView, limit: nat, now: nat)
    ensures
        (StateView { start: now, count: 1, ..state }) == StateView::fresh(
            state.message,
            state.limit_threshold,
            state.limit_duration,
            now,
        ).observed(limit, now),
{
}

/// The first occurrence after a window announces how many occurrences in the window were
/// over the threshold, where there were any.
pub proof fn law_stop_reports_the_window(state: StateView, times: Seq<nat>, now: nat)
    requires
        in_window(state, times),
        is_over(state.start, state.limit_duration, now),
    ensures
        state_after(state, state.limit_threshold, times).verdict(state.limit_threshold, now)
            == if state.count + times.len() > state.limit_threshold {
            VerdictView::Stopped((state.count + times.len() - state.limit_threshold) as nat)
        } else {
            VerdictView::Forward
        },
{
    lemma_window_state(state, times);
}

/// No occurrence is lost unnoticed: over any number of windows, what was announced and
/// what is still to be announced add up to what was withheld, and to what was to be
/// announced before. A threshold of zero is left out where it sees a second window: the
/// occurrence that opens that window is passed on, but counts as one over the threshold.
pub proof fn law_every_withheld_occurrence_is_reported(state: StateView, times: Seq<nat>)
    requires
        state.limit_threshold >= 1 || in_window(state, times),
    ensures
        reported(verdicts(state, state.limit_threshold, times)) + unreported(
            state_after(state, state.limit_threshold, times),
        ) == withheld(verdicts(state, state.limit_threshold, times)) + unreported(state),
    decreases times.len(),
{
    let limit = state.limit_threshold;
    if times.len() > 0 {
        let before = times.drop_last();
        law_every_withheld_occurrence_is_reported(state, before);
        law_identity_is_kept(state, limit, before);
        if limit == 0 {
            lemma_window_state(state, before);
            assert(!is_over(state.start, state.limit_duration, times[times.len() - 1]));
        }
        assert(verdicts(state, limit, times).drop_last() =~= verdicts(state, limit, before));
    }
}

/// Whether a limit that was announced to have started was not yet announced to have
/// stopped.
pub open spec fn is_open(verdicts: Seq<VerdictView>) -> bool
    decreases verdicts.len(),
{
    if verdicts.len() == 0 {
        false
    } else {
        match verdicts.last() {
            VerdictView::Started => true,
            VerdictView::Stopped(_) => false,
            _ => is_open(verdicts.drop_last()),
        }
    }
}

/// Starts and stops alternate, a start first: each start is announced while none is open,
/// each stop while one is. A start is open exactly where the count is over the threshold.
/// A threshold of zero is left out where it sees a second window: that window is over the
/// threshold from its first occurrence on, without a start.
pub proof fn law_starts_and_stops_alternate(state: StateView, times: Seq<nat>)
    requires
        state.count <= state.limit_threshold,
        state.limit_threshold >= 1 || in_window(state, times),
    ensures
        ({
            let all = verdicts(state, state.limit_threshold, times);
            &&& all.len() == times.len()
            &&& forall|i: int|
                0 <= i < all.len() ==> (#[trigger] all[i] is Started ==> !is_open(all.take(i)))
            &&& forall|i: int|
                0 <= i < all.len() ==> (#[trigger] all[i] is Stopped ==> is_open(all.take(i)))
            &&& is_open(all) <==> state_after(state, state.limit_threshold, times).count
                > state.limit_threshold
        }),
    decreases times.len(),
{
    let limit = state.limit_threshold;
    if times.len() > 0 {
        let before = times.drop_last();
        let all = verdicts(state, limit, times);
        let earlier = verdicts(state, limit, before);
        law_starts_and_stops_alternate(state, before);
        law_identity_is_kept(state, limit, before);
        if limit == 0 {
            lemma_window_state(state, before);
            assert(!is_over(state.start, state.limit_duration, times[times.len() - 1]));
        }
        assert(all.drop_last() =~= earlier);
        assert forall|i: int| 0 <= i < all.len() && #[trigger] all[i] is Started implies !is_open(
            all.take(i),
        ) by {
            if i < earlier.len() {
                assert(earlier[i] == all[i]);
                assert(all.take(i) =~= earlier.take(i));
            } else {
                assert(all.take(i) =~= earlier);
            }
        }
        assert forall|i: int| 0 <= i < all.len() && #[trigger] all[i] is Stopped implies is_open(
            all.take(i),
        ) by {
            if i < earlier.len() {
                assert(earlier[i] == all[i]);
                assert(all.take(i) =~= earlier.take(i));
            } else {
                assert(all.take(i) =~= earlier);
            }
        }
    }
}

/// Every occurrence is either passed on or withheld.
pub proof fn law_forwarded_or_withheld(state: StateView, limit: nat, times: Seq<nat>)
    ensures
        forwarded(verdicts(state, limit, times)) + withheld(verdicts(state, limit, times))
            == times.len(),
    decreases times.len(),
{
    if times.len() > 0 {
        law_forwarded_or_withheld(state, limit, times.drop_last());
        assert(verdicts(state, limit, times).drop_last() =~= verdicts(
            state,
            limit,
            times.drop_last(),
        ));
    }
}

/// The message, the threshold and the length of the window of a state stay as they are,
/// whatever threshold the occurrences ask for.
pub proof fn law_identity_is_kept(state: StateView, limit: nat, times: Seq<nat>)
    ensures
        state_after(state, limit, times).message == state.message,
        state_after(state, limit, times).limit_threshold == state.limit_threshold,
        state_after(state, limit, times).limit_duration == state.limit_duration,
    decreases times.len(),
{
    if times.len() > 0 {
        law_identity_is_kept(state, limit, times.drop_last());
    }
}

/// After an occurrence at `now` the window holds at least that occurrence and at most one
/// more than before, and a window that was not opened after `now` is not opened after it
/// now.
pub proof fn law_window_holds_its_last_occurrence(state: StateView, limit: nat, now: nat)
    ensures
        1 <= state.observed(limit, now).count <= state.count + 1,
        state.start <= now ==> state.start <= state.observed(limit, now).start <= now,
{
}

/// No limit is announced to have withheld more than were ever counted.
pub proof fn law_reports_are_bounded(state: StateView, limit: nat, times: Seq<nat>)
    ensures
        verdicts(state, limit, times).len() == times.len(),
        state_after(state, limit, times).count <= state.count + times.len(),
        forall|i: int|
            0 <= i < times.len() ==> (#[trigger] verdicts(state, limit, times)[i] matches
                VerdictView::Stopped(filtered_count) ==> filtered_count <= state.count
                + times.len()),
    decreases times.len(),
{
    if times.len() > 0 {
        law_reports_are_bounded(state, limit, times.drop_last());
    }
}

/// Whether `verdict` is given on one more occurrence at `now`, which asks for the threshold
/// `limit`, and `after` is what is left of `state` then.
///
/// The event is limited where its window is not over and its threshold is reached. It is
/// withheld only where it is limited; of the occurrences that are withheld, the one that
/// the threshold asked for is reached with starts the limit. An occurrence over the
/// threshold asked for that is not limited stops the limit, and tells by how many. It, and
/// each one at which the window is over, opens a new window and is the first one in it;
/// all others are counted in the window that is open.
pub open spec fn follows(
    state: StateView,
    limit: nat,
    now: nat,
    verdict: VerdictView,
    after: StateView,
) -> bool {
    let over = is_over(state.start, state.limit_duration, now);
    let limited = !over && state.count >= state.limit_threshold;
    &&& verdict is Started <==> limited && state.count == limit
    &&& verdict is Suppress <==> limited && state.count > limit
    &&& verdict is Stopped <==> !limited && state.count > limit
    &&& verdict matches VerdictView::Stopped(filtered_count) ==> limit + filtered_count
        == state.count
    &&& after.start == if over || verdict is Stopped {
        now
    } else {
        state.start
    }
    &&& after.count == if over || verdict is Stopped {
        1
    } else {
        state.count + 1
    }
    &&& after.limit_threshold == state.limit_threshold
    &&& after.limit_duration == state.limit_duration
    &&& after.message == state.message
}

/// One more occurrence is answered, and counted, by whether the window is over and by how
/// many came before it, for every state, every threshold asked for and every time.
pub proof fn law_one_more_occurrence(state: StateView, limit: nat, now: nat)
    ensures
        follows(state, limit, now, state.verdict(limit, now), state.observed(limit, now)),
{
}

/// The same, of the operation itself.
pub proof fn law_observe(state: &mut State, limit: u64, now: Instant, verdict: Verdict)
    requires
        call_ensures(State::observe, (state, limit, now), verdict),
    ensures
        follows(old(state)@, limit as nat, now@, verdict@, final(state)@),
{
    law_one_more_occurrence(old(state)@, limit as nat, now@);
}

/// A window is over from the moment on at which as much time as it is to last has gone by
/// since it was opened, however long it is to last; and an event is limited where it was seen
/// more often than the threshold allows in a window that is not over.
pub proof fn law_windows_end(state: State, now: Instant, expired: bool, should_limit: bool)
    requires
        call_ensures(State::expired, (&state, now), expired),
        call_ensures(State::should_limit, (&state, now), should_limit),
    ensures
        expired <==> state.limit_duration@ == 0 || state.start@ + state.limit_duration@ <= now@,
        should_limit <==> state.count > state.limit_threshold && !expired,
{
}

/// A window that is over stays so, and one of a longer duration is not over before.
pub proof fn law_windows_stay_over(
    state: State,
    longer: State,
    now: Instant,
    later: Instant,
    expired: bool,
    expired_later: bool,
    longer_expired: bool,
)
    requires
        call_ensures(State::expired, (&state, now), expired),
        call_ensures(State::expired, (&state, later), expired_later),
        call_ensures(State::expired, (&longer, now), longer_expired),
        now@ <= later@,
        longer.start@ == state.start@,
        longer.limit_duration@ >= state.limit_duration@,
    ensures
        expired ==> expired_later,
        longer_expired ==> expired,
{
}

/// A new state has what it is made of, and no occurrence yet. To count an occurrence is to
/// add one, and tells how many there were. To open a new window is to have one occurrence
/// from then on. Neither changes anything else.
pub proof fn law_counting(
    message: String,
    threshold: u64,
    duration: Duration,
    now: Instant,
    new: State,
    counted: &mut State,
    previous: u64,
    reset: &mut State,
)
    requires
        call_ensures(State::new, (message, threshold, duration, now), new),
        call_ensures(State::increment_count, (counted,), previous),
        call_ensures(State::reset, (reset, now), ()),
    ensures
        new@ == (StateView {
            start: now@,
            count: 0,
            limit_threshold: threshold as nat,
            limit_duration: duration@,
            message: message@,
        }),
        previous == old(counted)@.count,
        final(counted)@ == (StateView { count: (previous + 1) as nat, ..old(counted)@ }),
        final(reset)@ == (StateView { start: now@, count: 1, ..old(reset)@ }),
{
}

/// The number of the occurrence that opened the window which the `i`-th of `times` falls in,
/// where windows last `duration`: the first one opens a window, and so does each one at which
/// the window before it is over.
pub open spec fn opener(times: Seq<nat>, duration: nat, i: int) -> int
    decreases i,
{
    if i <= 0 {
        0
    } else {
        let before = opener(times, duration, i - 1);
        if is_over(times[before], duration, times[i]) {
            i
        } else {
            before
        }
    }
}

proof fn lemma_opener(times: Seq<nat>, duration: nat, i: int)
    requires
        0 <= i < times.len(),
    ensures
        0 <= opener(times, duration, i) <= i,
        i < times.len() - 1 ==> opener(times.drop_last(), duration, i) == opener(
            times,
            duration,
            i,
        ),
    decreases i,
{
    if i > 0 {
        lemma_opener(times, duration, i - 1);
        if i < times.len() - 1 {
            lemma_opener(times.drop_last(), duration, i - 1);
        }
    }
}

/// Over any number of windows, a state that starts without an occurrence holds when the
/// current window was opened and how many occurrences came since.
pub proof fn law_state_over_windows(state: StateView, times: Seq<nat>)
    requires
        times.len() > 0,
        state.count == 0,
        state.start == times[0],
    ensures
        ({
            let opener = opener(times, state.limit_duration, times.len() - 1);
            state_after(state, state.limit_threshold, times) == (StateView {
                start: times[opener],
                count: (times.len() - opener) as nat,
                ..state
            })
        }),
    decreases times.len(),
{
    let before = times.drop_last();
    let limit = state.limit_threshold;
    let last = times.len() - 1;
    assert(times.last() == times[last]);
    lemma_opener(times, state.limit_duration, last);
    if before.len() > 0 {
        law_state_over_windows(state, before);
        lemma_opener(times, state.limit_duration, last - 1);
        assert(before[0] == times[0]);
        law_one_more_occurrence(state_after(state, limit, before), limit, times[last]);
    } else {
        assert(state_after(state, limit, before) == state);
        law_one_more_occurrence(state, limit, times[last]);
    }
}

/// Over any number of windows, of whatever length: the `i`-th occurrence is answered by the
/// window that was open before it, and by how many occurrences came in that window. Where
/// the window is over, it is passed on, and tells how many of them were over the threshold
/// where any were. Else it is passed on where fewer came than the threshold allows, starts
/// the limit where just as many came, and is withheld where more did.
pub proof fn law_over_windows(state: StateView, times: Seq<nat>, i: int)
    requires
        state.count == 0,
        0 <= i < times.len(),
        state.start == times[0],
    ensures
        verdicts(state, state.limit_threshold, times).len() == times.len(),
        ({
            let verdict = verdicts(state, state.limit_threshold, times)[i];
            let opener = opener(times, state.limit_duration, i - 1);
            let count = i - opener;
            if is_over(times[opener], state.limit_duration, times[i]) {
                if count > state.limit_threshold {
                    verdict == VerdictView::Stopped((count - state.limit_threshold) as nat)
                } else {
                    verdict is Forward
                }
            } else if count < state.limit_threshold {
                verdict is Forward
            } else if count == state.limit_threshold {
                verdict is Started
            } else {
                verdict is Suppress
            }
        }),
    decreases times.len(),
{
    let before = times.drop_last();
    let limit = state.limit_threshold;
    law_reports_are_bounded(state, limit, times);
    law_reports_are_bounded(state, limit, before);
    if i < before.len() {
        assert(before[0] == times[0]);
        law_over_windows(state, before, i);
        assert(verdicts(state, limit, times)[i] == verdicts(state, limit, before)[i]);
        if i > 0 {
            lemma_opener(times, state.limit_duration, i - 1);
        }
    } else {
        assert(times.last() == times[i]);
        if i > 0 {
            assert(before[0] == times[0]);
            law_state_over_windows(state, before);
            lemma_opener(times, state.limit_duration, i - 1);
            law_one_more_occurrence(state_after(state, limit, before), limit, times[i]);
        } else {
            assert(state_after(state, limit, before) == state);
            law_one_more_occurrence(state, limit, times[i]);
        }
    }
}

} // verus!
