//! How events with several keys fare side by side.

use vstd::prelude::*;

use crate::config::RateLimitConfiguration;
use crate::decision::{announced, DecisionView, LimitsView, Occurrence};
use crate::events::RateKeyView;
use crate::laws::fields::{
    count_set_by, last_set, law_last_limit_field_decides, limit_set_by, number_in, secs_set_by,
};
use crate::laws::windows::{
    in_window, is_open, is_over, law_every_withheld_occurrence_is_reported, law_identity_is_kept,
    law_reports_are_bounded, law_starts_and_stops_alternate, law_window,
    law_window_holds_its_last_occurrence, reported, state_after, unreported, verdicts, withheld,
};
use crate::notice::{started_notice, stopped_fields};
use crate::state::{StateView, VerdictView};
use crate::value::FieldView;

verus! {

/// An occurrence together with the limit that holds for it.
pub struct Limited {
    pub limits: LimitsView,
    pub occurrence: Occurrence,
}

/// The table after each of `run` occurred in order.
pub open spec fn table_after(
    table: Map<RateKeyView, StateView>,
    run: Seq<Limited>,
) -> Map<RateKeyView, StateView>
    decreases run.len(),
{
    if run.len() == 0 {
        table
    } else {
        run.last().occurrence.table_after(table_after(table, run.drop_last()), run.last().limits)
    }
}

/// What is decided, over `run`, about the occurrences with the key `key`.
pub open spec fn decisions_for(
    table: Map<RateKeyView, StateView>,
    run: Seq<Limited>,
    key: RateKeyView,
) -> Seq<Option<DecisionView>>
    decreases run.len(),
{
    if run.len() == 0 {
        Seq::empty()
    } else {
        let before = decisions_for(table, run.drop_last(), key);
        if run.last().occurrence.key() == key {
            before.push(
                run.last().occurrence.decided(
                    table_after(table, run.drop_last()),
                    run.last().limits,
                ),
            )
        } else {
            before
        }
    }
}

/// Those of `run` that have the key `key`.
pub open spec fn only(run: Seq<Limited>, key: RateKeyView) -> Seq<Limited> {
    run.filter(|limited: Limited| limited.occurrence.key() == key)
}

/// Whether two tables hold the same for `key`.
pub open spec fn agree_on(
    left: Map<RateKeyView, StateView>,
    right: Map<RateKeyView, StateView>,
    key: RateKeyView,
) -> bool {
    &&& left.contains_key(key) == right.contains_key(key)
    &&& left.contains_key(key) ==> left[key] == right[key]
}

/// An occurrence changes nothing for any other key.
pub proof fn law_other_keys_are_untouched(
    table: Map<RateKeyView, StateView>,
    limits: LimitsView,
    occurrence: Occurrence,
    key: RateKeyView,
)
    requires
        key != occurrence.key(),
    ensures
        agree_on(occurrence.table_after(table, limits), table, key),
{
}

/// What is decided about an occurrence, and what is kept of it, rests on nothing in the
/// table but the state of its own key.
pub proof fn law_own_key_decides(
    left: Map<RateKeyView, StateView>,
    right: Map<RateKeyView, StateView>,
    limits: LimitsView,
    occurrence: Occurrence,
)
    requires
        agree_on(left, right, occurrence.key()),
    ensures
        occurrence.decided(left, limits) == occurrence.decided(right, limits),
        agree_on(
            occurrence.table_after(left, limits),
            occurrence.table_after(right, limits),
            occurrence.key(),
        ),
{
}

/// Events are limited independently of each other: what is decided about the occurrences
/// with one key is what would be decided about them if there were no others.
pub proof fn law_keys_are_independent(
    table: Map<RateKeyView, StateView>,
    run: Seq<Limited>,
    key: RateKeyView,
)
    ensures
        decisions_for(table, run, key) == decisions_for(table, only(run, key), key),
        agree_on(table_after(table, run), table_after(table, only(run, key)), key),
    decreases run.len(),
{
    reveal(Seq::filter);
    if run.len() > 0 {
        let before = run.drop_last();
        law_keys_are_independent(table, before, key);
        if run.last().occurrence.key() == key {
            assert(only(run, key).drop_last() =~= only(before, key));
            law_own_key_decides(
                table_after(table, before),
                table_after(table, only(before, key)),
                run.last().limits,
                run.last().occurrence,
            );
        }
    }
}

/// The first occurrence of an event sets its message, its threshold and the length of its
/// windows: once the table has a state for a key, these stay, whatever later occurrences
/// hold and ask for.
pub proof fn law_first_occurrence_sets_the_limit(
    table: Map<RateKeyView, StateView>,
    run: Seq<Limited>,
    key: RateKeyView,
)
    requires
        table.contains_key(key),
    ensures
        table_after(table, run).contains_key(key),
        table_after(table, run)[key].message == table[key].message,
        table_after(table, run)[key].limit_threshold == table[key].limit_threshold,
        table_after(table, run)[key].limit_duration == table[key].limit_duration,
    decreases run.len(),
{
    if run.len() > 0 {
        law_first_occurrence_sets_the_limit(table, run.drop_last(), key);
    }
}

/// Two occurrences with different keys may come in either order: the same is decided
/// about each, and the same is kept.
pub proof fn law_different_keys_commute(
    table: Map<RateKeyView, StateView>,
    first: Limited,
    second: Limited,
)
    requires
        first.occurrence.key() != second.occurrence.key(),
    ensures
        first.occurrence.decided(
            second.occurrence.table_after(table, second.limits),
            first.limits,
        ) == first.occurrence.decided(table, first.limits),
        second.occurrence.decided(
            first.occurrence.table_after(table, first.limits),
            second.limits,
        ) == second.occurrence.decided(table, second.limits),
        second.occurrence.table_after(
            first.occurrence.table_after(table, first.limits),
            second.limits,
        ) == first.occurrence.table_after(
            second.occurrence.table_after(table, second.limits),
            first.limits,
        ),
{
    assert(second.occurrence.table_after(
        first.occurrence.table_after(table, first.limits),
        second.limits,
    ) =~= first.occurrence.table_after(
        second.occurrence.table_after(table, second.limits),
        first.limits,
    ));
}

/// An event that the configuration does not have limited, and whose last word on the
/// matter is not that it is to be limited, passes untouched and leaves no trace.
pub proof fn law_unlimited_events_pass<F>(
    config: RateLimitConfiguration<F>,
    table: Map<RateKeyView, StateView>,
    occurrence: Occurrence,
)
    requires
        last_set(occurrence.record.fields, |f: FieldView| limit_set_by(f)) != Some(true),
    ensures
        config.decided(false, table, occurrence) == Some(DecisionView::Forward),
        config.table_after(false, table, occurrence) == table,
{
    law_last_limit_field_decides(occurrence.record.fields);
}

/// Where the configuration has an event limited, it is; and where it does not, the event's
/// own last word decides. The last threshold and the last length of the window among the
/// fields of the event come before those that are configured.
pub proof fn law_event_comes_before_configuration<F>(
    config: RateLimitConfiguration<F>,
    chosen: bool,
    fields: Seq<FieldView>,
)
    ensures
        config.limits(chosen, fields) is Some <==> chosen || last_set(
            fields,
            |f: FieldView| limit_set_by(f),
        ) == Some(true),
        config.limits(chosen, fields) matches Some(limits) ==> {
            &&& limits.threshold == (match last_set(fields, |f: FieldView| count_set_by(f)) {
                Some(count) => count,
                None => config.threshold,
            })
            &&& limits.duration == (match last_set(fields, |f: FieldView| secs_set_by(f)) {
                Some(secs) => secs * 1_000_000_000,
                None => config.duration@ as int,
            })
        },
{
    law_last_limit_field_decides(fields);
}

/// The times of the occurrences in `run`.
pub open spec fn times_of(run: Seq<Limited>) -> Seq<nat> {
    run.map_values(|limited: Limited| limited.occurrence.now)
}

/// Whether all of `run` have the key `key` and are limited by `limits`.
pub open spec fn all_alike(run: Seq<Limited>, key: RateKeyView, limits: LimitsView) -> bool {
    forall|i: int|
        0 <= i < run.len() ==> (#[trigger] run[i]).occurrence.key() == key && run[i].limits
            == limits
}

/// Occurrences with one key and one limit fare as the state that the first of them is
/// added to: each is answered by what that state says of it, and the state that they lead
/// to is what the table holds in the end.
pub proof fn law_one_key_follows_its_state(
    table: Map<RateKeyView, StateView>,
    run: Seq<Limited>,
    key: RateKeyView,
    limits: LimitsView,
)
    requires
        run.len() > 0,
        all_alike(run, key, limits),
        run[0].occurrence.state_in(table, limits).count + run.len() <= u64::MAX,
    ensures
        ({
            let first = run[0].occurrence.state_in(table, limits);
            let times = times_of(run);
            &&& decisions_for(table, run, key).len() == run.len()
            &&& verdicts(first, limits.threshold, times).len() == run.len()
            &&& forall|i: int|
                0 <= i < run.len() ==> #[trigger] decisions_for(table, run, key)[i] == Some(
                    announced(first, verdicts(first, limits.threshold, times)[i]),
                )
            &&& table_after(table, run).contains_key(key)
            &&& table_after(table, run)[key] == state_after(first, limits.threshold, times)
            &&& table_after(table, run)[key].count <= first.count + run.len()
        }),
    decreases run.len(),
{
    let first = run[0].occurrence.state_in(table, limits);
    let threshold = limits.threshold;
    let before = run.drop_last();
    let last = run.last();
    assert(last == run[run.len() - 1]);
    assert(times_of(run).drop_last() =~= times_of(before));
    assert(times_of(run).last() == last.occurrence.now);
    law_identity_is_kept(first, threshold, times_of(before));
    if before.len() == 0 {
        assert(verdicts(first, threshold, times_of(before)).len() == 0);
        assert(state_after(first, threshold, times_of(before)) == first);
        assert(table_after(table, before) == table);
        assert(decisions_for(table, before, key).len() == 0);
    } else {
        assert forall|i: int| 0 <= i < before.len() implies (#[trigger] before[i]).occurrence.key()
            == key && before[i].limits == limits by {
            assert(before[i] == run[i]);
        }
        assert(before[0] == run[0]);
        law_one_key_follows_its_state(table, before, key, limits);
    }
}

/// A new event in its first window: the occurrences up to the threshold are passed on, the
/// next one is withheld and the start of the limit is announced in its place, and all
/// others are withheld.
pub proof fn law_new_event_in_its_first_window(
    table: Map<RateKeyView, StateView>,
    run: Seq<Limited>,
    key: RateKeyView,
    limits: LimitsView,
    i: int,
)
    requires
        !table.contains_key(key),
        all_alike(run, key, limits),
        run.len() <= u64::MAX,
        forall|j: int|
            0 <= j < run.len() ==> !is_over(
                run[0].occurrence.now,
                limits.duration,
                (#[trigger] run[j]).occurrence.now,
            ),
        0 <= i < run.len(),
    ensures
        decisions_for(table, run, key)[i] == Some(
            if i < limits.threshold {
                DecisionView::Forward
            } else if i == limits.threshold {
                DecisionView::Started(started_notice(run[0].occurrence.first_state(limits)))
            } else {
                DecisionView::Suppress
            },
        ),
{
    let first = run[0].occurrence.first_state(limits);
    let times = times_of(run);
    law_one_key_follows_its_state(table, run, key, limits);
    assert forall|j: int| 0 <= j < times.len() implies !is_over(
        first.start,
        first.limit_duration,
        #[trigger] times[j],
    ) by {
        assert(times[j] == run[j].occurrence.now);
    }
    law_window(first, times, i);
}

/// Whether a decision withholds the occurrence.
pub open spec fn withholds(decision: Option<DecisionView>) -> bool {
    decision matches Some(decision) && (decision is Started || decision is Suppress)
}

/// The number that a decision announces to have been over the threshold.
pub open spec fn filtered_count(decision: Option<DecisionView>) -> nat {
    match decision {
        Some(DecisionView::Stopped(notice)) => match last_set(
            notice.fields,
            |f: FieldView| filtered_count_in(f),
        ) {
            Some(filtered_count) => filtered_count as nat,
            None => 0,
        },
        _ => 0,
    }
}

/// The number in a field that announces how many were over the threshold.
pub open spec fn filtered_count_in(field: FieldView) -> Option<u64> {
    if field.name == "filtered_count"@ {
        number_in(field)
    } else {
        None
    }
}

/// How many of the occurrences are withheld.
pub open spec fn events_withheld(decisions: Seq<Option<DecisionView>>) -> nat
    decreases decisions.len(),
{
    if decisions.len() == 0 {
        0
    } else {
        events_withheld(decisions.drop_last()) + if withholds(decisions.last()) {
            1nat
        } else {
            0
        }
    }
}

/// The sum of the numbers that the decisions announce.
pub open spec fn events_reported(decisions: Seq<Option<DecisionView>>) -> nat
    decreases decisions.len(),
{
    if decisions.len() == 0 {
        0
    } else {
        events_reported(decisions.drop_last()) + filtered_count(decisions.last())
    }
}

proof fn lemma_announced_numbers(state: StateView, verdict: VerdictView)
    requires
        verdict matches VerdictView::Stopped(filtered_count) ==> filtered_count <= u64::MAX,
    ensures
        withholds(Some(announced(state, verdict))) == verdict.withholds(),
        filtered_count(Some(announced(state, verdict))) == (match verdict {
            VerdictView::Stopped(filtered_count) => filtered_count,
            _ => 0,
        }),
{
    if let VerdictView::Stopped(filtered_count) = verdict {
        let fields = stopped_fields(state, filtered_count);
        assert(fields.last() == fields[4]);
    }
}

proof fn lemma_announced_sums(
    state: StateView,
    verdicts: Seq<VerdictView>,
    decisions: Seq<Option<DecisionView>>,
)
    requires
        decisions.len() == verdicts.len(),
        forall|i: int|
            0 <= i < verdicts.len() ==> #[trigger] decisions[i] == Some(
                announced(state, verdicts[i]),
            ),
        forall|i: int|
            0 <= i < verdicts.len() ==> (#[trigger] verdicts[i] matches VerdictView::Stopped(
                filtered_count,
            ) ==> filtered_count <= u64::MAX),
    ensures
        events_withheld(decisions) == withheld(verdicts),
        events_reported(decisions) == reported(verdicts),
    decreases verdicts.len(),
{
    if verdicts.len() > 0 {
        let n = verdicts.len() - 1;
        assert(decisions[n] == Some(announced(state, verdicts[n])));
        lemma_announced_numbers(state, verdicts[n]);
        lemma_announced_sums(state, verdicts.drop_last(), decisions.drop_last());
    }
}

/// No event is lost unnoticed. For a new event whose occurrences all have the same limit,
/// the numbers that the ends of its limits announce, together with the number that is
/// still to be announced, add up to the number of occurrences that were withheld. A
/// threshold of zero is left out where it sees a second window: the occurrence that opens
/// that window is passed on, but counts as one over the threshold.
pub proof fn law_every_withheld_event_is_reported(
    table: Map<RateKeyView, StateView>,
    run: Seq<Limited>,
    key: RateKeyView,
    limits: LimitsView,
)
    requires
        run.len() > 0,
        !table.contains_key(key),
        all_alike(run, key, limits),
        run.len() <= u64::MAX,
        limits.threshold >= 1 || in_window(run[0].occurrence.first_state(limits), times_of(run)),
    ensures
        events_reported(decisions_for(table, run, key)) + unreported(table_after(table, run)[key])
            == events_withheld(decisions_for(table, run, key)),
{
    let first = run[0].occurrence.first_state(limits);
    let times = times_of(run);
    law_one_key_follows_its_state(table, run, key, limits);
    law_reports_are_bounded(first, limits.threshold, times);
    lemma_announced_sums(
        first,
        verdicts(first, limits.threshold, times),
        decisions_for(table, run, key),
    );
    law_every_withheld_occurrence_is_reported(first, times);
}

/// How many of the occurrences are passed on, with or without the news that a limit
/// stopped.
pub open spec fn events_forwarded(decisions: Seq<Option<DecisionView>>) -> nat
    decreases decisions.len(),
{
    if decisions.len() == 0 {
        0
    } else {
        events_forwarded(decisions.drop_last()) + if decisions.last() matches Some(decision) && (
        decision is Forward || decision is Stopped) {
            1nat
        } else {
            0
        }
    }
}

proof fn lemma_forwarded_or_withheld(decisions: Seq<Option<DecisionView>>)
    requires
        forall|i: int| 0 <= i < decisions.len() ==> #[trigger] decisions[i] is Some,
    ensures
        events_forwarded(decisions) + events_withheld(decisions) == decisions.len(),
    decreases decisions.len(),
{
    if decisions.len() > 0 {
        assert(decisions[decisions.len() - 1] is Some);
        lemma_forwarded_or_withheld(decisions.drop_last());
    }
}

/// The books balance. For a new event whose occurrences all have the same limit, every
/// occurrence was passed on, or is in a number that the end of a limit announced, or is
/// one by which the current window is over the threshold.
pub proof fn law_every_event_is_accounted_for(
    table: Map<RateKeyView, StateView>,
    run: Seq<Limited>,
    key: RateKeyView,
    limits: LimitsView,
)
    requires
        run.len() > 0,
        !table.contains_key(key),
        all_alike(run, key, limits),
        run.len() <= u64::MAX,
        limits.threshold >= 1 || in_window(run[0].occurrence.first_state(limits), times_of(run)),
    ensures
        run.len() == events_forwarded(decisions_for(table, run, key)) + events_reported(
            decisions_for(table, run, key),
        ) + unreported(table_after(table, run)[key]),
{
    law_one_key_follows_its_state(table, run, key, limits);
    law_every_withheld_event_is_reported(table, run, key, limits);
    lemma_forwarded_or_withheld(decisions_for(table, run, key));
}

/// Whether a limit that was announced to have started was not yet announced to have
/// stopped.
pub open spec fn start_is_open(decisions: Seq<Option<DecisionView>>) -> bool
    decreases decisions.len(),
{
    if decisions.len() == 0 {
        false
    } else {
        match decisions.last() {
            Some(DecisionView::Started(_)) => true,
            Some(DecisionView::Stopped(_)) => false,
            _ => start_is_open(decisions.drop_last()),
        }
    }
}

/// Whether the start of a limit is announced.
pub open spec fn starts(decision: Option<DecisionView>) -> bool {
    decision matches Some(decision) && decision is Started
}

/// Whether the end of a limit is announced.
pub open spec fn stops(decision: Option<DecisionView>) -> bool {
    decision matches Some(decision) && decision is Stopped
}

/// Whether starts and stops alternate, a start first.
pub open spec fn alternate(decisions: Seq<Option<DecisionView>>) -> bool {
    forall|i: int|
        0 <= i < decisions.len() ==> {
            &&& starts(#[trigger] decisions[i]) ==> !start_is_open(decisions.take(i))
            &&& stops(decisions[i]) ==> start_is_open(decisions.take(i))
        }
}

proof fn lemma_announced_starts(
    state: StateView,
    verdicts: Seq<VerdictView>,
    decisions: Seq<Option<DecisionView>>,
)
    requires
        decisions.len() == verdicts.len(),
        forall|i: int|
            0 <= i < verdicts.len() ==> #[trigger] decisions[i] == Some(
                announced(state, verdicts[i]),
            ),
    ensures
        start_is_open(decisions) == is_open(verdicts),
    decreases verdicts.len(),
{
    if verdicts.len() > 0 {
        let n = verdicts.len() - 1;
        assert(decisions[n] == Some(announced(state, verdicts[n])));
        lemma_announced_starts(state, verdicts.drop_last(), decisions.drop_last());
    }
}

/// The notices of one event alternate, a start first, over any number of windows. For a new
/// event whose occurrences all have the same limit, each start is announced while none is
/// open and each stop while one is, and a start is open exactly where the count of the
/// event is over the threshold. A threshold of zero is left out where it sees a second
/// window: that window is over the threshold from its first occurrence on, without a start.
pub proof fn law_notices_alternate(
    table: Map<RateKeyView, StateView>,
    run: Seq<Limited>,
    key: RateKeyView,
    limits: LimitsView,
)
    requires
        run.len() > 0,
        !table.contains_key(key),
        all_alike(run, key, limits),
        run.len() <= u64::MAX,
        limits.threshold >= 1 || in_window(run[0].occurrence.first_state(limits), times_of(run)),
    ensures
        alternate(decisions_for(table, run, key)),
        start_is_open(decisions_for(table, run, key)) <==> table_after(table, run)[key].count
            > limits.threshold,
{
    let first = run[0].occurrence.first_state(limits);
    let times = times_of(run);
    let all = verdicts(first, limits.threshold, times);
    let decisions = decisions_for(table, run, key);
    law_one_key_follows_its_state(table, run, key, limits);
    law_starts_and_stops_alternate(first, times);
    lemma_announced_starts(first, all, decisions);
    assert forall|i: int| 0 <= i < decisions.len() implies {
        &&& starts(#[trigger] decisions[i]) ==> !start_is_open(decisions.take(i))
        &&& stops(decisions[i]) ==> start_is_open(decisions.take(i))
    } by {
        assert(decisions[i] == Some(announced(first, all[i])));
        assert forall|j: int| 0 <= j < all.take(i).len() implies #[trigger] decisions.take(i)[j]
            == Some(announced(first, all.take(i)[j])) by {
            assert(decisions.take(i)[j] == decisions[j]);
        }
        lemma_announced_starts(first, all.take(i), decisions.take(i));
    }
}

proof fn lemma_open_until_stopped(decisions: Seq<Option<DecisionView>>, from: int, to: int)
    requires
        0 <= from <= to <= decisions.len(),
        start_is_open(decisions.take(from)),
        forall|k: int| from <= k < to ==> !stops(#[trigger] decisions[k]),
    ensures
        start_is_open(decisions.take(to)),
    decreases to - from,
{
    if from < to {
        lemma_open_until_stopped(decisions, from, to - 1);
        assert(decisions.take(to).drop_last() =~= decisions.take(to - 1));
        assert(!stops(decisions[to - 1]));
    }
}

/// A start is announced at most once per window: between two starts a stop is announced,
/// which ends the window of the first one.
pub proof fn law_one_start_per_window(
    table: Map<RateKeyView, StateView>,
    run: Seq<Limited>,
    key: RateKeyView,
    limits: LimitsView,
    i: int,
    j: int,
)
    requires
        !table.contains_key(key),
        all_alike(run, key, limits),
        run.len() <= u64::MAX,
        limits.threshold >= 1 || in_window(run[0].occurrence.first_state(limits), times_of(run)),
        0 <= i < j < decisions_for(table, run, key).len(),
        starts(decisions_for(table, run, key)[i]),
        starts(decisions_for(table, run, key)[j]),
    ensures
        exists|k: int| i < k < j && stops(#[trigger] decisions_for(table, run, key)[k]),
{
    let decisions = decisions_for(table, run, key);
    assert(run.len() > 0);
    law_notices_alternate(table, run, key, limits);
    if forall|k: int| i < k < j ==> !stops(#[trigger] decisions[k]) {
        assert(decisions.take(i + 1).last() == decisions[i]);
        assert(start_is_open(decisions.take(i + 1)));
        lemma_open_until_stopped(decisions, i + 1, j);
        assert(!start_is_open(decisions.take(j)));
    }
}

/// Among any other events too, the notices of a new event alternate and its books balance,
/// as long as its own occurrences all have the same limit.
pub proof fn law_books_balance_among_other_events(
    table: Map<RateKeyView, StateView>,
    run: Seq<Limited>,
    key: RateKeyView,
    limits: LimitsView,
)
    requires
        only(run, key).len() > 0,
        !table.contains_key(key),
        all_alike(only(run, key), key, limits),
        run.len() <= u64::MAX,
        limits.threshold >= 1 || in_window(
            only(run, key)[0].occurrence.first_state(limits),
            times_of(only(run, key)),
        ),
    ensures
        alternate(decisions_for(table, run, key)),
        start_is_open(decisions_for(table, run, key)) <==> table_after(table, run)[key].count
            > limits.threshold,
        only(run, key).len() == events_forwarded(decisions_for(table, run, key)) + events_reported(
            decisions_for(table, run, key),
        ) + unreported(table_after(table, run)[key]),
{
    let own = only(run, key);
    run.lemma_filter_len(|limited: Limited| limited.occurrence.key() == key);
    law_keys_are_independent(table, run, key);
    law_one_key_follows_its_state(table, own, key, limits);
    law_notices_alternate(table, own, key, limits);
    law_every_event_is_accounted_for(table, own, key, limits);
}

/// What is announced rests on the state of the event alone: of two occurrences with the
/// same key, time and threshold, the name, the message and all other fields make no
/// difference once the event is known.
pub proof fn law_occurrence_does_not_leak(
    table: Map<RateKeyView, StateView>,
    first: Limited,
    second: Limited,
)
    requires
        table.contains_key(first.occurrence.key()),
        first.occurrence.key() == second.occurrence.key(),
        first.occurrence.now == second.occurrence.now,
        first.limits.threshold == second.limits.threshold,
    ensures
        first.occurrence.decided(table, first.limits) == second.occurrence.decided(
            table,
            second.limits,
        ),
        first.occurrence.table_after(table, first.limits) == second.occurrence.table_after(
            table,
            second.limits,
        ),
{
}

/// Whether every state in `table` counts at least one occurrence, and no window in it was
/// opened after `now`.
pub open spec fn is_settled(table: Map<RateKeyView, StateView>, now: nat) -> bool {
    forall|key: RateKeyView| #[trigger]
        table.contains_key(key) ==> table[key].count >= 1 && table[key].start <= now
}

/// A table in which every state counts at least one occurrence, and no window was opened in
/// the future, stays so while the clock does not go back. The empty table is such a one.
pub proof fn law_table_stays_settled(
    table: Map<RateKeyView, StateView>,
    limits: LimitsView,
    occurrence: Occurrence,
    before: nat,
)
    requires
        is_settled(table, before),
        before <= occurrence.now,
    ensures
        is_settled(Map::empty(), before),
        is_settled(occurrence.table_after(table, limits), occurrence.now),
{
    law_window_holds_its_last_occurrence(
        occurrence.state_in(table, limits),
        limits.threshold,
        occurrence.now,
    );
}

} // verus!
