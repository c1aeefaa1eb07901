//! The parts that a decision is made of.

use tracing_limit::decision::reads_field;
use tracing_limit::notice::{
    rate_limit_started_event, rate_limit_stopped_event, Kind, Level, NoticeCallsite,
};
use tracing_limit::visit::reads_limit_field;
use tracing_limit::{
    Duration, Field, FieldValue, Instant, LimitVisitor, MessageVisitor, RateLimitConfiguration,
    RateLimitConfigurationBuilder, RateLimitedSpanKeys, State, TraceValue, Verdict,
};

fn at(millis: u64) -> Instant {
    Instant::at(Duration::from_millis(millis))
}

fn string(text: &str) -> Option<TraceValue> {
    Some(TraceValue::String(text.to_owned()))
}

#[test]
fn durations_count_nanoseconds() {
    assert_eq!(Duration::from_secs(u64::MAX).as_secs(), u64::MAX);
    assert_eq!(Duration::new(3, 999_999_999).as_secs(), 3);
    assert_eq!(Duration::new(1, 1_500_000_000).as_secs(), 2);
    assert_eq!(Duration::new(u64::MAX, 999_999_999).as_secs(), u64::MAX);
    assert_eq!(Duration::from_millis(1999).as_secs(), 1);
    assert!(Duration::from_millis(1000).at_least(&Duration::from_secs(1)));
    assert!(!Duration::new(0, 999_999_999).at_least(&Duration::from_secs(1)));
    assert!(at(1500).saturating_duration_since(&at(500)).at_least(&Duration::from_secs(1)));
    assert!(!at(500).saturating_duration_since(&at(1500)).at_least(&Duration::new(0, 1)));
}

#[test]
fn a_state_counts_and_expires() {
    let mut state = State::new("a".to_owned(), 2, Duration::from_secs(1), at(0));
    assert_eq!(state.increment_count(), 0);
    assert_eq!(state.increment_count(), 1);
    assert!(!state.should_limit(at(0)));
    assert_eq!(state.increment_count(), 2);
    assert!(state.should_limit(at(999)));
    assert!(!state.should_limit(at(1000)));
    assert!(!state.expired(at(999)));
    assert!(state.expired(at(1000)));
    state.reset(at(1000));
    assert_eq!(state.count, 1);
    assert!(!state.expired(at(1999)));
    let copy = state.clone();
    assert_eq!((copy.count, copy.message), (state.count, state.message));
}

#[test]
fn a_run_of_verdicts() {
    let mut state = State::new("a".to_owned(), 2, Duration::from_secs(1), at(0));
    let times = [0, 100, 200, 300, 400, 1000, 1100, 1200, 2000, 3000];
    let verdicts: Vec<Verdict> = times.map(|time| state.observe(2, at(time))).into();
    assert_eq!(
        verdicts,
        vec![
            Verdict::Forward,
            Verdict::Forward,
            Verdict::Started,
            Verdict::Suppress,
            Verdict::Suppress,
            Verdict::Stopped(3),
            Verdict::Forward,
            Verdict::Started,
            Verdict::Stopped(1),
            Verdict::Forward,
        ]
    );
}

#[test]
fn a_clock_that_goes_back_does_not_end_a_window() {
    let mut state = State::new("a".to_owned(), 1, Duration::from_secs(1), at(5000));
    assert_eq!(state.observe(1, at(5000)), Verdict::Forward);
    assert_eq!(state.observe(1, at(0)), Verdict::Started);
}

#[test]
fn a_window_without_length_never_limits() {
    let mut state = State::new("a".to_owned(), 0, Duration::from_secs(0), at(0));
    assert_eq!(state.observe(0, at(0)), Verdict::Forward);
    assert_eq!(state.observe(0, at(0)), Verdict::Stopped(1));
    assert_eq!(state.observe(5, at(0)), Verdict::Forward);
}

#[test]
fn an_occurrence_may_ask_for_more_than_the_window_allows() {
    let mut state = State::new("a".to_owned(), 1, Duration::from_secs(1), at(0));
    assert_eq!(state.observe(3, at(0)), Verdict::Forward);
    assert_eq!(state.observe(3, at(0)), Verdict::Forward);
    assert_eq!(state.observe(3, at(0)), Verdict::Forward);
    assert_eq!(state.observe(3, at(0)), Verdict::Started);
    assert_eq!(state.observe(3, at(0)), Verdict::Suppress);
}

#[test]
fn merge_puts_keys_over_others() {
    let outer = RateLimitedSpanKeys { component_id: string("a"), ratelimit_uid: string("b") };
    let inner = RateLimitedSpanKeys { component_id: None, ratelimit_uid: string("c") };
    let mut keys = RateLimitedSpanKeys::default();
    keys.merge(&outer);
    assert_eq!(keys, outer);
    keys.merge(&inner);
    assert_eq!(
        keys,
        RateLimitedSpanKeys { component_id: string("a"), ratelimit_uid: string("c") }
    );
    keys.merge(&inner);
    keys.merge(&RateLimitedSpanKeys::default());
    assert_eq!(
        keys,
        RateLimitedSpanKeys { component_id: string("a"), ratelimit_uid: string("c") }
    );
}

#[test]
fn merge_in_two_ways_is_the_same() {
    let first = RateLimitedSpanKeys { component_id: string("a"), ratelimit_uid: None };
    let second = RateLimitedSpanKeys { component_id: string("b"), ratelimit_uid: string("x") };
    let third = RateLimitedSpanKeys { component_id: None, ratelimit_uid: string("y") };
    let mut left = first.clone();
    left.merge(&second);
    left.merge(&third);
    let mut inner = second.clone();
    inner.merge(&third);
    let mut right = first.clone();
    right.merge(&inner);
    assert_eq!(left, right);
    let mut all = first;
    all.merge_spans(&vec![second, third]);
    assert_eq!(all, right);
}

#[test]
fn keys_are_recorded_by_kind() {
    let mut keys = RateLimitedSpanKeys::default();
    keys.record_i64("component_id", -3);
    assert_eq!(keys.component_id, Some(TraceValue::Int(-3)));
    keys.record_u64("component_id", 3);
    assert_eq!(keys.component_id, Some(TraceValue::Uint(3)));
    keys.record_bool("component_id", false);
    assert_eq!(keys.component_id, Some(TraceValue::Bool(false)));
    keys.record_str("ratelimit_uid", "s");
    assert_eq!(keys.ratelimit_uid, string("s"));
    keys.record_debug("ratelimit_uid", "d");
    assert_eq!(keys.ratelimit_uid, string("d"));
    keys.record("component", TraceValue::from(true));
    assert_eq!(keys.component_id, Some(TraceValue::Bool(false)));
}

#[test]
fn fields_recorded_in_two_lots() {
    let lot = |name: &str, value: i64| Field::new(name, FieldValue::I64(value));
    let mut first = RateLimitedSpanKeys::default();
    first.record_fields(&vec![lot("component_id", 1), lot("ratelimit_uid", 2)]);
    first.record_fields(&vec![lot("component_id", 3)]);
    let mut second = RateLimitedSpanKeys::default();
    second.record_fields(&vec![
        lot("component_id", 1),
        lot("ratelimit_uid", 2),
        lot("component_id", 3),
    ]);
    assert_eq!(first, second);
}

#[test]
fn trace_values_from_plain_ones() {
    assert_eq!(TraceValue::from(true), TraceValue::Bool(true));
    assert_eq!(TraceValue::from(-1i64), TraceValue::Int(-1));
    assert_eq!(TraceValue::from(1u64), TraceValue::Uint(1));
    assert_eq!(TraceValue::from("a".to_owned()), TraceValue::String("a".to_owned()));
}

#[test]
fn limits_are_read_from_fields() {
    let mut visitor = LimitVisitor::default();
    visitor.record_bool("internal_log_rate_limit", true);
    assert_eq!(visitor.limit, Some(true));
    visitor.record_bool("internal_log_rate_secs", false);
    assert_eq!(visitor.limit, Some(true));
    visitor.record_bool("internal_log_rate_limit", false);
    assert_eq!(visitor.limit, Some(false));
    visitor.record_i64("internal_log_rate_limit", 1);
    assert_eq!(visitor.limit, Some(false));
    visitor.record_i64("internal_log_rate_secs", i64::MAX);
    assert_eq!(visitor.limit, Some(true));
    assert_eq!(visitor.limit_secs, Some(9_223_372_036_854_775_807));
    visitor.record_i64("internal_log_rate_count", i64::MIN);
    assert_eq!(visitor.limit_count, Some(0));
    visitor.record_u64("internal_log_rate_secs", u64::MAX);
    visitor.record_u64("internal_log_rate_count", 2);
    assert_eq!((visitor.limit_secs, visitor.limit_count), (Some(u64::MAX), Some(2)));
    visitor.record_u64("message", 7);
    assert_eq!((visitor.limit_secs, visitor.limit_count), (Some(u64::MAX), Some(2)));
    let texts = vec![
        Field::new("internal_log_rate_limit", FieldValue::Str("true".to_owned())),
        Field::new("internal_log_rate_secs", FieldValue::Debug("1".to_owned())),
    ];
    assert_eq!(LimitVisitor::visit(&texts), LimitVisitor::default());
}

#[test]
fn the_first_message_stays() {
    let visit = |values: Vec<FieldValue>| {
        let fields = values.into_iter().map(|value| Field::new("message", value)).collect();
        MessageVisitor::visit(&fields).message
    };
    assert_eq!(visit(vec![]), None);
    assert_eq!(visit(vec![FieldValue::I64(-120)]), Some("-120".to_owned()));
    assert_eq!(visit(vec![FieldValue::I64(i64::MIN)]), Some("-9223372036854775808".to_owned()));
    assert_eq!(visit(vec![FieldValue::U64(0)]), Some("0".to_owned()));
    assert_eq!(visit(vec![FieldValue::U64(u64::MAX)]), Some("18446744073709551615".to_owned()));
    assert_eq!(visit(vec![FieldValue::Bool(true)]), Some("true".to_owned()));
    assert_eq!(visit(vec![FieldValue::Bool(false)]), Some("false".to_owned()));
    assert_eq!(visit(vec![FieldValue::Debug("d".to_owned())]), Some("d".to_owned()));
    assert_eq!(
        visit(vec![FieldValue::Str("first".to_owned()), FieldValue::Str("second".to_owned())]),
        Some("first".to_owned())
    );
    let mut visitor = MessageVisitor::default();
    visitor.record_str("messages", "a");
    visitor.record_debug("messages", "b");
    assert_eq!(visitor.message, None);
    visitor.record_debug("message", "c");
    visitor.record_str("message", "d");
    assert_eq!(visitor.message, Some("c".to_owned()));
}

#[test]
fn the_fields_that_are_read() {
    for name in [
        "internal_log_rate_limit",
        "internal_log_rate_secs",
        "internal_log_rate_count",
        "message",
        "component_id",
        "ratelimit_uid",
    ] {
        assert!(reads_field(name));
    }
    assert!(!reads_field("messages"));
    assert!(!reads_field(""));
    let with = vec![
        Field::new("message", FieldValue::I64(1)),
        Field::new("other", FieldValue::I64(2)),
    ];
    let without = vec![Field::new("message", FieldValue::I64(1))];
    assert_eq!(MessageVisitor::visit(&with).message, MessageVisitor::visit(&without).message);
    assert_eq!(LimitVisitor::visit(&with), LimitVisitor::visit(&without));
}

#[test]
fn the_default_configuration() {
    let config: RateLimitConfiguration<fn(&u64) -> bool> = RateLimitConfiguration::default();
    assert!(!config.auto_enabled);
    assert!(config.should_enable_ratelimit.is_none());
    assert_eq!(config.threshold, 1);
    assert_eq!(config.duration.as_secs(), 10);
}

#[test]
fn the_builder_keeps_what_is_set() {
    let builder: RateLimitConfigurationBuilder<fn(&u64) -> bool> =
        RateLimitConfigurationBuilder::default();
    let config = builder.threshold(7).threshold(8).build().unwrap();
    assert!(!config.auto_enabled);
    assert!(config.should_enable_ratelimit.is_none());
    assert_eq!((config.threshold, config.duration.as_secs()), (8, 10));
    let builder: RateLimitConfigurationBuilder<fn(&u64) -> bool> =
        RateLimitConfigurationBuilder::default();
    let config = builder
        .duration(Duration::from_secs(3))
        .should_enable_ratelimit(Some(|event| *event == 5))
        .auto_enabled(true)
        .build()
        .unwrap();
    assert!(config.auto_enabled);
    assert!(config.should_enable_ratelimit.unwrap()(&5));
    assert_eq!((config.threshold, config.duration.as_secs()), (1, 3));
}

#[test]
fn notices_tell_of_the_state() {
    let state = State::new("a".to_owned(), 6, Duration::from_millis(1500), at(0));
    let started = rate_limit_started_event(&state).fields;
    let names: Vec<&str> = started.iter().map(|field| field.name.as_str()).collect();
    assert_eq!(
        names,
        vec!["message", "ratelimited_message", "ratelimit_duration", "ratelimit_threshold"]
    );
    assert_eq!(started[2].value, FieldValue::U64(1));
    assert_eq!(started[3].value, FieldValue::U64(6));
    let stopped = rate_limit_stopped_event(&state, 12).fields;
    assert_eq!(stopped.len(), 5);
    assert_eq!(stopped[1].value, FieldValue::Str("a".to_owned()));
    assert_eq!(stopped[4], Field::new("filtered_count", FieldValue::U64(12)));
}

#[test]
fn every_withheld_occurrence_is_reported() {
    let times = [0, 10, 20, 30, 1500, 1510, 1520, 4000, 4010, 4020, 4030, 5000, 5001, 5002];
    for threshold in 1..5 {
        let mut state = State::new("a".to_owned(), threshold, Duration::from_secs(1), at(0));
        let mut withheld = 0;
        let mut reported = 0;
        for time in times {
            match state.observe(threshold, at(time)) {
                Verdict::Forward => {}
                Verdict::Started | Verdict::Suppress => withheld += 1,
                Verdict::Stopped(filtered_count) => reported += filtered_count,
            }
            assert_eq!(reported + state.count.saturating_sub(threshold), withheld);
        }
    }
}

#[test]
fn an_event_is_passed_on_once_its_window_is_over() {
    for seen in 1..6 {
        let mut state = State::new("a".to_owned(), 2, Duration::from_secs(1), at(0));
        for _ in 0..seen {
            state.observe(2, at(500));
        }
        let verdict = state.observe(2, at(1000));
        if seen > 2 {
            assert_eq!(verdict, Verdict::Stopped(seen - 2));
        } else {
            assert_eq!(verdict, Verdict::Forward);
        }
        assert_eq!((state.count, state.message.as_str(), state.limit_threshold), (1, "a", 2));
        assert!(!state.expired(at(1999)));
        assert!(state.expired(at(2000)));
    }
}

#[test]
fn a_new_window_is_a_first_sight() {
    let mut old = State::new("a".to_owned(), 1, Duration::from_secs(1), at(0));
    old.observe(1, at(0));
    old.observe(1, at(2000));
    let mut new = State::new("a".to_owned(), 1, Duration::from_secs(1), at(2000));
    new.observe(1, at(2000));
    assert_eq!(old.count, new.count);
    for time in [2100, 2200, 3000] {
        assert_eq!(old.observe(1, at(time)), new.observe(1, at(time)));
    }
}

#[test]
fn starts_and_stops_alternate() {
    let times = [0, 10, 20, 30, 1500, 1510, 1520, 4000, 5000, 5010, 5020, 5030, 5040, 7000];
    for threshold in 1..4 {
        let mut state = State::new("a".to_owned(), threshold, Duration::from_secs(1), at(0));
        let mut open = false;
        let mut forwarded = 0;
        let mut reported = 0;
        for (n, time) in times.into_iter().enumerate() {
            match state.observe(threshold, at(time)) {
                Verdict::Forward => forwarded += 1,
                Verdict::Started => {
                    assert!(!open);
                    open = true;
                }
                Verdict::Suppress => {}
                Verdict::Stopped(filtered_count) => {
                    assert!(open);
                    open = false;
                    forwarded += 1;
                    reported += filtered_count;
                }
            }
            assert_eq!(open, state.count > threshold);
            let unreported = state.count.saturating_sub(threshold);
            assert_eq!(n as u64 + 1, forwarded + reported + unreported);
        }
    }
}

#[test]
fn the_two_notices_of_a_limit_agree() {
    let state = State::new("a".to_owned(), 6, Duration::from_millis(1500), at(0));
    let started = rate_limit_started_event(&state);
    let stopped = rate_limit_stopped_event(&state, 12);
    for notice in [&started, &stopped] {
        assert_eq!(notice.name, "event ratelimit");
        assert_eq!(notice.target, "ratelimit");
        assert_eq!(notice.module, "ratelimit");
        assert_eq!(notice.level, Level::Info);
        assert_eq!(notice.kind, Kind::Event);
    }
    assert_eq!(started.callsite, NoticeCallsite::Started);
    assert_eq!(stopped.callsite, NoticeCallsite::Stopped);
    assert_eq!(started.fields[1..4], stopped.fields[1..4]);
    assert_eq!(started.fields[0].name, stopped.fields[0].name);
    assert_ne!(started.fields[0].value, stopped.fields[0].value);
    assert!(started.fields.iter().all(|field| field.name != "filtered_count"));
}

#[test]
fn names_are_told_apart_by_every_character() {
    let mut keys = RateLimitedSpanKeys::default();
    for name in ["", "component_i", "component_id ", "Component_id", "component_i\u{e9}"] {
        keys.record_u64(name, 1);
    }
    assert_eq!(keys, RateLimitedSpanKeys::default());
    keys.record_u64("component_id", 1);
    assert_eq!(keys.component_id, Some(TraceValue::Uint(1)));
}

#[test]
fn the_fields_that_ask_for_a_limit() {
    assert!(reads_limit_field("internal_log_rate_limit"));
    assert!(reads_limit_field("internal_log_rate_secs"));
    assert!(reads_limit_field("internal_log_rate_count"));
    assert!(!reads_limit_field("message"));
    assert!(!reads_limit_field("component_id"));
    let with = vec![
        Field::new("message", FieldValue::I64(1)),
        Field::new("internal_log_rate_secs", FieldValue::I64(2)),
    ];
    let without = vec![Field::new("internal_log_rate_secs", FieldValue::I64(2))];
    assert_eq!(LimitVisitor::visit(&with), LimitVisitor::visit(&without));
}
