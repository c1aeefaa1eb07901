//! Events sent through a rate limited layer, under a clock that stands still until it is
//! moved.

use std::time::Duration as StdDuration;

use mock_instant::thread_local::MockClock;
use tracing_limit::notice::{
    FILTERED_COUNT_FIELD, RATELIMITED_MESSAGE_FIELD, RATE_LIMIT_STARTED_MESSAGE,
    RATE_LIMIT_STOPPED_MESSAGE,
};
use tracing_limit::visit::MESSAGE_FIELD;
use tracing_limit::{
    CountOverflow, Decision, Duration, EventRecord, EventTable, Field, FieldValue, Instant,
    RateLimitConfiguration, RateLimitConfigurationBuilder, RateLimitedLayer, RateLimitedSpanKeys,
    TraceValue,
};

type Choose = fn(&u64) -> bool;

#[derive(Default, Debug, PartialEq, Eq)]
struct Seen {
    message: Option<String>,
    ratelimited_message: Option<String>,
    filtered_count: Option<u64>,
}

impl From<(&str, Option<&str>, Option<u64>)> for Seen {
    fn from(value: (&str, Option<&str>, Option<u64>)) -> Self {
        Seen {
            message: Some(value.0.to_owned()),
            ratelimited_message: value.1.map(|v| v.to_owned()),
            filtered_count: value.2,
        }
    }
}

fn seen(fields: &[Field]) -> Seen {
    let mut seen = Seen::default();
    for field in fields {
        match &field.value {
            FieldValue::Str(text) | FieldValue::Debug(text) => {
                if field.name == MESSAGE_FIELD {
                    seen.message = Some(text.clone());
                } else if field.name == RATELIMITED_MESSAGE_FIELD {
                    seen.ratelimited_message = Some(text.clone());
                }
            }
            FieldValue::U64(value) => {
                if seen.filtered_count.is_none() && field.name == FILTERED_COUNT_FIELD {
                    seen.filtered_count = Some(*value);
                }
            }
            _ => {}
        }
    }
    seen
}

/// A layer with its table, and what the layer inside it was handed.
struct Run {
    layer: RateLimitedLayer<Vec<Seen>, Choose>,
    events: EventTable,
}

fn now() -> Instant {
    let time = MockClock::time();
    Instant::at(Duration::new(time.as_secs(), time.subsec_nanos()))
}

impl Run {
    fn new(config: RateLimitConfiguration<Choose>) -> Run {
        MockClock::set_time(StdDuration::ZERO);
        Run {
            layer: RateLimitedLayer::new(Vec::new()).with_config(config),
            events: EventTable::new(),
        }
    }

    fn emit(&mut self, fields: Vec<Field>, spans: Vec<RateLimitedSpanKeys>) {
        let record = EventRecord { callsite: 1, name: "event".to_owned(), fields };
        let decision = self.layer.on_event(&mut self.events, &1, &record, &spans, now());
        match decision.unwrap() {
            Decision::Forward => self.layer.inner.push(seen(&record.fields)),
            Decision::Started(notice) => self.layer.inner.push(seen(&notice.fields)),
            Decision::Suppress => {}
            Decision::Stopped(notice) => {
                self.layer.inner.push(seen(&notice.fields));
                self.layer.inner.push(seen(&record.fields));
            }
        }
    }

    fn expect(&self, expected: Vec<(&str, Option<&str>, Option<u64>)>) {
        let expected: Vec<Seen> = expected.into_iter().map(|v| v.into()).collect();
        assert_eq!(self.layer.inner, expected);
    }
}

fn builder() -> RateLimitConfigurationBuilder<Choose> {
    RateLimitConfigurationBuilder::default()
}

fn text(name: &str, value: &str) -> Field {
    Field::new(name, FieldValue::Str(value.to_owned()))
}

fn debug(name: &str, value: &str) -> Field {
    Field::new(name, FieldValue::Debug(value.to_owned()))
}

fn number(name: &str, value: i64) -> Field {
    Field::new(name, FieldValue::I64(value))
}

fn flag(name: &str, value: bool) -> Field {
    Field::new(name, FieldValue::Bool(value))
}

#[test]
fn rate_limits() {
    let mut run = Run::new(builder().duration(Duration::from_secs(1)).build().unwrap());
    for i in 0..21 {
        run.emit(
            vec![
                debug("message", "Hello world!"),
                number("test", i),
                flag("internal_log_rate_limit", true),
            ],
            vec![],
        );
        MockClock::advance(StdDuration::from_millis(100));
    }
    run.expect(vec![
        ("Hello world!", None, None),
        (RATE_LIMIT_STARTED_MESSAGE, Some("Hello world!"), None),
        (RATE_LIMIT_STOPPED_MESSAGE, Some("Hello world!"), Some(9)),
        ("Hello world!", None, None),
        (RATE_LIMIT_STARTED_MESSAGE, Some("Hello world!"), None),
        (RATE_LIMIT_STOPPED_MESSAGE, Some("Hello world!"), Some(9)),
        ("Hello world!", None, None),
    ]);
}

#[test]
fn override_rate_limit_at_callsite() {
    let mut run = Run::new(builder().duration(Duration::from_secs(100)).build().unwrap());
    for _ in 0..21 {
        run.emit(
            vec![
                text("message", "Hello world!"),
                flag("internal_log_rate_limit", true),
                number("internal_log_rate_secs", 1),
            ],
            vec![],
        );
        MockClock::advance(StdDuration::from_millis(100));
    }
    run.expect(vec![
        ("Hello world!", None, None),
        (RATE_LIMIT_STARTED_MESSAGE, Some("Hello world!"), None),
        (RATE_LIMIT_STOPPED_MESSAGE, Some("Hello world!"), Some(9)),
        ("Hello world!", None, None),
        (RATE_LIMIT_STARTED_MESSAGE, Some("Hello world!"), None),
        (RATE_LIMIT_STOPPED_MESSAGE, Some("Hello world!"), Some(9)),
        ("Hello world!", None, None),
    ]);
}

#[test]
fn override_rate_limit_count_at_callsite() {
    let mut run = Run::new(builder().duration(Duration::from_secs(1)).build().unwrap());
    for _ in 0..21 {
        run.emit(
            vec![
                text("message", "Hello world!"),
                flag("internal_log_rate_limit", true),
                number("internal_log_rate_secs", 1),
                number("internal_log_rate_count", 3),
            ],
            vec![],
        );
        MockClock::advance(StdDuration::from_millis(100));
    }
    run.expect(vec![
        ("Hello world!", None, None),
        ("Hello world!", None, None),
        ("Hello world!", None, None),
        (RATE_LIMIT_STARTED_MESSAGE, Some("Hello world!"), None),
        (RATE_LIMIT_STOPPED_MESSAGE, Some("Hello world!"), Some(7)),
        ("Hello world!", None, None),
        ("Hello world!", None, None),
        ("Hello world!", None, None),
        (RATE_LIMIT_STARTED_MESSAGE, Some("Hello world!"), None),
        (RATE_LIMIT_STOPPED_MESSAGE, Some("Hello world!"), Some(7)),
        ("Hello world!", None, None),
    ]);
}

/// What is seen of four uses of one event, each limited on its own.
fn expected_by_key() -> Vec<(&'static str, Option<&'static str>, Option<u64>)> {
    vec![
        ("Hello foo on line_number 1!", None, None),
        ("Hello foo on line_number 2!", None, None),
        ("Hello bar on line_number 1!", None, None),
        ("Hello bar on line_number 2!", None, None),
        (RATE_LIMIT_STARTED_MESSAGE, Some("Hello foo on line_number 1!"), None),
        (RATE_LIMIT_STARTED_MESSAGE, Some("Hello foo on line_number 2!"), None),
        (RATE_LIMIT_STARTED_MESSAGE, Some("Hello bar on line_number 1!"), None),
        (RATE_LIMIT_STARTED_MESSAGE, Some("Hello bar on line_number 2!"), None),
        (RATE_LIMIT_STOPPED_MESSAGE, Some("Hello foo on line_number 1!"), Some(9)),
        ("Hello foo on line_number 1!", None, None),
        (RATE_LIMIT_STOPPED_MESSAGE, Some("Hello foo on line_number 2!"), Some(9)),
        ("Hello foo on line_number 2!", None, None),
        (RATE_LIMIT_STOPPED_MESSAGE, Some("Hello bar on line_number 1!"), Some(9)),
        ("Hello bar on line_number 1!", None, None),
        (RATE_LIMIT_STOPPED_MESSAGE, Some("Hello bar on line_number 2!"), Some(9)),
        ("Hello bar on line_number 2!", None, None),
        (RATE_LIMIT_STARTED_MESSAGE, Some("Hello foo on line_number 1!"), None),
        (RATE_LIMIT_STARTED_MESSAGE, Some("Hello foo on line_number 2!"), None),
        (RATE_LIMIT_STARTED_MESSAGE, Some("Hello bar on line_number 1!"), None),
        (RATE_LIMIT_STARTED_MESSAGE, Some("Hello bar on line_number 2!"), None),
        (RATE_LIMIT_STOPPED_MESSAGE, Some("Hello foo on line_number 1!"), Some(9)),
        ("Hello foo on line_number 1!", None, None),
        (RATE_LIMIT_STOPPED_MESSAGE, Some("Hello foo on line_number 2!"), Some(9)),
        ("Hello foo on line_number 2!", None, None),
        (RATE_LIMIT_STOPPED_MESSAGE, Some("Hello bar on line_number 1!"), Some(9)),
        ("Hello bar on line_number 1!", None, None),
        (RATE_LIMIT_STOPPED_MESSAGE, Some("Hello bar on line_number 2!"), Some(9)),
        ("Hello bar on line_number 2!", None, None),
    ]
}

#[test]
fn rate_limit_by_span_key() {
    let mut run = Run::new(builder().duration(Duration::from_secs(1)).build().unwrap());
    for _ in 0..21 {
        for key in ["foo", "bar"] {
            for line_number in [1, 2] {
                let span = run.layer.on_new_span(
                    None,
                    &vec![text("component_id", key), number("ratelimit_uid", line_number)],
                );
                let message = format!("Hello {} on line_number {}!", key, line_number);
                run.emit(
                    vec![text("message", &message), flag("internal_log_rate_limit", true)],
                    vec![span],
                );
            }
        }
        MockClock::advance(StdDuration::from_millis(100));
    }
    run.expect(expected_by_key());
}

#[test]
fn rate_limit_by_event_key() {
    let mut run = Run::new(builder().duration(Duration::from_secs(1)).build().unwrap());
    for _ in 0..21 {
        for key in ["foo", "bar"] {
            for line_number in [1, 2] {
                let message = format!("Hello {} on line_number {}!", key, line_number);
                run.emit(
                    vec![
                        text("message", &message),
                        flag("internal_log_rate_limit", true),
                        text("component_id", key),
                        number("ratelimit_uid", line_number),
                    ],
                    vec![],
                );
            }
        }
        MockClock::advance(StdDuration::from_millis(100));
    }
    run.expect(expected_by_key());
}

#[test]
fn an_event_that_does_not_ask_passes_untouched() {
    let mut run = Run::new(RateLimitConfiguration::default());
    for _ in 0..3 {
        run.emit(vec![text("message", "a")], vec![]);
        run.emit(vec![text("message", "b"), flag("internal_log_rate_limit", false)], vec![]);
        run.emit(
            vec![
                text("message", "c"),
                number("internal_log_rate_secs", 9),
                flag("internal_log_rate_limit", false),
            ],
            vec![],
        );
    }
    assert_eq!(run.layer.inner.len(), 9);
}

#[test]
fn a_length_or_a_threshold_alone_asks_for_a_limit() {
    let mut run = Run::new(RateLimitConfiguration::default());
    run.emit(vec![text("message", "a"), number("internal_log_rate_count", 1)], vec![]);
    run.emit(vec![text("message", "a"), number("internal_log_rate_count", 1)], vec![]);
    run.expect(vec![("a", None, None), (RATE_LIMIT_STARTED_MESSAGE, Some("a"), None)]);
}

#[test]
fn the_default_window_lasts_ten_seconds() {
    let mut run = Run::new(builder().auto_enabled(true).build().unwrap());
    let fields = || vec![text("message", "a")];
    run.emit(fields(), vec![]);
    run.emit(fields(), vec![]);
    MockClock::advance(StdDuration::from_nanos(9_999_999_999));
    run.emit(fields(), vec![]);
    MockClock::advance(StdDuration::from_nanos(1));
    run.emit(fields(), vec![]);
    run.expect(vec![
        ("a", None, None),
        (RATE_LIMIT_STARTED_MESSAGE, Some("a"), None),
        (RATE_LIMIT_STOPPED_MESSAGE, Some("a"), Some(2)),
        ("a", None, None),
    ]);
}

#[test]
fn a_quiet_window_ends_without_news() {
    let mut run =
        Run::new(builder().auto_enabled(true).threshold(2).build().unwrap());
    let fields = || vec![text("message", "a")];
    run.emit(fields(), vec![]);
    MockClock::advance(StdDuration::from_secs(10));
    run.emit(fields(), vec![]);
    run.emit(fields(), vec![]);
    run.emit(fields(), vec![]);
    run.expect(vec![
        ("a", None, None),
        ("a", None, None),
        ("a", None, None),
        (RATE_LIMIT_STARTED_MESSAGE, Some("a"), None),
    ]);
}

#[test]
fn a_threshold_of_zero_withholds_from_the_first_on() {
    let mut run = Run::new(builder().auto_enabled(true).threshold(0).build().unwrap());
    let fields = || vec![text("message", "a")];
    run.emit(fields(), vec![]);
    run.emit(fields(), vec![]);
    MockClock::advance(StdDuration::from_secs(10));
    run.emit(fields(), vec![]);
    run.emit(fields(), vec![]);
    MockClock::advance(StdDuration::from_secs(10));
    run.emit(fields(), vec![]);
    run.expect(vec![
        (RATE_LIMIT_STARTED_MESSAGE, Some("a"), None),
        (RATE_LIMIT_STOPPED_MESSAGE, Some("a"), Some(2)),
        ("a", None, None),
        (RATE_LIMIT_STOPPED_MESSAGE, Some("a"), Some(2)),
        ("a", None, None),
    ]);
}

#[test]
fn the_first_occurrence_fixes_message_threshold_and_window() {
    let mut run = Run::new(RateLimitConfiguration::default());
    let fields = |message: &str, count: i64| {
        vec![text("message", message), number("internal_log_rate_count", count)]
    };
    run.emit(fields("first", 3), vec![]);
    run.emit(fields("second", 3), vec![]);
    // The window allows three; an occurrence that asks for one takes the two before it as
    // over its own threshold.
    run.emit(fields("third", 1), vec![]);
    run.expect(vec![
        ("first", None, None),
        ("second", None, None),
        (RATE_LIMIT_STOPPED_MESSAGE, Some("first"), Some(1)),
        ("third", None, None),
    ]);
}

#[test]
fn the_configured_function_chooses_events() {
    let config = builder()
        .should_enable_ratelimit(Some((|event: &u64| *event > 10) as Choose))
        .build()
        .unwrap();
    let layer = RateLimitedLayer::new(()).with_config(config);
    assert!(layer.should_ratelimit_event(&11));
    assert!(!layer.should_ratelimit_event(&10));

    let record = EventRecord { callsite: 1, name: "event".to_owned(), fields: vec![] };
    let mut events = EventTable::new();
    let mut decide = |event: u64| {
        layer.on_event(&mut events, &event, &record, &vec![], now()).unwrap()
    };
    assert!(matches!(decide(11), Decision::Forward));
    assert!(matches!(decide(10), Decision::Forward));
    assert!(matches!(decide(11), Decision::Started(_)));
    assert!(matches!(decide(10), Decision::Forward));
    assert!(matches!(decide(11), Decision::Suppress));
}

#[test]
fn without_a_function_or_the_switch_nothing_is_chosen() {
    let layer: RateLimitedLayer<(), Choose> = RateLimitedLayer::new(());
    assert!(!layer.should_ratelimit_event(&1));
    let layer = layer.with_config(builder().auto_enabled(true).build().unwrap());
    assert!(layer.should_ratelimit_event(&1));
}

#[test]
fn limits_come_from_the_event_before_the_configuration() {
    let config = builder().threshold(4).duration(Duration::from_secs(5)).build().unwrap();
    let layer = RateLimitedLayer::new(()).with_config(config);
    assert!(layer.event_limits(false, &vec![]).is_none());
    let limits = layer.event_limits(true, &vec![]).unwrap();
    assert_eq!((limits.threshold, limits.duration.as_secs()), (4, 5));
    let fields = vec![
        number("internal_log_rate_secs", 7),
        number("internal_log_rate_secs", 8),
        Field::new("internal_log_rate_count", FieldValue::U64(9)),
    ];
    let limits = layer.event_limits(false, &fields).unwrap();
    assert_eq!((limits.threshold, limits.duration.as_secs()), (9, 8));
    let limits = layer.event_limits(false, &vec![number("internal_log_rate_secs", -1)]);
    assert_eq!(limits.unwrap().duration.as_secs(), 0);
}

#[test]
fn an_event_without_a_message_goes_by_its_name() {
    let mut run = Run::new(builder().auto_enabled(true).build().unwrap());
    run.emit(vec![], vec![]);
    run.emit(vec![], vec![]);
    assert_eq!(run.layer.inner[1].ratelimited_message, Some("event".to_owned()));
}

#[test]
fn the_notices_hold_their_fields_in_order() {
    let config = builder()
        .auto_enabled(true)
        .duration(Duration::from_millis(2500))
        .build()
        .unwrap();
    let layer: RateLimitedLayer<(), Choose> = RateLimitedLayer::new(()).with_config(config);
    let mut events = EventTable::new();
    let record = EventRecord {
        callsite: 1,
        name: "event".to_owned(),
        fields: vec![text("message", "a")],
    };
    let at = |secs: u64| Instant::at(Duration::from_secs(secs));
    layer.on_chosen_event(&mut events, true, &record, &vec![], at(0)).unwrap();
    let started = layer.on_chosen_event(&mut events, true, &record, &vec![], at(1)).unwrap();
    let stopped = layer.on_chosen_event(&mut events, true, &record, &vec![], at(3)).unwrap();
    let u64_field = |name: &str, value: u64| Field::new(name, FieldValue::U64(value));
    match started {
        Decision::Started(notice) => assert_eq!(
            notice.fields,
            vec![
                text("message", "event is being rate limited"),
                text("ratelimited_message", "a"),
                u64_field("ratelimit_duration", 2),
                u64_field("ratelimit_threshold", 1),
            ]
        ),
        other => panic!("{:?}", other),
    }
    match stopped {
        Decision::Stopped(notice) => assert_eq!(
            notice.fields,
            vec![
                text("message", "event stopped being rate limited"),
                text("ratelimited_message", "a"),
                u64_field("ratelimit_duration", 2),
                u64_field("ratelimit_threshold", 1),
                u64_field("filtered_count", 1),
            ]
        ),
        other => panic!("{:?}", other),
    }
}

#[test]
fn key_values_of_different_kinds_are_kept_apart() {
    let mut run = Run::new(builder().auto_enabled(true).build().unwrap());
    let values = || {
        vec![
            FieldValue::Str("1".to_owned()),
            FieldValue::Str("".to_owned()),
            FieldValue::I64(1),
            FieldValue::I64(-1),
            FieldValue::I64(0),
            FieldValue::U64(1),
            FieldValue::U64(0),
            FieldValue::Bool(true),
            FieldValue::Bool(false),
        ]
    };
    run.emit(vec![text("message", "a")], vec![]);
    for value in values() {
        run.emit(vec![text("message", "a"), Field::new("component_id", value)], vec![]);
    }
    for value in values() {
        run.emit(vec![text("message", "a"), Field::new("ratelimit_uid", value)], vec![]);
    }
    assert_eq!(run.layer.inner.len(), 19);
    assert!(run.layer.inner.iter().all(|seen| seen.ratelimited_message.is_none()));
    // A debug text counts as a string.
    run.emit(vec![text("message", "a"), debug("component_id", "1")], vec![]);
    assert_eq!(run.layer.inner[19].message, Some(RATE_LIMIT_STARTED_MESSAGE.to_owned()));
}

#[test]
fn callsites_are_kept_apart() {
    let layer: RateLimitedLayer<(), Choose> = RateLimitedLayer::new(());
    let mut events = EventTable::new();
    for callsite in [1, 2, 3] {
        let record = EventRecord { callsite, name: "event".to_owned(), fields: vec![] };
        let decision = layer.on_chosen_event(&mut events, true, &record, &vec![], now());
        assert!(matches!(decision, Ok(Decision::Forward)));
    }
    let record = EventRecord { callsite: 2, name: "event".to_owned(), fields: vec![] };
    let decision = layer.on_chosen_event(&mut events, true, &record, &vec![], now());
    assert!(matches!(decision, Ok(Decision::Started(_))));
}

#[test]
fn a_span_comes_before_the_event_and_the_inner_span_before_the_outer() {
    let mut run = Run::new(builder().auto_enabled(true).build().unwrap());
    let span = |component: &str| RateLimitedSpanKeys {
        component_id: Some(TraceValue::String(component.to_owned())),
        ratelimit_uid: None,
    };
    let fields = || vec![text("message", "a"), text("component_id", "event")];
    run.emit(fields(), vec![span("outer"), span("inner")]);
    run.emit(vec![text("message", "a")], vec![span("inner")]);
    run.emit(fields(), vec![span("outer")]);
    run.emit(fields(), vec![]);
    run.expect(vec![
        ("a", None, None),
        (RATE_LIMIT_STARTED_MESSAGE, Some("a"), None),
        ("a", None, None),
        ("a", None, None),
    ]);
}

#[test]
fn spans_keep_what_is_recorded_on_them() {
    let layer: RateLimitedLayer<(), Choose> = RateLimitedLayer::new(());
    let keys = layer.on_new_span(None, &vec![text("component_id", "a"), text("other", "b")]);
    assert_eq!(keys.component_id, Some(TraceValue::String("a".to_owned())));
    assert_eq!(keys.ratelimit_uid, None);
    let keys = layer.on_new_span(Some(keys), &vec![text("component_id", "c")]);
    assert_eq!(keys.component_id, Some(TraceValue::String("a".to_owned())));
    let keys = layer.on_record(Some(keys), &vec![number("ratelimit_uid", 4)]);
    assert_eq!(keys.component_id, Some(TraceValue::String("a".to_owned())));
    assert_eq!(keys.ratelimit_uid, Some(TraceValue::Int(4)));
    let keys = layer.on_record(None, &vec![flag("ratelimit_uid", true)]);
    assert_eq!(keys.component_id, None);
    assert_eq!(keys.ratelimit_uid, Some(TraceValue::Bool(true)));
}

#[test]
fn an_occurrence_that_cannot_be_counted_is_refused() {
    let layer: RateLimitedLayer<(), Choose> = RateLimitedLayer::new(());
    let mut events = EventTable::new();
    let record = EventRecord { callsite: 1, name: "event".to_owned(), fields: vec![] };
    layer.on_chosen_event(&mut events, true, &record, &vec![], now()).unwrap();
    let key = tracing_limit::RateKeyIdentifier {
        callsite: 1,
        rate_limit_key_values: RateLimitedSpanKeys::default(),
    };
    let fresh = || tracing_limit::State::new("b".to_owned(), 1, Duration::from_secs(1), now());
    let mut state = events.state_or_insert_with(&key, fresh);
    assert_eq!((state.count, state.message.as_str()), (1, "event"));
    state.count = u64::MAX;
    events.put(&key, state);
    let decision = layer.on_chosen_event(&mut events, true, &record, &vec![], now());
    assert!(matches!(decision, Err(CountOverflow)));
    assert_eq!(events.state_or_insert_with(&key, fresh).count, u64::MAX);
}

#[test]
fn events_with_different_keys_may_come_in_either_order() {
    let layer: RateLimitedLayer<(), Choose> = RateLimitedLayer::new(());
    let record = |callsite: u64| EventRecord {
        callsite,
        name: "event".to_owned(),
        fields: vec![],
    };
    let run = |order: [u64; 6]| {
        let mut events = EventTable::new();
        let mut decisions = [vec![], vec![]];
        for callsite in order {
            let decision =
                layer.on_chosen_event(&mut events, true, &record(callsite), &vec![], now());
            decisions[callsite as usize].push(format!("{:?}", decision.unwrap()));
        }
        decisions
    };
    assert_eq!(run([0, 0, 0, 1, 1, 1]), run([1, 0, 1, 0, 0, 1]));
    assert_eq!(run([0, 0, 0, 1, 1, 1])[1][2], "Suppress");
}

#[test]
fn a_known_event_is_announced_by_its_first_message() {
    let notice = |name: &str, message: &str| {
        let layer: RateLimitedLayer<(), Choose> = RateLimitedLayer::new(());
        let mut events = EventTable::new();
        let mut decide = |name: &str, message: &str| {
            let fields = vec![text("message", message)];
            let record = EventRecord { callsite: 1, name: name.to_owned(), fields };
            let at = Instant::at(Duration::from_secs(1));
            layer.on_chosen_event(&mut events, true, &record, &vec![], at).unwrap()
        };
        decide("event", "first");
        format!("{:?}", decide(name, message))
    };
    assert_eq!(notice("one", "a"), notice("other", "b"));
    assert!(notice("one", "a").contains("first"));
}
