# tracing_limit

A `tracing` layer that limits how often an event reaches the layer inside it, with its rules
written and proved in Verus.

An event is limited where its fields ask for it (`internal_log_rate_limit = true`,
`internal_log_rate_secs`, `internal_log_rate_count`), or where the configuration has it
limited. In each window of time it is passed on as often as its threshold allows. The next
occurrence is replaced by an event that tells of the limit, and further ones are withheld.
The first occurrence after the window is passed on, after an event that tells how many were
over the threshold. Events are told apart by their callsite and by the fields `component_id`
and `ratelimit_uid` of the event and of the spans that it occurs in.

- `src/` decides. `layer` takes what is to be read of an event, the keys of the spans around
  it and the time, and says what the inner layer is to be handed; `state` holds the rules of
  one window, `events` the table of states, `visit` and `keys` what fields stand for,
  `notice` the events that tell of a limit, `config` the configuration. `laws` states what
  holds over many events: windows, independence of keys, and that no event is withheld
  without being reported. The last holds for a key whose occurrences all have the same limit,
  with a threshold of at least one or within a single window.
- `app/` is the layer itself: it collects fields from `tracing` events and spans, reads the
  clock, and emits.
- `tests/` runs the library on given events.

The table is a `dashmap::DashMap`. What is taken from it unproved stands in `events`. The
decimal text of an integer is taken from the standard library unproved, in `value`.
