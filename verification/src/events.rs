//! The table of states, one for each key by which an event is rate limited.

use dashmap::DashMap;
use vstd::prelude::*;

use crate::keys::{optional_view, RateLimitedSpanKeys, SpanKeysView};
use crate::state::{State, StateView};
use crate::value::{TraceValue, TraceValueView};

verus! {

/// Which event it is, and which use of it: each such pair has its own limit.
#[derive(Debug, PartialEq, Eq, Hash)]
pub struct RateKeyIdentifier {
    /// The number of the place in the program that emits the event.
    pub callsite: u64,
    pub rate_limit_key_values: RateLimitedSpanKeys,
}

/// The mathematical content of a [`RateKeyIdentifier`].
pub struct RateKeyView {
    pub callsite: u64,
    pub rate_limit_key_values: SpanKeysView,
}

impl View for RateKeyIdentifier {
    type V = RateKeyView;

    open spec fn view(&self) -> RateKeyView {
        RateKeyView {
            callsite: self.callsite,
            rate_limit_key_values: self.rate_limit_key_values@,
        }
    }
}

/// One key value as a tuple: a tag for its kind, and the value in the place that
/// its kind has.
pub type KeyPart = (u8, String, i64, u64);

/// A key as a tuple: the callsite, the component and the use within it.
pub type TableKey = (u64, KeyPart, KeyPart);

/// The mathematical content of a [`KeyPart`].
pub type KeyPartView = (u8, Seq<char>, i64, u64);

/// The mathematical content of a [`TableKey`].
pub type TableKeyView = (u64, KeyPartView, KeyPartView);

/// The table of states.
pub type Table = DashMap<TableKey, State>;

/// The content of a table.
pub type Entries = Map<TableKeyView, StateView>;

/// The concurrent map of the `dashmap` crate.
#[verifier::external_type_specification]
#[verifier::external_body]
#[verifier::reject_recursive_types(K)]
#[verifier::reject_recursive_types(V)]
#[verifier::reject_recursive_types(S)]
pub struct ExDashMap<K, V, S>(DashMap<K, V, S>);

/// What a table holds: the state of each key in it.
pub uninterp spec fn entries(table: DashMap<TableKey, State>) -> Map<TableKeyView, StateView>;

/// The content of a key value as a tuple.
pub open spec fn part_view(part: KeyPart) -> KeyPartView {
    (part.0, part.1@, part.2, part.3)
}

/// The content of a key as a tuple.
pub open spec fn table_key_view(key: TableKey) -> TableKeyView {
    (key.0, part_view(key.1), part_view(key.2))
}

/// A table without entries.
///
/// Calls `Default::default` of `DashMap`, which makes an empty map.
#[verifier::external_body]
fn empty_table() -> (r: DashMap<TableKey, State>)
    ensures
        entries(r) == Entries::empty(),
{
    DashMap::default()
}

/// A copy of the state of `key`, which is first made by `make` where the table has
/// none.
///
/// Calls `DashMap::entry` and, on the entry, `or_insert_with`: an entry that is there
/// stays as it is and `make` is not called; else the value that `make` returns is put
/// in. No other entry changes. The value behind the guard that is handed out is read with
/// `RefMut::value` and copied with `clone` of [`State`], of which the copy is an equal
/// value. The map is held exclusively, so that no other thread changes it in between.
#[verifier::external_body]
fn entry_or_insert_with<F: FnOnce() -> State>(
    table: &mut DashMap<TableKey, State>,
    key: TableKey,
    make: F,
) -> (r: State)
    requires
        make.requires(()),
    ensures
        entries(*old(table)).contains_key(table_key_view(key)) ==> {
            &&& r@ == entries(*old(table))[table_key_view(key)]
            &&& entries(*final(table)) == entries(*old(table))
        },
        !entries(*old(table)).contains_key(table_key_view(key)) ==> {
            &&& make.ensures((), r)
            &&& entries(*final(table)) == entries(*old(table)).insert(table_key_view(key), r@)
        },
{
    table.entry(key).or_insert_with(make).value().clone()
}

/// Puts `state` in as the state of `key`.
///
/// Calls `DashMap::insert`, which replaces the value of a key that is there and adds
/// one that is not. No other entry changes. The map is held exclusively.
#[verifier::external_body]
fn insert(table: &mut DashMap<TableKey, State>, key: TableKey, state: State)
    ensures
        entries(*final(table)) == entries(*old(table)).insert(table_key_view(key), state@),
{
    table.insert(key, state);
}

/// The tuple that stands for a key value.
pub open spec fn encoded_part(value: Option<TraceValueView>) -> KeyPartView {
    match value {
        None => (0u8, Seq::empty(), 0i64, 0u64),
        Some(TraceValueView::String(text)) => (1u8, text, 0i64, 0u64),
        Some(TraceValueView::Int(number)) => (2u8, Seq::empty(), number, 0u64),
        Some(TraceValueView::Uint(number)) => (3u8, Seq::empty(), 0i64, number),
        Some(TraceValueView::Bool(true)) => (4u8, Seq::empty(), 0i64, 1u64),
        Some(TraceValueView::Bool(false)) => (4u8, Seq::empty(), 0i64, 0u64),
    }
}

/// The tuple that stands for a key.
pub open spec fn encoded(key: RateKeyView) -> TableKeyView {
    (
        key.callsite,
        encoded_part(key.rate_limit_key_values.component_id),
        encoded_part(key.rate_limit_key_values.ratelimit_uid),
    )
}

/// Distinct keys are kept apart in the table: their tuples are distinct.
pub proof fn law_keys_are_kept_apart(left: RateKeyView, right: RateKeyView)
    requires
        encoded(left) == encoded(right),
    ensures
        left == right,
{
    lemma_parts_are_kept_apart(
        left.rate_limit_key_values.component_id,
        right.rate_limit_key_values.component_id,
    );
    lemma_parts_are_kept_apart(
        left.rate_limit_key_values.ratelimit_uid,
        right.rate_limit_key_values.ratelimit_uid,
    );
}

proof fn lemma_parts_are_kept_apart(left: Option<TraceValueView>, right: Option<TraceValueView>)
    requires
        encoded_part(left) == encoded_part(right),
    ensures
        left == right,
{
}

/// The states in a table, by the keys that their tuples stand for.
pub open spec fn states(entries: Entries) -> Map<RateKeyView, StateView> {
    Map::new(
        |key: RateKeyView| entries.contains_key(encoded(key)),
        |key: RateKeyView| entries[encoded(key)],
    )
}

/// To put in a state under the tuple of a key is to put it in under that key.
proof fn lemma_insert_state(entries: Entries, key: RateKeyView, state: StateView)
    ensures
        states(entries.insert(encoded(key), state)) == states(entries).insert(key, state),
{
    assert forall|other: RateKeyView| encoded(other) == encoded(key) implies other == key by {
        law_keys_are_kept_apart(other, key);
    }
    assert(states(entries.insert(encoded(key), state)) =~= states(entries).insert(key, state));
}

/// The tuple that stands for a key value.
fn encode_part(value: &Option<TraceValue>) -> (r: KeyPart)
    ensures
        part_view(r) == encoded_part(optional_view(*value)),
{
    match value {
        None => (0, String::new(), 0, 0),
        Some(TraceValue::String(text)) => (1, text.clone(), 0, 0),
        Some(TraceValue::Int(number)) => (2, String::new(), *number, 0),
        Some(TraceValue::Uint(number)) => (3, String::new(), 0, *number),
        Some(TraceValue::Bool(flag)) => if *flag {
            (4, String::new(), 0, 1)
        } else {
            (4, String::new(), 0, 0)
        },
    }
}

/// The tuple that stands for a key.
fn encode(key: &RateKeyIdentifier) -> (r: TableKey)
    ensures
        table_key_view(r) == encoded(key@),
{
    (
        key.callsite,
        encode_part(&key.rate_limit_key_values.component_id),
        encode_part(&key.rate_limit_key_values.ratelimit_uid),
    )
}

/// The states of all events that were rate limited so far, each under its key.
pub struct EventTable {
    table: Table,
}

impl View for EventTable {
    type V = Map<RateKeyView, StateView>;

    closed spec fn view(&self) -> Map<RateKeyView, StateView> {
        states(entries(self.table))
    }
}

impl EventTable {
    /// A table without states.
    pub fn new() -> (r: EventTable)
        ensures
            r@ == Map::<RateKeyView, StateView>::empty(),
    {
        let table = EventTable { table: empty_table() };
        assert(table@ =~= Map::<RateKeyView, StateView>::empty());
        table
    }

    /// A copy of the state of `key`, which is first made by `make` where there is none.
    pub fn state_or_insert_with<F: FnOnce() -> State>(
        &mut self,
        key: &RateKeyIdentifier,
        make: F,
    ) -> (r: State)
        requires
            make.requires(()),
        ensures
            old(self)@.contains_key(key@) ==> {
                &&& r@ == old(self)@[key@]
                &&& final(self)@ == old(self)@
            },
            !old(self)@.contains_key(key@) ==> {
                &&& make.ensures((), r)
                &&& final(self)@ == old(self)@.insert(key@, r@)
            },
    {
        let state = entry_or_insert_with(&mut self.table, encode(key), make);
        proof {
            lemma_insert_state(entries(old(self).table), key@, state@);
        }
        state
    }

    /// Puts `state` in as the state of `key`.
    pub fn put(&mut self, key: &RateKeyIdentifier, state: State)
        ensures
            final(self)@ == old(self)@.insert(key@, state@),
    {
        proof {
            lemma_insert_state(entries(self.table), key@, state@);
        }
        insert(&mut self.table, encode(key), state);
    }
}

} // verus!
