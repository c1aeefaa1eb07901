//! Rate limiting of tracing events.
//!
//! An event that is limited is passed on until it was seen as often in one window of time
//! as a threshold allows. The next occurrence is withheld, and in its place an event is
//! emitted that tells of the limit; further occurrences are withheld. The first occurrence
//! after the window tells how many were over the threshold, and is passed on.
//!
//! The library decides; it does not emit. [`layer::RateLimitedLayer`] takes what is to be
//! read of an event, the keys of the spans around it and the time, and says what the layer
//! inside it is to be handed.

pub mod config;
pub mod decision;
pub mod events;
pub mod keys;
pub mod laws;
pub mod layer;
pub mod notice;
pub mod state;
pub mod time;
pub mod value;
pub mod visit;

pub use crate::config::{
    RateLimitConfiguration, RateLimitConfigurationBuilder, RateLimitConfigurationBuilderError,
};
pub use crate::decision::{CountOverflow, Decision, EventRecord, Limits};
pub use crate::events::{EventTable, RateKeyIdentifier};
pub use crate::keys::RateLimitedSpanKeys;
pub use crate::layer::RateLimitedLayer;
pub use crate::notice::Notice;
pub use crate::state::{State, Verdict};
pub use crate::time::{Duration, Instant};
pub use crate::value::{Field, FieldValue, TraceValue};
pub use crate::visit::{LimitVisitor, MessageVisitor};
