//! A library for recording timestamped performance events and emitting them
//! as a single JSON document in the Chrome Trace Event Format, readable by
//! standard trace viewers.
//!
//! The pieces, from the bottom up:
//! - [`trace_event`]: the phase-tagged event algebra and its [`Argument`]
//!   payload — the wire contract, modelled by [`trace_event::EventModel`].
//! - [`event_builder`]: the consuming builder that stages optional fields
//!   and validates the required subset per phase before producing an event.
//! - [`json`]: the character-level pieces of the wire format — escaping,
//!   decimal numbers, whitespace, tokens — written and read with exact
//!   contracts.
//! - [`codec`]: the compact canonical encoding of events and documents, and
//!   the reader, which also accepts whitespace between tokens.
//! - [`pretty`]: the two-space indented encoding.
//! - [`round_trip`]: the proof that the reader inverts the writer.
//! - [`serialize_root`]: the envelope wrapping an event log under the fixed
//!   `traceEvents` field.
//! - [`profiler`]: the append-only event log with a capture anchor and a
//!   flow-id counter, and the recording operations built on the builder.

pub mod codec;
pub mod event_builder;
pub mod json;
pub mod pretty;
pub mod profiler;
pub mod round_trip;
pub mod serialize_root;
pub mod trace_event;

pub use event_builder::EventBuilder;
pub use event_builder::MissingField;
pub use event_builder::Phase;
pub use profiler::FlowId;
pub use profiler::Profiler;
pub use serialize_root::TraceEventFormat;
pub use trace_event::Argument;
pub use trace_event::TraceEvent;
