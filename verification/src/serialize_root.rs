//! The envelope: the root document object wrapping the ordered event
//! sequence under the fixed `traceEvents` field, with lossless encode and
//! decode. The round-trip laws for the encoding stand in
//! [`crate::round_trip`].

use vstd::prelude::*;

use crate::codec::DecodeError;
use crate::codec::decode_doc;
use crate::codec::encode_doc;
use crate::codec::spec_decode_doc;
use crate::codec::spec_enc_doc;
use crate::pretty::encode_doc_pretty;
use crate::pretty::spec_enc_doc_pretty;
use crate::trace_event::EventModel;
use crate::trace_event::TraceEvent;
use crate::trace_event::models_of;

verus! {

/// A whole trace document: the event log under the `traceEvents` key. Its
/// model is the sequence of event models, in order.
#[allow(non_snake_case)]
#[derive(PartialEq, Debug)]
pub struct TraceEventFormat {
    traceEvents: Vec<TraceEvent>,
}

impl View for TraceEventFormat {
    type V = Seq<EventModel>;

    closed spec fn view(&self) -> Seq<EventModel> {
        models_of(self.traceEvents@)
    }
}

impl TraceEventFormat {
    /// Wraps a finished event log.
    pub fn new(trace_events: Vec<TraceEvent>) -> (r: TraceEventFormat)
        ensures
            r@ == models_of(trace_events@),
    {
        TraceEventFormat { traceEvents: trace_events }
    }

    /// The wrapped events, in order.
    pub fn events(&self) -> (r: &Vec<TraceEvent>)
        ensures
            models_of(r@) == self@,
    {
        &self.traceEvents
    }

    /// Unwraps the event log.
    pub fn into_events(self) -> (r: Vec<TraceEvent>)
        ensures
            models_of(r@) == self@,
    {
        self.traceEvents
    }

    /// Encodes the document in the compact canonical form.
    pub fn encode(&self) -> (r: String)
        ensures
            r@ == spec_enc_doc(self@),
    {
        encode_doc(&self.traceEvents)
    }

    /// Encodes the document in the two-space indented form.
    pub fn encode_pretty(&self) -> (r: String)
        ensures
            r@ == spec_enc_doc_pretty(self@),
    {
        encode_doc_pretty(&self.traceEvents)
    }

    /// Decodes a document. Succeeds exactly when the text is a well-formed
    /// document over the phase vocabulary, in canonical key order, with any
    /// amount of whitespace between tokens.
    pub fn decode(s: &str) -> (r: Result<TraceEventFormat, DecodeError>)
        ensures
            match r {
                Ok(d) => spec_decode_doc(s@) == Some(d@),
                Err(_) => spec_decode_doc(s@) is None,
            },
    {
        match decode_doc(s) {
            Ok(events) => Ok(TraceEventFormat::new(events)),
            Err(e) => Err(e),
        }
    }
}

} // verus!
