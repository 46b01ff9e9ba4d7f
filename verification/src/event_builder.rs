//! The staging builder: optional fields are set one by one, and a finalize
//! operation checks the required subset for the requested phase before
//! producing an immutable [`TraceEvent`].
//!
//! Every finalize operation consumes the builder, after success and failure
//! alike; a fresh draft is needed for each construction. The first missing
//! required field decides the error.

use vstd::prelude::*;

use crate::trace_event::Argument;
use crate::trace_event::EventModel;
use crate::trace_event::TraceEvent;

verus! {

/// The six phases a builder can finalize into.
#[derive(Clone, Copy, PartialEq, Eq, Structural, Debug)]
pub enum Phase {
    DurationBegin,
    DurationEnd,
    Complete,
    Metadata,
    FlowBegin,
    FlowEnd,
}

/// A fully staged event record: every field present. This is the shape the
/// builder stages toward; the phase decides which subset an actual
/// [`TraceEvent`] requires.
pub struct Event {
    pub phase: Phase,
    pub name: String,
    pub category: String,
    pub id: u64,
    pub process_id: u32,
    pub timestamp: u64,
    pub thread_id: u64,
    pub duration: u64,
    pub argument: Argument,
}

/// The error of a finalize operation: the phase kind asked for, and the
/// required field that was never staged.
#[derive(Clone, PartialEq, Debug)]
pub struct MissingField {
    pub kind: String,
    pub field: String,
}

impl MissingField {
    pub fn new(kind: &str, field: &str) -> (r: MissingField)
        ensures
            r.kind@ == kind@,
            r.field@ == field@,
    {
        MissingField { kind: kind.to_owned(), field: field.to_owned() }
    }

    /// The error as a caller-facing line: the kind and field path, and what
    /// went wrong with it.
    pub fn message(&self) -> (r: String)
        ensures
            r@ == self.kind@ + "::"@ + self.field@ + " must be initialized"@,
    {
        let mut out = self.kind.clone();
        out.append("::");
        out.append(self.field.as_str());
        out.append(" must be initialized");
        out
    }
}

/// The mathematical model of a builder: which fields are staged, and with
/// what values.
pub ghost struct BuilderModel {
    pub phase: Option<Phase>,
    pub name: Option<Seq<char>>,
    pub category: Option<Seq<char>>,
    pub id: Option<u64>,
    pub process_id: Option<u32>,
    pub timestamp: Option<u64>,
    pub thread_id: Option<u64>,
    pub duration: Option<u64>,
    pub argument: Option<Seq<char>>,
}

/// The empty model: nothing staged.
pub open spec fn empty_builder() -> BuilderModel {
    BuilderModel {
        phase: None,
        name: None,
        category: None,
        id: None,
        process_id: None,
        timestamp: None,
        thread_id: None,
        duration: None,
        argument: None,
    }
}

/// The staging draft. Obtained from [`EventBuilder::default`], filled by the
/// setters, and consumed by one finalize operation.
pub struct EventBuilder {
    phase: Option<Phase>,
    name: Option<String>,
    category: Option<String>,
    id: Option<u64>,
    process_id: Option<u32>,
    timestamp: Option<u64>,
    thread_id: Option<u64>,
    duration: Option<u64>,
    argument: Option<Argument>,
}

impl View for EventBuilder {
    type V = BuilderModel;

    closed spec fn view(&self) -> BuilderModel {
        BuilderModel {
            phase: self.phase,
            name: match self.name {
                None => None,
                Some(n) => Some(n@),
            },
            category: match self.category {
                None => None,
                Some(c) => Some(c@),
            },
            id: self.id,
            process_id: self.process_id,
            timestamp: self.timestamp,
            thread_id: self.thread_id,
            duration: self.duration,
            argument: match self.argument {
                None => None,
                Some(a) => Some(a@),
            },
        }
    }
}

impl Default for EventBuilder {
    /// A fresh draft with nothing staged.
    fn default() -> (r: EventBuilder)
        ensures
            r@ == empty_builder(),
    {
        EventBuilder {
            phase: None,
            name: None,
            category: None,
            id: None,
            process_id: None,
            timestamp: None,
            thread_id: None,
            duration: None,
            argument: None,
        }
    }
}

/// The model of a finalize result: the event's model on success, the error's
/// kind and field on failure.
pub open spec fn result_model(r: Result<TraceEvent, MissingField>) -> Result<
    EventModel,
    (Seq<char>, Seq<char>),
> {
    match r {
        Ok(ev) => Ok(ev@),
        Err(m) => Err((m.kind@, m.field@)),
    }
}

/// What finalizing as a duration-begin event yields.
pub open spec fn spec_build_duration_begin(b: BuilderModel) -> Result<
    EventModel,
    (Seq<char>, Seq<char>),
> {
    if b.name is None {
        Err(("DurationBegin"@, "name"@))
    } else if b.process_id is None {
        Err(("DurationBegin"@, "process_id"@))
    } else if b.timestamp is None {
        Err(("DurationBegin"@, "timestamp"@))
    } else {
        Ok(
            EventModel::B {
                name: b.name.unwrap(),
                pid: b.process_id.unwrap(),
                ts: b.timestamp.unwrap(),
                tid: b.thread_id,
            },
        )
    }
}

/// What finalizing as a duration-end event yields.
pub open spec fn spec_build_duration_end(b: BuilderModel) -> Result<
    EventModel,
    (Seq<char>, Seq<char>),
> {
    if b.process_id is None {
        Err(("DurationEnd"@, "process_id"@))
    } else if b.timestamp is None {
        Err(("DurationEnd"@, "timestamp"@))
    } else {
        Ok(
            EventModel::E {
                pid: b.process_id.unwrap(),
                ts: b.timestamp.unwrap(),
                tid: b.thread_id,
            },
        )
    }
}

/// What finalizing as a complete event yields.
pub open spec fn spec_build_complete(b: BuilderModel) -> Result<
    EventModel,
    (Seq<char>, Seq<char>),
> {
    if b.name is None {
        Err(("Complete"@, "name"@))
    } else if b.process_id is None {
        Err(("Complete"@, "process_id"@))
    } else if b.timestamp is None {
        Err(("Complete"@, "timestamp"@))
    } else if b.duration is None {
        Err(("Complete"@, "duration"@))
    } else {
        Ok(
            EventModel::X {
                name: b.name.unwrap(),
                pid: b.process_id.unwrap(),
                ts: b.timestamp.unwrap(),
                dur: b.duration.unwrap(),
                tid: b.thread_id,
            },
        )
    }
}

/// What finalizing as a metadata event yields.
pub open spec fn spec_build_metadata(b: BuilderModel) -> Result<
    EventModel,
    (Seq<char>, Seq<char>),
> {
    if b.name is None {
        Err(("Metadata"@, "name"@))
    } else if b.process_id is None {
        Err(("Metadata"@, "process_id"@))
    } else if b.argument is None {
        Err(("Metadata"@, "argument"@))
    } else {
        Ok(
            EventModel::M {
                name: b.name.unwrap(),
                pid: b.process_id.unwrap(),
                args: b.argument.unwrap(),
                tid: b.thread_id,
            },
        )
    }
}

/// What finalizing as a flow-begin event yields.
pub open spec fn spec_build_flow_begin(b: BuilderModel) -> Result<
    EventModel,
    (Seq<char>, Seq<char>),
> {
    if b.name is None {
        Err(("FlowBegin"@, "name"@))
    } else if b.category is None {
        Err(("FlowBegin"@, "category"@))
    } else if b.process_id is None {
        Err(("FlowBegin"@, "process_id"@))
    } else if b.thread_id is None {
        Err(("FlowBegin"@, "thread_id"@))
    } else if b.timestamp is None {
        Err(("FlowBegin"@, "timestamp"@))
    } else if b.id is None {
        Err(("FlowBegin"@, "id"@))
    } else {
        Ok(
            EventModel::s {
                name: b.name.unwrap(),
                pid: b.process_id.unwrap(),
                tid: b.thread_id.unwrap(),
                ts: b.timestamp.unwrap(),
                cat: b.category.unwrap(),
                id: b.id.unwrap(),
            },
        )
    }
}

/// What finalizing as a flow-end event yields.
pub open spec fn spec_build_flow_end(b: BuilderModel) -> Result<
    EventModel,
    (Seq<char>, Seq<char>),
> {
    if b.name is None {
        Err(("FlowEnd"@, "name"@))
    } else if b.category is None {
        Err(("FlowEnd"@, "category"@))
    } else if b.process_id is None {
        Err(("FlowEnd"@, "process_id"@))
    } else if b.thread_id is None {
        Err(("FlowEnd"@, "thread_id"@))
    } else if b.timestamp is None {
        Err(("FlowEnd"@, "timestamp"@))
    } else if b.id is None {
        Err(("FlowEnd"@, "id"@))
    } else {
        Ok(
            EventModel::f {
                name: b.name.unwrap(),
                pid: b.process_id.unwrap(),
                tid: b.thread_id.unwrap(),
                ts: b.timestamp.unwrap(),
                cat: b.category.unwrap(),
                id: b.id.unwrap(),
            },
        )
    }
}

/// What the phase-dispatching finalize operation yields: the staged phase
/// routes to the matching operation; an unstaged phase is itself the first
/// missing field.
pub open spec fn spec_build_for_trace_event(b: BuilderModel) -> Result<
    EventModel,
    (Seq<char>, Seq<char>),
> {
    match b.phase {
        None => Err(("EventBuilder"@, "phase"@)),
        Some(Phase::DurationBegin) => spec_build_duration_begin(b),
        Some(Phase::DurationEnd) => spec_build_duration_end(b),
        Some(Phase::Complete) => spec_build_complete(b),
        Some(Phase::Metadata) => spec_build_metadata(b),
        Some(Phase::FlowBegin) => spec_build_flow_begin(b),
        Some(Phase::FlowEnd) => spec_build_flow_end(b),
    }
}

impl EventBuilder {
    /// Stages the phase tag read by [`EventBuilder::build_for_trace_event`].
    pub fn phase(self, phase: Phase) -> (r: EventBuilder)
        ensures
            r@ == (BuilderModel { phase: Some(phase), ..self@ }),
    {
        EventBuilder { phase: Some(phase), ..self }
    }

    /// Stages the event name.
    pub fn name(self, name: &str) -> (r: EventBuilder)
        ensures
            r@ == (BuilderModel { name: Some(name@), ..self@ }),
    {
        EventBuilder { name: Some(name.to_owned()), ..self }
    }

    /// Stages the flow category.
    pub fn category(self, category: &str) -> (r: EventBuilder)
        ensures
            r@ == (BuilderModel { category: Some(category@), ..self@ }),
    {
        EventBuilder { category: Some(category.to_owned()), ..self }
    }

    /// Stages the flow identifier.
    pub fn id(self, id: u64) -> (r: EventBuilder)
        ensures
            r@ == (BuilderModel { id: Some(id), ..self@ }),
    {
        EventBuilder { id: Some(id), ..self }
    }

    /// Stages the process identifier.
    pub fn process_id(self, process_id: u32) -> (r: EventBuilder)
        ensures
            r@ == (BuilderModel { process_id: Some(process_id), ..self@ }),
    {
        EventBuilder { process_id: Some(process_id), ..self }
    }

    /// Stages the timestamp, in microseconds since the capture anchor.
    pub fn timestamp(self, timestamp: u64) -> (r: EventBuilder)
        ensures
            r@ == (BuilderModel { timestamp: Some(timestamp), ..self@ }),
    {
        EventBuilder { timestamp: Some(timestamp), ..self }
    }

    /// Stages the thread identifier.
    pub fn thread_id(self, thread_id: u64) -> (r: EventBuilder)
        ensures
            r@ == (BuilderModel { thread_id: Some(thread_id), ..self@ }),
    {
        EventBuilder { thread_id: Some(thread_id), ..self }
    }

    /// Stages the duration of a complete event.
    pub fn duration(self, duration: u64) -> (r: EventBuilder)
        ensures
            r@ == (BuilderModel { duration: Some(duration), ..self@ }),
    {
        EventBuilder { duration: Some(duration), ..self }
    }

    /// Stages the argument payload of a metadata event.
    pub fn argument(self, argument: Argument) -> (r: EventBuilder)
        ensures
            r@ == (BuilderModel { argument: Some(argument@), ..self@ }),
    {
        EventBuilder { argument: Some(argument), ..self }
    }

    /// Finalizes into a duration-begin (`B`) event.
    pub fn build_duration_begin(self) -> (r: Result<TraceEvent, MissingField>)
        ensures
            result_model(r) == spec_build_duration_begin(self@),
    {
        let name = match self.name {
            Some(n) => n,
            None => {
                return Err(MissingField::new("DurationBegin", "name"));
            },
        };
        let pid = match self.process_id {
            Some(p) => p,
            None => {
                return Err(MissingField::new("DurationBegin", "process_id"));
            },
        };
        let ts = match self.timestamp {
            Some(t) => t,
            None => {
                return Err(MissingField::new("DurationBegin", "timestamp"));
            },
        };
        Ok(TraceEvent::B { name, pid, ts, tid: self.thread_id })
    }

    /// Finalizes into a duration-end (`E`) event.
    pub fn build_duration_end(self) -> (r: Result<TraceEvent, MissingField>)
        ensures
            result_model(r) == spec_build_duration_end(self@),
    {
        let pid = match self.process_id {
            Some(p) => p,
            None => {
                return Err(MissingField::new("DurationEnd", "process_id"));
            },
        };
        let ts = match self.timestamp {
            Some(t) => t,
            None => {
                return Err(MissingField::new("DurationEnd", "timestamp"));
            },
        };
        Ok(TraceEvent::E { pid, ts, tid: self.thread_id })
    }

    /// Finalizes into a complete (`X`) event.
    pub fn build_complete(self) -> (r: Result<TraceEvent, MissingField>)
        ensures
            result_model(r) == spec_build_complete(self@),
    {
        let name = match self.name {
            Some(n) => n,
            None => {
                return Err(MissingField::new("Complete", "name"));
            },
        };
        let pid = match self.process_id {
            Some(p) => p,
            None => {
                return Err(MissingField::new("Complete", "process_id"));
            },
        };
        let ts = match self.timestamp {
            Some(t) => t,
            None => {
                return Err(MissingField::new("Complete", "timestamp"));
            },
        };
        let dur = match self.duration {
            Some(d) => d,
            None => {
                return Err(MissingField::new("Complete", "duration"));
            },
        };
        Ok(TraceEvent::X { name, pid, ts, dur, tid: self.thread_id })
    }

    /// Finalizes into a metadata (`M`) event.
    pub fn build_metadata(self) -> (r: Result<TraceEvent, MissingField>)
        ensures
            result_model(r) == spec_build_metadata(self@),
    {
        let name = match self.name {
            Some(n) => n,
            None => {
                return Err(MissingField::new("Metadata", "name"));
            },
        };
        let pid = match self.process_id {
            Some(p) => p,
            None => {
                return Err(MissingField::new("Metadata", "process_id"));
            },
        };
        let args = match self.argument {
            Some(a) => a,
            None => {
                return Err(MissingField::new("Metadata", "argument"));
            },
        };
        Ok(TraceEvent::M { name, pid, args, tid: self.thread_id })
    }

    /// Finalizes into a flow-begin (`s`) event.
    pub fn build_flow_begin(self) -> (r: Result<TraceEvent, MissingField>)
        ensures
            result_model(r) == spec_build_flow_begin(self@),
    {
        let name = match self.name {
            Some(n) => n,
            None => {
                return Err(MissingField::new("FlowBegin", "name"));
            },
        };
        let cat = match self.category {
            Some(c) => c,
            None => {
                return Err(MissingField::new("FlowBegin", "category"));
            },
        };
        let pid = match self.process_id {
            Some(p) => p,
            None => {
                return Err(MissingField::new("FlowBegin", "process_id"));
            },
        };
        let tid = match self.thread_id {
            Some(t) => t,
            None => {
                return Err(MissingField::new("FlowBegin", "thread_id"));
            },
        };
        let ts = match self.timestamp {
            Some(t) => t,
            None => {
                return Err(MissingField::new("FlowBegin", "timestamp"));
            },
        };
        let id = match self.id {
            Some(i) => i,
            None => {
                return Err(MissingField::new("FlowBegin", "id"));
            },
        };
        Ok(TraceEvent::s { name, cat, id, pid, tid, ts })
    }

    /// Finalizes into a flow-end (`f`) event.
    pub fn build_flow_end(self) -> (r: Result<TraceEvent, MissingField>)
        ensures
            result_model(r) == spec_build_flow_end(self@),
    {
        let name = match self.name {
            Some(n) => n,
            None => {
                return Err(MissingField::new("FlowEnd", "name"));
            },
        };
        let cat = match self.category {
            Some(c) => c,
            None => {
                return Err(MissingField::new("FlowEnd", "category"));
            },
        };
        let pid = match self.process_id {
            Some(p) => p,
            None => {
                return Err(MissingField::new("FlowEnd", "process_id"));
            },
        };
        let tid = match self.thread_id {
            Some(t) => t,
            None => {
                return Err(MissingField::new("FlowEnd", "thread_id"));
            },
        };
        let ts = match self.timestamp {
            Some(t) => t,
            None => {
                return Err(MissingField::new("FlowEnd", "timestamp"));
            },
        };
        let id = match self.id {
            Some(i) => i,
            None => {
                return Err(MissingField::new("FlowEnd", "id"));
            },
        };
        Ok(TraceEvent::f { name, cat, id, pid, tid, ts })
    }

    /// Reads the staged phase tag and routes to the matching finalize
    /// operation, propagating its outcome unchanged. An unstaged phase is
    /// itself reported as the missing field.
    pub fn build_for_trace_event(self) -> (r: Result<TraceEvent, MissingField>)
        ensures
            result_model(r) == spec_build_for_trace_event(self@),
    {
        let phase = match self.phase {
            Some(p) => p,
            None => {
                return Err(MissingField::new("EventBuilder", "phase"));
            },
        };
        match phase {
            Phase::DurationBegin => self.build_duration_begin(),
            Phase::DurationEnd => self.build_duration_end(),
            Phase::Complete => self.build_complete(),
            Phase::Metadata => self.build_metadata(),
            Phase::FlowBegin => self.build_flow_begin(),
            Phase::FlowEnd => self.build_flow_end(),
        }
    }
}

} // verus!
