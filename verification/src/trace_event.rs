//! The phase-tagged event algebra: the wire contract of the Chrome Trace
//! Event Format, together with the [`Argument`] payload of metadata events.
//!
//! A [`TraceEvent`] is a pure data value; required fields are enforced by the
//! builder, not here. Its mathematical model is [`EventModel`], in which every
//! string is a `Seq<char>`; all contracts of this crate speak of models.

use vstd::prelude::*;

verus! {

/// A minimal named metadata payload attached to metadata (`M`) events.
#[derive(Clone, PartialEq, Debug)]
pub struct Argument {
    name: String,
}

impl View for Argument {
    type V = Seq<char>;

    closed spec fn view(&self) -> Seq<char> {
        self.name@
    }
}

impl Argument {
    pub fn new(name: &str) -> (r: Argument)
        ensures
            r@ == name@,
    {
        Argument { name: name.to_owned() }
    }

    /// The wrapped display name.
    pub fn name_str(&self) -> (r: &str)
        ensures
            r@ == self@,
    {
        self.name.as_str()
    }
}

/// One record of the trace, tagged by its one-character phase code.
///
/// The six variants with payload are the behaviourally specified ones; the
/// empty variants are placeholders for the remaining phase codes of the
/// format, kept for forward compatibility. `tid` is optional on `B`, `E`,
/// `X` and `M` and omitted from the encoded object entirely when absent;
/// on `s` and `f` it is mandatory.
#[derive(Clone, PartialEq, Debug)]
pub enum TraceEvent {
    /// `B`: duration begin.
    B { name: String, pid: u32, ts: u64, tid: Option<u64> },
    /// `E`: duration end.
    E { pid: u32, ts: u64, tid: Option<u64> },
    /// `X`: complete (begin and end in one record).
    X { name: String, pid: u32, ts: u64, dur: u64, tid: Option<u64> },
    /// `I`: instant (placeholder).
    I {},
    /// `C`: counter (placeholder).
    C {},
    /// `b`: async nestable start (placeholder).
    #[allow(non_camel_case_types)]
    b {},
    /// `n`: async nestable instant (placeholder).
    #[allow(non_camel_case_types)]
    n {},
    /// `e`: async nestable end (placeholder).
    #[allow(non_camel_case_types)]
    e {},
    /// `s`: flow begin.
    #[allow(non_camel_case_types)]
    s { name: String, pid: u32, tid: u64, ts: u64, cat: String, id: u64 },
    /// `t`: flow step (placeholder).
    #[allow(non_camel_case_types)]
    t {},
    /// `f`: flow end.
    #[allow(non_camel_case_types)]
    f { name: String, pid: u32, tid: u64, ts: u64, cat: String, id: u64 },
    /// `P`: sample (placeholder).
    P {},
    /// `N`: object created (placeholder).
    N {},
    /// `O`: object snapshot (placeholder).
    O {},
    /// `D`: object destroyed (placeholder).
    D {},
    /// `M`: metadata.
    M { name: String, pid: u32, args: Argument, tid: Option<u64> },
    /// `V`: global memory dump (placeholder).
    V {},
    /// `v`: process memory dump (placeholder).
    #[allow(non_camel_case_types)]
    v {},
    /// `R`: mark (placeholder).
    R {},
    /// `c`: clock sync (placeholder).
    #[allow(non_camel_case_types)]
    c {},
}

/// The mathematical model of a [`TraceEvent`]: the same algebra with every
/// string abstracted to its sequence of characters.
pub ghost enum EventModel {
    B { name: Seq<char>, pid: u32, ts: u64, tid: Option<u64> },
    E { pid: u32, ts: u64, tid: Option<u64> },
    X { name: Seq<char>, pid: u32, ts: u64, dur: u64, tid: Option<u64> },
    I {},
    C {},
    #[allow(non_camel_case_types)]
    b {},
    #[allow(non_camel_case_types)]
    n {},
    #[allow(non_camel_case_types)]
    e {},
    #[allow(non_camel_case_types)]
    s { name: Seq<char>, pid: u32, tid: u64, ts: u64, cat: Seq<char>, id: u64 },
    #[allow(non_camel_case_types)]
    t {},
    #[allow(non_camel_case_types)]
    f { name: Seq<char>, pid: u32, tid: u64, ts: u64, cat: Seq<char>, id: u64 },
    P {},
    N {},
    O {},
    D {},
    M { name: Seq<char>, pid: u32, args: Seq<char>, tid: Option<u64> },
    V {},
    #[allow(non_camel_case_types)]
    v {},
    R {},
    #[allow(non_camel_case_types)]
    c {},
}

impl View for TraceEvent {
    type V = EventModel;

    open spec fn view(&self) -> EventModel {
        match self {
            TraceEvent::B { name, pid, ts, tid } => EventModel::B {
                name: name@,
                pid: *pid,
                ts: *ts,
                tid: *tid,
            },
            TraceEvent::E { pid, ts, tid } => EventModel::E { pid: *pid, ts: *ts, tid: *tid },
            TraceEvent::X { name, pid, ts, dur, tid } => EventModel::X {
                name: name@,
                pid: *pid,
                ts: *ts,
                dur: *dur,
                tid: *tid,
            },
            TraceEvent::I {} => EventModel::I {},
            TraceEvent::C {} => EventModel::C {},
            TraceEvent::b {} => EventModel::b {},
            TraceEvent::n {} => EventModel::n {},
            TraceEvent::e {} => EventModel::e {},
            TraceEvent::s { name, pid, tid, ts, cat, id } => EventModel::s {
                name: name@,
                pid: *pid,
                tid: *tid,
                ts: *ts,
                cat: cat@,
                id: *id,
            },
            TraceEvent::t {} => EventModel::t {},
            TraceEvent::f { name, pid, tid, ts, cat, id } => EventModel::f {
                name: name@,
                pid: *pid,
                tid: *tid,
                ts: *ts,
                cat: cat@,
                id: *id,
            },
            TraceEvent::P {} => EventModel::P {},
            TraceEvent::N {} => EventModel::N {},
            TraceEvent::O {} => EventModel::O {},
            TraceEvent::D {} => EventModel::D {},
            TraceEvent::M { name, pid, args, tid } => EventModel::M {
                name: name@,
                pid: *pid,
                args: args@,
                tid: *tid,
            },
            TraceEvent::V {} => EventModel::V {},
            TraceEvent::v {} => EventModel::v {},
            TraceEvent::R {} => EventModel::R {},
            TraceEvent::c {} => EventModel::c {},
        }
    }
}

/// The model of a whole event log.
pub open spec fn models_of(events: Seq<TraceEvent>) -> Seq<EventModel> {
    events.map_values(|ev: TraceEvent| ev@)
}

} // verus!
