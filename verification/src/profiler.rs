//! The event log: an append-only sequence of finalized events, anchored to a
//! capture-start instant, with a flow-id counter and the recording operations
//! built on the builder.
//!
//! A [`Profiler`] is not internally synchronized: give each thread its own
//! instance and merge the logs with [`Profiler::extend`] afterwards, linking
//! work across instances through flow identifiers, or guard one instance
//! behind external mutual exclusion.
//!
//! Timestamps come from the monotonic clock, read through the trusted items
//! below; nothing is assumed about the values read, so every contract here
//! speaks of the log's structure and leaves timestamps existentially bound.

use vstd::prelude::*;

use crate::event_builder::EventBuilder;
use crate::event_builder::Phase;
use crate::trace_event::Argument;
use crate::trace_event::EventModel;
use crate::trace_event::TraceEvent;
use crate::trace_event::models_of;

verus! {

/// Declares `std::time::Instant` so a capture anchor can be held; the value
/// stays opaque to every contract.
#[verifier::external_type_specification]
#[verifier::external_body]
pub struct ExInstant(std::time::Instant);

/// Relies on `std::time::Instant::now`: an opaque reading of the monotonic
/// clock, used only as the capture anchor.
pub assume_specification[ std::time::Instant::now ]() -> std::time::Instant;

/// Relies on `std::time::Instant::elapsed`: the time between this instant
/// and now. Nothing is assumed about the value.
pub assume_specification[ std::time::Instant::elapsed ](
    anchor: &std::time::Instant,
) -> std::time::Duration;

/// Relies on `std::time::Duration::as_micros`: the duration in whole
/// microseconds. Nothing is assumed about the value.
pub assume_specification[ std::time::Duration::as_micros ](d: &std::time::Duration) -> u128;

/// Narrows a microsecond count to 64 bits, saturating rather than
/// overflowing when the count exceeds the range.
pub fn saturate_micros(micros: u128) -> (r: u64)
    ensures
        r == if micros > u64::MAX as u128 {
            u64::MAX
        } else {
            micros as u64
        },
{
    if micros > u64::MAX as u128 {
        u64::MAX
    } else {
        micros as u64
    }
}

/// The duration between two timestamp readings: their difference, floored
/// at zero should the second reading not be the later one.
pub open spec fn clamped_duration(begin: u64, end: u64) -> u64 {
    if end >= begin {
        (end - begin) as u64
    } else {
        0
    }
}

/// Computes [`clamped_duration`] of two readings.
pub fn duration_between(begin: u64, end: u64) -> (r: u64)
    ensures
        r == clamped_duration(begin, end),
{
    if end >= begin {
        end - begin
    } else {
        0
    }
}

/// A flow identifier bundled with the category under which the viewer links
/// its two ends.
#[derive(Clone, Debug)]
pub struct FlowId {
    id: u64,
    category: String,
}

/// The model of a [`FlowId`].
pub ghost struct FlowIdModel {
    pub id: u64,
    pub category: Seq<char>,
}

impl View for FlowId {
    type V = FlowIdModel;

    closed spec fn view(&self) -> FlowIdModel {
        FlowIdModel { id: self.id, category: self.category@ }
    }
}

impl FlowId {
    pub fn new(id: u64, category: &str) -> (r: FlowId)
        ensures
            r@.id == id,
            r@.category == category@,
    {
        FlowId { id, category: category.to_owned() }
    }

    /// The numeric identifier carried by the flow's two ends.
    pub fn id(&self) -> (r: u64)
        ensures
            r == self@.id,
    {
        self.id
    }

    /// The category under which the ends are linked.
    pub fn category_str(&self) -> (r: &str)
        ensures
            r@ == self@.category,
    {
        self.category.as_str()
    }
}

/// The model of a [`Profiler`]: its identity, its counter, and the models of
/// the logged events, in insertion order. The capture anchor has no model;
/// timestamps are opaque.
pub ghost struct ProfilerModel {
    pub pid: u32,
    pub tid: u64,
    pub flow_counter: u64,
    pub log: Seq<EventModel>,
}

/// The append-only event log with its capture anchor, identity, and flow-id
/// counter.
pub struct Profiler {
    anchor: std::time::Instant,
    pid: u32,
    tid: u64,
    flow_counter: u64,
    log: Vec<TraceEvent>,
}

impl View for Profiler {
    type V = ProfilerModel;

    closed spec fn view(&self) -> ProfilerModel {
        ProfilerModel {
            pid: self.pid,
            tid: self.tid,
            flow_counter: self.flow_counter,
            log: models_of(self.log@),
        }
    }
}

impl Profiler {
    /// A fresh profiler: empty log, flow counter at zero, capture anchor
    /// fixed now. The process and thread identities are injected by the
    /// caller, which keeps the log's contents deterministic and testable.
    pub fn new(pid: u32, tid: u64) -> (r: Profiler)
        ensures
            r@.pid == pid,
            r@.tid == tid,
            r@.flow_counter == 0,
            r@.log == Seq::<EventModel>::empty(),
    {
        Profiler::with_flow_counter(pid, tid, 0)
    }

    /// Like [`Profiler::new`], but with the flow-id counter seeded at
    /// `flow_counter`. When several instances record flows side by side,
    /// seeding each with its own range keeps the minted identifiers from
    /// colliding once the logs are merged.
    pub fn with_flow_counter(pid: u32, tid: u64, flow_counter: u64) -> (r: Profiler)
        ensures
            r@.pid == pid,
            r@.tid == tid,
            r@.flow_counter == flow_counter,
            r@.log == Seq::<EventModel>::empty(),
    {
        let r = Profiler {
            anchor: std::time::Instant::now(),
            pid,
            tid,
            flow_counter,
            log: Vec::new(),
        };
        proof {
            assert(models_of(r.log@) =~= Seq::<EventModel>::empty());
        }
        r
    }

    /// Elapsed whole microseconds since the capture anchor, computed fresh
    /// on each call, saturating at the integer's range. The reading itself
    /// comes from the clock, so nothing is promised of its value; the
    /// narrowing to 64 bits carries its own contract in [`saturate_micros`].
    pub fn current_timestamp(&self) -> u64 {
        let micros = self.anchor.elapsed().as_micros();
        saturate_micros(micros)
    }

    /// Appends a duration-begin (`B`) event named `name`, stamped with the
    /// current timestamp.
    pub fn begin_duration(&mut self, name: &str)
        ensures
            final(self)@.pid == old(self)@.pid,
            final(self)@.tid == old(self)@.tid,
            final(self)@.flow_counter == old(self)@.flow_counter,
            exists|ts: u64|
                final(self)@.log == old(self)@.log.push(
                    EventModel::B {
                        name: name@,
                        pid: old(self)@.pid,
                        ts,
                        tid: Some(old(self)@.tid),
                    },
                ),
    {
        let ts = self.current_timestamp();
        let ev = match EventBuilder::default().phase(Phase::DurationBegin).name(name).timestamp(
            ts,
        ).process_id(self.pid).thread_id(self.tid).build_for_trace_event() {
            Ok(ev) => ev,
            Err(_) => {
                proof {
                    assert(false);
                }
                vstd::pervasive::unreached()
            },
        };
        let ghost prev = models_of(self.log@);
        self.log.push(ev);
        proof {
            assert(models_of(self.log@) =~= prev.push(ev@));
            assert(self@.log == old(self)@.log.push(
                EventModel::B {
                    name: name@,
                    pid: old(self)@.pid,
                    ts,
                    tid: Some(old(self)@.tid),
                },
            ));
        }
    }

    /// Appends a duration-end (`E`) event stamped with the current
    /// timestamp. Pairing with the matching begin is the caller's charge; no
    /// nesting validation is performed.
    pub fn end_duration(&mut self)
        ensures
            final(self)@.pid == old(self)@.pid,
            final(self)@.tid == old(self)@.tid,
            final(self)@.flow_counter == old(self)@.flow_counter,
            exists|ts: u64|
                final(self)@.log == old(self)@.log.push(
                    EventModel::E { pid: old(self)@.pid, ts, tid: Some(old(self)@.tid) },
                ),
    {
        let ts = self.current_timestamp();
        let ev = match EventBuilder::default().phase(Phase::DurationEnd).timestamp(ts).process_id(
            self.pid,
        ).thread_id(self.tid).build_for_trace_event() {
            Ok(ev) => ev,
            Err(_) => {
                proof {
                    assert(false);
                }
                vstd::pervasive::unreached()
            },
        };
        let ghost prev = models_of(self.log@);
        self.log.push(ev);
        proof {
            assert(models_of(self.log@) =~= prev.push(ev@));
            assert(self@.log == old(self)@.log.push(
                EventModel::E { pid: old(self)@.pid, ts, tid: Some(old(self)@.tid) },
            ));
        }
    }

    /// Runs `computation` to completion on the caller's own stack, brackets
    /// it with two timestamp readings, and appends exactly one complete
    /// (`X`) event stamped with the first reading and carrying the
    /// difference of the two readings as its duration (zero if the clock
    /// ever stepped backwards), returning the computation's result.
    pub fn begin_and_end_duration<R, F: FnOnce() -> R>(&mut self, name: &str, computation: F) -> (r:
        R)
        requires
            call_requires(computation, ()),
        ensures
            final(self)@.pid == old(self)@.pid,
            final(self)@.tid == old(self)@.tid,
            final(self)@.flow_counter == old(self)@.flow_counter,
            exists|ts_before: u64, ts_after: u64|
                final(self)@.log == old(self)@.log.push(
                    EventModel::X {
                        name: name@,
                        pid: old(self)@.pid,
                        ts: ts_before,
                        dur: clamped_duration(ts_before, ts_after),
                        tid: Some(old(self)@.tid),
                    },
                ),
            call_ensures(computation, (), r),
    {
        let begin = self.current_timestamp();
        let result = computation();
        let end = self.current_timestamp();
        let dur: u64 = duration_between(begin, end);
        let ev = match EventBuilder::default().phase(Phase::Complete).name(name).timestamp(
            begin,
        ).duration(dur).process_id(self.pid).thread_id(self.tid).build_for_trace_event() {
            Ok(ev) => ev,
            Err(_) => {
                proof {
                    assert(false);
                }
                vstd::pervasive::unreached()
            },
        };
        let ghost prev = models_of(self.log@);
        self.log.push(ev);
        proof {
            assert(models_of(self.log@) =~= prev.push(ev@));
            assert(self@.log == old(self)@.log.push(
                EventModel::X {
                    name: name@,
                    pid: old(self)@.pid,
                    ts: begin,
                    dur: clamped_duration(begin, end),
                    tid: Some(old(self)@.tid),
                },
            ));
        }
        result
    }

    /// Appends a metadata (`M`) event whose [`Argument`] wraps `name`.
    pub fn metadata(&mut self, metadata_name: &str, name: &str)
        ensures
            final(self)@.pid == old(self)@.pid,
            final(self)@.tid == old(self)@.tid,
            final(self)@.flow_counter == old(self)@.flow_counter,
            final(self)@.log == old(self)@.log.push(
                EventModel::M {
                    name: metadata_name@,
                    pid: old(self)@.pid,
                    args: name@,
                    tid: Some(old(self)@.tid),
                },
            ),
    {
        let ev = match EventBuilder::default().phase(Phase::Metadata).name(metadata_name).argument(
            Argument::new(name),
        ).process_id(self.pid).thread_id(self.tid).build_for_trace_event() {
            Ok(ev) => ev,
            Err(_) => {
                proof {
                    assert(false);
                }
                vstd::pervasive::unreached()
            },
        };
        let ghost prev = models_of(self.log@);
        self.log.push(ev);
        proof {
            assert(models_of(self.log@) =~= prev.push(ev@));
        }
    }

    /// Appends an `M` event naming the current thread for the viewer.
    pub fn current_thread_name(&mut self, name: &str)
        ensures
            final(self)@.pid == old(self)@.pid,
            final(self)@.tid == old(self)@.tid,
            final(self)@.flow_counter == old(self)@.flow_counter,
            final(self)@.log == old(self)@.log.push(
                EventModel::M {
                    name: "thread_name"@,
                    pid: old(self)@.pid,
                    args: name@,
                    tid: Some(old(self)@.tid),
                },
            ),
    {
        self.metadata("thread_name", name);
    }

    /// Appends an `M` event naming the current process for the viewer.
    pub fn current_process_name(&mut self, name: &str)
        ensures
            final(self)@.pid == old(self)@.pid,
            final(self)@.tid == old(self)@.tid,
            final(self)@.flow_counter == old(self)@.flow_counter,
            final(self)@.log == old(self)@.log.push(
                EventModel::M {
                    name: "process_name"@,
                    pid: old(self)@.pid,
                    args: name@,
                    tid: Some(old(self)@.tid),
                },
            ),
    {
        self.metadata("process_name", name);
    }

    /// Mints a fresh flow identifier and appends three events: a duration
    /// bracket around a flow-begin (`s`) marker carrying the identifier and
    /// `category`. Returns the identifier, which the matching
    /// [`Profiler::end_flow`] call must be given.
    pub fn begin_flow(&mut self, name: &str, category: &str) -> (id: u64)
        requires
            old(self)@.flow_counter < u64::MAX,
        ensures
            id == old(self)@.flow_counter,
            final(self)@.pid == old(self)@.pid,
            final(self)@.tid == old(self)@.tid,
            final(self)@.flow_counter == old(self)@.flow_counter + 1,
            exists|ts1: u64, ts2: u64|
                final(self)@.log == old(self)@.log + seq![
                    EventModel::B {
                        name: "Begin"@,
                        pid: old(self)@.pid,
                        ts: ts1,
                        tid: Some(old(self)@.tid),
                    },
                    EventModel::s {
                        name: name@,
                        pid: old(self)@.pid,
                        tid: old(self)@.tid,
                        ts: ts2,
                        cat: category@,
                        id: old(self)@.flow_counter,
                    },
                    EventModel::E { pid: old(self)@.pid, ts: ts2, tid: Some(old(self)@.tid) },
                ],
    {
        let id = self.flow_counter;
        self.flow_counter = self.flow_counter + 1;
        let ts1 = self.current_timestamp();
        let bracket_open = match EventBuilder::default().phase(Phase::DurationBegin).name(
            "Begin",
        ).timestamp(ts1).process_id(self.pid).thread_id(self.tid).build_for_trace_event() {
            Ok(ev) => ev,
            Err(_) => {
                proof {
                    assert(false);
                }
                vstd::pervasive::unreached()
            },
        };
        let ts2 = self.current_timestamp();
        let marker = match EventBuilder::default().phase(Phase::FlowBegin).name(name).category(
            category,
        ).timestamp(ts2).process_id(self.pid).thread_id(self.tid).id(id).build_for_trace_event() {
            Ok(ev) => ev,
            Err(_) => {
                proof {
                    assert(false);
                }
                vstd::pervasive::unreached()
            },
        };
        let bracket_close = match EventBuilder::default().phase(Phase::DurationEnd).timestamp(
            ts2,
        ).process_id(self.pid).thread_id(self.tid).build_for_trace_event() {
            Ok(ev) => ev,
            Err(_) => {
                proof {
                    assert(false);
                }
                vstd::pervasive::unreached()
            },
        };
        let ghost prev = models_of(self.log@);
        let ghost bm = bracket_open@;
        let ghost sm = marker@;
        let ghost em = bracket_close@;
        self.log.push(bracket_open);
        self.log.push(marker);
        self.log.push(bracket_close);
        proof {
            assert(models_of(self.log@) =~= prev + seq![bm, sm, em]);
        }
        id
    }

    /// Appends the mirrored bracket for a flow's end: a flow-end (`f`)
    /// marker carrying the given identifier and `category`, then a duration
    /// bracket. The caller must pass the identifier returned by the matching
    /// [`Profiler::begin_flow`]; no pairing validation is performed.
    pub fn end_flow(&mut self, name: &str, category: &str, id: u64)
        ensures
            final(self)@.pid == old(self)@.pid,
            final(self)@.tid == old(self)@.tid,
            final(self)@.flow_counter == old(self)@.flow_counter,
            exists|ts1: u64, ts2: u64|
                final(self)@.log == old(self)@.log + seq![
                    EventModel::f {
                        name: name@,
                        pid: old(self)@.pid,
                        tid: old(self)@.tid,
                        ts: ts1,
                        cat: category@,
                        id,
                    },
                    EventModel::B {
                        name: "End"@,
                        pid: old(self)@.pid,
                        ts: ts1,
                        tid: Some(old(self)@.tid),
                    },
                    EventModel::E { pid: old(self)@.pid, ts: ts2, tid: Some(old(self)@.tid) },
                ],
    {
        let ts1 = self.current_timestamp();
        let marker = match EventBuilder::default().phase(Phase::FlowEnd).name(name).category(
            category,
        ).timestamp(ts1).process_id(self.pid).thread_id(self.tid).id(id).build_for_trace_event() {
            Ok(ev) => ev,
            Err(_) => {
                proof {
                    assert(false);
                }
                vstd::pervasive::unreached()
            },
        };
        let bracket_open = match EventBuilder::default().phase(Phase::DurationBegin).name(
            "End",
        ).timestamp(ts1).process_id(self.pid).thread_id(self.tid).build_for_trace_event() {
            Ok(ev) => ev,
            Err(_) => {
                proof {
                    assert(false);
                }
                vstd::pervasive::unreached()
            },
        };
        let ts2 = self.current_timestamp();
        let bracket_close = match EventBuilder::default().phase(Phase::DurationEnd).timestamp(
            ts2,
        ).process_id(self.pid).thread_id(self.tid).build_for_trace_event() {
            Ok(ev) => ev,
            Err(_) => {
                proof {
                    assert(false);
                }
                vstd::pervasive::unreached()
            },
        };
        let ghost prev = models_of(self.log@);
        let ghost fm = marker@;
        let ghost bm = bracket_open@;
        let ghost em = bracket_close@;
        self.log.push(marker);
        self.log.push(bracket_open);
        self.log.push(bracket_close);
        proof {
            assert(models_of(self.log@) =~= prev + seq![fm, bm, em]);
        }
    }

    /// Appends one already-finalized event.
    pub fn push(&mut self, event: TraceEvent)
        ensures
            final(self)@.pid == old(self)@.pid,
            final(self)@.tid == old(self)@.tid,
            final(self)@.flow_counter == old(self)@.flow_counter,
            final(self)@.log == old(self)@.log.push(event@),
    {
        let ghost prev = models_of(self.log@);
        let ghost em = event@;
        self.log.push(event);
        proof {
            assert(models_of(self.log@) =~= prev.push(em));
        }
    }

    /// Appends a whole log produced elsewhere — for merging per-thread logs
    /// into a shared one.
    pub fn extend(&mut self, events: Vec<TraceEvent>)
        ensures
            final(self)@.pid == old(self)@.pid,
            final(self)@.tid == old(self)@.tid,
            final(self)@.flow_counter == old(self)@.flow_counter,
            final(self)@.log == old(self)@.log + models_of(events@),
    {
        let ghost prev = models_of(self.log@);
        let ghost added = models_of(events@);
        let mut incoming = events;
        self.log.append(&mut incoming);
        proof {
            assert(models_of(self.log@) =~= prev + added);
        }
    }

    /// Empties the log; the identities and the flow counter stay.
    pub fn clear(&mut self)
        ensures
            final(self)@.pid == old(self)@.pid,
            final(self)@.tid == old(self)@.tid,
            final(self)@.flow_counter == old(self)@.flow_counter,
            final(self)@.log == Seq::<EventModel>::empty(),
    {
        self.log = Vec::new();
        proof {
            assert(models_of(self.log@) =~= Seq::<EventModel>::empty());
        }
    }

    /// The logged events, in insertion order.
    pub fn events(&self) -> (r: &Vec<TraceEvent>)
        ensures
            models_of(r@) == self@.log,
    {
        &self.log
    }

    /// Consumes the profiler and hands the log over, for encoding or saving.
    pub fn into_events(self) -> (r: Vec<TraceEvent>)
        ensures
            models_of(r@) == self@.log,
    {
        self.log
    }
}

} // verus!
