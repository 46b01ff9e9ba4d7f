//! The event codec: how a [`TraceEvent`] and a whole event log appear as
//! JSON text, and how such text is read back.
//!
//! The wire format is fixed by the Chrome Trace Event Format: each event is
//! an object tagged by its `"ph"` field, followed by that phase's fields in
//! declaration order; optional fields are absent from the object when unset,
//! never `null`. The writer emits the compact canonical form.
//!
//! The reader accepts any amount of whitespace between tokens — so it also
//! reads the pretty form back — and, after the leading `"ph"` entry, takes a
//! phase's fields in any order. Its policy on the rest is strict: each key
//! at most once, no key outside the phase's field set, and the one liberty
//! that `"tid"` may carry `null`, which counts the same as leaving it out.

use vstd::prelude::*;

use crate::json::dec_digits;
use crate::json::eat_lit;
use crate::json::escape_seq;
use crate::json::parse_lit;
use crate::json::parse_num;
use crate::json::parse_num_exec;
use crate::json::parse_string_body;
use crate::json::parse_string_body_exec;
use crate::json::push_escaped;
use crate::json::push_u64;
use crate::json::skip_ws;
use crate::json::skip_ws_exec;
use crate::trace_event::Argument;
use crate::trace_event::EventModel;
use crate::trace_event::TraceEvent;
use crate::trace_event::models_of;

verus! {

/// The error returned when a document does not match the expected shape.
#[derive(Clone, Copy, PartialEq, Eq, Structural, Debug)]
pub struct DecodeError;

// ---------------------------------------------------------------------------
// The fixed key tokens of the format, quotes included
// ---------------------------------------------------------------------------

pub open spec fn key_ph() -> Seq<char> {
    "\"ph\""@
}

pub open spec fn key_name() -> Seq<char> {
    "\"name\""@
}

pub open spec fn key_pid() -> Seq<char> {
    "\"pid\""@
}

pub open spec fn key_ts() -> Seq<char> {
    "\"ts\""@
}

pub open spec fn key_tid() -> Seq<char> {
    "\"tid\""@
}

pub open spec fn key_dur() -> Seq<char> {
    "\"dur\""@
}

pub open spec fn key_cat() -> Seq<char> {
    "\"cat\""@
}

pub open spec fn key_id() -> Seq<char> {
    "\"id\""@
}

pub open spec fn key_args() -> Seq<char> {
    "\"args\""@
}

pub open spec fn key_trace_events() -> Seq<char> {
    "\"traceEvents\""@
}

// ---------------------------------------------------------------------------
// The encoded form, piece by piece
// ---------------------------------------------------------------------------

/// The opening of every event object: brace, `ph` key, and the quoted
/// one-character phase code.
pub open spec fn enc_ph(code: char) -> Seq<char> {
    "{"@ + key_ph() + ":\""@ + seq![code] + "\""@
}

/// A string-valued field: comma, quoted key, colon, quoted escaped value.
pub open spec fn enc_str_field(key: Seq<char>, v: Seq<char>) -> Seq<char> {
    ","@ + key + ":\""@ + escape_seq(v) + "\""@
}

/// A number-valued field: comma, quoted key, colon, decimal digits.
pub open spec fn enc_num_field(key: Seq<char>, n: u64) -> Seq<char> {
    ","@ + key + ":"@ + dec_digits(n as nat)
}

/// The optional `tid` field: absent entirely when unset.
pub open spec fn enc_tid_opt(tid: Option<u64>) -> Seq<char> {
    match tid {
        None => Seq::empty(),
        Some(t) => enc_num_field(key_tid(), t),
    }
}

/// The `args` field of a metadata event: an object with one `name` entry.
pub open spec fn enc_args_field(v: Seq<char>) -> Seq<char> {
    ","@ + key_args() + ":"@ + "{"@ + key_name() + ":\""@ + escape_seq(v) + "\""@ + "}"@
}

/// The encoded form of one event.
pub open spec fn spec_enc_event(e: EventModel) -> Seq<char> {
    match e {
        EventModel::B { name, pid, ts, tid } => enc_ph('B') + enc_str_field(key_name(), name)
            + enc_num_field(key_pid(), pid as u64) + enc_num_field(key_ts(), ts) + enc_tid_opt(tid)
            + "}"@,
        EventModel::E { pid, ts, tid } => enc_ph('E') + enc_num_field(key_pid(), pid as u64)
            + enc_num_field(key_ts(), ts) + enc_tid_opt(tid) + "}"@,
        EventModel::X { name, pid, ts, dur, tid } => enc_ph('X') + enc_str_field(key_name(), name)
            + enc_num_field(key_pid(), pid as u64) + enc_num_field(key_ts(), ts) + enc_num_field(
            key_dur(),
            dur,
        ) + enc_tid_opt(tid) + "}"@,
        EventModel::M { name, pid, args, tid } => enc_ph('M') + enc_str_field(key_name(), name)
            + enc_num_field(key_pid(), pid as u64) + enc_args_field(args) + enc_tid_opt(tid)
            + "}"@,
        EventModel::s { name, pid, tid, ts, cat, id } => enc_ph('s') + enc_str_field(
            key_name(),
            name,
        ) + enc_num_field(key_pid(), pid as u64) + enc_num_field(key_tid(), tid) + enc_num_field(
            key_ts(),
            ts,
        ) + enc_str_field(key_cat(), cat) + enc_num_field(key_id(), id) + "}"@,
        EventModel::f { name, pid, tid, ts, cat, id } => enc_ph('f') + enc_str_field(
            key_name(),
            name,
        ) + enc_num_field(key_pid(), pid as u64) + enc_num_field(key_tid(), tid) + enc_num_field(
            key_ts(),
            ts,
        ) + enc_str_field(key_cat(), cat) + enc_num_field(key_id(), id) + "}"@,
        EventModel::I {} => enc_ph('I') + "}"@,
        EventModel::C {} => enc_ph('C') + "}"@,
        EventModel::b {} => enc_ph('b') + "}"@,
        EventModel::n {} => enc_ph('n') + "}"@,
        EventModel::e {} => enc_ph('e') + "}"@,
        EventModel::t {} => enc_ph('t') + "}"@,
        EventModel::P {} => enc_ph('P') + "}"@,
        EventModel::N {} => enc_ph('N') + "}"@,
        EventModel::O {} => enc_ph('O') + "}"@,
        EventModel::D {} => enc_ph('D') + "}"@,
        EventModel::V {} => enc_ph('V') + "}"@,
        EventModel::v {} => enc_ph('v') + "}"@,
        EventModel::R {} => enc_ph('R') + "}"@,
        EventModel::c {} => enc_ph('c') + "}"@,
    }
}

/// The encoded event list, commas between elements.
pub open spec fn spec_enc_list(evs: Seq<EventModel>) -> Seq<char>
    decreases evs.len(),
{
    if evs.len() == 0 {
        Seq::empty()
    } else {
        spec_enc_event(evs[0]) + spec_enc_list_tail(evs.drop_first())
    }
}

pub open spec fn spec_enc_list_tail(evs: Seq<EventModel>) -> Seq<char>
    decreases evs.len(),
{
    if evs.len() == 0 {
        Seq::empty()
    } else {
        ","@ + spec_enc_event(evs[0]) + spec_enc_list_tail(evs.drop_first())
    }
}

/// The encoded document: the event list under the fixed `traceEvents` key.
pub open spec fn spec_enc_doc(evs: Seq<EventModel>) -> Seq<char> {
    "{"@ + key_trace_events() + ":"@ + "["@ + spec_enc_list(evs) + "]"@ + "}"@
}

// ---------------------------------------------------------------------------
// The reader's specification
// ---------------------------------------------------------------------------

/// Reads the quoted one-character phase code.
pub open spec fn parse_code(s: Seq<char>) -> Option<(char, Seq<char>)> {
    match parse_lit(s, "\""@) {
        None => None,
        Some(t) => if t.len() >= 2 && t[1] == '"' {
            Some((t[0], t.skip(2)))
        } else {
            None
        },
    }
}

/// The field values collected from one event object, whichever order its
/// entries came in. `tid` distinguishes an absent entry (`None`) from an
/// explicit `"tid": null` (`Some(None)`), which counts as no identifier.
pub ghost struct RawFields {
    pub name: Option<Seq<char>>,
    pub pid: Option<u64>,
    pub ts: Option<u64>,
    pub dur: Option<u64>,
    pub tid: Option<Option<u64>>,
    pub cat: Option<Seq<char>>,
    pub id: Option<u64>,
    pub args: Option<Seq<char>>,
}

/// No field collected yet.
pub open spec fn empty_raw() -> RawFields {
    RawFields {
        name: None,
        pid: None,
        ts: None,
        dur: None,
        tid: None,
        cat: None,
        id: None,
        args: None,
    }
}

/// The thread identifier a collected `tid` entry denotes: an absent entry
/// and an explicit `null` both mean none.
pub open spec fn tid_of(t: Option<Option<u64>>) -> Option<u64> {
    match t {
        None => None,
        Some(o) => o,
    }
}

/// Reads a colon and a quoted string value.
pub open spec fn parse_colon_string(s: Seq<char>) -> Option<(Seq<char>, Seq<char>)> {
    match parse_lit(s, ":"@) {
        None => None,
        Some(r1) => match parse_lit(r1, "\""@) {
            None => None,
            Some(r2) => parse_string_body(r2),
        },
    }
}

/// Reads a colon and a number value.
pub open spec fn parse_colon_num(s: Seq<char>) -> Option<(u64, Seq<char>)> {
    match parse_lit(s, ":"@) {
        None => None,
        Some(r1) => parse_num(r1),
    }
}

/// Reads a colon and a thread identifier: a number, or `null` for none.
pub open spec fn parse_colon_tid(s: Seq<char>) -> Option<(Option<u64>, Seq<char>)> {
    match parse_lit(s, ":"@) {
        None => None,
        Some(r1) => match parse_lit(r1, "null"@) {
            Some(r2) => Some((None, r2)),
            None => match parse_num(r1) {
                None => None,
                Some((t, r2)) => Some((Some(t), r2)),
            },
        },
    }
}

/// Reads a colon and the `args` object: exactly one `name` entry.
pub open spec fn parse_colon_args(s: Seq<char>) -> Option<(Seq<char>, Seq<char>)> {
    match parse_lit(s, ":"@) {
        None => None,
        Some(r1) => match parse_lit(r1, "{"@) {
            None => None,
            Some(r2) => match parse_lit(r2, key_name()) {
                None => None,
                Some(r3) => match parse_lit(r3, ":"@) {
                    None => None,
                    Some(r4) => match parse_lit(r4, "\""@) {
                        None => None,
                        Some(r5) => match parse_string_body(r5) {
                            None => None,
                            Some((v, r6)) => match parse_lit(r6, "}"@) {
                                None => None,
                                Some(r7) => Some((v, r7)),
                            },
                        },
                    },
                },
            },
        },
    }
}

/// Reads an event object's remaining entries, in any order, after the
/// `"ph"` entry: either the closing brace, or a comma, one of the known
/// keys, and its value. A key seen twice, or outside the vocabulary, is
/// malformed.
pub open spec fn parse_entries(s: Seq<char>, acc: RawFields) -> Option<(RawFields, Seq<char>)>
    decreases s.len(),
{
    match parse_lit(s, "}"@) {
        Some(r) => Some((acc, r)),
        None => match parse_lit(s, ","@) {
            None => None,
            Some(r1) => if parse_lit(r1, key_name()) is Some {
                if acc.name is Some {
                    None
                } else {
                    match parse_colon_string(parse_lit(r1, key_name()).unwrap()) {
                        None => None,
                        Some((v, r2)) => if r2.len() < s.len() {
                            parse_entries(r2, RawFields { name: Some(v), ..acc })
                        } else {
                            None
                        },
                    }
                }
            } else if parse_lit(r1, key_pid()) is Some {
                if acc.pid is Some {
                    None
                } else {
                    match parse_colon_num(parse_lit(r1, key_pid()).unwrap()) {
                        None => None,
                        Some((v, r2)) => if r2.len() < s.len() {
                            parse_entries(r2, RawFields { pid: Some(v), ..acc })
                        } else {
                            None
                        },
                    }
                }
            } else if parse_lit(r1, key_ts()) is Some {
                if acc.ts is Some {
                    None
                } else {
                    match parse_colon_num(parse_lit(r1, key_ts()).unwrap()) {
                        None => None,
                        Some((v, r2)) => if r2.len() < s.len() {
                            parse_entries(r2, RawFields { ts: Some(v), ..acc })
                        } else {
                            None
                        },
                    }
                }
            } else if parse_lit(r1, key_dur()) is Some {
                if acc.dur is Some {
                    None
                } else {
                    match parse_colon_num(parse_lit(r1, key_dur()).unwrap()) {
                        None => None,
                        Some((v, r2)) => if r2.len() < s.len() {
                            parse_entries(r2, RawFields { dur: Some(v), ..acc })
                        } else {
                            None
                        },
                    }
                }
            } else if parse_lit(r1, key_tid()) is Some {
                if acc.tid is Some {
                    None
                } else {
                    match parse_colon_tid(parse_lit(r1, key_tid()).unwrap()) {
                        None => None,
                        Some((v, r2)) => if r2.len() < s.len() {
                            parse_entries(r2, RawFields { tid: Some(v), ..acc })
                        } else {
                            None
                        },
                    }
                }
            } else if parse_lit(r1, key_cat()) is Some {
                if acc.cat is Some {
                    None
                } else {
                    match parse_colon_string(parse_lit(r1, key_cat()).unwrap()) {
                        None => None,
                        Some((v, r2)) => if r2.len() < s.len() {
                            parse_entries(r2, RawFields { cat: Some(v), ..acc })
                        } else {
                            None
                        },
                    }
                }
            } else if parse_lit(r1, key_id()) is Some {
                if acc.id is Some {
                    None
                } else {
                    match parse_colon_num(parse_lit(r1, key_id()).unwrap()) {
                        None => None,
                        Some((v, r2)) => if r2.len() < s.len() {
                            parse_entries(r2, RawFields { id: Some(v), ..acc })
                        } else {
                            None
                        },
                    }
                }
            } else if parse_lit(r1, key_args()) is Some {
                if acc.args is Some {
                    None
                } else {
                    match parse_colon_args(parse_lit(r1, key_args()).unwrap()) {
                        None => None,
                        Some((v, r2)) => if r2.len() < s.len() {
                            parse_entries(r2, RawFields { args: Some(v), ..acc })
                        } else {
                            None
                        },
                    }
                }
            } else {
                None
            },
        },
    }
}

/// The event a phase code and a collected field set denote: exactly the
/// required fields of the table for that code, `tid` optional where the
/// table allows it, and nothing else. Anything further is malformed.
pub open spec fn event_of_fields(code: char, f: RawFields) -> Option<EventModel> {
    if code == 'B' {
        if f.name is Some && f.pid is Some && f.pid.unwrap() <= u32::MAX as u64 && f.ts is Some
            && f.dur is None && f.cat is None && f.id is None && f.args is None {
            Some(
                EventModel::B {
                    name: f.name.unwrap(),
                    pid: f.pid.unwrap() as u32,
                    ts: f.ts.unwrap(),
                    tid: tid_of(f.tid),
                },
            )
        } else {
            None
        }
    } else if code == 'E' {
        if f.pid is Some && f.pid.unwrap() <= u32::MAX as u64 && f.ts is Some && f.name is None
            && f.dur is None && f.cat is None && f.id is None && f.args is None {
            Some(EventModel::E { pid: f.pid.unwrap() as u32, ts: f.ts.unwrap(), tid: tid_of(f.tid) })
        } else {
            None
        }
    } else if code == 'X' {
        if f.name is Some && f.pid is Some && f.pid.unwrap() <= u32::MAX as u64 && f.ts is Some
            && f.dur is Some && f.cat is None && f.id is None && f.args is None {
            Some(
                EventModel::X {
                    name: f.name.unwrap(),
                    pid: f.pid.unwrap() as u32,
                    ts: f.ts.unwrap(),
                    dur: f.dur.unwrap(),
                    tid: tid_of(f.tid),
                },
            )
        } else {
            None
        }
    } else if code == 'M' {
        if f.name is Some && f.pid is Some && f.pid.unwrap() <= u32::MAX as u64 && f.args is Some
            && f.ts is None && f.dur is None && f.cat is None && f.id is None {
            Some(
                EventModel::M {
                    name: f.name.unwrap(),
                    pid: f.pid.unwrap() as u32,
                    args: f.args.unwrap(),
                    tid: tid_of(f.tid),
                },
            )
        } else {
            None
        }
    } else if code == 's' || code == 'f' {
        if f.name is Some && f.pid is Some && f.pid.unwrap() <= u32::MAX as u64 && f.ts is Some
            && f.cat is Some && f.id is Some && f.tid is Some && f.tid.unwrap() is Some
            && f.dur is None && f.args is None {
            if code == 's' {
                Some(
                    EventModel::s {
                        name: f.name.unwrap(),
                        pid: f.pid.unwrap() as u32,
                        tid: f.tid.unwrap().unwrap(),
                        ts: f.ts.unwrap(),
                        cat: f.cat.unwrap(),
                        id: f.id.unwrap(),
                    },
                )
            } else {
                Some(
                    EventModel::f {
                        name: f.name.unwrap(),
                        pid: f.pid.unwrap() as u32,
                        tid: f.tid.unwrap().unwrap(),
                        ts: f.ts.unwrap(),
                        cat: f.cat.unwrap(),
                        id: f.id.unwrap(),
                    },
                )
            }
        } else {
            None
        }
    } else if f == empty_raw() {
        if code == 'I' {
            Some(EventModel::I {})
        } else if code == 'C' {
            Some(EventModel::C {})
        } else if code == 'b' {
            Some(EventModel::b {})
        } else if code == 'n' {
            Some(EventModel::n {})
        } else if code == 'e' {
            Some(EventModel::e {})
        } else if code == 't' {
            Some(EventModel::t {})
        } else if code == 'P' {
            Some(EventModel::P {})
        } else if code == 'N' {
            Some(EventModel::N {})
        } else if code == 'O' {
            Some(EventModel::O {})
        } else if code == 'D' {
            Some(EventModel::D {})
        } else if code == 'V' {
            Some(EventModel::V {})
        } else if code == 'v' {
            Some(EventModel::v {})
        } else if code == 'R' {
            Some(EventModel::R {})
        } else if code == 'c' {
            Some(EventModel::c {})
        } else {
            None
        }
    } else {
        None
    }
}

/// Reads an event object's body after the phase code: the remaining entries
/// in any order, validated against that phase's field set.
pub open spec fn parse_event_body(code: char, s: Seq<char>) -> Option<(EventModel, Seq<char>)> {
    match parse_entries(s, empty_raw()) {
        None => None,
        Some((f, r)) => match event_of_fields(code, f) {
            None => None,
            Some(e) => Some((e, r)),
        },
    }
}


/// Reads one event object.
pub open spec fn parse_event(s: Seq<char>) -> Option<(EventModel, Seq<char>)> {
    match parse_lit(s, "{"@) {
        None => None,
        Some(r1) => match parse_lit(r1, key_ph()) {
            None => None,
            Some(r2) => match parse_lit(r2, ":"@) {
                None => None,
                Some(r3) => match parse_code(r3) {
                    None => None,
                    Some((code, r4)) => parse_event_body(code, r4),
                },
            },
        },
    }
}

/// Reads the remainder of an event list after at least one element: either
/// the closing bracket, or a comma and a further event.
pub open spec fn parse_events_tail(s: Seq<char>) -> Option<(Seq<EventModel>, Seq<char>)>
    decreases s.len(),
{
    match parse_lit(s, "]"@) {
        Some(r) => Some((Seq::empty(), r)),
        None => match parse_lit(s, ","@) {
            None => None,
            Some(r1) => match parse_event(r1) {
                None => None,
                Some((e, r2)) => if r2.len() < s.len() {
                    match parse_events_tail(r2) {
                        None => None,
                        Some((evs, r3)) => Some((seq![e] + evs, r3)),
                    }
                } else {
                    None
                },
            },
        },
    }
}

/// Reads an event list after its opening bracket.
pub open spec fn parse_events(s: Seq<char>) -> Option<(Seq<EventModel>, Seq<char>)> {
    match parse_lit(s, "]"@) {
        Some(r) => Some((Seq::empty(), r)),
        None => match parse_event(s) {
            None => None,
            Some((e, r)) => match parse_events_tail(r) {
                None => None,
                Some((evs, r2)) => Some((seq![e] + evs, r2)),
            },
        },
    }
}

/// Reads a whole document object.
pub open spec fn parse_doc(s: Seq<char>) -> Option<(Seq<EventModel>, Seq<char>)> {
    match parse_lit(s, "{"@) {
        None => None,
        Some(r1) => match parse_lit(r1, key_trace_events()) {
            None => None,
            Some(r2) => match parse_lit(r2, ":"@) {
                None => None,
                Some(r3) => match parse_lit(r3, "["@) {
                    None => None,
                    Some(r4) => match parse_events(r4) {
                        None => None,
                        Some((evs, r5)) => match parse_lit(r5, "}"@) {
                            None => None,
                            Some(r6) => Some((evs, r6)),
                        },
                    },
                },
            },
        },
    }
}

/// What decoding a document yields: the event models, provided nothing but
/// whitespace follows the closing brace.
pub open spec fn spec_decode_doc(s: Seq<char>) -> Option<Seq<EventModel>> {
    match parse_doc(s) {
        None => None,
        Some((evs, r)) => if skip_ws(r).len() == 0 {
            Some(evs)
        } else {
            None
        },
    }
}

/// What decoding a single event yields.
pub open spec fn spec_decode_event(s: Seq<char>) -> Option<EventModel> {
    match parse_event(s) {
        None => None,
        Some((e, r)) => if skip_ws(r).len() == 0 {
            Some(e)
        } else {
            None
        },
    }
}

// ---------------------------------------------------------------------------
// The writer
// ---------------------------------------------------------------------------

fn push_ph(out: &mut String, code: char)
    ensures
        final(out)@ == old(out)@ + enc_ph(code),
{
    out.append("{");
    out.append("\"ph\"");
    out.append(":\"");
    out.push(code);
    out.append("\"");
    proof {
        assert(out@ =~= old(out)@ + enc_ph(code));
    }
}

fn push_str_field(out: &mut String, key: &str, v: &str)
    ensures
        final(out)@ == old(out)@ + enc_str_field(key@, v@),
{
    out.append(",");
    out.append(key);
    out.append(":\"");
    push_escaped(out, v);
    out.append("\"");
    proof {
        assert(out@ =~= old(out)@ + enc_str_field(key@, v@));
    }
}

fn push_num_field(out: &mut String, key: &str, n: u64)
    ensures
        final(out)@ == old(out)@ + enc_num_field(key@, n),
{
    out.append(",");
    out.append(key);
    out.append(":");
    push_u64(out, n);
    proof {
        assert(out@ =~= old(out)@ + enc_num_field(key@, n));
    }
}

fn push_tid_opt(out: &mut String, tid: &Option<u64>)
    ensures
        final(out)@ == old(out)@ + enc_tid_opt(*tid),
{
    match tid {
        None => {
            proof {
                assert(out@ =~= out@ + Seq::<char>::empty());
            }
        },
        Some(t) => {
            push_num_field(out, "\"tid\"", *t);
        },
    }
}

fn push_args_field(out: &mut String, v: &Argument)
    ensures
        final(out)@ == old(out)@ + enc_args_field(v@),
{
    out.append(",");
    out.append("\"args\"");
    out.append(":");
    out.append("{");
    out.append("\"name\"");
    out.append(":\"");
    push_escaped(out, v.name_str());
    out.append("\"");
    out.append("}");
    proof {
        assert(out@ =~= old(out)@ + enc_args_field(v@));
    }
}

/// Appends the encoded form of one event.
#[verifier::rlimit(100)]
#[verifier::spinoff_prover]
pub fn push_event(out: &mut String, ev: &TraceEvent)
    ensures
        final(out)@ == old(out)@ + spec_enc_event(ev@),
{
    match ev {
        TraceEvent::B { name, pid, ts, tid } => {
            push_ph(out, 'B');
            push_str_field(out, "\"name\"", name.as_str());
            push_num_field(out, "\"pid\"", *pid as u64);
            push_num_field(out, "\"ts\"", *ts);
            push_tid_opt(out, tid);
            out.append("}");
            proof {
                assert(out@ =~= old(out)@ + spec_enc_event(ev@));
            }
        },
        TraceEvent::E { pid, ts, tid } => {
            push_ph(out, 'E');
            push_num_field(out, "\"pid\"", *pid as u64);
            push_num_field(out, "\"ts\"", *ts);
            push_tid_opt(out, tid);
            out.append("}");
            proof {
                assert(out@ =~= old(out)@ + spec_enc_event(ev@));
            }
        },
        TraceEvent::X { name, pid, ts, dur, tid } => {
            push_ph(out, 'X');
            push_str_field(out, "\"name\"", name.as_str());
            push_num_field(out, "\"pid\"", *pid as u64);
            push_num_field(out, "\"ts\"", *ts);
            push_num_field(out, "\"dur\"", *dur);
            push_tid_opt(out, tid);
            out.append("}");
            proof {
                assert(out@ =~= old(out)@ + spec_enc_event(ev@));
            }
        },
        TraceEvent::M { name, pid, args, tid } => {
            push_ph(out, 'M');
            push_str_field(out, "\"name\"", name.as_str());
            push_num_field(out, "\"pid\"", *pid as u64);
            push_args_field(out, args);
            push_tid_opt(out, tid);
            out.append("}");
            proof {
                assert(out@ =~= old(out)@ + spec_enc_event(ev@));
            }
        },
        TraceEvent::s { name, pid, tid, ts, cat, id } => {
            push_ph(out, 's');
            push_str_field(out, "\"name\"", name.as_str());
            push_num_field(out, "\"pid\"", *pid as u64);
            push_num_field(out, "\"tid\"", *tid);
            push_num_field(out, "\"ts\"", *ts);
            push_str_field(out, "\"cat\"", cat.as_str());
            push_num_field(out, "\"id\"", *id);
            out.append("}");
            proof {
                assert(out@ =~= old(out)@ + spec_enc_event(ev@));
            }
        },
        TraceEvent::f { name, pid, tid, ts, cat, id } => {
            push_ph(out, 'f');
            push_str_field(out, "\"name\"", name.as_str());
            push_num_field(out, "\"pid\"", *pid as u64);
            push_num_field(out, "\"tid\"", *tid);
            push_num_field(out, "\"ts\"", *ts);
            push_str_field(out, "\"cat\"", cat.as_str());
            push_num_field(out, "\"id\"", *id);
            out.append("}");
            proof {
                assert(out@ =~= old(out)@ + spec_enc_event(ev@));
            }
        },
        TraceEvent::I {} => { push_empty(out, 'I'); proof { assert(out@ =~= old(out)@ + spec_enc_event(ev@)); } },
        TraceEvent::C {} => { push_empty(out, 'C'); proof { assert(out@ =~= old(out)@ + spec_enc_event(ev@)); } },
        TraceEvent::b {} => { push_empty(out, 'b'); proof { assert(out@ =~= old(out)@ + spec_enc_event(ev@)); } },
        TraceEvent::n {} => { push_empty(out, 'n'); proof { assert(out@ =~= old(out)@ + spec_enc_event(ev@)); } },
        TraceEvent::e {} => { push_empty(out, 'e'); proof { assert(out@ =~= old(out)@ + spec_enc_event(ev@)); } },
        TraceEvent::t {} => { push_empty(out, 't'); proof { assert(out@ =~= old(out)@ + spec_enc_event(ev@)); } },
        TraceEvent::P {} => { push_empty(out, 'P'); proof { assert(out@ =~= old(out)@ + spec_enc_event(ev@)); } },
        TraceEvent::N {} => { push_empty(out, 'N'); proof { assert(out@ =~= old(out)@ + spec_enc_event(ev@)); } },
        TraceEvent::O {} => { push_empty(out, 'O'); proof { assert(out@ =~= old(out)@ + spec_enc_event(ev@)); } },
        TraceEvent::D {} => { push_empty(out, 'D'); proof { assert(out@ =~= old(out)@ + spec_enc_event(ev@)); } },
        TraceEvent::V {} => { push_empty(out, 'V'); proof { assert(out@ =~= old(out)@ + spec_enc_event(ev@)); } },
        TraceEvent::v {} => { push_empty(out, 'v'); proof { assert(out@ =~= old(out)@ + spec_enc_event(ev@)); } },
        TraceEvent::R {} => { push_empty(out, 'R'); proof { assert(out@ =~= old(out)@ + spec_enc_event(ev@)); } },
        TraceEvent::c {} => { push_empty(out, 'c'); proof { assert(out@ =~= old(out)@ + spec_enc_event(ev@)); } },
    }
}

fn push_empty(out: &mut String, code: char)
    ensures
        final(out)@ == old(out)@ + enc_ph(code) + "}"@,
{
    push_ph(out, code);
    out.append("}");
}

/// Encodes one event in the compact canonical form.
pub fn encode_event(ev: &TraceEvent) -> (r: String)
    ensures
        r@ == spec_enc_event(ev@),
{
    let mut out = String::new();
    push_event(&mut out, ev);
    proof {
        assert(Seq::<char>::empty() + spec_enc_event(ev@) =~= spec_enc_event(ev@));
    }
    out
}

pub proof fn lemma_enc_list_tail_snoc(evs: Seq<EventModel>, e: EventModel)
    ensures
        spec_enc_list_tail(evs.push(e)) == spec_enc_list_tail(evs) + ","@ + spec_enc_event(e),
    decreases evs.len(),
{
    if evs.len() == 0 {
        assert(evs.push(e)[0] == e);
        assert(evs.push(e).drop_first() =~= Seq::<EventModel>::empty());
        assert(spec_enc_list_tail(Seq::<EventModel>::empty()) == Seq::<char>::empty());
        assert(spec_enc_list_tail(evs.push(e)) =~= spec_enc_list_tail(evs) + ","@
            + spec_enc_event(e));
    } else {
        assert(evs.push(e).drop_first() =~= evs.drop_first().push(e));
        lemma_enc_list_tail_snoc(evs.drop_first(), e);
        assert(spec_enc_list_tail(evs.push(e)) =~= spec_enc_list_tail(evs) + ","@
            + spec_enc_event(e));
    }
}

pub proof fn lemma_enc_list_snoc(evs: Seq<EventModel>, e: EventModel)
    ensures
        spec_enc_list(evs.push(e)) == if evs.len() == 0 {
            spec_enc_event(e)
        } else {
            spec_enc_list(evs) + ","@ + spec_enc_event(e)
        },
{
    if evs.len() == 0 {
        assert(evs.push(e)[0] == e);
        assert(evs.push(e).drop_first() =~= Seq::<EventModel>::empty());
        assert(spec_enc_list_tail(Seq::<EventModel>::empty()) == Seq::<char>::empty());
        assert(spec_enc_list(evs.push(e)) =~= spec_enc_event(e));
    } else {
        assert(evs.push(e)[0] == evs[0]);
        assert(evs.push(e).drop_first() =~= evs.drop_first().push(e));
        lemma_enc_list_tail_snoc(evs.drop_first(), e);
        assert(spec_enc_list(evs.push(e)) =~= spec_enc_list(evs) + ","@ + spec_enc_event(e));
    }
}

/// Encodes a whole event log as a compact document.
pub fn encode_doc(events: &Vec<TraceEvent>) -> (r: String)
    ensures
        r@ == spec_enc_doc(models_of(events@)),
{
    let ghost m = models_of(events@);
    let mut out = String::new();
    out.append("{");
    out.append("\"traceEvents\"");
    out.append(":");
    out.append("[");
    let ghost head = "{"@ + key_trace_events() + ":"@ + "["@;
    proof {
        assert(m.take(0) =~= Seq::<EventModel>::empty());
        assert(out@ =~= head + spec_enc_list(m.take(0)));
    }
    let n = events.len();
    let mut i: usize = 0;
    while i < n
        invariant
            i <= n,
            n == events@.len(),
            m == models_of(events@),
            m.len() == n,
            out@ == head + spec_enc_list(m.take(i as int)),
            head == "{"@ + key_trace_events() + ":"@ + "["@,
        decreases n - i,
    {
        if i > 0 {
            out.append(",");
        }
        push_event(&mut out, &events[i]);
        proof {
            assert(m[i as int] == events@[i as int]@);
            assert(m.take(i + 1) =~= m.take(i as int).push(m[i as int]));
            lemma_enc_list_snoc(m.take(i as int), m[i as int]);
            assert(out@ =~= head + spec_enc_list(m.take(i + 1)));
        }
        i = i + 1;
    }
    out.append("]");
    out.append("}");
    proof {
        assert(m.take(n as int) =~= m);
        assert(out@ =~= spec_enc_doc(m));
    }
    out
}

// ---------------------------------------------------------------------------
// The reader
// ---------------------------------------------------------------------------

fn parse_code_exec(s: &str, i: usize) -> (r: Option<(char, usize)>)
    requires
        i <= s@.len(),
    ensures
        match r {
            Some((c, j)) => {
                &&& i <= j <= s@.len()
                &&& parse_code(s@.skip(i as int)) == Some((c, s@.skip(j as int)))
            },
            None => parse_code(s@.skip(i as int)) is None,
        },
{
    let n: usize = s.unicode_len();
    match eat_lit(s, i, "\"") {
        None => None,
        Some(j) => {
            if n - j < 2 {
                return None;
            }
            let c = s.get_char(j);
            let q = s.get_char(j + 1);
            proof {
                assert(s@.skip(j as int)[0] == s@[j as int]);
                assert(s@.skip(j as int)[1] == s@[j + 1]);
            }
            if q != '"' {
                return None;
            }
            proof {
                crate::json::lemma_skip_skip(s@, j as int, 2);
            }
            Some((c, j + 2))
        },
    }
}

/// The collected field values of one event object.
struct FieldSet {
    name: Option<String>,
    pid: Option<u64>,
    ts: Option<u64>,
    dur: Option<u64>,
    tid: Option<Option<u64>>,
    cat: Option<String>,
    id: Option<u64>,
    args: Option<String>,
}

/// The model of a collected field set.
spec fn field_model(fs: &FieldSet) -> RawFields {
    RawFields {
        name: match fs.name {
            None => None,
            Some(n) => Some(n@),
        },
        pid: fs.pid,
        ts: fs.ts,
        dur: fs.dur,
        tid: fs.tid,
        cat: match fs.cat {
            None => None,
            Some(c) => Some(c@),
        },
        id: fs.id,
        args: match fs.args {
            None => None,
            Some(a) => Some(a@),
        },
    }
}

fn parse_colon_string_exec(s: &str, i: usize) -> (r: Option<(String, usize)>)
    requires
        i <= s@.len(),
    ensures
        match r {
            Some((v, j)) => {
                &&& i <= j <= s@.len()
                &&& parse_colon_string(s@.skip(i as int)) == Some((v@, s@.skip(j as int)))
            },
            None => parse_colon_string(s@.skip(i as int)) is None,
        },
{
    match eat_lit(s, i, ":") {
        None => None,
        Some(r1) => match eat_lit(s, r1, "\"") {
            None => None,
            Some(r2) => parse_string_body_exec(s, r2),
        },
    }
}

fn parse_colon_num_exec(s: &str, i: usize) -> (r: Option<(u64, usize)>)
    requires
        i <= s@.len(),
    ensures
        match r {
            Some((v, j)) => {
                &&& i <= j <= s@.len()
                &&& parse_colon_num(s@.skip(i as int)) == Some((v, s@.skip(j as int)))
            },
            None => parse_colon_num(s@.skip(i as int)) is None,
        },
{
    match eat_lit(s, i, ":") {
        None => None,
        Some(r1) => parse_num_exec(s, r1),
    }
}

fn parse_colon_tid_exec(s: &str, i: usize) -> (r: Option<(Option<u64>, usize)>)
    requires
        i <= s@.len(),
    ensures
        match r {
            Some((v, j)) => {
                &&& i <= j <= s@.len()
                &&& parse_colon_tid(s@.skip(i as int)) == Some((v, s@.skip(j as int)))
            },
            None => parse_colon_tid(s@.skip(i as int)) is None,
        },
{
    match eat_lit(s, i, ":") {
        None => None,
        Some(r1) => match eat_lit(s, r1, "null") {
            Some(r2) => Some((None, r2)),
            None => match parse_num_exec(s, r1) {
                None => None,
                Some((t, r2)) => Some((Some(t), r2)),
            },
        },
    }
}

fn parse_colon_args_exec(s: &str, i: usize) -> (r: Option<(String, usize)>)
    requires
        i <= s@.len(),
    ensures
        match r {
            Some((v, j)) => {
                &&& i <= j <= s@.len()
                &&& parse_colon_args(s@.skip(i as int)) == Some((v@, s@.skip(j as int)))
            },
            None => parse_colon_args(s@.skip(i as int)) is None,
        },
{
    match eat_lit(s, i, ":") {
        None => None,
        Some(r1) => match eat_lit(s, r1, "{") {
            None => None,
            Some(r2) => match eat_lit(s, r2, "\"name\"") {
                None => None,
                Some(r3) => match eat_lit(s, r3, ":") {
                    None => None,
                    Some(r4) => match eat_lit(s, r4, "\"") {
                        None => None,
                        Some(r5) => match parse_string_body_exec(s, r5) {
                            None => None,
                            Some((v, r6)) => match eat_lit(s, r6, "}") {
                                None => None,
                                Some(r7) => Some((v, r7)),
                            },
                        },
                    },
                },
            },
        },
    }
}

/// Collects an event object's remaining entries, in whichever order they
/// come, mirroring [`parse_entries`] with an empty accumulator.
#[verifier::rlimit(100)]
#[verifier::spinoff_prover]
fn parse_entries_exec(s: &str, i: usize) -> (r: Option<(FieldSet, usize)>)
    requires
        i <= s@.len(),
    ensures
        match r {
            Some((fs, j)) => {
                &&& i <= j <= s@.len()
                &&& parse_entries(s@.skip(i as int), empty_raw()) == Some(
                    (field_model(&fs), s@.skip(j as int)),
                )
            },
            None => parse_entries(s@.skip(i as int), empty_raw()) is None,
        },
{
    let n: usize = s.unicode_len();
    let mut fs = FieldSet {
        name: None,
        pid: None,
        ts: None,
        dur: None,
        tid: None,
        cat: None,
        id: None,
        args: None,
    };
    let mut i2: usize = i;
    proof {
        assert(field_model(&fs) == empty_raw());
    }
    loop
        invariant
            i <= i2 <= n,
            n == s@.len(),
            parse_entries(s@.skip(i as int), empty_raw()) == parse_entries(
                s@.skip(i2 as int),
                field_model(&fs),
            ),
        decreases n - i2,
    {
        match eat_lit(s, i2, "}") {
            Some(j) => {
                return Some((fs, j));
            },
            None => {},
        }
        let r1 = match eat_lit(s, i2, ",") {
            None => {
                return None;
            },
            Some(x) => x,
        };
        let ghost fm = field_model(&fs);
        match eat_lit(s, r1, "\"name\"") {
            Some(r2) => {
                if fs.name.is_some() {
                    return None;
                }
                let (v, j) = match parse_colon_string_exec(s, r2) {
                    None => {
                        return None;
                    },
                    Some(x) => x,
                };
                if j <= i2 {
                    return None;
                }
                fs.name = Some(v);
                proof {
                    assert(field_model(&fs) == (RawFields { name: field_model(&fs).name, ..fm }));
                }
                i2 = j;
                continue;
            },
            None => {},
        }
        match eat_lit(s, r1, "\"pid\"") {
            Some(r2) => {
                if fs.pid.is_some() {
                    return None;
                }
                let (v, j) = match parse_colon_num_exec(s, r2) {
                    None => {
                        return None;
                    },
                    Some(x) => x,
                };
                if j <= i2 {
                    return None;
                }
                fs.pid = Some(v);
                proof {
                    assert(field_model(&fs) == (RawFields { pid: Some(v), ..fm }));
                }
                i2 = j;
                continue;
            },
            None => {},
        }
        match eat_lit(s, r1, "\"ts\"") {
            Some(r2) => {
                if fs.ts.is_some() {
                    return None;
                }
                let (v, j) = match parse_colon_num_exec(s, r2) {
                    None => {
                        return None;
                    },
                    Some(x) => x,
                };
                if j <= i2 {
                    return None;
                }
                fs.ts = Some(v);
                proof {
                    assert(field_model(&fs) == (RawFields { ts: Some(v), ..fm }));
                }
                i2 = j;
                continue;
            },
            None => {},
        }
        match eat_lit(s, r1, "\"dur\"") {
            Some(r2) => {
                if fs.dur.is_some() {
                    return None;
                }
                let (v, j) = match parse_colon_num_exec(s, r2) {
                    None => {
                        return None;
                    },
                    Some(x) => x,
                };
                if j <= i2 {
                    return None;
                }
                fs.dur = Some(v);
                proof {
                    assert(field_model(&fs) == (RawFields { dur: Some(v), ..fm }));
                }
                i2 = j;
                continue;
            },
            None => {},
        }
        match eat_lit(s, r1, "\"tid\"") {
            Some(r2) => {
                if fs.tid.is_some() {
                    return None;
                }
                let (v, j) = match parse_colon_tid_exec(s, r2) {
                    None => {
                        return None;
                    },
                    Some(x) => x,
                };
                if j <= i2 {
                    return None;
                }
                fs.tid = Some(v);
                proof {
                    assert(field_model(&fs) == (RawFields { tid: Some(v), ..fm }));
                }
                i2 = j;
                continue;
            },
            None => {},
        }
        match eat_lit(s, r1, "\"cat\"") {
            Some(r2) => {
                if fs.cat.is_some() {
                    return None;
                }
                let (v, j) = match parse_colon_string_exec(s, r2) {
                    None => {
                        return None;
                    },
                    Some(x) => x,
                };
                if j <= i2 {
                    return None;
                }
                fs.cat = Some(v);
                proof {
                    assert(field_model(&fs) == (RawFields { cat: field_model(&fs).cat, ..fm }));
                }
                i2 = j;
                continue;
            },
            None => {},
        }
        match eat_lit(s, r1, "\"id\"") {
            Some(r2) => {
                if fs.id.is_some() {
                    return None;
                }
                let (v, j) = match parse_colon_num_exec(s, r2) {
                    None => {
                        return None;
                    },
                    Some(x) => x,
                };
                if j <= i2 {
                    return None;
                }
                fs.id = Some(v);
                proof {
                    assert(field_model(&fs) == (RawFields { id: Some(v), ..fm }));
                }
                i2 = j;
                continue;
            },
            None => {},
        }
        match eat_lit(s, r1, "\"args\"") {
            Some(r2) => {
                if fs.args.is_some() {
                    return None;
                }
                let (v, j) = match parse_colon_args_exec(s, r2) {
                    None => {
                        return None;
                    },
                    Some(x) => x,
                };
                if j <= i2 {
                    return None;
                }
                fs.args = Some(v);
                proof {
                    assert(field_model(&fs) == (RawFields { args: field_model(&fs).args, ..fm }));
                }
                i2 = j;
                continue;
            },
            None => {},
        }
        return None;
    }
}

/// The thread identifier a collected `tid` entry denotes.
fn tid_field(t: Option<Option<u64>>) -> (r: Option<u64>)
    ensures
        r == tid_of(t),
{
    match t {
        None => None,
        Some(o) => o,
    }
}

/// Builds the event a phase code and a collected field set denote,
/// mirroring [`event_of_fields`].
#[verifier::rlimit(100)]
#[verifier::spinoff_prover]
fn event_from_fields(code: char, fields: FieldSet) -> (r: Option<TraceEvent>)
    ensures
        match r {
            Some(ev) => event_of_fields(code, field_model(&fields)) == Some(ev@),
            None => event_of_fields(code, field_model(&fields)) is None,
        },
{
    match code {
        'B' => {
            if fields.name.is_some() && fields.pid.is_some() && fields.ts.is_some()
                && fields.dur.is_none() && fields.cat.is_none() && fields.id.is_none()
                && fields.args.is_none() {
                let pid64 = fields.pid.unwrap();
                if pid64 <= u32::MAX as u64 {
                    Some(
                        TraceEvent::B {
                            name: fields.name.unwrap(),
                            pid: pid64 as u32,
                            ts: fields.ts.unwrap(),
                            tid: tid_field(fields.tid),
                        },
                    )
                } else {
                    None
                }
            } else {
                None
            }
        },
        'E' => {
            if fields.pid.is_some() && fields.ts.is_some() && fields.name.is_none()
                && fields.dur.is_none() && fields.cat.is_none() && fields.id.is_none()
                && fields.args.is_none() {
                let pid64 = fields.pid.unwrap();
                if pid64 <= u32::MAX as u64 {
                    Some(
                        TraceEvent::E {
                            pid: pid64 as u32,
                            ts: fields.ts.unwrap(),
                            tid: tid_field(fields.tid),
                        },
                    )
                } else {
                    None
                }
            } else {
                None
            }
        },
        'X' => {
            if fields.name.is_some() && fields.pid.is_some() && fields.ts.is_some()
                && fields.dur.is_some() && fields.cat.is_none() && fields.id.is_none()
                && fields.args.is_none() {
                let pid64 = fields.pid.unwrap();
                if pid64 <= u32::MAX as u64 {
                    Some(
                        TraceEvent::X {
                            name: fields.name.unwrap(),
                            pid: pid64 as u32,
                            ts: fields.ts.unwrap(),
                            dur: fields.dur.unwrap(),
                            tid: tid_field(fields.tid),
                        },
                    )
                } else {
                    None
                }
            } else {
                None
            }
        },
        'M' => {
            if fields.name.is_some() && fields.pid.is_some() && fields.args.is_some()
                && fields.ts.is_none() && fields.dur.is_none() && fields.cat.is_none()
                && fields.id.is_none() {
                let pid64 = fields.pid.unwrap();
                if pid64 <= u32::MAX as u64 {
                    let args = fields.args.unwrap();
                    Some(
                        TraceEvent::M {
                            name: fields.name.unwrap(),
                            pid: pid64 as u32,
                            args: Argument::new(args.as_str()),
                            tid: tid_field(fields.tid),
                        },
                    )
                } else {
                    None
                }
            } else {
                None
            }
        },
        's' => flow_from_fields(fields, true),
        'f' => flow_from_fields(fields, false),
        _ => {
            if fields.name.is_none() && fields.pid.is_none() && fields.ts.is_none()
                && fields.dur.is_none() && fields.tid.is_none() && fields.cat.is_none()
                && fields.id.is_none() && fields.args.is_none() {
                proof {
                    assert(field_model(&fields) == empty_raw());
                }
                match code {
                    'I' => Some(TraceEvent::I {}),
                    'C' => Some(TraceEvent::C {}),
                    'b' => Some(TraceEvent::b {}),
                    'n' => Some(TraceEvent::n {}),
                    'e' => Some(TraceEvent::e {}),
                    't' => Some(TraceEvent::t {}),
                    'P' => Some(TraceEvent::P {}),
                    'N' => Some(TraceEvent::N {}),
                    'O' => Some(TraceEvent::O {}),
                    'D' => Some(TraceEvent::D {}),
                    'V' => Some(TraceEvent::V {}),
                    'v' => Some(TraceEvent::v {}),
                    'R' => Some(TraceEvent::R {}),
                    'c' => Some(TraceEvent::c {}),
                    _ => None,
                }
            } else {
                None
            }
        },
    }
}

/// The flow half of [`event_from_fields`]; `begin` picks the constructor.
fn flow_from_fields(fields: FieldSet, begin: bool) -> (r: Option<TraceEvent>)
    ensures
        match r {
            Some(ev) => event_of_fields(if begin { 's' } else { 'f' }, field_model(&fields))
                == Some(ev@),
            None => event_of_fields(if begin { 's' } else { 'f' }, field_model(&fields)) is None,
        },
{
    if fields.name.is_some() && fields.pid.is_some() && fields.ts.is_some()
        && fields.cat.is_some() && fields.id.is_some() && fields.dur.is_none()
        && fields.args.is_none() {
        let pid64 = fields.pid.unwrap();
        if pid64 > u32::MAX as u64 {
            return None;
        }
        match fields.tid {
            Some(Some(t)) => {
                if begin {
                    Some(
                        TraceEvent::s {
                            name: fields.name.unwrap(),
                            pid: pid64 as u32,
                            tid: t,
                            ts: fields.ts.unwrap(),
                            cat: fields.cat.unwrap(),
                            id: fields.id.unwrap(),
                        },
                    )
                } else {
                    Some(
                        TraceEvent::f {
                            name: fields.name.unwrap(),
                            pid: pid64 as u32,
                            tid: t,
                            ts: fields.ts.unwrap(),
                            cat: fields.cat.unwrap(),
                            id: fields.id.unwrap(),
                        },
                    )
                }
            },
            _ => None,
        }
    } else {
        None
    }
}

/// Reads one event object at the cursor.
fn parse_event_exec(s: &str, i: usize) -> (r: Option<(TraceEvent, usize)>)
    requires
        i <= s@.len(),
    ensures
        match r {
            Some((ev, j)) => {
                &&& i <= j <= s@.len()
                &&& parse_event(s@.skip(i as int)) == Some((ev@, s@.skip(j as int)))
            },
            None => parse_event(s@.skip(i as int)) is None,
        },
{
    match eat_lit(s, i, "{") {
        None => None,
        Some(r1) => match eat_lit(s, r1, "\"ph\"") {
            None => None,
            Some(r2) => match eat_lit(s, r2, ":") {
                None => None,
                Some(r3) => match parse_code_exec(s, r3) {
                    None => None,
                    Some((code, r4)) => match parse_entries_exec(s, r4) {
                        None => None,
                        Some((fields, r5)) => match event_from_fields(code, fields) {
                            None => None,
                            Some(ev) => Some((ev, r5)),
                        },
                    },
                },
            },
        },
    }
}

/// Prepends already-read events to the result of reading the rest of a list.
pub open spec fn opt_prepend_events(
    pre: Seq<EventModel>,
    o: Option<(Seq<EventModel>, Seq<char>)>,
) -> Option<(Seq<EventModel>, Seq<char>)> {
    match o {
        None => None,
        Some((evs, r)) => Some((pre + evs, r)),
    }
}

/// Reads an event list after its opening bracket.
fn parse_events_exec(s: &str, i: usize) -> (r: Option<(Vec<TraceEvent>, usize)>)
    requires
        i <= s@.len(),
    ensures
        match r {
            Some((events, j)) => {
                &&& i <= j <= s@.len()
                &&& parse_events(s@.skip(i as int)) == Some(
                    (models_of(events@), s@.skip(j as int)),
                )
            },
            None => parse_events(s@.skip(i as int)) is None,
        },
{
    let n: usize = s.unicode_len();
    match eat_lit(s, i, "]") {
        Some(j) => {
            let events: Vec<TraceEvent> = Vec::new();
            proof {
                assert(models_of(events@) =~= Seq::<EventModel>::empty());
            }
            return Some((events, j));
        },
        None => {},
    }
    let (ev0, first_end) = match parse_event_exec(s, i) {
        None => {
            return None;
        },
        Some(x) => x,
    };
    let mut acc: Vec<TraceEvent> = Vec::new();
    let ghost ev0m = ev0@;
    acc.push(ev0);
    let mut i2: usize = first_end;
    proof {
        assert(models_of(acc@) =~= seq![ev0m]);
    }
    loop
        invariant
            i <= i2 <= n,
            n == s@.len(),
            acc@.len() >= 1,
            parse_events(s@.skip(i as int)) == opt_prepend_events(
                models_of(acc@),
                parse_events_tail(s@.skip(i2 as int)),
            ),
        decreases n - i2,
    {
        match eat_lit(s, i2, "]") {
            Some(j) => {
                proof {
                    assert(models_of(acc@) + Seq::<EventModel>::empty() =~= models_of(acc@));
                }
                return Some((acc, j));
            },
            None => {},
        }
        let jc = match eat_lit(s, i2, ",") {
            None => {
                return None;
            },
            Some(jc) => jc,
        };
        let (ev, j2) = match parse_event_exec(s, jc) {
            None => {
                return None;
            },
            Some(x) => x,
        };
        if j2 <= i2 {
            // The spec reader treats an element that consumes nothing as
            // malformed; mirror that exactly.
            proof {
                assert(s@.skip(j2 as int).len() >= s@.skip(i2 as int).len());
            }
            return None;
        }
        let ghost accm = models_of(acc@);
        let ghost evm = ev@;
        acc.push(ev);
        proof {
            assert(s@.skip(j2 as int).len() < s@.skip(i2 as int).len());
            assert(models_of(acc@) =~= accm + seq![evm]);
            match parse_events_tail(s@.skip(j2 as int)) {
                None => {},
                Some((evs, r)) => {
                    assert((accm + seq![evm]) + evs =~= accm + (seq![evm] + evs));
                },
            }
        }
        i2 = j2;
    }
}

/// Decodes a whole document. Succeeds exactly when the text is a well-formed
/// document of the implemented phase vocabulary, with nothing but whitespace
/// after the closing brace.
pub fn decode_doc(s: &str) -> (r: Result<Vec<TraceEvent>, DecodeError>)
    ensures
        match r {
            Ok(events) => spec_decode_doc(s@) == Some(models_of(events@)),
            Err(_) => spec_decode_doc(s@) is None,
        },
{
    let n: usize = s.unicode_len();
    proof {
        assert(s@.skip(0) =~= s@);
    }
    let r1 = match eat_lit(s, 0, "{") {
        None => {
            return Err(DecodeError);
        },
        Some(x) => x,
    };
    let r2 = match eat_lit(s, r1, "\"traceEvents\"") {
        None => {
            return Err(DecodeError);
        },
        Some(x) => x,
    };
    let r3 = match eat_lit(s, r2, ":") {
        None => {
            return Err(DecodeError);
        },
        Some(x) => x,
    };
    let r4 = match eat_lit(s, r3, "[") {
        None => {
            return Err(DecodeError);
        },
        Some(x) => x,
    };
    let (events, r5) = match parse_events_exec(s, r4) {
        None => {
            return Err(DecodeError);
        },
        Some(x) => x,
    };
    let r6 = match eat_lit(s, r5, "}") {
        None => {
            return Err(DecodeError);
        },
        Some(x) => x,
    };
    let r7 = skip_ws_exec(s, r6);
    if r7 < n {
        return Err(DecodeError);
    }
    proof {
        assert(s@.skip(r7 as int).len() == 0);
    }
    Ok(events)
}

impl TraceEvent {
    /// Encodes this event in the compact canonical form.
    pub fn encode(&self) -> (r: String)
        ensures
            r@ == spec_enc_event(self@),
    {
        encode_event(self)
    }

    /// Decodes a single event object, allowing trailing whitespace.
    pub fn decode(s: &str) -> (r: Result<TraceEvent, DecodeError>)
        ensures
            match r {
                Ok(ev) => spec_decode_event(s@) == Some(ev@),
                Err(_) => spec_decode_event(s@) is None,
            },
    {
        decode_event(s)
    }
}

/// Decodes a single event object, allowing trailing whitespace.
pub fn decode_event(s: &str) -> (r: Result<TraceEvent, DecodeError>)
    ensures
        match r {
            Ok(ev) => spec_decode_event(s@) == Some(ev@),
            Err(_) => spec_decode_event(s@) is None,
        },
{
    let n: usize = s.unicode_len();
    proof {
        assert(s@.skip(0) =~= s@);
    }
    let (ev, j) = match parse_event_exec(s, 0) {
        None => {
            return Err(DecodeError);
        },
        Some(x) => x,
    };
    let j2 = skip_ws_exec(s, j);
    if j2 < n {
        return Err(DecodeError);
    }
    proof {
        assert(s@.skip(j2 as int).len() == 0);
    }
    Ok(ev)
}

} // verus!
