//! The indented form of the wire format: two-space indentation, one entry
//! per line, a space after each colon. The reader in [`crate::codec`] accepts
//! this form as well, since it skips whitespace between tokens.

use vstd::prelude::*;

use crate::codec::key_args;
use crate::codec::key_cat;
use crate::codec::key_dur;
use crate::codec::key_id;
use crate::codec::key_name;
use crate::codec::key_ph;
use crate::codec::key_pid;
use crate::codec::key_tid;
use crate::codec::key_trace_events;
use crate::codec::key_ts;
use crate::json::dec_digits;
use crate::json::escape_seq;
use crate::json::push_escaped;
use crate::json::push_u64;
use crate::trace_event::Argument;
use crate::trace_event::EventModel;
use crate::trace_event::TraceEvent;
use crate::trace_event::models_of;

verus! {

/// Two spaces for every level of nesting.
pub open spec fn indent_sp(level: nat) -> Seq<char> {
    Seq::new(2 * level, |i: int| ' ')
}

/// The opening of an event object: brace, newline, and the `ph` entry.
pub open spec fn p_ph(code: char, level: nat) -> Seq<char> {
    seq!['{', '\n'] + indent_sp(level + 1) + key_ph() + seq![':', ' ', '"', code, '"']
}

pub open spec fn p_str_field(key: Seq<char>, v: Seq<char>, level: nat) -> Seq<char> {
    seq![',', '\n'] + indent_sp(level + 1) + key + seq![':', ' ', '"'] + escape_seq(v) + seq!['"']
}

pub open spec fn p_num_field(key: Seq<char>, n: u64, level: nat) -> Seq<char> {
    seq![',', '\n'] + indent_sp(level + 1) + key + seq![':', ' '] + dec_digits(n as nat)
}

pub open spec fn p_tid_opt(tid: Option<u64>, level: nat) -> Seq<char> {
    match tid {
        None => Seq::empty(),
        Some(t) => p_num_field(key_tid(), t, level),
    }
}

pub open spec fn p_args_field(v: Seq<char>, level: nat) -> Seq<char> {
    seq![',', '\n'] + indent_sp(level + 1) + key_args() + seq![':', ' ', '{', '\n'] + indent_sp(
        level + 2,
    ) + key_name() + seq![':', ' ', '"'] + escape_seq(v) + seq!['"', '\n'] + indent_sp(level + 1)
        + seq!['}']
}

pub open spec fn p_close(level: nat) -> Seq<char> {
    seq!['\n'] + indent_sp(level) + seq!['}']
}

/// The indented form of one event at the given nesting level.
pub open spec fn spec_enc_event_pretty(e: EventModel, level: nat) -> Seq<char> {
    match e {
        EventModel::B { name, pid, ts, tid } => p_ph('B', level) + p_str_field(
            key_name(),
            name,
            level,
        ) + p_num_field(key_pid(), pid as u64, level) + p_num_field(key_ts(), ts, level)
            + p_tid_opt(tid, level) + p_close(level),
        EventModel::E { pid, ts, tid } => p_ph('E', level) + p_num_field(
            key_pid(),
            pid as u64,
            level,
        ) + p_num_field(key_ts(), ts, level) + p_tid_opt(tid, level) + p_close(level),
        EventModel::X { name, pid, ts, dur, tid } => p_ph('X', level) + p_str_field(
            key_name(),
            name,
            level,
        ) + p_num_field(key_pid(), pid as u64, level) + p_num_field(key_ts(), ts, level)
            + p_num_field(key_dur(), dur, level) + p_tid_opt(tid, level) + p_close(level),
        EventModel::M { name, pid, args, tid } => p_ph('M', level) + p_str_field(
            key_name(),
            name,
            level,
        ) + p_num_field(key_pid(), pid as u64, level) + p_args_field(args, level) + p_tid_opt(
            tid,
            level,
        ) + p_close(level),
        EventModel::s { name, pid, tid, ts, cat, id } => p_ph('s', level) + p_str_field(
            key_name(),
            name,
            level,
        ) + p_num_field(key_pid(), pid as u64, level) + p_num_field(key_tid(), tid, level)
            + p_num_field(key_ts(), ts, level) + p_str_field(key_cat(), cat, level) + p_num_field(
            key_id(),
            id,
            level,
        ) + p_close(level),
        EventModel::f { name, pid, tid, ts, cat, id } => p_ph('f', level) + p_str_field(
            key_name(),
            name,
            level,
        ) + p_num_field(key_pid(), pid as u64, level) + p_num_field(key_tid(), tid, level)
            + p_num_field(key_ts(), ts, level) + p_str_field(key_cat(), cat, level) + p_num_field(
            key_id(),
            id,
            level,
        ) + p_close(level),
        EventModel::I {} => p_ph('I', level) + p_close(level),
        EventModel::C {} => p_ph('C', level) + p_close(level),
        EventModel::b {} => p_ph('b', level) + p_close(level),
        EventModel::n {} => p_ph('n', level) + p_close(level),
        EventModel::e {} => p_ph('e', level) + p_close(level),
        EventModel::t {} => p_ph('t', level) + p_close(level),
        EventModel::P {} => p_ph('P', level) + p_close(level),
        EventModel::N {} => p_ph('N', level) + p_close(level),
        EventModel::O {} => p_ph('O', level) + p_close(level),
        EventModel::D {} => p_ph('D', level) + p_close(level),
        EventModel::V {} => p_ph('V', level) + p_close(level),
        EventModel::v {} => p_ph('v', level) + p_close(level),
        EventModel::R {} => p_ph('R', level) + p_close(level),
        EventModel::c {} => p_ph('c', level) + p_close(level),
    }
}

/// The indented event list: elements at level two, comma-and-newline
/// separated.
pub open spec fn spec_enc_plist_tail(evs: Seq<EventModel>) -> Seq<char>
    decreases evs.len(),
{
    if evs.len() == 0 {
        Seq::empty()
    } else {
        seq![',', '\n'] + indent_sp(2) + spec_enc_event_pretty(evs[0], 2) + spec_enc_plist_tail(
            evs.drop_first(),
        )
    }
}

pub open spec fn spec_enc_plist(evs: Seq<EventModel>) -> Seq<char>
    decreases evs.len(),
{
    if evs.len() == 0 {
        Seq::empty()
    } else {
        spec_enc_event_pretty(evs[0], 2) + spec_enc_plist_tail(evs.drop_first())
    }
}

/// The indented form of a whole document.
pub open spec fn spec_enc_doc_pretty(evs: Seq<EventModel>) -> Seq<char> {
    seq!['{', '\n'] + indent_sp(1) + key_trace_events() + seq![':', ' '] + (if evs.len() == 0 {
        seq!['[', ']']
    } else {
        seq!['[', '\n'] + indent_sp(2) + spec_enc_plist(evs) + seq!['\n'] + indent_sp(1)
            + seq![']']
    }) + seq!['\n', '}']
}

// ---------------------------------------------------------------------------
// The writer
// ---------------------------------------------------------------------------

fn push_indent(out: &mut String, level: usize)
    requires
        level <= 16,
    ensures
        final(out)@ == old(out)@ + indent_sp(level as nat),
{
    let mut i: usize = 0;
    proof {
        assert(out@ =~= old(out)@ + indent_sp(0));
    }
    while i < level
        invariant
            i <= level,
            out@ == old(out)@ + indent_sp(i as nat),
        decreases level - i,
    {
        out.push(' ');
        out.push(' ');
        proof {
            assert(out@ =~= old(out)@ + indent_sp((i + 1) as nat));
        }
        i = i + 1;
    }
}

fn p_push_ph(out: &mut String, code: char, level: usize)
    requires
        level <= 14,
    ensures
        final(out)@ == old(out)@ + p_ph(code, level as nat),
{
    out.push('{');
    out.push('\n');
    push_indent(out, level + 1);
    out.append("\"ph\"");
    out.push(':');
    out.push(' ');
    out.push('"');
    out.push(code);
    out.push('"');
    proof {
        assert(out@ =~= old(out)@ + p_ph(code, level as nat));
    }
}

fn p_push_str_field(out: &mut String, key: &str, v: &str, level: usize)
    requires
        level <= 14,
    ensures
        final(out)@ == old(out)@ + p_str_field(key@, v@, level as nat),
{
    out.push(',');
    out.push('\n');
    push_indent(out, level + 1);
    out.append(key);
    out.push(':');
    out.push(' ');
    out.push('"');
    push_escaped(out, v);
    out.push('"');
    proof {
        assert(out@ =~= old(out)@ + p_str_field(key@, v@, level as nat));
    }
}

fn p_push_num_field(out: &mut String, key: &str, n: u64, level: usize)
    requires
        level <= 14,
    ensures
        final(out)@ == old(out)@ + p_num_field(key@, n, level as nat),
{
    out.push(',');
    out.push('\n');
    push_indent(out, level + 1);
    out.append(key);
    out.push(':');
    out.push(' ');
    push_u64(out, n);
    proof {
        assert(out@ =~= old(out)@ + p_num_field(key@, n, level as nat));
    }
}

fn p_push_tid_opt(out: &mut String, tid: &Option<u64>, level: usize)
    requires
        level <= 14,
    ensures
        final(out)@ == old(out)@ + p_tid_opt(*tid, level as nat),
{
    match tid {
        None => {
            proof {
                assert(out@ =~= out@ + Seq::<char>::empty());
            }
        },
        Some(t) => {
            p_push_num_field(out, "\"tid\"", *t, level);
        },
    }
}

fn p_push_args_field(out: &mut String, v: &Argument, level: usize)
    requires
        level <= 14,
    ensures
        final(out)@ == old(out)@ + p_args_field(v@, level as nat),
{
    out.push(',');
    out.push('\n');
    push_indent(out, level + 1);
    out.append("\"args\"");
    out.push(':');
    out.push(' ');
    out.push('{');
    out.push('\n');
    push_indent(out, level + 2);
    out.append("\"name\"");
    out.push(':');
    out.push(' ');
    out.push('"');
    push_escaped(out, v.name_str());
    out.push('"');
    out.push('\n');
    push_indent(out, level + 1);
    out.push('}');
    proof {
        assert(out@ =~= old(out)@ + p_args_field(v@, level as nat));
    }
}

fn p_push_close(out: &mut String, level: usize)
    requires
        level <= 16,
    ensures
        final(out)@ == old(out)@ + p_close(level as nat),
{
    out.push('\n');
    push_indent(out, level);
    out.push('}');
    proof {
        assert(out@ =~= old(out)@ + p_close(level as nat));
    }
}

/// Appends the indented form of one event.
#[verifier::rlimit(100)]
#[verifier::spinoff_prover]
pub fn push_event_pretty(out: &mut String, ev: &TraceEvent, level: usize)
    requires
        level <= 14,
    ensures
        final(out)@ == old(out)@ + spec_enc_event_pretty(ev@, level as nat),
{
    match ev {
        TraceEvent::B { name, pid, ts, tid } => {
            p_push_ph(out, 'B', level);
            p_push_str_field(out, "\"name\"", name.as_str(), level);
            p_push_num_field(out, "\"pid\"", *pid as u64, level);
            p_push_num_field(out, "\"ts\"", *ts, level);
            p_push_tid_opt(out, tid, level);
            p_push_close(out, level);
            proof {
                assert(out@ =~= old(out)@ + spec_enc_event_pretty(ev@, level as nat));
            }
        },
        TraceEvent::E { pid, ts, tid } => {
            p_push_ph(out, 'E', level);
            p_push_num_field(out, "\"pid\"", *pid as u64, level);
            p_push_num_field(out, "\"ts\"", *ts, level);
            p_push_tid_opt(out, tid, level);
            p_push_close(out, level);
            proof {
                assert(out@ =~= old(out)@ + spec_enc_event_pretty(ev@, level as nat));
            }
        },
        TraceEvent::X { name, pid, ts, dur, tid } => {
            p_push_ph(out, 'X', level);
            p_push_str_field(out, "\"name\"", name.as_str(), level);
            p_push_num_field(out, "\"pid\"", *pid as u64, level);
            p_push_num_field(out, "\"ts\"", *ts, level);
            p_push_num_field(out, "\"dur\"", *dur, level);
            p_push_tid_opt(out, tid, level);
            p_push_close(out, level);
            proof {
                assert(out@ =~= old(out)@ + spec_enc_event_pretty(ev@, level as nat));
            }
        },
        TraceEvent::M { name, pid, args, tid } => {
            p_push_ph(out, 'M', level);
            p_push_str_field(out, "\"name\"", name.as_str(), level);
            p_push_num_field(out, "\"pid\"", *pid as u64, level);
            p_push_args_field(out, args, level);
            p_push_tid_opt(out, tid, level);
            p_push_close(out, level);
            proof {
                assert(out@ =~= old(out)@ + spec_enc_event_pretty(ev@, level as nat));
            }
        },
        TraceEvent::s { name, pid, tid, ts, cat, id } => {
            p_push_ph(out, 's', level);
            p_push_str_field(out, "\"name\"", name.as_str(), level);
            p_push_num_field(out, "\"pid\"", *pid as u64, level);
            p_push_num_field(out, "\"tid\"", *tid, level);
            p_push_num_field(out, "\"ts\"", *ts, level);
            p_push_str_field(out, "\"cat\"", cat.as_str(), level);
            p_push_num_field(out, "\"id\"", *id, level);
            p_push_close(out, level);
            proof {
                assert(out@ =~= old(out)@ + spec_enc_event_pretty(ev@, level as nat));
            }
        },
        TraceEvent::f { name, pid, tid, ts, cat, id } => {
            p_push_ph(out, 'f', level);
            p_push_str_field(out, "\"name\"", name.as_str(), level);
            p_push_num_field(out, "\"pid\"", *pid as u64, level);
            p_push_num_field(out, "\"tid\"", *tid, level);
            p_push_num_field(out, "\"ts\"", *ts, level);
            p_push_str_field(out, "\"cat\"", cat.as_str(), level);
            p_push_num_field(out, "\"id\"", *id, level);
            p_push_close(out, level);
            proof {
                assert(out@ =~= old(out)@ + spec_enc_event_pretty(ev@, level as nat));
            }
        },
        TraceEvent::I {} => { p_push_empty(out, 'I', level); proof { assert(out@ =~= old(out)@ + spec_enc_event_pretty(ev@, level as nat)); } },
        TraceEvent::C {} => { p_push_empty(out, 'C', level); proof { assert(out@ =~= old(out)@ + spec_enc_event_pretty(ev@, level as nat)); } },
        TraceEvent::b {} => { p_push_empty(out, 'b', level); proof { assert(out@ =~= old(out)@ + spec_enc_event_pretty(ev@, level as nat)); } },
        TraceEvent::n {} => { p_push_empty(out, 'n', level); proof { assert(out@ =~= old(out)@ + spec_enc_event_pretty(ev@, level as nat)); } },
        TraceEvent::e {} => { p_push_empty(out, 'e', level); proof { assert(out@ =~= old(out)@ + spec_enc_event_pretty(ev@, level as nat)); } },
        TraceEvent::t {} => { p_push_empty(out, 't', level); proof { assert(out@ =~= old(out)@ + spec_enc_event_pretty(ev@, level as nat)); } },
        TraceEvent::P {} => { p_push_empty(out, 'P', level); proof { assert(out@ =~= old(out)@ + spec_enc_event_pretty(ev@, level as nat)); } },
        TraceEvent::N {} => { p_push_empty(out, 'N', level); proof { assert(out@ =~= old(out)@ + spec_enc_event_pretty(ev@, level as nat)); } },
        TraceEvent::O {} => { p_push_empty(out, 'O', level); proof { assert(out@ =~= old(out)@ + spec_enc_event_pretty(ev@, level as nat)); } },
        TraceEvent::D {} => { p_push_empty(out, 'D', level); proof { assert(out@ =~= old(out)@ + spec_enc_event_pretty(ev@, level as nat)); } },
        TraceEvent::V {} => { p_push_empty(out, 'V', level); proof { assert(out@ =~= old(out)@ + spec_enc_event_pretty(ev@, level as nat)); } },
        TraceEvent::v {} => { p_push_empty(out, 'v', level); proof { assert(out@ =~= old(out)@ + spec_enc_event_pretty(ev@, level as nat)); } },
        TraceEvent::R {} => { p_push_empty(out, 'R', level); proof { assert(out@ =~= old(out)@ + spec_enc_event_pretty(ev@, level as nat)); } },
        TraceEvent::c {} => { p_push_empty(out, 'c', level); proof { assert(out@ =~= old(out)@ + spec_enc_event_pretty(ev@, level as nat)); } },
    }
}

fn p_push_empty(out: &mut String, code: char, level: usize)
    requires
        level <= 14,
    ensures
        final(out)@ == old(out)@ + p_ph(code, level as nat) + p_close(level as nat),
{
    p_push_ph(out, code, level);
    p_push_close(out, level);
}

impl TraceEvent {
    /// Encodes this event in the two-space indented form.
    pub fn encode_pretty(&self) -> (r: String)
        ensures
            r@ == spec_enc_event_pretty(self@, 0),
    {
        encode_event_pretty(self)
    }
}

/// Encodes one event in the indented form.
pub fn encode_event_pretty(ev: &TraceEvent) -> (r: String)
    ensures
        r@ == spec_enc_event_pretty(ev@, 0),
{
    let mut out = String::new();
    push_event_pretty(&mut out, ev, 0);
    proof {
        assert(Seq::<char>::empty() + spec_enc_event_pretty(ev@, 0) =~= spec_enc_event_pretty(
            ev@,
            0,
        ));
    }
    out
}

proof fn lemma_plist_tail_snoc(evs: Seq<EventModel>, e: EventModel)
    ensures
        spec_enc_plist_tail(evs.push(e)) == spec_enc_plist_tail(evs) + (seq![',', '\n'] + indent_sp(
            2,
        ) + spec_enc_event_pretty(e, 2)),
    decreases evs.len(),
{
    if evs.len() == 0 {
        assert(evs.push(e)[0] == e);
        assert(evs.push(e).drop_first() =~= Seq::<EventModel>::empty());
        assert(spec_enc_plist_tail(Seq::<EventModel>::empty()) == Seq::<char>::empty());
        assert(spec_enc_plist_tail(evs.push(e)) =~= spec_enc_plist_tail(evs) + (seq![',', '\n']
            + indent_sp(2) + spec_enc_event_pretty(e, 2)));
    } else {
        assert(evs.push(e)[0] == evs[0]);
        assert(evs.push(e).drop_first() =~= evs.drop_first().push(e));
        lemma_plist_tail_snoc(evs.drop_first(), e);
        assert(spec_enc_plist_tail(evs.push(e)) =~= spec_enc_plist_tail(evs) + (seq![',', '\n']
            + indent_sp(2) + spec_enc_event_pretty(e, 2)));
    }
}

proof fn lemma_plist_snoc(evs: Seq<EventModel>, e: EventModel)
    ensures
        spec_enc_plist(evs.push(e)) == if evs.len() == 0 {
            spec_enc_event_pretty(e, 2)
        } else {
            spec_enc_plist(evs) + (seq![',', '\n'] + indent_sp(2) + spec_enc_event_pretty(e, 2))
        },
{
    if evs.len() == 0 {
        assert(evs.push(e)[0] == e);
        assert(evs.push(e).drop_first() =~= Seq::<EventModel>::empty());
        assert(spec_enc_plist_tail(Seq::<EventModel>::empty()) == Seq::<char>::empty());
        assert(spec_enc_plist(evs.push(e)) =~= spec_enc_event_pretty(e, 2));
    } else {
        assert(evs.push(e)[0] == evs[0]);
        assert(evs.push(e).drop_first() =~= evs.drop_first().push(e));
        lemma_plist_tail_snoc(evs.drop_first(), e);
        assert(spec_enc_plist(evs.push(e)) =~= spec_enc_plist(evs) + (seq![',', '\n'] + indent_sp(
            2,
        ) + spec_enc_event_pretty(e, 2)));
    }
}

/// Encodes a whole event log in the indented form.
pub fn encode_doc_pretty(events: &Vec<TraceEvent>) -> (r: String)
    ensures
        r@ == spec_enc_doc_pretty(models_of(events@)),
{
    let ghost m = models_of(events@);
    let mut out = String::new();
    out.push('{');
    out.push('\n');
    push_indent(&mut out, 1);
    out.append("\"traceEvents\"");
    out.push(':');
    out.push(' ');
    let n = events.len();
    if n == 0 {
        out.push('[');
        out.push(']');
        out.push('\n');
        out.push('}');
        proof {
            assert(out@ =~= spec_enc_doc_pretty(m));
        }
        return out;
    }
    out.push('[');
    out.push('\n');
    push_indent(&mut out, 2);
    let ghost head = seq!['{', '\n'] + indent_sp(1) + key_trace_events() + seq![':', ' '] + seq![
        '[',
        '\n',
    ] + indent_sp(2);
    proof {
        assert(m.take(0) =~= Seq::<EventModel>::empty());
        assert(out@ =~= head + spec_enc_plist(m.take(0)));
    }
    let mut i: usize = 0;
    while i < n
        invariant
            i <= n,
            n == events@.len(),
            n >= 1,
            m == models_of(events@),
            m.len() == n,
            out@ == head + spec_enc_plist(m.take(i as int)),
            head == seq!['{', '\n'] + indent_sp(1) + key_trace_events() + seq![':', ' '] + seq![
                '[',
                '\n',
            ] + indent_sp(2),
        decreases n - i,
    {
        if i > 0 {
            out.push(',');
            out.push('\n');
            push_indent(&mut out, 2);
        }
        push_event_pretty(&mut out, &events[i], 2);
        proof {
            assert(m[i as int] == events@[i as int]@);
            assert(m.take(i + 1) =~= m.take(i as int).push(m[i as int]));
            lemma_plist_snoc(m.take(i as int), m[i as int]);
            assert(out@ =~= head + spec_enc_plist(m.take(i + 1)));
        }
        i = i + 1;
    }
    out.push('\n');
    push_indent(&mut out, 1);
    out.push(']');
    out.push('\n');
    out.push('}');
    proof {
        assert(m.take(n as int) =~= m);
        assert(out@ =~= spec_enc_doc_pretty(m));
    }
    out
}

} // verus!
